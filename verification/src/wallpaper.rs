//! Applying a stored image as the device wallpaper.
//!
//! The platform does the work: it decodes the image, hands out the wallpaper
//! service and sets the bitmap. What is decided here is the order of those
//! calls and what each answer leads to. A `Session` is advanced with the
//! platform's reply to the last request and answers with the next request,
//! or with the end of the protocol.

use crate::error::{Error, PlatformCall};
use crate::path::{contained, joined, resolve};
use crate::text::{chars_of, same_chars};
use vstd::prelude::*;

verus! {

/// Where the application runs.
#[derive(Clone, Copy, Debug, PartialEq, Eq, Structural)]
pub enum Platform {
    /// The mobile platform, which alone can set a wallpaper.
    Android,
    /// Any other platform.
    Other,
}

/// The surface whose wallpaper is to be set.
#[derive(Clone, Copy, Debug, PartialEq, Eq, Structural)]
pub enum Target {
    /// The home screen.
    Home,
    /// The lock screen.
    Lock,
    /// Both of them.
    Both,
}

/// The tier of the platform's wallpaper interface.
#[derive(Clone, Copy, Debug, PartialEq, Eq, Structural)]
pub enum Generation {
    /// Only the single-argument set operation exists.
    Legacy,
    /// The set operation takes a flag that names the surface.
    Modern,
}

/// The calls by which a target is served on a generation.
#[derive(Clone, Copy, Debug, PartialEq, Eq, Structural)]
pub enum Strategy {
    /// One call of the single-argument set operation.
    Plain,
    /// One call with the system flag.
    SystemOnly,
    /// One call with the lock flag.
    LockOnly,
    /// A call with the system flag, then one with the lock flag.
    SystemThenLock,
    /// No call: the generation cannot serve the target.
    Refused,
}

/// What the application has to ask of the platform.
#[derive(Clone, Copy, Debug, PartialEq, Eq, Structural)]
pub enum Request {
    /// Obtain the wallpaper service.
    ObtainService,
    /// Read the platform's version number.
    QueryVersion,
    /// Read the flag that names the home screen.
    QuerySystemFlag,
    /// Read the flag that names the lock screen.
    QueryLockFlag,
    /// Set the decoded image with the single-argument operation.
    SetPlain,
    /// Set the decoded image, whole and without backup, on the surface that
    /// the flag names.
    SetFlagged { flag: i32 },
}

/// What the platform answered.
#[derive(Clone, Copy, Debug, PartialEq, Eq, Structural)]
pub enum Reply {
    /// The call succeeded and gave no number.
    Done,
    /// The call succeeded and gave this number.
    Value(i32),
    /// The call failed.
    Failed,
}

/// How far a session has come: the call whose reply it waits for, or its end.
#[derive(Clone, Copy, Debug, PartialEq, Eq, Structural)]
pub enum Phase {
    /// The image is being decoded.
    Decoding,
    /// The wallpaper service is being obtained.
    ObtainingService,
    /// The version number is being read.
    QueryingVersion,
    /// The system flag is being read.
    QueryingSystemFlag { generation: Generation },
    /// The lock flag is being read.
    QueryingLockFlag { generation: Generation, system: i32 },
    /// The single-argument set operation is running.
    SettingPlain,
    /// The set operation with the system flag is running; where `then_lock`
    /// holds, the one with the flag `lock` follows.
    SettingSystem { then_lock: bool, lock: i32 },
    /// The set operation with the lock flag is running.
    SettingLock,
    /// The wallpaper has been set.
    Succeeded,
    /// The protocol ended with this error.
    Failed(Error),
}

/// What a session answers when it is advanced.
#[derive(Clone, Copy, Debug, PartialEq, Eq, Structural)]
pub enum Step {
    /// The application makes this call next.
    Ask(Request),
    /// The wallpaper has been set.
    Succeed,
    /// The protocol ended with this error.
    Fail(Error),
}

/// One run of the protocol.
#[derive(Clone, Copy, Debug, PartialEq, Eq, Structural)]
pub struct Session {
    /// The surface to set.
    pub target: Target,
    /// How far the run has come.
    pub phase: Phase,
}

/// The first version number of the modern generation.
pub const MODERN_VERSION: i32 = 24;

/// The system flag, where the platform does not tell it.
pub const DEFAULT_SYSTEM_FLAG: i32 = 1;

/// The lock flag, where the platform does not tell it.
pub const DEFAULT_LOCK_FLAG: i32 = 2;

/// What `str::to_lowercase` returns for a string.
pub uninterp spec fn lowercase(s: Seq<char>) -> Seq<char>;

/// `str::to_lowercase` returns the lowercase equivalent of the string as a
/// new string; the result depends on the characters alone.
pub assume_specification[ str::to_lowercase ](s: &str) -> (r: String)
    ensures
        r@ == lowercase(s@),
;

/// The target that a lowercase word names: `home`, `lock`, and both for
/// every other word.
pub open spec fn target_of(lowered: Seq<char>) -> Target {
    if lowered == seq!['h', 'o', 'm', 'e'] {
        Target::Home
    } else if lowered == seq!['l', 'o', 'c', 'k'] {
        Target::Lock
    } else {
        Target::Both
    }
}

/// The target that a word names, whatever its case; both where none is given.
pub open spec fn target_named(target: Option<Seq<char>>) -> Target {
    match target {
        Some(word) => target_of(lowercase(word)),
        None => Target::Both,
    }
}

/// The generation of a platform with this version number.
pub open spec fn generation_of(version: i32) -> Generation {
    if version >= MODERN_VERSION {
        Generation::Modern
    } else {
        Generation::Legacy
    }
}

/// The strategy for a target on a generation.
pub open spec fn strategy_of(target: Target, generation: Generation) -> Strategy {
    match (target, generation) {
        (Target::Home, Generation::Legacy) => Strategy::Plain,
        (Target::Home, Generation::Modern) => Strategy::SystemOnly,
        (Target::Lock, Generation::Legacy) => Strategy::Refused,
        (Target::Lock, Generation::Modern) => Strategy::LockOnly,
        (Target::Both, Generation::Legacy) => Strategy::Plain,
        (Target::Both, Generation::Modern) => Strategy::SystemThenLock,
    }
}

/// The flag that a reply tells, or `default` where it tells none.
pub open spec fn flag_from(reply: Reply, default: i32) -> i32 {
    match reply {
        Reply::Value(flag) => flag,
        _ => default,
    }
}

/// Whether a session has ended.
pub open spec fn finished(phase: Phase) -> bool {
    phase is Succeeded || phase is Failed
}

/// The session that begins once the image's path has been accepted.
pub open spec fn fresh(target: Target) -> Session {
    Session { target, phase: Phase::Decoding }
}

/// The session and the answer with which a run goes on to the next call.
pub open spec fn going_on(s: Session, phase: Phase, request: Request) -> (Session, Step) {
    (Session { target: s.target, phase }, Step::Ask(request))
}

/// The session and the answer with which a run ends in an error.
pub open spec fn failing(s: Session, e: Error) -> (Session, Step) {
    (Session { target: s.target, phase: Phase::Failed(e) }, Step::Fail(e))
}

/// The session and the answer with which a run ends well.
pub open spec fn succeeding(s: Session) -> (Session, Step) {
    (Session { target: s.target, phase: Phase::Succeeded }, Step::Succeed)
}

/// The first set call of a strategy, once both flags are known.
pub open spec fn dispatched(s: Session, strategy: Strategy, system: i32, lock: i32) -> (
    Session,
    Step,
) {
    match strategy {
        Strategy::Plain => going_on(s, Phase::SettingPlain, Request::SetPlain),
        Strategy::SystemOnly => going_on(
            s,
            Phase::SettingSystem { then_lock: false, lock },
            Request::SetFlagged { flag: system },
        ),
        Strategy::LockOnly => going_on(s, Phase::SettingLock, Request::SetFlagged { flag: lock }),
        Strategy::SystemThenLock => going_on(
            s,
            Phase::SettingSystem { then_lock: true, lock },
            Request::SetFlagged { flag: system },
        ),
        Strategy::Refused => failing(s, Error::UnsupportedPlatformVersion),
    }
}

/// The protocol: what a session becomes, and what it answers, when the
/// platform's reply to its last request arrives.
///
/// A failed decode, service or set call ends the run with the error that
/// names the call. A flag that cannot be read takes its default. Nothing is
/// tried twice and nothing is undone: where the system call of a
/// two-call strategy has succeeded and the lock call fails, the run fails
/// and the home screen keeps the new image. An ended session stays as it is.
pub open spec fn step(s: Session, reply: Reply) -> (Session, Step) {
    match s.phase {
        Phase::Decoding => if reply is Failed {
            failing(s, Error::DecodeFailed)
        } else {
            going_on(s, Phase::ObtainingService, Request::ObtainService)
        },
        Phase::ObtainingService => if reply is Failed {
            failing(s, Error::PlatformCallFailed(PlatformCall::ObtainService))
        } else {
            going_on(s, Phase::QueryingVersion, Request::QueryVersion)
        },
        Phase::QueryingVersion => match reply {
            Reply::Value(version) => going_on(
                s,
                Phase::QueryingSystemFlag { generation: generation_of(version) },
                Request::QuerySystemFlag,
            ),
            _ => failing(s, Error::PlatformCallFailed(PlatformCall::QueryVersion)),
        },
        Phase::QueryingSystemFlag { generation } => going_on(
            s,
            Phase::QueryingLockFlag { generation, system: flag_from(reply, DEFAULT_SYSTEM_FLAG) },
            Request::QueryLockFlag,
        ),
        Phase::QueryingLockFlag { generation, system } => dispatched(
            s,
            strategy_of(s.target, generation),
            system,
            flag_from(reply, DEFAULT_LOCK_FLAG),
        ),
        Phase::SettingPlain => if reply is Failed {
            failing(s, Error::PlatformCallFailed(PlatformCall::SetPlain))
        } else {
            succeeding(s)
        },
        Phase::SettingSystem { then_lock, lock } => if reply is Failed {
            failing(s, Error::PlatformCallFailed(PlatformCall::SetSystem))
        } else if then_lock {
            going_on(s, Phase::SettingLock, Request::SetFlagged { flag: lock })
        } else {
            succeeding(s)
        },
        Phase::SettingLock => if reply is Failed {
            failing(s, Error::PlatformCallFailed(PlatformCall::SetLock))
        } else {
            succeeding(s)
        },
        Phase::Succeeded => (s, Step::Succeed),
        Phase::Failed(e) => (s, Step::Fail(e)),
    }
}

/// The target that a lowercase word names.
pub fn target_from_lowered(lowered: &str) -> (t: Target)
    ensures
        t == target_of(lowered@),
{
    let word = chars_of(lowered);
    if same_chars(&word, &vec!['h', 'o', 'm', 'e']) {
        Target::Home
    } else if same_chars(&word, &vec!['l', 'o', 'c', 'k']) {
        Target::Lock
    } else {
        Target::Both
    }
}

/// The target that a word names, whatever its case; both where none is given.
pub fn parse_target(target: Option<&str>) -> (t: Target)
    ensures
        t == target_named(
            match target {
                Some(word) => Some(word@),
                None => None,
            },
        ),
{
    match target {
        Some(word) => {
            let lowered = word.to_lowercase();
            target_from_lowered(lowered.as_str())
        },
        None => Target::Both,
    }
}

/// The generation of a platform with this version number.
pub fn generation(version: i32) -> (g: Generation)
    ensures
        g == generation_of(version),
{
    if version >= MODERN_VERSION {
        Generation::Modern
    } else {
        Generation::Legacy
    }
}

/// The strategy for a target on a generation.
pub fn strategy(target: Target, generation: Generation) -> (s: Strategy)
    ensures
        s == strategy_of(target, generation),
{
    match target {
        Target::Home => match generation {
            Generation::Legacy => Strategy::Plain,
            Generation::Modern => Strategy::SystemOnly,
        },
        Target::Lock => match generation {
            Generation::Legacy => Strategy::Refused,
            Generation::Modern => Strategy::LockOnly,
        },
        Target::Both => match generation {
            Generation::Legacy => Strategy::Plain,
            Generation::Modern => Strategy::SystemThenLock,
        },
    }
}

/// Begins a run: on the mobile platform, for an image inside the base
/// directory. It gives the session and the absolute path of the image, which
/// the application decodes first; the reply to that goes to `advance`.
pub fn set_wallpaper_android_with_target(
    platform: Platform,
    base: &str,
    path: &str,
    target: Target,
) -> (r: Result<(Session, String), Error>)
    ensures
        match r {
            Ok((session, image)) => {
                &&& platform == Platform::Android
                &&& image@ == joined(base@, path@)
                &&& contained(base@, image@)
                &&& session == fresh(target)
            },
            Err(e) => if platform != Platform::Android {
                e == Error::UnsupportedPlatform
            } else {
                e == Error::PathNotAllowed && !contained(base@, joined(base@, path@))
            },
        },
{
    match platform {
        Platform::Other => Err(Error::UnsupportedPlatform),
        Platform::Android => match resolve(base, path) {
            Ok(image) => Ok((Session { target, phase: Phase::Decoding }, image)),
            Err(e) => Err(e),
        },
    }
}

/// Begins a run for the target that a word names, whatever its case: `home`,
/// `lock`, and both surfaces for every other word and where none is given.
pub fn set_device_wallpaper_target(
    platform: Platform,
    base: &str,
    path: &str,
    target: Option<&str>,
) -> (r: Result<(Session, String), Error>)
    ensures
        match r {
            Ok((session, image)) => {
                &&& platform == Platform::Android
                &&& image@ == joined(base@, path@)
                &&& contained(base@, image@)
                &&& session == fresh(
                    target_named(
                        match target {
                            Some(word) => Some(word@),
                            None => None,
                        },
                    ),
                )
            },
            Err(e) => if platform != Platform::Android {
                e == Error::UnsupportedPlatform
            } else {
                e == Error::PathNotAllowed && !contained(base@, joined(base@, path@))
            },
        },
{
    set_wallpaper_android_with_target(platform, base, path, parse_target(target))
}

/// Begins a run for both surfaces.
pub fn set_wallpaper_android(platform: Platform, base: &str, path: &str) -> (r: Result<
    (Session, String),
    Error,
>)
    ensures
        match r {
            Ok((session, image)) => {
                &&& platform == Platform::Android
                &&& image@ == joined(base@, path@)
                &&& contained(base@, image@)
                &&& session == fresh(Target::Both)
            },
            Err(e) => if platform != Platform::Android {
                e == Error::UnsupportedPlatform
            } else {
                e == Error::PathNotAllowed && !contained(base@, joined(base@, path@))
            },
        },
{
    set_wallpaper_android_with_target(platform, base, path, Target::Both)
}

/// Whether the platform can tell the size of its screen: the mobile
/// platform can, no other.
pub fn get_screen_size(platform: Platform) -> (r: Result<(), Error>)
    ensures
        r == (if platform == Platform::Android {
            Ok::<(), Error>(())
        } else {
            Err::<(), Error>(Error::UnsupportedPlatform)
        }),
{
    match platform {
        Platform::Android => Ok(()),
        Platform::Other => Err(Error::UnsupportedPlatform),
    }
}

/// Advances a session with the platform's reply to its last request.
pub fn advance(session: Session, reply: Reply) -> (r: (Session, Step))
    ensures
        r == step(session, reply),
{
    let target = session.target;
    let failed = match reply {
        Reply::Failed => true,
        _ => false,
    };
    match session.phase {
        Phase::Decoding => if failed {
            fail(target, Error::DecodeFailed)
        } else {
            ask(target, Phase::ObtainingService, Request::ObtainService)
        },
        Phase::ObtainingService => if failed {
            fail(target, Error::PlatformCallFailed(PlatformCall::ObtainService))
        } else {
            ask(target, Phase::QueryingVersion, Request::QueryVersion)
        },
        Phase::QueryingVersion => match reply {
            Reply::Value(version) => ask(
                target,
                Phase::QueryingSystemFlag { generation: generation(version) },
                Request::QuerySystemFlag,
            ),
            _ => fail(target, Error::PlatformCallFailed(PlatformCall::QueryVersion)),
        },
        Phase::QueryingSystemFlag { generation } => ask(
            target,
            Phase::QueryingLockFlag { generation, system: flag(reply, DEFAULT_SYSTEM_FLAG) },
            Request::QueryLockFlag,
        ),
        Phase::QueryingLockFlag { generation, system } => {
            let lock = flag(reply, DEFAULT_LOCK_FLAG);
            match strategy(target, generation) {
                Strategy::Plain => ask(target, Phase::SettingPlain, Request::SetPlain),
                Strategy::SystemOnly => ask(
                    target,
                    Phase::SettingSystem { then_lock: false, lock },
                    Request::SetFlagged { flag: system },
                ),
                Strategy::LockOnly => ask(
                    target,
                    Phase::SettingLock,
                    Request::SetFlagged { flag: lock },
                ),
                Strategy::SystemThenLock => ask(
                    target,
                    Phase::SettingSystem { then_lock: true, lock },
                    Request::SetFlagged { flag: system },
                ),
                Strategy::Refused => fail(target, Error::UnsupportedPlatformVersion),
            }
        },
        Phase::SettingPlain => if failed {
            fail(target, Error::PlatformCallFailed(PlatformCall::SetPlain))
        } else {
            (Session { target, phase: Phase::Succeeded }, Step::Succeed)
        },
        Phase::SettingSystem { then_lock, lock } => if failed {
            fail(target, Error::PlatformCallFailed(PlatformCall::SetSystem))
        } else if then_lock {
            ask(target, Phase::SettingLock, Request::SetFlagged { flag: lock })
        } else {
            (Session { target, phase: Phase::Succeeded }, Step::Succeed)
        },
        Phase::SettingLock => if failed {
            fail(target, Error::PlatformCallFailed(PlatformCall::SetLock))
        } else {
            (Session { target, phase: Phase::Succeeded }, Step::Succeed)
        },
        Phase::Succeeded => (session, Step::Succeed),
        Phase::Failed(e) => (session, Step::Fail(e)),
    }
}

/// The flag that a reply tells, or `default` where it tells none.
pub fn flag(reply: Reply, default: i32) -> (f: i32)
    ensures
        f == flag_from(reply, default),
{
    match reply {
        Reply::Value(flag) => flag,
        _ => default,
    }
}

fn ask(target: Target, phase: Phase, request: Request) -> (r: (Session, Step))
    ensures
        r == going_on(Session { target, phase }, phase, request),
{
    (Session { target, phase }, Step::Ask(request))
}

fn fail(target: Target, e: Error) -> (r: (Session, Step))
    ensures
        r == (Session { target, phase: Phase::Failed(e) }, Step::Fail(e)),
{
    (Session { target, phase: Phase::Failed(e) }, Step::Fail(e))
}

/// How many replies a session may at most still wait for.
pub open spec fn replies_left(phase: Phase) -> nat {
    match phase {
        Phase::Decoding => 7,
        Phase::ObtainingService => 6,
        Phase::QueryingVersion => 5,
        Phase::QueryingSystemFlag { .. } => 4,
        Phase::QueryingLockFlag { .. } => 3,
        Phase::SettingSystem { then_lock, .. } => if then_lock {
            2
        } else {
            1
        },
        Phase::SettingPlain => 1,
        Phase::SettingLock => 1,
        Phase::Succeeded => 0,
        Phase::Failed(_) => 0,
    }
}

/// The set calls of a strategy, in their order.
pub open spec fn set_requests(strategy: Strategy, system: i32, lock: i32) -> Seq<Request> {
    match strategy {
        Strategy::Plain => seq![Request::SetPlain],
        Strategy::SystemOnly => seq![Request::SetFlagged { flag: system }],
        Strategy::LockOnly => seq![Request::SetFlagged { flag: lock }],
        Strategy::SystemThenLock => seq![
            Request::SetFlagged { flag: system },
            Request::SetFlagged { flag: lock },
        ],
        Strategy::Refused => Seq::empty(),
    }
}

/// What a session answers to a series of replies, one answer for each.
pub open spec fn answers(s: Session, replies: Seq<Reply>) -> Seq<Step>
    decreases replies.len(),
{
    if replies.len() == 0 {
        Seq::empty()
    } else {
        seq![step(s, replies[0]).1] + answers(step(s, replies[0]).0, replies.drop_first())
    }
}

/// Every reply brings a running session nearer to its end, and an ended
/// session never changes: a run ends after seven replies at most, and the
/// answer to a session that has ended is its outcome.
pub proof fn law_runs_end(s: Session, reply: Reply)
    ensures
        !finished(s.phase) ==> replies_left(step(s, reply).0.phase) < replies_left(s.phase),
        finished(s.phase) ==> step(s, reply).0 == s,
        s.phase is Succeeded ==> step(s, reply).1 == Step::Succeed,
        s.phase matches Phase::Failed(e) ==> step(s, reply).1 == Step::Fail(e),
        step(s, reply).1 is Ask <==> !finished(step(s, reply).0.phase),
        step(s, reply).0.target == s.target,
{
}

/// The answers to a first reply and to those that follow it.
proof fn lemma_answers_unfold(s: Session, first: Reply, rest: Seq<Reply>)
    ensures
        answers(s, seq![first] + rest) == seq![step(s, first).1] + answers(step(s, first).0, rest),
{
    let all = seq![first] + rest;
    assert(all[0] == first);
    assert(all.drop_first() =~= rest);
}

/// The answers to the replies up to the lock flag: four requests, whatever
/// the target, where the decode, the service and the version succeed.
proof fn lemma_up_to_dispatch(
    target: Target,
    version: i32,
    system_reply: Reply,
    lock_reply: Reply,
    rest: Seq<Reply>,
)
    ensures
        answers(
            fresh(target),
            seq![Reply::Done, Reply::Done, Reply::Value(version), system_reply] + (seq![lock_reply]
                + rest),
        ) == seq![
            Step::Ask(Request::ObtainService),
            Step::Ask(Request::QueryVersion),
            Step::Ask(Request::QuerySystemFlag),
            Step::Ask(Request::QueryLockFlag),
        ] + answers(
            Session {
                target,
                phase: Phase::QueryingLockFlag {
                    generation: generation_of(version),
                    system: flag_from(system_reply, DEFAULT_SYSTEM_FLAG),
                },
            },
            seq![lock_reply] + rest,
        ),
{
    let tail = seq![lock_reply] + rest;
    let s0 = fresh(target);
    let s1 = step(s0, Reply::Done).0;
    let s2 = step(s1, Reply::Done).0;
    let s3 = step(s2, Reply::Value(version)).0;
    let s4 = step(s3, system_reply).0;
    let r3 = seq![system_reply] + tail;
    let r2 = seq![Reply::Value(version)] + r3;
    let r1 = seq![Reply::Done] + r2;
    let r0 = seq![Reply::Done] + r1;
    lemma_answers_unfold(s0, Reply::Done, r1);
    lemma_answers_unfold(s1, Reply::Done, r2);
    lemma_answers_unfold(s2, Reply::Value(version), r3);
    lemma_answers_unfold(s3, system_reply, tail);
    assert(r0 =~= seq![Reply::Done, Reply::Done, Reply::Value(version), system_reply] + tail);
    assert(seq![step(s0, Reply::Done).1] + (seq![step(s1, Reply::Done).1] + (seq![
        step(s2, Reply::Value(version)).1,
    ] + (seq![step(s3, system_reply).1] + answers(s4, tail)))) =~= seq![
        Step::Ask(Request::ObtainService),
        Step::Ask(Request::QueryVersion),
        Step::Ask(Request::QuerySystemFlag),
        Step::Ask(Request::QueryLockFlag),
    ] + answers(s4, tail));
}

/// A run in which every call succeeds asks for the service, the version and
/// the two flags, then makes the set calls of the strategy for its target
/// and generation, in their order, and succeeds. Where the strategy refuses,
/// no set call is made and the run fails for the platform's version: that is
/// the lock screen on a legacy platform, and nothing else.
pub proof fn law_calls_follow_strategy(
    target: Target,
    version: i32,
    system_reply: Reply,
    lock_reply: Reply,
)
    ensures
        ({
            let strategy = strategy_of(target, generation_of(version));
            let sets = set_requests(
                strategy,
                flag_from(system_reply, DEFAULT_SYSTEM_FLAG),
                flag_from(lock_reply, DEFAULT_LOCK_FLAG),
            );
            let replies = seq![Reply::Done, Reply::Done, Reply::Value(version), system_reply] + (
            seq![lock_reply] + Seq::new(sets.len(), |i: int| Reply::Done));
            let asked = seq![
                Step::Ask(Request::ObtainService),
                Step::Ask(Request::QueryVersion),
                Step::Ask(Request::QuerySystemFlag),
                Step::Ask(Request::QueryLockFlag),
            ] + sets.map_values(|r: Request| Step::Ask(r));
            &&& strategy is Refused <==> target == Target::Lock && version < MODERN_VERSION
            &&& strategy is Refused ==> answers(fresh(target), replies) == asked + seq![
                Step::Fail(Error::UnsupportedPlatformVersion),
            ]
            &&& !(strategy is Refused) ==> answers(fresh(target), replies) == asked + seq![
                Step::Succeed,
            ]
        }),
{
    let strategy = strategy_of(target, generation_of(version));
    let system = flag_from(system_reply, DEFAULT_SYSTEM_FLAG);
    let lock = flag_from(lock_reply, DEFAULT_LOCK_FLAG);
    let sets = set_requests(strategy, system, lock);
    let dones = Seq::new(sets.len(), |i: int| Reply::Done);
    let s4 = Session {
        target,
        phase: Phase::QueryingLockFlag { generation: generation_of(version), system },
    };
    lemma_up_to_dispatch(target, version, system_reply, lock_reply, dones);
    lemma_answers_unfold(s4, lock_reply, dones);
    let s5 = step(s4, lock_reply).0;
    let first = seq![
        Step::Ask(Request::ObtainService),
        Step::Ask(Request::QueryVersion),
        Step::Ask(Request::QuerySystemFlag),
        Step::Ask(Request::QueryLockFlag),
    ];
    let asked = first + sets.map_values(|r: Request| Step::Ask(r));
    let tail = answers(s4, seq![lock_reply] + dones);
    if sets.len() == 0 {
        assert(dones =~= Seq::<Reply>::empty());
        assert(tail =~= seq![Step::Fail(Error::UnsupportedPlatformVersion)]);
        assert(first + tail =~= asked + seq![Step::Fail(Error::UnsupportedPlatformVersion)]);
    } else if sets.len() == 1 {
        assert(dones =~= seq![Reply::Done] + Seq::<Reply>::empty());
        lemma_answers_unfold(s5, Reply::Done, Seq::empty());
        assert(tail =~= seq![Step::Ask(sets[0]), Step::Succeed]);
        assert(first + tail =~= asked + seq![Step::Succeed]);
    } else {
        assert(dones =~= seq![Reply::Done] + (seq![Reply::Done] + Seq::<Reply>::empty()));
        lemma_answers_unfold(s5, Reply::Done, seq![Reply::Done] + Seq::<Reply>::empty());
        let s6 = step(s5, Reply::Done).0;
        lemma_answers_unfold(s6, Reply::Done, Seq::empty());
        assert(tail =~= seq![Step::Ask(sets[0]), Step::Ask(sets[1]), Step::Succeed]);
        assert(first + tail =~= asked + seq![Step::Succeed]);
    }
}

/// On a modern platform the two calls for both surfaces are made system
/// first, lock second. Where the first succeeds and the second fails, the
/// run fails with the lock call's error, after the system call has had its
/// effect: nothing is rolled back and nothing is asked again. Where the
/// first fails, the second is never made.
pub proof fn law_both_is_system_then_lock(generation: Generation, system: i32, lock_reply: Reply)
    requires
        generation == Generation::Modern,
    ensures
        ({
            let before = Session {
                target: Target::Both,
                phase: Phase::QueryingLockFlag { generation, system },
            };
            let lock = flag_from(lock_reply, DEFAULT_LOCK_FLAG);
            let (first, first_answer) = step(before, lock_reply);
            let (second, second_answer) = step(first, Reply::Done);
            &&& first_answer == Step::Ask(Request::SetFlagged { flag: system })
            &&& second_answer == Step::Ask(Request::SetFlagged { flag: lock })
            &&& step(second, Reply::Failed) == failing(
                second,
                Error::PlatformCallFailed(PlatformCall::SetLock),
            )
            &&& step(second, Reply::Done) == succeeding(second)
            &&& step(first, Reply::Failed) == failing(
                first,
                Error::PlatformCallFailed(PlatformCall::SetSystem),
            )
        }),
{
}

} // verus!
