//! The collection store: named groups of files, each a directory under
//! `collections` in the base directory, with a metadata record beside its
//! files.
//!
//! The functions here take what the application has read from the file
//! system (the entries of a directory, the text of a record) and decide what
//! is listed, which identifier a new collection gets, and which directory an
//! identifier stands for.

use crate::error::Error;
use crate::meta::{
    read_record, recency, recency_of, record_of_text, record_text, write_record,
    CollectionRecord, RecordView,
};
use crate::path::{
    contained, is_contained, is_plain_name, join, joined, lemma_contains_itself,
    lemma_plain_name_stays_inside,
};
use crate::text::{
    chars_le, chars_of, decimal, is_digit, lemma_decimal_digits, lemma_decimal_injective,
    lemma_lex_total,
    lemma_lex_transitive, lex_le, push_chars, push_decimal, same_chars, string_of,
};
use vstd::prelude::*;

verus! {

/// One entry of the `collections` directory, as the application found it.
#[derive(Clone, Debug, PartialEq, Eq)]
pub struct CollectionEntry {
    /// The entry's name.
    pub name: String,
    /// Whether the entry is a directory.
    pub is_dir: bool,
    /// The text of the metadata record in it, where there is one that can
    /// be read as text.
    pub meta: Option<String>,
}

/// One entry of a collection's directory, as the application found it.
#[derive(Clone, Debug, PartialEq, Eq)]
pub struct FileEntry {
    /// The entry's name.
    pub name: String,
    /// Whether the entry is a regular file.
    pub is_file: bool,
}

/// What has to be put on disk for a new collection.
#[derive(Clone, Debug, PartialEq, Eq)]
pub struct Creation {
    /// The identifier of the new collection.
    pub id: String,
    /// The directory to create.
    pub dir: String,
    /// The file to write the metadata record to.
    pub meta_path: String,
    /// The text of the metadata record.
    pub meta_text: String,
}

/// What `char::is_alphanumeric` returns for a character.
pub uninterp spec fn alphanumeric(c: char) -> bool;

/// `char::is_alphanumeric` tells whether the character is alphabetic or
/// numeric; the answer depends on the character alone.
pub assume_specification[ char::is_alphanumeric ](c: char) -> (r: bool)
    ensures
        r == alphanumeric(c),
;

/// The character that stands for `c` in an identifier: `c` itself where it
/// is alphanumeric, a hyphen or an underscore, else an underscore. A
/// separator and a dot are replaced whatever is said of them, so that an
/// identifier is one plain segment by its making.
pub open spec fn slug_of(c: char, is_alphanumeric: bool) -> char {
    if c == '/' || c == '.' {
        '_'
    } else if is_alphanumeric || c == '-' || c == '_' {
        c
    } else {
        '_'
    }
}

/// A name with every character replaced by what stands for it in an
/// identifier.
pub open spec fn sanitized(name: Seq<char>) -> Seq<char> {
    Seq::new(name.len(), |i: int| slug_of(name[i], alphanumeric(name[i])))
}

/// The identifier that a collection gets where it is free: the sanitized
/// name, an underscore, and the second of creation.
pub open spec fn candidate(name: Seq<char>, timestamp: u64) -> Seq<char> {
    sanitized(name) + seq!['_'] + decimal(timestamp as nat)
}

/// The `k`-th identifier tried: the candidate itself, then the candidate
/// with `_1`, `_2` and so on behind it.
pub open spec fn suffixed(candidate: Seq<char>, k: nat) -> Seq<char> {
    if k == 0 {
        candidate
    } else {
        candidate + seq!['_'] + decimal(k)
    }
}

/// Whether the `k`-th identifier is the first that no entry bears.
pub open spec fn is_least_free(candidate: Seq<char>, names: Seq<Seq<char>>, k: nat) -> bool {
    &&& !names.contains(suffixed(candidate, k))
    &&& forall|j: nat| j < k ==> names.contains(#[trigger] suffixed(candidate, j))
}

/// The first of the identifiers tried that no entry bears.
pub open spec fn free_id(candidate: Seq<char>, names: Seq<Seq<char>>) -> Seq<char> {
    suffixed(candidate, choose|k: nat| is_least_free(candidate, names, k))
}

/// The names of the entries, in their order.
pub open spec fn names_of(entries: Seq<CollectionEntry>) -> Seq<Seq<char>> {
    entries.map_values(|e: CollectionEntry| e.name@)
}

/// The record of one directory among the entries.
pub open spec fn record_of_entry(e: CollectionEntry) -> RecordView {
    record_of_text(
        e.name@,
        match e.meta {
            Some(t) => Some(t@),
            None => None,
        },
    )
}

/// The records of the directories among the entries, in the entries' order.
pub open spec fn records_of(entries: Seq<CollectionEntry>) -> Seq<RecordView>
    decreases entries.len(),
{
    if entries.len() == 0 {
        Seq::empty()
    } else if entries.last().is_dir {
        records_of(entries.drop_last()).push(record_of_entry(entries.last()))
    } else {
        records_of(entries.drop_last())
    }
}

/// The records as contracts speak of them.
pub open spec fn record_views(records: Seq<CollectionRecord>) -> Seq<RecordView> {
    records.map_values(|r: CollectionRecord| r@)
}

/// The strings as contracts speak of them.
pub open spec fn texts(strings: Seq<String>) -> Seq<Seq<char>> {
    strings.map_values(|s: String| s@)
}

/// Whether the records come newest first.
pub open spec fn newest_first(records: Seq<RecordView>) -> bool {
    forall|i: int, j: int|
        0 <= i < j < records.len() ==> recency(records[i]) >= recency(records[j])
}

/// Whether one of the records bears the name.
pub open spec fn name_in(records: Seq<RecordView>, name: Seq<char>) -> bool {
    exists|i: int| 0 <= i < records.len() && #[trigger] records[i].name == Some(name)
}

/// The directory that holds the collections.
pub open spec fn collections_root(base: Seq<char>) -> Seq<char> {
    joined(base, "collections"@)
}

/// The directory of the collection with this identifier.
pub open spec fn collection_path(base: Seq<char>, id: Seq<char>) -> Seq<char> {
    joined(collections_root(base), id)
}

/// The name under which the metadata record is kept.
pub open spec fn meta_file_name() -> Seq<char> {
    "_meta.json"@
}

/// A name is reserved for the store's own files where it begins with an
/// underscore.
pub open spec fn is_reserved(name: Seq<char>) -> bool {
    name.len() > 0 && name[0] == '_'
}

/// The path, relative to the base directory, under which a file of a
/// collection is known.
pub open spec fn collection_file_path(id: Seq<char>, name: Seq<char>) -> Seq<char> {
    "collections/"@ + id + seq!['/'] + name
}

/// Whether an entry of a collection's directory is listed: a regular file
/// whose name is not reserved.
pub open spec fn is_listed(e: FileEntry) -> bool {
    e.is_file && !is_reserved(e.name@)
}

/// The paths of the listed entries, in the entries' order.
pub open spec fn paths_of(id: Seq<char>, entries: Seq<FileEntry>) -> Seq<Seq<char>>
    decreases entries.len(),
{
    if entries.len() == 0 {
        Seq::empty()
    } else if is_listed(entries.last()) {
        paths_of(id, entries.drop_last()).push(collection_file_path(id, entries.last().name@))
    } else {
        paths_of(id, entries.drop_last())
    }
}

/// Whether `path` is the path of a listed entry among the first `upto`.
pub open spec fn is_path_of_listed(
    id: Seq<char>,
    entries: Seq<FileEntry>,
    upto: int,
    path: Seq<char>,
) -> bool {
    exists|j: int|
        0 <= j < upto && j < entries.len() && is_listed(#[trigger] entries[j]) && path
            == collection_file_path(id, entries[j].name@)
}

/// Whether the strings stand in their order.
pub open spec fn in_order(strings: Seq<Seq<char>>) -> bool {
    forall|i: int, j: int| 0 <= i < j < strings.len() ==> lex_le(strings[i], strings[j])
}

/// What has to be put on disk, as contracts speak of it.
pub struct CreationView {
    pub id: Seq<char>,
    pub dir: Seq<char>,
    pub meta_path: Seq<char>,
    pub meta_text: Seq<char>,
}

impl View for Creation {
    type V = CreationView;

    open spec fn view(&self) -> CreationView {
        CreationView {
            id: self.id@,
            dir: self.dir@,
            meta_path: self.meta_path@,
            meta_text: self.meta_text@,
        }
    }
}

/// What creating a collection comes to.
///
/// A name that a listed collection already bears is refused. Else the
/// identifier is the sanitized name with the second of creation behind it,
/// and, where an entry of that name exists, with `_1`, `_2` and so on behind
/// that: the first that no entry bears. The metadata record has to be
/// writable as text that reads back as it was written.
pub open spec fn creation_of(
    base: Seq<char>,
    listing: Seq<CollectionEntry>,
    name: Seq<char>,
    timestamp: u64,
) -> Result<CreationView, Error> {
    let id = free_id(candidate(name, timestamp), names_of(listing));
    if name_in(records_of(listing), name) {
        Err(Error::DuplicateName)
    } else {
        match record_text(id, name, timestamp) {
            None => Err(Error::MetadataEncoding),
            Some(text) => Ok(
                CreationView {
                    id,
                    dir: collection_path(base, id),
                    meta_path: joined(collection_path(base, id), meta_file_name()),
                    meta_text: text,
                },
            ),
        }
    }
}

/// Whether a listing shows a collection as it was created: as a directory
/// under its identifier, with its metadata record in it.
pub open spec fn shows(listing: Seq<CollectionEntry>, created: CreationView) -> bool {
    exists|i: int| shows_at(listing, i, created)
}

/// Whether the `i`-th entry of a listing is a collection as it was created.
pub open spec fn shows_at(listing: Seq<CollectionEntry>, i: int, created: CreationView) -> bool {
    &&& 0 <= i < listing.len()
    &&& listing[i].is_dir
    &&& listing[i].name@ == created.id
    &&& listing[i].meta matches Some(text)
    &&& text@ == created.meta_text
}

/// What deleting a collection comes to: the directory to remove with all
/// that is in it, or nothing where the collection does not exist.
pub open spec fn removal_of(base: Seq<char>, id: Seq<char>, exists: bool) -> Result<
    Option<Seq<char>>,
    Error,
> {
    if !contained(base, collection_path(base, id)) {
        Err(Error::PathNotAllowed)
    } else if exists {
        Ok(Some(collection_path(base, id)))
    } else {
        Ok(None)
    }
}

/// The word `collections` is a plain name, and so is the name of the
/// metadata record, which is reserved.
pub proof fn lemma_fixed_names()
    ensures
        is_plain_name("collections"@),
        is_plain_name(meta_file_name()),
        is_reserved(meta_file_name()),
        "collections/"@ == "collections"@.push('/'),
{
    reveal_strlit("collections");
    reveal_strlit("collections/");
    reveal_strlit("_meta.json");
    assert("collections"@.len() == 11 && "_meta.json"@.len() == 10);
    assert(seq!['.'].len() == 1 && seq!['.', '.'].len() == 2);
    assert("collections/"@ =~= "collections"@.push('/'));
}

/// The collections' directory lies inside the base directory.
pub proof fn lemma_root_inside(base: Seq<char>)
    ensures
        contained(base, collections_root(base)),
{
    lemma_fixed_names();
    lemma_contains_itself(base);
    lemma_plain_name_stays_inside(base, base, "collections"@);
}

/// The directory that holds the collections.
pub fn collections_dir(base: &str) -> (r: String)
    ensures
        r@ == collections_root(base@),
        contained(base@, r@),
{
    proof {
        lemma_root_inside(base@);
    }
    join(base, "collections")
}

/// The directory of the collection with this identifier: the identifier
/// adjoined to the collections' directory. It is refused exactly where that
/// directory does not lie inside the base directory.
pub fn collection_dir(base: &str, collection_id: &str) -> (r: Result<String, Error>)
    ensures
        match r {
            Ok(dir) => dir@ == collection_path(base@, collection_id@) && contained(base@, dir@),
            Err(e) => e == Error::PathNotAllowed && !contained(
                base@,
                collection_path(base@, collection_id@),
            ),
        },
{
    let root = join(base, "collections");
    let dir = join(root.as_str(), collection_id);
    if is_contained(base, dir.as_str()) {
        Ok(dir)
    } else {
        Err(Error::PathNotAllowed)
    }
}

/// What deleting a collection calls for: the directory to remove with all
/// that is in it, or nothing where the collection does not exist. Deleting
/// what is not there is no error.
pub fn delete_collection(base: &str, collection_id: &str, exists: bool) -> (r: Result<
    Option<String>,
    Error,
>)
    ensures
        match removal_of(base@, collection_id@, exists) {
            Ok(Some(dir)) => r matches Ok(Some(d)) && d@ == dir && contained(base@, dir),
            Ok(None) => r matches Ok(None),
            Err(e) => r matches Err(x) && x == e,
        },
{
    match collection_dir(base, collection_id) {
        Ok(dir) => if exists {
            Ok(Some(dir))
        } else {
            Ok(None)
        },
        Err(e) => Err(e),
    }
}

/// The character that stands for `c` in an identifier, given whether `c`
/// is alphanumeric.
pub fn slug_char(c: char, is_alphanumeric: bool) -> (r: char)
    ensures
        r == slug_of(c, is_alphanumeric),
{
    if c == '/' || c == '.' {
        '_'
    } else if is_alphanumeric || c == '-' || c == '_' {
        c
    } else {
        '_'
    }
}

/// A name with every character replaced by what stands for it in an
/// identifier.
pub fn sanitize(name: &str) -> (r: Vec<char>)
    ensures
        r@ == sanitized(name@),
{
    let v = chars_of(name);
    let mut r: Vec<char> = Vec::new();
    let mut i: usize = 0;
    while i < v.len()
        invariant
            i <= v.len(),
            v@ == name@,
            r@ == sanitized(name@).subrange(0, i as int),
        decreases v.len() - i,
    {
        let c = v[i];
        r.push(slug_char(c, c.is_alphanumeric()));
        assert(r@ =~= sanitized(name@).subrange(0, i + 1));
        i = i + 1;
    }
    assert(r@ =~= sanitized(name@));
    r
}

/// The identifier that a collection gets where it is free.
pub fn candidate_id(name: &str, timestamp: u64) -> (r: Vec<char>)
    ensures
        r@ == candidate(name@, timestamp),
{
    let mut r = sanitize(name);
    r.push('_');
    push_decimal(&mut r, timestamp);
    assert(r@ =~= candidate(name@, timestamp));
    r
}

/// The `k`-th identifier tried.
pub fn suffixed_id(candidate: &Vec<char>, k: u64) -> (r: Vec<char>)
    ensures
        r@ == suffixed(candidate@, k as nat),
{
    let mut r: Vec<char> = Vec::new();
    push_chars(&mut r, candidate);
    if k > 0 {
        r.push('_');
        push_decimal(&mut r, k);
    }
    assert(r@ =~= suffixed(candidate@, k as nat));
    r
}

/// No two of the identifiers tried are the same.
pub proof fn lemma_suffixed_distinct(candidate: Seq<char>, j: nat, k: nat)
    requires
        j != k,
    ensures
        suffixed(candidate, j) != suffixed(candidate, k),
{
    lemma_decimal_digits(j);
    lemma_decimal_digits(k);
    let a = suffixed(candidate, j);
    let b = suffixed(candidate, k);
    if j != 0 && k != 0 {
        if a == b {
            let n = candidate.len() + 1;
            assert(a.skip(n as int) =~= decimal(j));
            assert(b.skip(n as int) =~= decimal(k));
            lemma_decimal_injective(j, k);
        }
    } else {
        assert(a.len() != b.len());
    }
}

/// Where each of the first `k` identifiers tried is the name of an entry,
/// there are at least `k` entries: so one of the first identifiers, as many
/// as there are entries and one more, is free.
pub proof fn lemma_tried_fit_in_names(candidate: Seq<char>, names: Seq<Seq<char>>, k: nat)
    requires
        forall|j: nat| j < k ==> names.contains(#[trigger] suffixed(candidate, j)),
    ensures
        k <= names.len(),
    decreases k,
{
    if k > 0 {
        let last = suffixed(candidate, (k - 1) as nat);
        assert(names.contains(last));
        let at = choose|i: int| 0 <= i < names.len() && names[i] == last;
        let rest = names.remove(at);
        assert forall|j: nat| j < k - 1 implies rest.contains(#[trigger] suffixed(candidate, j)) by {
            let x = suffixed(candidate, j);
            lemma_suffixed_distinct(candidate, j, (k - 1) as nat);
            assert(names.contains(x));
            let i = choose|i: int| 0 <= i < names.len() && names[i] == x;
            if i < at {
                assert(rest[i] == x);
            } else {
                assert(rest[i - 1] == x);
            }
        }
        lemma_tried_fit_in_names(candidate, rest, (k - 1) as nat);
    }
}

/// The first free identifier is one only.
pub proof fn lemma_least_free_unique(candidate: Seq<char>, names: Seq<Seq<char>>, k: nat)
    requires
        is_least_free(candidate, names, k),
    ensures
        free_id(candidate, names) == suffixed(candidate, k),
{
    let other = choose|k: nat| is_least_free(candidate, names, k);
    assert(is_least_free(candidate, names, other));
    if other < k {
        assert(names.contains(suffixed(candidate, other)));
    } else if k < other {
        assert(names.contains(suffixed(candidate, k)));
    }
}

/// Every identifier tried for a new collection is a plain name: it holds
/// no separator and no dot, and is not empty.
pub proof fn lemma_identifier_is_plain(name: Seq<char>, timestamp: u64, k: nat)
    ensures
        is_plain_name(suffixed(candidate(name, timestamp), k)),
{
    let id = suffixed(candidate(name, timestamp), k);
    let slug = sanitized(name);
    let second = decimal(timestamp as nat);
    lemma_decimal_digits(timestamp as nat);
    lemma_decimal_digits(k);
    assert forall|i: int| 0 <= i < id.len() implies id[i] != '/' && id[i] != '.' by {
        let c = id[i];
        if i < slug.len() {
            assert(c == slug_of(name[i], alphanumeric(name[i])));
        } else if i == slug.len() {
            assert(c == '_');
        } else if i < slug.len() + 1 + second.len() {
            assert(c == second[i - slug.len() - 1]);
            assert(is_digit(c));
        } else if i == slug.len() + 1 + second.len() {
            assert(c == '_');
        } else {
            assert(c == decimal(k)[i - slug.len() - second.len() - 2]);
            assert(is_digit(c));
        }
    }
    assert(id[slug.len() as int] == '_');
    if id == seq!['.'] {
        assert(id[0] == seq!['.'][0]);
    }
    if id == seq!['.', '.'] {
        assert(id[0] == seq!['.', '.'][0]);
    }
}

/// The sequences of characters as contracts speak of them.
pub open spec fn char_texts(names: Seq<Vec<char>>) -> Seq<Seq<char>> {
    names.map_values(|v: Vec<char>| v@)
}

/// Whether one of the names is `x`.
pub fn is_among(names: &Vec<Vec<char>>, x: &Vec<char>) -> (r: bool)
    ensures
        r == char_texts(names@).contains(x@),
{
    let mut i: usize = 0;
    while i < names.len()
        invariant
            i <= names.len(),
            forall|k: int| 0 <= k < i ==> char_texts(names@)[k] != x@,
        decreases names.len() - i,
    {
        if same_chars(&names[i], x) {
            assert(char_texts(names@)[i as int] == x@);
            return true;
        }
        i = i + 1;
    }
    false
}

/// The first of the identifiers tried that none of the names takes.
pub fn first_free_id(candidate: &Vec<char>, names: &Vec<Vec<char>>) -> (r: Vec<char>)
    ensures
        r@ == free_id(candidate@, char_texts(names@)),
        !char_texts(names@).contains(r@),
{
    let ghost taken = char_texts(names@);
    let mut k: u64 = 0;
    let mut id = suffixed_id(candidate, 0);
    while is_among(names, &id)
        invariant
            taken == char_texts(names@),
            id@ == suffixed(candidate@, k as nat),
            forall|j: nat| j < k ==> taken.contains(#[trigger] suffixed(candidate@, j)),
            k <= names.len(),
        decreases names.len() - k,
    {
        proof {
            assert forall|j: nat| j < k + 1 implies taken.contains(
                #[trigger] suffixed(candidate@, j),
            ) by {}
            lemma_tried_fit_in_names(candidate@, taken, (k + 1) as nat);
        }
        k = k + 1;
        id = suffixed_id(candidate, k);
    }
    proof {
        lemma_least_free_unique(candidate@, taken, k as nat);
    }
    id
}

/// Putting one more value into a sequence adds it to what the sequence
/// holds, wherever it is put.
pub proof fn lemma_insert_adds<A>(s: Seq<A>, at: int, x: A)
    requires
        0 <= at <= s.len(),
    ensures
        s.insert(at, x).to_multiset() == s.to_multiset().insert(x),
{
    broadcast use vstd::seq_lib::group_to_multiset_ensures;

    let t = s.insert(at, x);
    assert(t[at] == x);
    assert(t.remove(at) =~= s);
    assert(t.to_multiset().count(x) > 0) by {
        assert(t.contains(x));
    }
    assert(t.to_multiset() =~= t.to_multiset().remove(x).insert(x));
}

/// The records of the directories among the first entries, one more entry
/// taken in.
proof fn lemma_records_step(entries: Seq<CollectionEntry>, i: int)
    requires
        0 <= i < entries.len(),
    ensures
        records_of(entries.take(i + 1)) == if entries[i].is_dir {
            records_of(entries.take(i)).push(record_of_entry(entries[i]))
        } else {
            records_of(entries.take(i))
        },
{
    assert(entries.take(i + 1).drop_last() =~= entries.take(i));
    assert(entries.take(i + 1).last() == entries[i]);
}

/// The collections to list, newest first: one record for each directory
/// among the entries of the collections' directory, and none where that
/// directory does not exist yet. A directory whose metadata record is
/// missing or cannot be read is listed all the same, under its own name.
pub fn list_collections(listing: Option<&Vec<CollectionEntry>>) -> (r: Vec<CollectionRecord>)
    ensures
        newest_first(record_views(r@)),
        match listing {
            Some(entries) => record_views(r@).to_multiset() == records_of(
                entries@,
            ).to_multiset(),
            None => r@.len() == 0,
        },
{
    let mut out: Vec<CollectionRecord> = Vec::new();
    let entries = match listing {
        Some(entries) => entries,
        None => {
            return out;
        },
    };
    assert(record_views(out@) =~= records_of(entries@.take(0)));
    let mut i: usize = 0;
    while i < entries.len()
        invariant
            i <= entries.len(),
            newest_first(record_views(out@)),
            record_views(out@).to_multiset() == records_of(entries@.take(i as int)).to_multiset(),
        decreases entries.len() - i,
    {
        proof {
            lemma_records_step(entries@, i as int);
        }
        let entry = &entries[i];
        if entry.is_dir {
            let record = match &entry.meta {
                Some(text) => read_record(entry.name.as_str(), Some(text.as_str())),
                None => read_record(entry.name.as_str(), None),
            };
            assert(record@ == record_of_entry(entries@[i as int]));
            let mut at: usize = 0;
            let second = recency_of(&record);
            while at < out.len() && recency_of(&out[at]) >= second
                invariant
                    at <= out.len(),
                    second == recency(record@),
                    forall|k: int| 0 <= k < at ==> recency(out@[k]@) >= second,
                decreases out.len() - at,
            {
                at = at + 1;
            }
            let ghost before = record_views(out@);
            let ghost rv = record@;
            out.insert(at, record);
            proof {
                assert(record_views(out@) =~= before.insert(at as int, rv));
                lemma_insert_adds(before, at as int, rv);
                broadcast use vstd::seq_lib::group_to_multiset_ensures;

                let after = record_views(out@);
                assert forall|a: int, b: int| 0 <= a < b < after.len() implies recency(after[a])
                    >= recency(after[b]) by {
                    if b < at {
                        assert(after[a] == before[a] && after[b] == before[b]);
                    } else if b == at {
                        assert(after[a] == before[a]);
                    } else if a < at {
                        assert(after[a] == before[a] && after[b] == before[b - 1]);
                    } else if a == at {
                        assert(after[b] == before[b - 1]);
                        assert(recency(before[at as int]) < recency(rv));
                        if b - 1 > at {
                            assert(recency(before[at as int]) >= recency(before[b - 1]));
                        }
                    } else {
                        assert(after[a] == before[a - 1] && after[b] == before[b - 1]);
                    }
                }
            }
        }
        i = i + 1;
    }
    assert(entries@.take(entries.len() as int) =~= entries@);
    out
}

/// Whether one of the records bears the name.
pub fn has_name(records: &Vec<CollectionRecord>, name: &str) -> (r: bool)
    ensures
        r == name_in(record_views(records@), name@),
{
    let wanted = chars_of(name);
    let mut i: usize = 0;
    while i < records.len()
        invariant
            i <= records.len(),
            wanted@ == name@,
            forall|k: int| 0 <= k < i ==> record_views(records@)[k].name != Some(name@),
        decreases records.len() - i,
    {
        match &records[i].name {
            Some(stored) => {
                let found = chars_of(stored.as_str());
                if same_chars(&found, &wanted) {
                    assert(record_views(records@)[i as int].name == Some(name@));
                    return true;
                }
            },
            None => {},
        }
        i = i + 1;
    }
    false
}

/// The names of the entries.
pub fn entry_names(entries: &Vec<CollectionEntry>) -> (r: Vec<Vec<char>>)
    ensures
        char_texts(r@) == names_of(entries@),
{
    let mut r: Vec<Vec<char>> = Vec::new();
    let mut i: usize = 0;
    while i < entries.len()
        invariant
            i <= entries.len(),
            r.len() == i,
            forall|k: int| 0 <= k < i ==> r@[k]@ == entries@[k].name@,
        decreases entries.len() - i,
    {
        r.push(chars_of(entries[i].name.as_str()));
        i = i + 1;
    }
    assert(char_texts(r@) =~= names_of(entries@));
    r
}

/// A name is borne by one of two sequences of records that hold the same
/// records, or by neither.
pub proof fn lemma_name_in_any_order(a: Seq<RecordView>, b: Seq<RecordView>, name: Seq<char>)
    requires
        a.to_multiset() == b.to_multiset(),
    ensures
        name_in(a, name) == name_in(b, name),
{
    broadcast use vstd::seq_lib::group_to_multiset_ensures;

    if name_in(a, name) {
        let i = choose|i: int| 0 <= i < a.len() && #[trigger] a[i].name == Some(name);
        assert(a.contains(a[i]));
        assert(b.to_multiset().count(a[i]) > 0);
        assert(b.contains(a[i]));
        let j = choose|j: int| 0 <= j < b.len() && b[j] == a[i];
        assert(b[j].name == Some(name));
    }
    if name_in(b, name) {
        let i = choose|i: int| 0 <= i < b.len() && #[trigger] b[i].name == Some(name);
        assert(b.contains(b[i]));
        assert(a.to_multiset().count(b[i]) > 0);
        assert(a.contains(b[i]));
        let j = choose|j: int| 0 <= j < a.len() && a[j] == b[i];
        assert(a[j].name == Some(name));
    }
}

/// What creating a collection calls for, given the entries of the
/// collections' directory and the second of creation.
///
/// A name that a listed collection already bears is refused. Else the
/// identifier is the sanitized name with the second behind it, and, where an
/// entry of that name exists, with `_1`, `_2` and so on behind that, the
/// first that no entry bears. The application then creates the directory
/// and writes the metadata record into it.
pub fn create_collection(
    base: &str,
    listing: &Vec<CollectionEntry>,
    name: &str,
    timestamp: u64,
) -> (r: Result<Creation, Error>)
    ensures
        match creation_of(base@, listing@, name@, timestamp) {
            Ok(created) => {
                &&& r matches Ok(c)
                &&& c@ == created
                &&& !names_of(listing@).contains(created.id)
                &&& contained(base@, created.dir)
                &&& contained(base@, created.meta_path)
            },
            Err(e) => r matches Err(x) && x == e,
        },
{
    let existing = list_collections(Some(listing));
    proof {
        lemma_name_in_any_order(record_views(existing@), records_of(listing@), name@);
    }
    if has_name(&existing, name) {
        return Err(Error::DuplicateName);
    }
    let first = candidate_id(name, timestamp);
    let names = entry_names(listing);
    let id_chars = first_free_id(&first, &names);
    let id = string_of(&id_chars, 0, id_chars.len());
    assert(id@ =~= id_chars@);
    proof {
        lemma_free_id_is_free(first@, char_texts(names@));
        lemma_identifier_is_plain(
            name@,
            timestamp,
            choose|k: nat| is_least_free(first@, char_texts(names@), k),
        );
        lemma_root_inside(base@);
        lemma_plain_name_stays_inside(base@, collections_root(base@), id@);
    }
    let root = join(base, "collections");
    let dir = join(root.as_str(), id.as_str());
    let text = match write_record(id.as_str(), name, timestamp) {
        Some(text) => text,
        None => {
            return Err(Error::MetadataEncoding);
        },
    };
    proof {
        lemma_fixed_names();
        lemma_plain_name_stays_inside(base@, dir@, meta_file_name());
    }
    let meta_path = join(dir.as_str(), "_meta.json");
    Ok(Creation { id, dir, meta_path, meta_text: text })
}

/// The paths of the listed entries among the first entries, one more entry
/// taken in.
proof fn lemma_paths_step(id: Seq<char>, entries: Seq<FileEntry>, i: int)
    requires
        0 <= i < entries.len(),
    ensures
        paths_of(id, entries.take(i + 1)) == if is_listed(entries[i]) {
            paths_of(id, entries.take(i)).push(collection_file_path(id, entries[i].name@))
        } else {
            paths_of(id, entries.take(i))
        },
{
    assert(entries.take(i + 1).drop_last() =~= entries.take(i));
    assert(entries.take(i + 1).last() == entries[i]);
}

/// The path, relative to the base directory, under which a file of a
/// collection is known.
pub fn collection_file(collection_id: &str, name: &str) -> (r: Vec<char>)
    ensures
        r@ == collection_file_path(collection_id@, name@),
{
    let mut r = chars_of("collections/");
    push_chars(&mut r, &chars_of(collection_id));
    r.push('/');
    push_chars(&mut r, &chars_of(name));
    assert(r@ =~= collection_file_path(collection_id@, name@));
    r
}

/// Whether a name is reserved for the store's own files.
pub fn is_reserved_name(name: &str) -> (r: bool)
    ensures
        r == is_reserved(name@),
{
    name.unicode_len() > 0 && name.get_char(0) == '_'
}

/// The files of a collection to list: for each regular file among the
/// entries of its directory whose name is not reserved, the path under
/// which the file is known, in the order of strings; none where the
/// directory does not exist. The metadata record, whose name is reserved,
/// is never among them.
pub fn list_collection_files(collection_id: &str, listing: Option<&Vec<FileEntry>>) -> (r: Vec<
    String,
>)
    ensures
        in_order(texts(r@)),
        match listing {
            Some(entries) => {
                &&& texts(r@).to_multiset() == paths_of(collection_id@, entries@).to_multiset()
                &&& forall|k: int|
                    0 <= k < r@.len() ==> is_path_of_listed(
                        collection_id@,
                        entries@,
                        entries@.len() as int,
                        #[trigger] texts(r@)[k],
                    )
            },
            None => r@.len() == 0,
        },
{
    let mut out: Vec<String> = Vec::new();
    let entries = match listing {
        Some(entries) => entries,
        None => {
            return out;
        },
    };
    let ghost id = collection_id@;
    let mut sorted: Vec<Vec<char>> = Vec::new();
    assert(char_texts(sorted@) =~= paths_of(id, entries@.take(0)));
    let mut i: usize = 0;
    while i < entries.len()
        invariant
            i <= entries.len(),
            id == collection_id@,
            in_order(char_texts(sorted@)),
            char_texts(sorted@).to_multiset() == paths_of(id, entries@.take(i as int)).to_multiset(),
            forall|k: int|
                0 <= k < sorted@.len() ==> is_path_of_listed(
                    id,
                    entries@,
                    i as int,
                    #[trigger] char_texts(sorted@)[k],
                ),
        decreases entries.len() - i,
    {
        proof {
            lemma_paths_step(id, entries@, i as int);
        }
        let entry = &entries[i];
        if entry.is_file && !is_reserved_name(entry.name.as_str()) {
            let path = collection_file(collection_id, entry.name.as_str());
            let mut at: usize = 0;
            while at < sorted.len() && chars_le(&sorted[at], &path)
                invariant
                    at <= sorted.len(),
                    forall|k: int| 0 <= k < at ==> lex_le(char_texts(sorted@)[k], path@),
                decreases sorted.len() - at,
            {
                at = at + 1;
            }
            let ghost before = char_texts(sorted@);
            let ghost p = path@;
            sorted.insert(at, path);
            proof {
                let after = char_texts(sorted@);
                assert(after =~= before.insert(at as int, p));
                lemma_insert_adds(before, at as int, p);
                broadcast use vstd::seq_lib::group_to_multiset_ensures;

                assert forall|a: int, b: int| 0 <= a < b < after.len() implies lex_le(
                    after[a],
                    after[b],
                ) by {
                    if at < before.len() {
                        lemma_lex_total(before[at as int], p);
                    }
                    if b < at {
                        assert(after[a] == before[a] && after[b] == before[b]);
                    } else if b == at {
                        assert(after[a] == before[a]);
                    } else if a < at {
                        assert(after[a] == before[a] && after[b] == before[b - 1]);
                    } else if a == at {
                        assert(after[b] == before[b - 1]);
                        if b - 1 > at {
                            lemma_lex_transitive(p, before[at as int], before[b - 1]);
                        }
                    } else {
                        assert(after[a] == before[a - 1] && after[b] == before[b - 1]);
                    }
                }
                assert forall|k: int| 0 <= k < after.len() implies is_path_of_listed(
                    id,
                    entries@,
                    i + 1,
                    #[trigger] after[k],
                ) by {
                    if k < at {
                        assert(after[k] == before[k]);
                        assert(is_path_of_listed(id, entries@, i as int, before[k]));
                    } else if k == at {
                        assert(is_listed(entries@[i as int]));
                    } else {
                        assert(after[k] == before[k - 1]);
                        assert(is_path_of_listed(id, entries@, i as int, before[k - 1]));
                    }
                }
            }
        } else {
            assert forall|k: int| 0 <= k < sorted@.len() implies is_path_of_listed(
                id,
                entries@,
                i + 1,
                #[trigger] char_texts(sorted@)[k],
            ) by {
                assert(is_path_of_listed(id, entries@, i as int, char_texts(sorted@)[k]));
            }
        }
        i = i + 1;
    }
    assert(entries@.take(entries.len() as int) =~= entries@);
    let mut n: usize = 0;
    while n < sorted.len()
        invariant
            n <= sorted.len(),
            out.len() == n,
            forall|k: int| 0 <= k < n ==> out@[k]@ == sorted@[k]@,
        decreases sorted.len() - n,
    {
        out.push(string_of(&sorted[n], 0, sorted[n].len()));
        assert(out@[n as int]@ =~= sorted@[n as int]@);
        n = n + 1;
    }
    assert(texts(out@) =~= char_texts(sorted@));
    assert forall|k: int| 0 <= k < out@.len() implies is_path_of_listed(
        id,
        entries@,
        entries@.len() as int,
        #[trigger] texts(out@)[k],
    ) by {
        assert(texts(out@)[k] == char_texts(sorted@)[k]);
    }
    out
}

/// The record of every directory among the entries is among the records.
pub proof fn lemma_directory_is_recorded(entries: Seq<CollectionEntry>, i: int)
    requires
        0 <= i < entries.len(),
        entries[i].is_dir,
    ensures
        records_of(entries).contains(record_of_entry(entries[i])),
    decreases entries.len(),
{
    let rest = records_of(entries.drop_last());
    if i == entries.len() - 1 {
        assert(rest.push(record_of_entry(entries[i]))[rest.len() as int] == record_of_entry(
            entries[i],
        ));
    } else {
        lemma_directory_is_recorded(entries.drop_last(), i);
        let at = choose|k: int| 0 <= k < rest.len() && rest[k] == record_of_entry(entries[i]);
        if entries.last().is_dir {
            assert(rest.push(record_of_entry(entries.last()))[at] == rest[at]);
        }
    }
}

/// Once a collection has been created, its name is taken: in every listing
/// that shows the new collection, creating another of the same name is
/// refused as a duplicate, at whatever second.
pub proof fn law_same_name_is_refused(
    base: Seq<char>,
    before: Seq<CollectionEntry>,
    after: Seq<CollectionEntry>,
    name: Seq<char>,
    first_second: u64,
    second_second: u64,
)
    requires
        creation_of(base, before, name, first_second) matches Ok(created) && shows(after, created),
    ensures
        creation_of(base, after, name, second_second) == Err::<CreationView, Error>(
            Error::DuplicateName,
        ),
{
    let created = creation_of(base, before, name, first_second)->Ok_0;
    let i = choose|i: int| shows_at(after, i, created);
    lemma_directory_is_recorded(after, i);
    let record = record_of_entry(after[i]);
    assert(record.name == Some(name));
    let at = choose|k: int| 0 <= k < records_of(after).len() && records_of(after)[k] == record;
    assert(records_of(after)[at].name == Some(name));
}

/// No two collections get the same identifier: the identifier of a new
/// collection differs from the name of every entry that is there, so from
/// the identifier of every collection created before it, also where the two
/// names are sanitized alike and the seconds are the same. The counter
/// behind the identifier settles that case.
pub proof fn law_identifiers_never_collide(
    base: Seq<char>,
    before: Seq<CollectionEntry>,
    after: Seq<CollectionEntry>,
    first_name: Seq<char>,
    second_name: Seq<char>,
    first_second: u64,
    second_second: u64,
)
    requires
        creation_of(base, before, first_name, first_second) matches Ok(first) && shows(
            after,
            first,
        ),
        creation_of(base, after, second_name, second_second) is Ok,
    ensures
        creation_of(base, after, second_name, second_second)->Ok_0.id != creation_of(
            base,
            before,
            first_name,
            first_second,
        )->Ok_0.id,
        candidate(second_name, second_second) == candidate(first_name, first_second)
            && !names_of(before).contains(candidate(first_name, first_second)) ==> exists|k: nat|
            k > 0 && creation_of(base, after, second_name, second_second)->Ok_0.id == suffixed(
                candidate(second_name, second_second),
                k,
            ),
{
    let first = creation_of(base, before, first_name, first_second)->Ok_0;
    let second = creation_of(base, after, second_name, second_second)->Ok_0;
    let i = choose|i: int| shows_at(after, i, first);
    assert(names_of(after)[i] == first.id);
    assert(names_of(after).contains(first.id));
    lemma_free_id_is_free(candidate(second_name, second_second), names_of(after));
    lemma_free_id_is_free(candidate(first_name, first_second), names_of(before));
    let c = candidate(second_name, second_second);
    if c == candidate(first_name, first_second) && !names_of(before).contains(c) {
        assert(is_least_free(c, names_of(before), 0));
        lemma_least_free_unique(c, names_of(before), 0);
        assert(first.id == c);
        let k = choose|k: nat| is_least_free(c, names_of(after), k);
        assert(k > 0);
    }
}

/// Some identifier among those tried is free, and the one chosen is the
/// first of them.
pub proof fn lemma_free_id_is_free(candidate: Seq<char>, names: Seq<Seq<char>>)
    ensures
        is_least_free(candidate, names, choose|k: nat| is_least_free(candidate, names, k)),
        !names.contains(free_id(candidate, names)),
{
    lemma_some_id_is_free(candidate, names, 0);
}

/// Where the identifiers before the `k`-th are all taken, one from the
/// `k`-th on is the first free one.
proof fn lemma_some_id_is_free(candidate: Seq<char>, names: Seq<Seq<char>>, k: nat)
    requires
        forall|j: nat| j < k ==> names.contains(#[trigger] suffixed(candidate, j)),
    ensures
        exists|m: nat| is_least_free(candidate, names, m),
    decreases names.len() + 1 - k,
{
    lemma_tried_fit_in_names(candidate, names, k);
    if names.contains(suffixed(candidate, k)) {
        assert forall|j: nat| j < k + 1 implies names.contains(#[trigger] suffixed(candidate, j)) by {}
        lemma_tried_fit_in_names(candidate, names, k + 1);
        lemma_some_id_is_free(candidate, names, k + 1);
    } else {
        assert(is_least_free(candidate, names, k));
    }
}

/// Deleting a collection that does not exist succeeds and asks for
/// nothing, for every identifier whose directory lies inside the base
/// directory. So deleting twice is safe: whatever the first call found, the
/// second, which finds the directory gone, succeeds without any effect.
pub proof fn law_delete_is_idempotent(base: Seq<char>, id: Seq<char>, existed: bool)
    ensures
        contained(base, collection_path(base, id)) ==> removal_of(base, id, false) == Ok::<
            Option<Seq<char>>,
            Error,
        >(None),
        removal_of(base, id, existed) is Ok ==> removal_of(base, id, false) == Ok::<
            Option<Seq<char>>,
            Error,
        >(None),
{
}

/// What is listed of a collection never bears a reserved name: each listed
/// path ends in the name of an entry that does not begin with an underscore,
/// so the metadata record is never listed.
pub proof fn law_listed_files_are_not_reserved(
    id: Seq<char>,
    entries: Seq<FileEntry>,
    path: Seq<char>,
)
    requires
        is_path_of_listed(id, entries, entries.len() as int, path),
    ensures
        exists|name: Seq<char>|
            path == #[trigger] collection_file_path(id, name) && !is_reserved(name) && name
                != meta_file_name(),
        path != collection_file_path(id, meta_file_name()),
{
    lemma_fixed_names();
    let j = choose|j: int|
        0 <= j < entries.len() && is_listed(#[trigger] entries[j]) && path
            == collection_file_path(id, entries[j].name@);
    let name = entries[j].name@;
    assert(path == collection_file_path(id, name) && !is_reserved(name));
    let reserved = collection_file_path(id, meta_file_name());
    if path == reserved {
        let n = "collections/"@.len() + id.len() + 1;
        assert(path.skip(n as int) =~= name);
        assert(reserved.skip(n as int) =~= meta_file_name());
    }
}

} // verus!
