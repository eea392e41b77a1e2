//! The ways in which an operation of the store or of the wallpaper protocol
//! is refused.

use vstd::prelude::*;

verus! {

/// A platform call of the wallpaper protocol, named so that a failure can say
/// which call it was.
#[derive(Clone, Copy, Debug, PartialEq, Eq, Structural)]
pub enum PlatformCall {
    /// Obtaining the wallpaper service.
    ObtainService,
    /// Reading the platform's version number.
    QueryVersion,
    /// Setting the wallpaper with the single-argument operation.
    SetPlain,
    /// Setting the home-screen wallpaper with the system flag.
    SetSystem,
    /// Setting the lock-screen wallpaper with the lock flag.
    SetLock,
}

/// Why an operation was refused. Failures of the file system itself are not
/// among these: the library performs no file operation.
#[derive(Clone, Copy, Debug, PartialEq, Eq, Structural)]
pub enum Error {
    /// The path does not lie inside the base directory.
    PathNotAllowed,
    /// A collection with this name already exists.
    DuplicateName,
    /// Neither a source path nor contents with a file name were given.
    MissingSource,
    /// The path names no file: it is empty, a root, or ends in `..`.
    InvalidFileName,
    /// The metadata record could not be written as text.
    MetadataEncoding,
    /// The image could not be decoded.
    DecodeFailed,
    /// The lock screen cannot be set on a platform of the legacy generation.
    UnsupportedPlatformVersion,
    /// The platform has no wallpaper capability at all.
    UnsupportedPlatform,
    /// The named platform call failed.
    PlatformCallFailed(PlatformCall),
}

impl PlatformCall {
    /// The platform's name for the call.
    pub open spec fn text(self) -> Seq<char> {
        match self {
            PlatformCall::ObtainService => "WallpaperManager.getInstance"@,
            PlatformCall::QueryVersion => "Build.VERSION.SDK_INT"@,
            PlatformCall::SetPlain => "WallpaperManager.setBitmap"@,
            PlatformCall::SetSystem => "WallpaperManager.setBitmap(system)"@,
            PlatformCall::SetLock => "WallpaperManager.setBitmap(lock)"@,
        }
    }

    /// The platform's name for the call.
    pub fn name(&self) -> (r: &'static str)
        ensures
            r@ == self.text(),
    {
        match self {
            PlatformCall::ObtainService => "WallpaperManager.getInstance",
            PlatformCall::QueryVersion => "Build.VERSION.SDK_INT",
            PlatformCall::SetPlain => "WallpaperManager.setBitmap",
            PlatformCall::SetSystem => "WallpaperManager.setBitmap(system)",
            PlatformCall::SetLock => "WallpaperManager.setBitmap(lock)",
        }
    }
}

impl Error {
    /// The message that describes the error to the user.
    pub open spec fn text(self) -> Seq<char> {
        match self {
            Error::PathNotAllowed => "Path not allowed"@,
            Error::DuplicateName => "A collection with this name already exists"@,
            Error::MissingSource => "Need either a source path or contents with a file name"@,
            Error::InvalidFileName => "Invalid file name"@,
            Error::MetadataEncoding => "The collection's record could not be written"@,
            Error::DecodeFailed => "The image could not be decoded"@,
            Error::UnsupportedPlatformVersion => "Lock screen wallpaper requires Android 7.0+"@,
            Error::UnsupportedPlatform => "Only supported on Android"@,
            Error::PlatformCallFailed(call) => "Platform call failed: "@ + call.text(),
        }
    }

    /// The message that describes the error to the user.
    pub fn message(&self) -> (r: String)
        ensures
            r@ == self.text(),
    {
        match self {
            Error::PathNotAllowed => "Path not allowed".to_owned(),
            Error::DuplicateName => "A collection with this name already exists".to_owned(),
            Error::MissingSource => {
                "Need either a source path or contents with a file name".to_owned()
            },
            Error::InvalidFileName => "Invalid file name".to_owned(),
            Error::MetadataEncoding => "The collection's record could not be written".to_owned(),
            Error::DecodeFailed => "The image could not be decoded".to_owned(),
            Error::UnsupportedPlatformVersion => {
                "Lock screen wallpaper requires Android 7.0+".to_owned()
            },
            Error::UnsupportedPlatform => "Only supported on Android".to_owned(),
            Error::PlatformCallFailed(call) => {
                let mut r = "Platform call failed: ".to_owned();
                r.append(call.name());
                r
            },
        }
    }
}

} // verus!
