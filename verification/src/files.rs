//! The file repository: where a file is saved, read and deleted.
//!
//! Every path that leaves this module for a file operation has passed the
//! containment rule of the sandbox.

use crate::collection::{
    collection_dir, collection_file, collection_file_path, collection_path, collections_root,
    lemma_fixed_names,
};
use crate::error::Error;
use crate::path::{
    base_name, contained, file_name, is_contained, is_plain_name, join, joined,
    lemma_base_name_is_plain, lemma_plain_name_is_harmless, lemma_plain_name_stays_inside,
    resolve,
};
use crate::text::string_of;
use crate::wallpaper::Platform;
use vstd::prelude::*;

verus! {

/// Where the content of a saved file comes from.
#[derive(Clone, Debug, PartialEq, Eq)]
pub enum Transfer {
    /// The file at this path is copied.
    Copy { from: String },
    /// These bytes are written.
    Write { data: Vec<u8> },
}

/// What saving a file calls for.
#[derive(Clone, Debug, PartialEq, Eq)]
pub struct Save {
    /// The file to create, or to overwrite where it exists.
    pub dest: String,
    /// Where its content comes from.
    pub transfer: Transfer,
    /// The path that the caller gets back.
    pub returned: String,
}

/// The base directory on a platform, given the directory that the platform
/// offers: the pictures' directory itself on the mobile platform, the
/// directory `files` in the application's data directory elsewhere.
pub open spec fn base_dir_of(platform: Platform, platform_dir: Seq<char>) -> Seq<char> {
    match platform {
        Platform::Android => platform_dir,
        Platform::Other => joined(platform_dir, "files"@),
    }
}

/// The base directory on a platform.
pub fn files_base_dir(platform: Platform, platform_dir: &str) -> (r: String)
    ensures
        r@ == base_dir_of(platform, platform_dir@),
{
    match platform {
        Platform::Android => platform_dir.to_owned(),
        Platform::Other => join(platform_dir, "files"),
    }
}

/// The directory of a save-type bucket. One outside the base directory is
/// refused.
pub fn files_dir_for_type(base: &str, save_type: &str) -> (r: Result<String, Error>)
    ensures
        match r {
            Ok(dir) => dir@ == joined(base@, save_type@) && contained(base@, dir@),
            Err(e) => e == Error::PathNotAllowed && !contained(base@, joined(base@, save_type@)),
        },
{
    resolve(base, save_type)
}

/// The path of a file to read. One outside the base directory is refused.
pub fn read_file_from_app(base: &str, path: &str) -> (r: Result<String, Error>)
    ensures
        match r {
            Ok(file) => file@ == joined(base@, path@) && contained(base@, file@),
            Err(e) => e == Error::PathNotAllowed && !contained(base@, joined(base@, path@)),
        },
{
    resolve(base, path)
}

/// What deleting a file calls for: the file to remove, or nothing where it
/// does not exist. Deleting what is not there is no error; a path outside
/// the base directory is refused whether or not anything is there.
pub fn delete_app_file(base: &str, path: &str, exists: bool) -> (r: Result<Option<String>, Error>)
    ensures
        match r {
            Ok(Some(file)) => {
                &&& exists
                &&& file@ == joined(base@, path@)
                &&& contained(base@, file@)
            },
            Ok(None) => !exists && contained(base@, joined(base@, path@)),
            Err(e) => e == Error::PathNotAllowed && !contained(base@, joined(base@, path@)),
        },
{
    match resolve(base, path) {
        Ok(file) => if exists {
            Ok(Some(file))
        } else {
            Ok(None)
        },
        Err(e) => Err(e),
    }
}

/// What saving a file into a save-type bucket calls for, once the bucket's
/// directory exists.
///
/// With a source path the file there is copied under its own file name;
/// without one the contents are written under the file name given. A source
/// path wins over contents. The caller gets the destination back.
pub fn save_file_to_app(
    base: &str,
    save_type: &str,
    source_path: Option<&str>,
    contents: Option<Vec<u8>>,
    file_name_given: Option<&str>,
) -> (r: Result<Save, Error>)
    ensures
        ({
            let dir = joined(base@, save_type@);
            if !contained(base@, dir) {
                r matches Err(e) && e == Error::PathNotAllowed
            } else {
                match (source_path, contents, file_name_given) {
                    (Some(source), _, _) => match base_name(source@) {
                        Some(name) => {
                            &&& r matches Ok(s)
                            &&& s.dest@ == joined(dir, name)
                            &&& s.transfer matches Transfer::Copy { from }
                            &&& from@ == source@
                            &&& s.returned@ == s.dest@
                            &&& contained(base@, s.dest@)
                        },
                        None => r matches Err(e) && e == Error::InvalidFileName,
                    },
                    (None, Some(bytes), Some(name)) => if contained(base@, joined(dir, name@)) {
                        &&& r matches Ok(s)
                        &&& s.dest@ == joined(dir, name@)
                        &&& s.transfer matches Transfer::Write { data }
                        &&& data@ == bytes@
                        &&& s.returned@ == s.dest@
                    } else {
                        r matches Err(e) && e == Error::PathNotAllowed
                    },
                    _ => r matches Err(e) && e == Error::MissingSource,
                }
            }
        }),
{
    let dir = match files_dir_for_type(base, save_type) {
        Ok(dir) => dir,
        Err(e) => {
            return Err(e);
        },
    };
    match source_path {
        Some(source) => match file_name(source) {
            Some(name) => {
                proof {
                    lemma_base_name_is_plain(source@, source@.len() as int);
                    lemma_plain_name_stays_inside(base@, dir@, name@);
                }
                let dest = join(dir.as_str(), name.as_str());
                let returned = dest.clone();
                Ok(Save { dest, transfer: Transfer::Copy { from: source.to_owned() }, returned })
            },
            None => Err(Error::InvalidFileName),
        },
        None => match contents {
            Some(data) => match file_name_given {
                Some(name) => {
                    let dest = join(dir.as_str(), name);
                    if is_contained(base, dest.as_str()) {
                        let returned = dest.clone();
                        Ok(Save { dest, transfer: Transfer::Write { data }, returned })
                    } else {
                        Err(Error::PathNotAllowed)
                    }
                },
                None => Err(Error::MissingSource),
            },
            None => Err(Error::MissingSource),
        },
    }
}

/// Whether an identifier is written so that the relative path of a file
/// in its collection, resolved, is the file's path letter for letter: it is
/// relative, not empty, and does not end in a separator.
pub open spec fn is_direct_id(id: Seq<char>) -> bool {
    id.len() > 0 && id[0] != '/' && id.last() != '/'
}

/// What saving a file into a collection calls for, once the collection's
/// directory exists.
///
/// The file is kept under the file name of `file_name_given`, whatever
/// directories stand before it there. With a source path the file there is
/// copied; without one the contents are written. A source path wins over
/// contents. The caller gets back `collections/{id}/{name}`, the path
/// relative to the base directory under which the file is read and listed.
/// The save is refused only where the collection's directory does not lie
/// inside the base directory.
pub fn save_file_to_collection(
    base: &str,
    collection_id: &str,
    file_name_given: &str,
    source_path: Option<&str>,
    contents: Option<Vec<u8>>,
) -> (r: Result<Save, Error>)
    ensures
        if !contained(base@, collection_path(base@, collection_id@)) {
            r matches Err(e) && e == Error::PathNotAllowed
        } else {
            match base_name(file_name_given@) {
                None => r matches Err(e) && e == Error::InvalidFileName,
                Some(name) => match (source_path, contents) {
                    (Some(source), _) => {
                        &&& r matches Ok(s)
                        &&& s.dest@ == joined(collection_path(base@, collection_id@), name)
                        &&& s.transfer matches Transfer::Copy { from }
                        &&& from@ == source@
                        &&& s.returned@ == collection_file_path(collection_id@, name)
                        &&& contained(base@, s.dest@)
                        &&& is_direct_id(collection_id@) ==> joined(base@, s.returned@) == s.dest@
                    },
                    (None, Some(bytes)) => {
                        &&& r matches Ok(s)
                        &&& s.dest@ == joined(collection_path(base@, collection_id@), name)
                        &&& s.transfer matches Transfer::Write { data }
                        &&& data@ == bytes@
                        &&& s.returned@ == collection_file_path(collection_id@, name)
                        &&& contained(base@, s.dest@)
                        &&& is_direct_id(collection_id@) ==> joined(base@, s.returned@) == s.dest@
                    },
                    (None, None) => r matches Err(e) && e == Error::MissingSource,
                },
            }
        },
{
    let dir = match collection_dir(base, collection_id) {
        Ok(dir) => dir,
        Err(e) => {
            return Err(e);
        },
    };
    let name = match file_name(file_name_given) {
        Some(name) => name,
        None => {
            return Err(Error::InvalidFileName);
        },
    };
    proof {
        lemma_base_name_is_plain(file_name_given@, file_name_given@.len() as int);
        lemma_plain_name_stays_inside(base@, dir@, name@);
        if is_direct_id(collection_id@) {
            lemma_returned_path_is_destination(base@, collection_id@, name@);
        }
    }
    let transfer = match source_path {
        Some(source) => Transfer::Copy { from: source.to_owned() },
        None => match contents {
            Some(data) => Transfer::Write { data },
            None => {
                return Err(Error::MissingSource);
            },
        },
    };
    let dest = join(dir.as_str(), name.as_str());
    let relative = collection_file(collection_id, name.as_str());
    let returned = string_of(&relative, 0, relative.len());
    assert(returned@ =~= relative@);
    Ok(Save { dest, transfer, returned })
}

/// The path that a save into a collection gives back, resolved against the
/// base directory, is the save's destination, letter for letter.
pub proof fn lemma_returned_path_is_destination(base: Seq<char>, id: Seq<char>, name: Seq<char>)
    requires
        is_direct_id(id),
        is_plain_name(name),
    ensures
        joined(base, collection_file_path(id, name)) == joined(collection_path(base, id), name),
{
    lemma_fixed_names();
    lemma_plain_name_is_harmless(name);
    reveal_strlit("collections");
    reveal_strlit("collections/");
    let root = collections_root(base);
    let dir = collection_path(base, id);
    let relative = collection_file_path(id, name);
    assert(relative[0] == 'c');
    assert(root.last() == 's');
    assert(dir =~= root.push('/') + id);
    assert(dir.last() == id.last());
    assert(joined(base, relative) =~= joined(dir, name));
}

/// What is saved into a collection is read back under the path that the
/// save returned, for every identifier that the save accepts and that is
/// relative, not empty and without a separator at its end: in a file system
/// whose files are `files`, once the contents have been written to the
/// save's destination, the file that a read of the returned path is sent to
/// holds exactly those contents, and the read is not refused.
pub proof fn law_saved_file_is_read_back(
    base: Seq<char>,
    id: Seq<char>,
    name: Seq<char>,
    files: Map<Seq<char>, Seq<u8>>,
    contents: Seq<u8>,
)
    requires
        contained(base, collection_path(base, id)),
        is_direct_id(id),
        is_plain_name(name),
    ensures
        contained(base, joined(base, collection_file_path(id, name))),
        files.insert(joined(collection_path(base, id), name), contents)[joined(
            base,
            collection_file_path(id, name),
        )] == contents,
{
    lemma_returned_path_is_destination(base, id, name);
    lemma_plain_name_stays_inside(base, collection_path(base, id), name);
}

} // verus!
