//! Calls that only the surrounding system can answer: the home directory and
//! the search for an editor executable.  Each outside call stands behind a
//! trusted item; the decisions taken on its result are verified.

use vstd::prelude::*;

use crate::errors::{ErrorKind, StoreError};
use crate::names;
use crate::names::{cargo_dir_of, config_dir_of, home_missing_message};

verus! {

/// Relies on simple_home_dir::home_dir: yields the user's home directory if
/// the environment knows one.  The result depends on the environment, so
/// nothing is promised of its value.
#[verifier::external_body]
fn home_dir_raw() -> (r: Option<Vec<u8>>)
{
    simple_home_dir::home_dir().map(|p| p.to_string_lossy().into_owned().into_bytes())
}

/// The profile directory's path, resolved under the home directory.  Fails
/// with `NotFound` exactly when no home directory is known.
pub fn resolve_config_dir() -> (r: Result<Vec<u8>, StoreError>)
    ensures
        r is Ok ==> exists|h: Seq<u8>| r->Ok_0@ == config_dir_of(h),
        r is Err ==> r->Err_0.kind == ErrorKind::NotFound && r->Err_0.message@
            == home_missing_message(),
{
    match home_dir_raw() {
        None => Err(StoreError::new(ErrorKind::NotFound, names::home_missing_message_bytes())),
        Some(home) => {
            let dir = names::config_dir_path(&home);
            proof {
                assert(dir@ == config_dir_of(home@));
            }
            Ok(dir)
        },
    }
}

/// The package manager's directory path, resolved under the home directory.
/// Fails with `NotFound` exactly when no home directory is known.
pub fn resolve_cargo_dir() -> (r: Result<Vec<u8>, StoreError>)
    ensures
        r is Ok ==> exists|h: Seq<u8>| r->Ok_0@ == cargo_dir_of(h),
        r is Err ==> r->Err_0.kind == ErrorKind::NotFound && r->Err_0.message@
            == home_missing_message(),
{
    match home_dir_raw() {
        None => Err(StoreError::new(ErrorKind::NotFound, names::home_missing_message_bytes())),
        Some(home) => {
            let dir = names::cargo_dir_path(&home);
            proof {
                assert(dir@ == cargo_dir_of(home@));
            }
            Ok(dir)
        },
    }
}

/// Why the search for an editor executable failed.
pub enum EditorLookupError {
    /// No executable of that name was found on the search path.
    NotFoundOnPath,
    /// There was nowhere to search: no path list and no current directory.
    NoSearchPath,
    /// The found path could not be canonicalized.
    NotCanonicalizable,
}

/// Relies on which::which: searches the system's executable search path for
/// `editor`, as a shell would, and reports one of three causes on failure.
/// The result depends on the environment and the disk, so nothing is promised
/// of which outcome comes back.
#[verifier::external_body]
fn which_lookup(editor: &str) -> (r: Result<Vec<u8>, EditorLookupError>)
{
    match which::which(editor) {
        Ok(p) => Ok(p.to_string_lossy().into_owned().into_bytes()),
        Err(which::Error::CannotFindBinaryPath) => Err(EditorLookupError::NotFoundOnPath),
        Err(which::Error::CannotGetCurrentDirAndPathListEmpty) => Err(
            EditorLookupError::NoSearchPath,
        ),
        Err(which::Error::CannotCanonicalize) => Err(EditorLookupError::NotCanonicalizable),
    }
}

/// The error class each lookup failure is reported as.
pub open spec fn editor_error_kind_spec(e: EditorLookupError) -> ErrorKind {
    match e {
        EditorLookupError::NotFoundOnPath => ErrorKind::NotFound,
        EditorLookupError::NoSearchPath => ErrorKind::PermissionDenied,
        EditorLookupError::NotCanonicalizable => ErrorKind::Other,
    }
}

/// The message each lookup failure carries.
pub open spec fn editor_error_message_spec(e: EditorLookupError) -> Seq<u8> {
    match e {
        EditorLookupError::NotFoundOnPath => seq![
            99u8, 97, 110, 110, 111, 116, 32, 102, 105, 110, 100, 32, 98, 105, 110, 97, 114,
            121, 32, 112, 97, 116, 104,
        ],
        EditorLookupError::NoSearchPath => seq![
            110u8, 111, 32, 112, 97, 116, 104, 32, 116, 111, 32, 115, 101, 97, 114, 99, 104,
        ],
        EditorLookupError::NotCanonicalizable => seq![
            99u8, 97, 110, 110, 111, 116, 32, 99, 97, 110, 111, 110, 105, 99, 97, 108, 105,
            122, 101, 32, 112, 97, 116, 104,
        ],
    }
}

/// Turns a lookup failure into the store's error: a missing binary is
/// `NotFound`, an unusable search environment is `PermissionDenied`, and a
/// canonicalization failure is a generic error.
pub fn editor_error_to_store(e: &EditorLookupError) -> (r: StoreError)
    ensures
        r.kind == editor_error_kind_spec(*e),
        r.message@ == editor_error_message_spec(*e),
{
    match e {
        EditorLookupError::NotFoundOnPath => {
            // "cannot find binary path"
            let mut m: Vec<u8> = Vec::new();
            m.push(99);
            m.push(97);
            m.push(110);
            m.push(110);
            m.push(111);
            m.push(116);
            m.push(32);
            m.push(102);
            m.push(105);
            m.push(110);
            m.push(100);
            m.push(32);
            m.push(98);
            m.push(105);
            m.push(110);
            m.push(97);
            m.push(114);
            m.push(121);
            m.push(32);
            m.push(112);
            m.push(97);
            m.push(116);
            m.push(104);
            proof {
                assert(m@ =~= editor_error_message_spec(*e));
            }
            StoreError::new(ErrorKind::NotFound, m)
        },
        EditorLookupError::NoSearchPath => {
            // "no path to search"
            let mut m: Vec<u8> = Vec::new();
            m.push(110);
            m.push(111);
            m.push(32);
            m.push(112);
            m.push(97);
            m.push(116);
            m.push(104);
            m.push(32);
            m.push(116);
            m.push(111);
            m.push(32);
            m.push(115);
            m.push(101);
            m.push(97);
            m.push(114);
            m.push(99);
            m.push(104);
            proof {
                assert(m@ =~= editor_error_message_spec(*e));
            }
            StoreError::new(ErrorKind::PermissionDenied, m)
        },
        EditorLookupError::NotCanonicalizable => {
            // "cannot canonicalize path"
            let mut m: Vec<u8> = Vec::new();
            m.push(99);
            m.push(97);
            m.push(110);
            m.push(110);
            m.push(111);
            m.push(116);
            m.push(32);
            m.push(99);
            m.push(97);
            m.push(110);
            m.push(111);
            m.push(110);
            m.push(105);
            m.push(99);
            m.push(97);
            m.push(108);
            m.push(105);
            m.push(122);
            m.push(101);
            m.push(32);
            m.push(112);
            m.push(97);
            m.push(116);
            m.push(104);
            proof {
                assert(m@ =~= editor_error_message_spec(*e));
            }
            StoreError::new(ErrorKind::Other, m)
        },
    }
}

/// Resolves `editor` to the path of an executable, as the shell's search
/// would.  Whatever the environment answers, a failure is reported as exactly
/// the store error of its cause.
pub fn resolve_editor(editor: &str) -> (r: Result<Vec<u8>, StoreError>)
    ensures
        r is Err ==> exists|e: EditorLookupError|
            r->Err_0.kind == editor_error_kind_spec(e) && r->Err_0.message@
                == editor_error_message_spec(e),
{
    match which_lookup(editor) {
        Ok(path) => Ok(path),
        Err(e) => {
            let err = editor_error_to_store(&e);
            proof {
                assert(err.kind == editor_error_kind_spec(e) && err.message@
                    == editor_error_message_spec(e));
            }
            Err(err)
        },
    }
}

} // verus!
