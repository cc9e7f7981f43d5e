//! Path resolution: from a path as it was given to an absolute, normalised one.

use crate::misc::ImgError;
use std::path::PathBuf;
use vstd::prelude::*;

verus! {

/// `std::path::PathBuf`, carried as an opaque value: a path in the form the
/// host keeps it, which need not be Unicode.
#[verifier::external_type_specification]
#[verifier::external_body]
pub struct ExPathBuf(std::path::PathBuf);

/// `std::path::Path::is_absolute`: whether the path names a place without
/// regard to the current directory. The answer follows the path syntax of the
/// host, so nothing is stated of it.
#[verifier::external_body]
fn is_absolute_path(path: &PathBuf) -> bool {
    path.is_absolute()
}

/// `std::path::Path::join`: `path` adjoined to `base`. The result follows the
/// path syntax of the host, so nothing is stated of it.
#[verifier::external_body]
fn join_paths(base: &PathBuf, path: &PathBuf) -> PathBuf {
    base.join(path)
}

/// `path_clean::clean`: the shortest path that names the same place without
/// looking at the file system, with `.` and inner `..` elements worked out.
/// The result follows the path syntax of the host, so nothing is stated of it.
#[verifier::external_body]
fn clean_path(path: &PathBuf) -> PathBuf {
    path_clean::clean(path)
}

/// The directory that a path has to be resolved against: none where the path
/// is absolute, the current directory where it is not. A path that is not
/// absolute cannot be resolved without a current directory.
pub fn base_directory<'a>(absolute: bool, current_dir: Option<&'a PathBuf>) -> (res: Result<
    Option<&'a PathBuf>,
    ImgError,
>)
    ensures
        absolute ==> res == Ok::<Option<&PathBuf>, ImgError>(None),
        !absolute && current_dir is Some ==> res == Ok::<Option<&PathBuf>, ImgError>(current_dir),
        !absolute && current_dir is None ==> res == Err::<Option<&PathBuf>, ImgError>(
            ImgError::WorkingDirectory,
        ),
{
    if absolute {
        Ok(None)
    } else {
        match current_dir {
            Some(dir) => Ok(Some(dir)),
            None => Err(ImgError::WorkingDirectory),
        }
    }
}

/// The absolute, normalised form of `path`. A path that is not absolute is
/// taken from `current_dir`, and cannot be resolved where there is none.
pub fn absolute_path(path: &PathBuf, current_dir: Option<&PathBuf>) -> (res: Result<
    PathBuf,
    ImgError,
>)
    ensures
        current_dir is Some ==> res is Ok,
        res is Err ==> res->Err_0 == ImgError::WorkingDirectory,
{
    let base = match base_directory(is_absolute_path(path), current_dir) {
        Ok(base) => base,
        Err(reason) => {
            return Err(reason);
        },
    };
    match base {
        Some(dir) => {
            let full = join_paths(dir, path);
            Ok(clean_path(&full))
        },
        None => Ok(clean_path(path)),
    }
}

} // verus!
