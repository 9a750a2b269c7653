//! Paths. Which paths are absolute, which directory holds a path, how a path continues
//! another and how paths are ordered is up to the platform: that comes in, and what
//! follows from it is decided here.

use vstd::prelude::*;

verus! {

/// A path as it is written, and what it is ordered by: one text for each component, in
/// the order of the components. Two paths with the same components are the same path.
#[derive(Debug, Clone, PartialEq, Eq)]
pub struct PathText {
    pub text: String,
    pub keys: Vec<String>,
}

/// Any path can be continued by any other.
pub open spec fn continues<F: Fn(&str, &str) -> String>(join: F) -> bool {
    forall|base: &str, path: &str| #[trigger] call_requires(join, (base, path))
}

/// The directory that relative paths of a configuration start from: the one that holds
/// the configuration, and the current one where none does.
pub open spec fn base_of(parent: Option<&str>) -> &str {
    match parent {
        Some(directory) => directory,
        None => ".",
    }
}

/// The directory that relative paths of a configuration start from.
pub fn base_directory<'a>(parent: Option<&'a str>) -> (r: &'a str)
    ensures
        r == base_of(parent),
{
    match parent {
        Some(directory) => directory,
        None => ".",
    }
}

/// The directory that holds a path; the current one where the path names none.
pub open spec fn directory_of(parent: Option<&str>) -> &str {
    match parent {
        Some(directory) => if directory@.len() > 0 {
            directory
        } else {
            "."
        },
        None => ".",
    }
}

/// The directory that holds a path, given what the path says of it; the current one where
/// it names none.
pub fn parent_directory<'a>(parent: Option<&'a str>) -> (r: &'a str)
    ensures
        r == directory_of(parent),
{
    match parent {
        Some(directory) => {
            if directory.is_empty() {
                "."
            } else {
                directory
            }
        },
        None => ".",
    }
}

/// A configured path: as it is where it is absolute, and in the base directory where it is
/// not.
pub fn resolve_relative<F: Fn(&str, &str) -> String>(
    base_dir: &str,
    value: &str,
    absolute: bool,
    join: &F,
) -> (r: String)
    requires
        continues(*join),
    ensures
        absolute ==> r@ == value@,
        !absolute ==> call_ensures(*join, (base_dir, value), r),
{
    if absolute {
        value.to_owned()
    } else {
        join(base_dir, value)
    }
}

/// Relative paths start from the directory of the configuration, or from the current one.
pub proof fn relative_paths_start_somewhere(directory: &str)
    ensures
        base_of(Some(directory))@ == directory@,
        base_of(None)@ == "."@,
        directory@.len() > 0 ==> directory_of(Some(directory))@ == directory@,
        directory@.len() == 0 ==> directory_of(Some(directory))@ == "."@,
        directory_of(None)@ == "."@,
{
}

} // verus!
