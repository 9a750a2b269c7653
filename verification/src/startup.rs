//! Where the files of an installation are, and what is recorded of them.

use vstd::prelude::*;
use crate::manifest::{ComponentEntry, ComponentKind};
use crate::paths::PathText;
use crate::text;

verus! {

/// Where the files of the database are, once its path is settled.
#[derive(Debug, Clone, PartialEq, Eq)]
pub struct DatabasePaths {
    pub data: PathText,
    pub wal: PathText,
    pub shm: PathText,
    pub lock: PathText,
}

/// The path of the configuration: as it is where it is absolute, and in the current
/// directory where it is not. Only then the current directory has to be there.
pub fn absolute_config_path<F: Fn(&str) -> Result<String, String>>(
    path: &str,
    absolute: bool,
    in_current_dir: &F,
) -> (r: Result<String, String>)
    requires
        call_requires(*in_current_dir, (path,)),
    ensures
        absolute ==> text::outcome(r) == Ok::<_, Seq<char>>(path@),
        !absolute ==> call_ensures(*in_current_dir, (path,), r),
{
    if absolute {
        Ok(path.to_owned())
    } else {
        in_current_dir(path)
    }
}

/// The entry is of this kind and for this path.
pub open spec fn names(e: ComponentEntry, kind: ComponentKind, path: PathText) -> bool {
    e.kind == kind && e.path == path
}

/// What an engine records of its database when it starts, in this order: the files of the
/// database, and their lock.
pub fn database_components(db: DatabasePaths) -> (r: Vec<ComponentEntry>)
    ensures
        r@.len() == 4,
        names(r@[0], ComponentKind::Db, db.data),
        names(r@[1], ComponentKind::Db, db.wal),
        names(r@[2], ComponentKind::Db, db.shm),
        names(r@[3], ComponentKind::Lock, db.lock),
{
    vec![
        ComponentEntry { kind: ComponentKind::Db, path: db.data },
        ComponentEntry { kind: ComponentKind::Db, path: db.wal },
        ComponentEntry { kind: ComponentKind::Db, path: db.shm },
        ComponentEntry { kind: ComponentKind::Lock, path: db.lock },
    ]
}

/// The identifier of an event: the process that sends it, and when.
pub fn request_id(process_id: u32, now_unix_ms: i64) -> (r: String)
    ensures
        r@ == text::numeral(process_id as nat) + "-"@ + text::signed_numeral(now_unix_ms as int),
{
    let mut id = text::decimal(process_id as u64);
    id.append("-");
    id.append(text::signed_decimal(now_unix_ms).as_str());
    id
}

/// An entry that names a component has its kind and its path.
pub proof fn entries_have_kind_and_path(e: ComponentEntry, kind: ComponentKind, path: PathText)
    ensures
        names(e, kind, path) <==> e.kind == kind && e.path == path,
{
}

} // verus!
