//! The rules of backups: which archive entry is the store, which files are
//! backups, and in what order they are shown. Packing and unpacking the
//! archives is left to the caller.

use crate::models::views;
use crate::ordering::{is_listing, listing, ranking, Ranked};
use crate::text::{ends_with, text_ends_with};
use crate::time::Timestamp;
use vstd::prelude::*;

verus! {

/// A backup archive on disk.
#[derive(Debug)]
pub struct BackupInfo {
    pub filename: String,
    pub size: u64,
    pub created_at: Timestamp,
    pub path: String,
}

/// [`BackupInfo`] as a mathematical value.
pub struct BackupInfoView {
    pub filename: Seq<char>,
    pub size: u64,
    pub created_at: Timestamp,
    pub path: Seq<char>,
}

impl View for BackupInfo {
    type V = BackupInfoView;

    open spec fn view(&self) -> BackupInfoView {
        BackupInfoView {
            filename: self.filename@,
            size: self.size,
            created_at: self.created_at,
            path: self.path@,
        }
    }
}

impl Clone for BackupInfo {
    fn clone(&self) -> (r: Self)
        ensures
            r@ == self@,
    {
        BackupInfo {
            filename: self.filename.clone(),
            size: self.size,
            created_at: self.created_at,
            path: self.path.clone(),
        }
    }
}

/// Backups are listed from the latest to the earliest.
impl Ranked for BackupInfo {
    open spec fn before(a: BackupInfoView, b: BackupInfoView) -> bool {
        b.created_at.earlier_than(a.created_at)
    }

    fn stands_before(&self, other: &Self) -> (r: bool) {
        other.created_at.is_before(&self.created_at)
    }

    fn duplicate(&self) -> (r: Self) {
        self.clone()
    }

    proof fn lemma_ranking(a: BackupInfoView, b: BackupInfoView, c: BackupInfoView) {
    }
}

/// The name of an archive entry is that of a store: it ends in `.db`,
/// `.sqlite` or `.sqlite3`.
pub open spec fn names_a_store(name: Seq<char>) -> bool {
    text_ends_with(name, ".db"@) || text_ends_with(name, ".sqlite"@) || text_ends_with(
        name,
        ".sqlite3"@,
    )
}

/// Whether the name of an archive entry is that of a store.
pub fn is_store_name(name: &str) -> (b: bool)
    ensures
        b == names_a_store(name@),
{
    ends_with(name, ".db") || ends_with(name, ".sqlite") || ends_with(name, ".sqlite3")
}

/// The place of the first entry of an archive that is a store, if there is
/// one.
pub fn first_store_entry(names: &Vec<String>) -> (at: Option<usize>)
    ensures
        match at {
            Some(k) => k < names.len() && names_a_store(names[k as int]@) && forall|i: int|
                0 <= i < k ==> !names_a_store(#[trigger] names[i]@),
            None => forall|i: int| 0 <= i < names.len() ==> !names_a_store(#[trigger] names[i]@),
        },
{
    let mut k: usize = 0;
    while k < names.len()
        invariant
            k <= names.len(),
            forall|i: int| 0 <= i < k ==> !names_a_store(#[trigger] names[i]@),
        decreases names.len() - k,
    {
        if is_store_name(names[k].as_str()) {
            return Some(k);
        }
        k += 1;
    }
    None
}

/// The backups from the latest to the earliest.
pub fn newest_first(backups: &Vec<BackupInfo>) -> (out: Vec<BackupInfo>)
    ensures
        is_listing(views(backups@), ranking::<BackupInfo>(), views(out@)),
{
    listing(backups)
}

} // verus!
