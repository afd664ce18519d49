//! Identifiers for new records.

use vstd::prelude::*;

verus! {

/// Draws a random version-4 UUID with `uuid::Uuid::new_v4` and renders it
/// with its `to_string`. Trusted: the text is the hyphenated form, 36
/// characters long. Nothing is claimed about which identifier comes back;
/// whether it is already in use is for the caller to test. The call takes
/// no input and fails only where the system has no randomness to give.
#[verifier::external_body]
pub(crate) fn fresh_id() -> (id: String)
    ensures
        id@.len() == 36,
{
    uuid::Uuid::new_v4().to_string()
}

/// Draws `n` identifiers, each 36 characters long. Whether they are in use
/// is for the caller to test.
pub fn fresh_ids(n: usize) -> (ids: Vec<String>)
    ensures
        ids@.len() == n,
        forall|k: int| 0 <= k < n ==> (#[trigger] ids[k])@.len() == 36,
{
    let mut ids: Vec<String> = Vec::new();
    let mut i: usize = 0;
    while i < n
        invariant
            i <= n,
            ids@.len() == i,
            forall|k: int| 0 <= k < i ==> (#[trigger] ids[k])@.len() == 36,
        decreases n - i,
    {
        ids.push(fresh_id());
        i += 1;
    }
    ids
}

} // verus!
