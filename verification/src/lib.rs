//! A minimal concurrent key-value store and its client-side command
//! multiplexer.
//!
//! The store maps byte-sequence keys to byte-sequence values and is
//! partitioned into independently lockable shards; a deterministic hash
//! assigns every key to exactly one shard for the lifetime of the store.
//! The multiplexer lets many concurrent callers share one physical
//! connection through a bounded command queue and per-command reply
//! channels. Wire framing is left to an external codec; this crate fixes
//! the logical request/response semantics.

use vstd::prelude::*;

pub mod command;
pub mod laws;
pub mod mux;
pub mod store;
pub mod text;
pub mod wire;

verus! {

/// Compares two byte vectors for equality of their contents.
pub fn bytes_eq(a: &Vec<u8>, b: &Vec<u8>) -> (r: bool)
    ensures
        r == (a@ == b@),
{
    if a.len() != b.len() {
        return false;
    }
    let mut i: usize = 0;
    while i < a.len()
        invariant
            i <= a@.len(),
            a@.len() == b@.len(),
            forall|j: int| 0 <= j < i ==> a@[j] == b@[j],
        decreases a@.len() - i,
    {
        if a[i] != b[i] {
            return false;
        }
        i = i + 1;
    }
    proof {
        assert(a@ =~= b@);
    }
    true
}

} // verus!
