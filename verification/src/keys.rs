//! Keyed identity for recurring widgets, and the epoch trick.
//!
//! A widget's identity key is a stable FNV-1a hash of its semantic name,
//! XORed with an epoch counter.  Bumping the epoch (with wraparound) changes
//! every key derived from it, which forces the renderer to tear the widgets
//! down and recreate them; this is the only way to clear a free-text field
//! whose keystroke buffer the store does not own.

use vstd::prelude::*;
use vstd::string::StringSliceAdditionalSpecFns;

verus! {

/// FNV-1a offset basis.
pub const FNV_OFFSET: u64 = 14695981039346656037;

/// FNV-1a prime.
pub const FNV_PRIME: u64 = 1099511628211;

/// One FNV-1a step: fold byte `b` into the running hash `x`.
pub open spec fn hash_step(x: u64, b: u8) -> u64 {
    (x ^ (b as u64)).wrapping_mul(FNV_PRIME)
}

/// FNV-1a over `bytes`, starting from running hash `x`.
pub open spec fn spec_hash64_from(x: u64, bytes: Seq<u8>) -> u64
    decreases bytes.len(),
{
    if bytes.len() == 0 {
        x
    } else {
        spec_hash64_from(hash_step(x, bytes[0]), bytes.drop_first())
    }
}

/// FNV-1a hash of a byte sequence.
pub open spec fn spec_hash64(bytes: Seq<u8>) -> u64 {
    spec_hash64_from(FNV_OFFSET, bytes)
}

/// Identity key for the widget named `name` under epoch `epoch`.
pub open spec fn spec_key_for(name: Seq<u8>, epoch: u64) -> u64 {
    spec_hash64(name) ^ epoch
}

/// The epoch after a bump: increment with wraparound.
pub open spec fn spec_bump(epoch: u64) -> u64 {
    epoch.wrapping_add(1)
}

/// Stable FNV-1a hash of a name, used to key recurring widgets.
pub fn hash64(s: &str) -> (h: u64)
    ensures
        h == spec_hash64(s.spec_bytes()),
{
    let bytes = s.as_bytes();
    let mut x: u64 = FNV_OFFSET;
    let mut i: usize = 0;
    proof {
        assert(bytes@.skip(0) =~= bytes@);
    }
    while i < bytes.len()
        invariant
            i <= bytes@.len(),
            spec_hash64(s.spec_bytes()) == spec_hash64_from(x, bytes@.skip(i as int)),
            bytes@ == s.spec_bytes(),
        decreases bytes@.len() - i,
    {
        proof {
            assert(bytes@.skip(i as int).drop_first() =~= bytes@.skip(i + 1));
        }
        x = (x ^ (bytes[i] as u64)).wrapping_mul(FNV_PRIME);
        i = i + 1;
    }
    proof {
        assert(bytes@.skip(i as int) =~= Seq::<u8>::empty());
    }
    x
}

/// Identity key for the widget named `name` under `epoch`.
pub fn key_for(name: &str, epoch: u64) -> (k: u64)
    ensures
        k == spec_key_for(name.spec_bytes(), epoch),
{
    hash64(name) ^ epoch
}

/// Epoch increment with wraparound.
pub fn bump_epoch(epoch: u64) -> (e: u64)
    ensures
        e == spec_bump(epoch),
{
    epoch.wrapping_add(1)
}

/// Bumping the epoch changes the key of every name: the same name keyed
/// against adjacent epochs never collides, whatever the hash of the name is.
pub proof fn lemma_adjacent_epoch_keys_distinct(name: Seq<u8>, epoch: u64)
    ensures
        spec_key_for(name, epoch) != spec_key_for(name, spec_bump(epoch)),
{
    let h = spec_hash64(name);
    let e2 = spec_bump(epoch);
    assert(e2 == epoch.wrapping_add(1));
    assert(epoch.wrapping_add(1) != epoch) by (bit_vector);
    assert(forall|h: u64, a: u64, b: u64| a != b ==> h ^ a != h ^ b) by (bit_vector);
}

} // verus!
