//! Deterministic storage-key derivation. A record's storage key is a
//! content-derived value: a 64-bit FNV-1a hash of a fixed namespace tag
//! followed by the question identifier's bytes. Each record carries the key it
//! was created under (`key_proof`), and the mapping can be re-checked at any
//! access by recomputing the hash and comparing.

use vstd::prelude::*;

verus! {

/// The FNV-1a 64-bit offset basis.
pub open spec fn fnv_offset() -> u64 {
    0xcbf29ce484222325
}

/// One FNV-1a step: fold one byte into the running hash.
pub open spec fn fnv_step(h: u64, b: u8) -> u64 {
    (h ^ (b as u64)).wrapping_mul(0x100000001b3)
}

/// FNV-1a over a byte sequence, starting from accumulator `h`.
pub open spec fn fnv_acc(h: u64, s: Seq<u8>) -> u64
    decreases s.len(),
{
    if s.len() == 0 {
        h
    } else {
        fnv_acc(fnv_step(h, s[0]), s.subrange(1, s.len() as int))
    }
}

/// The namespace tag prefixed to every question identifier before hashing:
/// the bytes of "bounty".
pub open spec fn namespace() -> Seq<u8> {
    seq![0x62u8, 0x6fu8, 0x75u8, 0x6eu8, 0x74u8, 0x79u8]
}

/// The storage key a question identifier maps to.
pub open spec fn derive_key(id: Seq<u8>) -> u64 {
    fnv_acc(fnv_acc(fnv_offset(), namespace()), id)
}

/// Folds every byte of `bytes` into the accumulator `h`, exactly as the
/// specification-level hash does.
fn fnv_bytes(h: u64, bytes: &[u8]) -> (r: u64)
    ensures
        r == fnv_acc(h, bytes@),
{
    let ghost all = bytes@;
    let mut acc: u64 = h;
    let mut i: usize = 0;
    proof {
        assert(all.subrange(0, all.len() as int) =~= all);
    }
    while i < bytes.len()
        invariant
            0 <= i <= all.len(),
            bytes@ == all,
            fnv_acc(h, all) == fnv_acc(acc, all.subrange(i as int, all.len() as int)),
        decreases all.len() - i,
    {
        let b = bytes[i];
        proof {
            let rest = all.subrange(i as int, all.len() as int);
            assert(rest[0] == all[i as int]);
            assert(rest.subrange(1, rest.len() as int)
                =~= all.subrange(i as int + 1, all.len() as int));
        }
        acc = (acc ^ (b as u64)).wrapping_mul(0x100000001b3);
        i = i + 1;
    }
    assert(all.subrange(all.len() as int, all.len() as int) =~= Seq::<u8>::empty());
    acc
}

/// Computes the storage key for a question identifier.
pub fn compute_key(id: &[u8]) -> (k: u64)
    ensures
        k == derive_key(id@),
{
    let ns: [u8; 6] = [0x62, 0x6f, 0x75, 0x6e, 0x74, 0x79];
    proof {
        assert(ns@ =~= namespace());
    }
    let h = fnv_bytes(0xcbf29ce484222325, ns.as_slice());
    fnv_bytes(h, id)
}

/// Compares two byte strings for equality of their contents.
pub fn bytes_eq(a: &[u8], b: &[u8]) -> (r: bool)
    ensures
        r == (a@ == b@),
{
    if a.len() != b.len() {
        return false;
    }
    let mut i: usize = 0;
    while i < a.len()
        invariant
            a@.len() == b@.len(),
            0 <= i <= a@.len(),
            forall|j: int| 0 <= j < i ==> a@[j] == b@[j],
        decreases a@.len() - i,
    {
        if a[i] != b[i] {
            return false;
        }
        i = i + 1;
    }
    proof {
        assert(a@ =~= b@);
    }
    true
}

} // verus!
