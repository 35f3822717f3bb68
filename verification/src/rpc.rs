//! The identifiers of RPC requests.

use vstd::prelude::*;
use vstd::string::StringSliceAdditionalSpecFns;

verus! {

/// 2^64, the modulus of `u64` arithmetic.
pub open spec fn u64_modulus() -> int {
    0x1_0000_0000_0000_0000
}

/// The hash33 of `bytes`: `h = h * 33 + b` over the bytes, modulo 2^64.
pub open spec fn spec_hash33(bytes: Seq<u8>) -> int
    decreases bytes.len(),
{
    if bytes.len() == 0 {
        0
    } else {
        (spec_hash33(bytes.drop_last()) * 33 + bytes.last()) % u64_modulus()
    }
}

/// Simple hash33 of the UTF-8 bytes of `s`, used to derive request IDs.
pub fn hash_str(s: &str) -> (h: u64)
    ensures
        h == spec_hash33(s.spec_bytes()),
{
    let bytes = s.as_bytes();
    let mut h: u64 = 0;
    let mut i: usize = 0;
    while i < bytes.len()
        invariant
            i <= bytes@.len(),
            bytes@ == s.spec_bytes(),
            h == spec_hash33(bytes@.take(i as int)),
        decreases bytes@.len() - i,
    {
        let ghost prev = h;
        h = h.wrapping_mul(33).wrapping_add(bytes[i] as u64);
        proof {
            let m = u64_modulus();
            assert(bytes@.take(i + 1).drop_last() == bytes@.take(i as int));
            vstd::arithmetic::div_mod::lemma_add_mod_noop(prev * 33, bytes@[i as int] as int, m);
            vstd::arithmetic::div_mod::lemma_small_mod(bytes@[i as int] as nat, m as nat);
            assert(((prev * 33) % m + bytes@[i as int]) % m == (prev * 33 + bytes@[i as int]) % m) by {
                vstd::arithmetic::div_mod::lemma_add_mod_noop_right(bytes@[i as int] as int, prev * 33, m);
                vstd::arithmetic::div_mod::lemma_mod_twice(prev * 33, m);
            }
        }
        i = i + 1;
    }
    proof {
        assert(bytes@.take(bytes@.len() as int) == bytes@);
    }
    h
}

} // verus!
