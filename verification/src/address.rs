//! The 48-bit hardware address of a device as one 64-bit integer.
//!
//! The six bytes of an address are right-justified into eight big-endian
//! bytes: the first byte of the address becomes bits 40 to 47 of the integer,
//! the last byte bits 0 to 7, and bits 48 to 63 are zero.

use vstd::arithmetic::div_mod::{lemma_fundamental_div_mod, lemma_fundamental_div_mod_converse};
use vstd::prelude::*;

verus! {

/// One more than the largest compacted address.
pub const ADDRESS_LIMIT: u64 = 0x1_0000_0000_0000;

/// The integer that stands for the six bytes `a`.
pub open spec fn compact(a: Seq<u8>) -> int
    recommends
        a.len() == 6,
{
    a[0] * 0x100_0000_0000 + a[1] * 0x1_0000_0000 + a[2] * 0x100_0000 + a[3] * 0x1_0000 + a[4]
        * 0x100 + a[5]
}

/// The six bytes that the integer `v` stands for.
pub open spec fn expand(v: int) -> Seq<u8> {
    seq![
        ((v / 0x100_0000_0000) % 0x100) as u8,
        ((v / 0x1_0000_0000) % 0x100) as u8,
        ((v / 0x100_0000) % 0x100) as u8,
        ((v / 0x1_0000) % 0x100) as u8,
        ((v / 0x100) % 0x100) as u8,
        (v % 0x100) as u8,
    ]
}

/// A compacted address fits in 48 bits.
pub proof fn lemma_compact_bound(a: Seq<u8>)
    requires
        a.len() == 6,
    ensures
        0 <= compact(a) < ADDRESS_LIMIT,
{
}

/// Compacting an address and expanding the result gives the address back,
/// byte for byte.
pub proof fn lemma_expand_compact(a: Seq<u8>)
    requires
        a.len() == 6,
    ensures
        expand(compact(a)) == a,
{
    let v = compact(a);
    let h0 = a[0] as int;
    let h1 = h0 * 0x100 + a[1];
    let h2 = h1 * 0x100 + a[2];
    let h3 = h2 * 0x100 + a[3];
    let h4 = h3 * 0x100 + a[4];
    lemma_fundamental_div_mod_converse(v, 0x100, h4, a[5] as int);
    lemma_fundamental_div_mod_converse(v, 0x1_0000, h3, v - h3 * 0x1_0000);
    lemma_fundamental_div_mod_converse(v, 0x100_0000, h2, v - h2 * 0x100_0000);
    lemma_fundamental_div_mod_converse(v, 0x1_0000_0000, h1, v - h1 * 0x1_0000_0000);
    lemma_fundamental_div_mod_converse(v, 0x100_0000_0000, h0, v - h0 * 0x100_0000_0000);
    lemma_fundamental_div_mod_converse(h4, 0x100, h3, a[4] as int);
    lemma_fundamental_div_mod_converse(h3, 0x100, h2, a[3] as int);
    lemma_fundamental_div_mod_converse(h2, 0x100, h1, a[2] as int);
    lemma_fundamental_div_mod_converse(h1, 0x100, h0, a[1] as int);
    lemma_fundamental_div_mod_converse(h0, 0x100, 0, a[0] as int);
    assert(expand(v) =~= a);
}

/// Expanding an integer of at most 48 bits and compacting the bytes gives the
/// integer back.
pub proof fn lemma_compact_expand(v: int)
    requires
        0 <= v < ADDRESS_LIMIT,
    ensures
        expand(v).len() == 6,
        compact(expand(v)) == v,
{
    let q1 = v / 0x100;
    let q2 = v / 0x1_0000;
    let q3 = v / 0x100_0000;
    let q4 = v / 0x1_0000_0000;
    let q5 = v / 0x100_0000_0000;
    lemma_fundamental_div_mod(v, 0x100);
    lemma_fundamental_div_mod(q1, 0x100);
    lemma_fundamental_div_mod(q2, 0x100);
    lemma_fundamental_div_mod(q3, 0x100);
    lemma_fundamental_div_mod(q4, 0x100);
    lemma_fundamental_div_mod(q5, 0x100);
    lemma_fundamental_div_mod_converse(v, 0x1_0000, q1 / 0x100, (q1 % 0x100) * 0x100 + v % 0x100);
    lemma_fundamental_div_mod_converse(
        v,
        0x100_0000,
        q2 / 0x100,
        (q2 % 0x100) * 0x1_0000 + (q1 % 0x100) * 0x100 + v % 0x100,
    );
    lemma_fundamental_div_mod_converse(
        v,
        0x1_0000_0000,
        q3 / 0x100,
        (q3 % 0x100) * 0x100_0000 + (q2 % 0x100) * 0x1_0000 + (q1 % 0x100) * 0x100 + v % 0x100,
    );
    lemma_fundamental_div_mod_converse(
        v,
        0x100_0000_0000,
        q4 / 0x100,
        (q4 % 0x100) * 0x1_0000_0000 + (q3 % 0x100) * 0x100_0000 + (q2 % 0x100) * 0x1_0000 + (q1
            % 0x100) * 0x100 + v % 0x100,
    );
    assert(q5 < 0x100);
}

/// Two addresses with the same integer are the same address.
pub proof fn lemma_compact_injective(a: Seq<u8>, b: Seq<u8>)
    requires
        a.len() == 6,
        b.len() == 6,
        compact(a) == compact(b),
    ensures
        a == b,
{
    lemma_expand_compact(a);
    lemma_expand_compact(b);
}

/// Compacts the hardware address `a`.
pub fn get_long_addr(a: [u8; 6]) -> (v: u64)
    ensures
        v == compact(a@),
        v < ADDRESS_LIMIT,
{
    (a[0] as u64) * 0x100_0000_0000 + (a[1] as u64) * 0x1_0000_0000 + (a[2] as u64) * 0x100_0000
        + (a[3] as u64) * 0x1_0000 + (a[4] as u64) * 0x100 + (a[5] as u64)
}

/// Expands `v` into the six bytes of a hardware address. Bits 48 to 63 of `v`
/// play no part.
pub fn get_short_addr(v: u64) -> (a: [u8; 6])
    ensures
        a@ == expand(v as int),
{
    let a: [u8; 6] = [
        ((v / 0x100_0000_0000) % 0x100) as u8,
        ((v / 0x1_0000_0000) % 0x100) as u8,
        ((v / 0x100_0000) % 0x100) as u8,
        ((v / 0x1_0000) % 0x100) as u8,
        ((v / 0x100) % 0x100) as u8,
        (v % 0x100) as u8,
    ];
    assert(a@ =~= expand(v as int));
    a
}

} // verus!
