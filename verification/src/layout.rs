//! The packed form of a sequence of bases: two bits for each base, four
//! bases to a byte.

use crate::{nuc_of_code, Nuc};
use vstd::prelude::*;

verus! {

/// The code of the `i`-th base of `s`, and 0 past its end.
pub open spec fn code_at(s: Seq<Nuc>, i: int) -> u8 {
    if 0 <= i < s.len() {
        s[i].spec_code()
    } else {
        0u8
    }
}

/// Four two-bit codes in one byte, the first in the lowest two bits.
pub open spec fn join_codes(c0: u8, c1: u8, c2: u8, c3: u8) -> u8 {
    c0 | (c1 << 2u8) | (c2 << 4u8) | (c3 << 6u8)
}

/// The two-bit code in position `k` of a byte, position 0 being the lowest
/// two bits.
pub open spec fn slot(byte: u8, k: int) -> u8 {
    if k == 0 {
        byte & 3u8
    } else if k == 1 {
        (byte >> 2u8) & 3u8
    } else if k == 2 {
        (byte >> 4u8) & 3u8
    } else {
        (byte >> 6u8) & 3u8
    }
}

/// The `j`-th byte of the packed form of `s`: the codes of the bases
/// `4j .. 4j + 3`, with 0 where `s` has ended.
pub open spec fn pack_byte(s: Seq<Nuc>, j: int) -> u8 {
    join_codes(
        code_at(s, 4 * j),
        code_at(s, 4 * j + 1),
        code_at(s, 4 * j + 2),
        code_at(s, 4 * j + 3),
    )
}

/// The number of bytes that hold `n` bases.
pub open spec fn packed_len(n: nat) -> nat {
    ((n + 3) / 4) as nat
}

/// The packed form of a sequence of bases.
pub open spec fn pack(s: Seq<Nuc>) -> Seq<u8> {
    Seq::new(packed_len(s.len()), |j: int| pack_byte(s, j))
}

/// The first `n` bases that the bytes hold.
pub open spec fn unpack(bytes: Seq<u8>, n: nat) -> Seq<Nuc> {
    Seq::new(n, |i: int| nuc_of_code(slot(bytes[i / 4], i % 4)))
}

proof fn lemma_slot_of_join(c0: u8, c1: u8, c2: u8, c3: u8)
    requires
        c0 < 4,
        c1 < 4,
        c2 < 4,
        c3 < 4,
    ensures
        slot(join_codes(c0, c1, c2, c3), 0) == c0,
        slot(join_codes(c0, c1, c2, c3), 1) == c1,
        slot(join_codes(c0, c1, c2, c3), 2) == c2,
        slot(join_codes(c0, c1, c2, c3), 3) == c3,
{
    assert((c0 | (c1 << 2u8) | (c2 << 4u8) | (c3 << 6u8)) & 3u8 == c0) by (bit_vector)
        requires
            c0 < 4,
            c1 < 4,
            c2 < 4,
            c3 < 4,
    ;
    assert(((c0 | (c1 << 2u8) | (c2 << 4u8) | (c3 << 6u8)) >> 2u8) & 3u8 == c1) by (bit_vector)
        requires
            c0 < 4,
            c1 < 4,
            c2 < 4,
            c3 < 4,
    ;
    assert(((c0 | (c1 << 2u8) | (c2 << 4u8) | (c3 << 6u8)) >> 4u8) & 3u8 == c2) by (bit_vector)
        requires
            c0 < 4,
            c1 < 4,
            c2 < 4,
            c3 < 4,
    ;
    assert(((c0 | (c1 << 2u8) | (c2 << 4u8) | (c3 << 6u8)) >> 6u8) & 3u8 == c3) by (bit_vector)
        requires
            c0 < 4,
            c1 < 4,
            c2 < 4,
            c3 < 4,
    ;
}

/// The packed form takes one byte for every four bases, and one more for
/// what is left of them.
pub proof fn lemma_pack_density(s: Seq<Nuc>)
    ensures
        pack(s).len() == packed_len(s.len()),
        s.len() <= 4 * pack(s).len() < s.len() + 4,
{
}

/// Unpacking the packed form of a sequence gives the sequence back: the
/// position `i % 4` of the byte `i / 4` holds the code of the base `i`.
pub proof fn lemma_unpack_pack(s: Seq<Nuc>)
    ensures
        unpack(pack(s), s.len()) == s,
        forall|i: int|
            0 <= i < s.len() ==> nuc_of_code(slot(#[trigger] pack(s)[i / 4], i % 4)) == s[i],
{
    assert forall|i: int| 0 <= i < s.len() implies unpack(pack(s), s.len())[i] == s[i] by {
        let j = i / 4;
        lemma_slot_of_join(
            code_at(s, 4 * j),
            code_at(s, 4 * j + 1),
            code_at(s, 4 * j + 2),
            code_at(s, 4 * j + 3),
        );
        assert(pack(s)[j] == pack_byte(s, j));
        assert(slot(pack(s)[j], i % 4) == s[i].spec_code());
    }
    assert(unpack(pack(s), s.len()) =~= s);
}

proof fn lemma_join_fill(c0: u8, c1: u8, c2: u8, c: u8)
    requires
        c0 < 4,
        c1 < 4,
        c2 < 4,
        c < 4,
    ensures
        join_codes(c, 0, 0, 0) == c,
        join_codes(c0, 0, 0, 0) | (c << 2u8) == join_codes(c0, c, 0, 0),
        join_codes(c0, c1, 0, 0) | (c << 4u8) == join_codes(c0, c1, c, 0),
        join_codes(c0, c1, c2, 0) | (c << 6u8) == join_codes(c0, c1, c2, c),
{
    assert(c | (0u8 << 2u8) | (0u8 << 4u8) | (0u8 << 6u8) == c) by (bit_vector);
    assert((c0 | (0u8 << 2u8) | (0u8 << 4u8) | (0u8 << 6u8)) | (c << 2u8) == c0 | (c << 2u8) | (0u8
        << 4u8) | (0u8 << 6u8)) by (bit_vector);
    assert((c0 | (c1 << 2u8) | (0u8 << 4u8) | (0u8 << 6u8)) | (c << 4u8) == c0 | (c1 << 2u8) | (c
        << 4u8) | (0u8 << 6u8)) by (bit_vector);
    assert((c0 | (c1 << 2u8) | (c2 << 4u8) | (0u8 << 6u8)) | (c << 6u8) == c0 | (c1 << 2u8) | (c2
        << 4u8) | (c << 6u8)) by (bit_vector);
}

/// Appends one base to the packed form of `s`.
pub(crate) fn pack_push(bytes: &mut Vec<u8>, len: usize, nuc: Nuc, Ghost(s): Ghost<Seq<Nuc>>)
    requires
        old(bytes)@ == pack(s),
        len == s.len(),
    ensures
        final(bytes)@ == pack(s.push(nuc)),
{
    let code: u8 = nuc.code();
    let k: usize = len % 4;
    let ghost t = s.push(nuc);
    let ghost j = len as int / 4;
    proof {
        lemma_join_fill(code_at(s, 4 * j), code_at(s, 4 * j + 1), code_at(s, 4 * j + 2), code);
        assert forall|i: int| 0 <= i < j implies pack_byte(t, i) == pack_byte(s, i) by {}
    }
    if k == 0 {
        bytes.push(code);
    } else {
        let last: usize = bytes.len() - 1;
        let byte: u8 = bytes[last];
        let moved: u8 = if k == 1 {
            code << 2u8
        } else if k == 2 {
            code << 4u8
        } else {
            code << 6u8
        };
        bytes.set(last, byte | moved);
    }
    assert(bytes@ =~= pack(t));
}

/// Reads the two-bit code in position `k` of a byte.
pub fn read_slot(byte: u8, k: usize) -> (code: u8)
    requires
        k < 4,
    ensures
        code == slot(byte, k as int),
        code < 4,
{
    let code: u8 = if k == 0 {
        byte & 3u8
    } else if k == 1 {
        (byte >> 2u8) & 3u8
    } else if k == 2 {
        (byte >> 4u8) & 3u8
    } else {
        (byte >> 6u8) & 3u8
    };
    assert(code < 4) by (bit_vector)
        requires
            code == byte & 3u8 || code == (byte >> 2u8) & 3u8 || code == (byte >> 4u8) & 3u8
                || code == (byte >> 6u8) & 3u8,
    ;
    code
}

} // verus!
