//! DNA sequences stored at two bits per nucleotide, four to a byte.

use crate::layout::{lemma_unpack_pack, pack, pack_push, read_slot, unpack};
use crate::{nuc_of_char, Nuc, ParseNucError};
use vstd::prelude::*;
use vstd::std_specs::iter::IteratorSpec;

verus! {

/// A DNA sequence held at two bits per base.
///
/// Its view is the sequence of bases it was built from. The bytes are the
/// packed form of that sequence: four bases to a byte, the earliest in the
/// lowest two bits, and unused bits of the last byte zero.
#[derive(Debug, PartialEq, Eq, Hash)]
pub struct PackedDna {
    bytes: Vec<u8>,
    len: usize,
}

/// The index that `PackedDna::get` was asked for, and the length of the
/// sequence that does not reach it.
#[derive(Debug, Clone, Copy, PartialEq, Eq, Hash, Structural)]
pub struct IndexOutOfRange {
    pub index: usize,
    pub length: usize,
}

impl View for PackedDna {
    type V = Seq<Nuc>;

    closed spec fn view(&self) -> Seq<Nuc> {
        unpack(self.bytes@, self.len as nat)
    }
}

impl Clone for PackedDna {
    fn clone(&self) -> (copy: PackedDna)
        ensures
            copy@ == self@,
    {
        proof {
            use_type_invariant(self);
        }
        PackedDna { bytes: self.bytes.clone(), len: self.len }
    }
}

impl PackedDna {
    #[verifier::type_invariant]
    spec fn is_packed(self) -> bool {
        self.bytes@ == pack(self@)
    }

    /// Packs the bases that the iterator yields, in the order in which it
    /// yields them. The iterator has to come to an end, and to yield no more
    /// bases than a `usize` can count.
    pub fn from_iterator<I: Iterator<Item = Nuc>>(iterator: I) -> (dna: PackedDna)
        requires
            iterator.obeys_prophetic_iter_laws(),
            iterator.decrease() is Some,
            iterator.remaining().len() <= usize::MAX,
        ensures
            dna@ == iterator.remaining(),
    {
        let mut source = iterator;
        let mut bytes: Vec<u8> = Vec::new();
        let mut len: usize = 0;
        let ghost mut taken: Seq<Nuc> = Seq::empty();
        assert(bytes@ =~= pack(taken));
        assert(taken + source.remaining() =~= iterator.remaining());
        loop
            invariant
                source.obeys_prophetic_iter_laws(),
                source.decrease() is Some,
                taken + source.remaining() == iterator.remaining(),
                iterator.remaining().len() <= usize::MAX,
                len == taken.len(),
                bytes@ == pack(taken),
            ensures
                taken == iterator.remaining(),
                len == taken.len(),
                bytes@ == pack(taken),
            decreases source.decrease()->0,
        {
            let ghost rest = source.remaining();
            match source.next() {
                Some(nuc) => {
                    pack_push(&mut bytes, len, nuc, Ghost(taken));
                    proof {
                        assert(taken.push(nuc) + rest.drop_first() =~= taken + rest);
                        taken = taken.push(nuc);
                    }
                    len = len + 1;
                },
                None => {
                    assert(taken + rest =~= taken);
                    break ;
                },
            }
        }
        proof {
            lemma_unpack_pack(taken);
        }
        PackedDna { bytes, len }
    }

    /// The number of bases in the sequence.
    pub fn len(&self) -> (n: usize)
        ensures
            n == self@.len(),
    {
        self.len
    }

    /// Whether the sequence holds no base.
    pub fn is_empty(&self) -> (b: bool)
        ensures
            b == (self@.len() == 0),
    {
        self.len == 0
    }

    /// The base at `idx`, or the index and the length where the sequence
    /// does not reach that far.
    pub fn get(&self, idx: usize) -> (r: Result<Nuc, IndexOutOfRange>)
        ensures
            idx < self@.len() ==> r == Ok::<Nuc, IndexOutOfRange>(self@[idx as int]),
            idx >= self@.len() ==> r == Err::<Nuc, IndexOutOfRange>(
                (IndexOutOfRange { index: idx, length: self@.len() as usize }),
            ),
    {
        proof {
            use_type_invariant(self);
        }
        if idx >= self.len {
            return Err(IndexOutOfRange { index: idx, length: self.len });
        }
        let code: u8 = read_slot(self.bytes[idx / 4], idx % 4);
        Ok(Nuc::from_code(code))
    }

    /// A pass over the bases, from the first to the last. Every pass starts
    /// anew at the first base and leaves the sequence as it is.
    pub fn iter(&self) -> (it: PackedDnaIter<'_>)
        ensures
            it.remaining() == self@,
            self@.len() <= usize::MAX,
    {
        assert(self@.skip(0) =~= self@);
        PackedDnaIter { dna: self, pos: 0 }
    }

    /// The bases of the sequence, unpacked.
    pub fn to_vec(&self) -> (nucs: Vec<Nuc>)
        ensures
            nucs@ == self@,
    {
        let mut nucs: Vec<Nuc> = Vec::new();
        let mut it = self.iter();
        loop
            invariant
                nucs@ + it.remaining() == self@,
            ensures
                nucs@ == self@,
            decreases it.remaining().len(),
        {
            let ghost rest = it.remaining();
            match it.next() {
                Some(nuc) => {
                    assert(nucs@.push(nuc) + rest.drop_first() =~= nucs@ + rest);
                    nucs.push(nuc);
                },
                None => {
                    assert(nucs@ + rest =~= nucs@);
                    break ;
                },
            }
        }
        nucs
    }

    /// The bytes that hold the sequence.
    pub fn as_bytes(&self) -> (bytes: &[u8])
        ensures
            bytes@ == pack(self@),
    {
        proof {
            use_type_invariant(self);
        }
        self.bytes.as_slice()
    }
}

/// One pass over the bases of a packed sequence.
#[derive(Debug)]
pub struct PackedDnaIter<'a> {
    dna: &'a PackedDna,
    pos: usize,
}

impl<'a> PackedDnaIter<'a> {
    #[verifier::type_invariant]
    spec fn in_range(self) -> bool {
        self.pos <= self.dna@.len()
    }

    /// The bases that the pass has yet to yield, in order.
    pub closed spec fn remaining(&self) -> Seq<Nuc> {
        self.dna@.skip(self.pos as int)
    }

    /// The next base of the pass, or `None` once the pass has yielded the
    /// last one.
    pub fn next(&mut self) -> (r: Option<Nuc>)
        ensures
            old(self).remaining().len() > 0 ==> r == Some(old(self).remaining()[0])
                && final(self).remaining() == old(self).remaining().drop_first(),
            old(self).remaining().len() == 0 ==> r is None && final(self).remaining() == old(
                self,
            ).remaining(),
    {
        proof {
            use_type_invariant(&*self);
        }
        match self.dna.get(self.pos) {
            Ok(nuc) => {
                assert(self.dna@.skip(self.pos as int).drop_first() =~= self.dna@.skip(
                    self.pos + 1,
                ));
                self.pos = self.pos + 1;
                Some(nuc)
            },
            Err(_) => None,
        }
    }
}

/// Two passes that start on one sequence have the same bases to yield, in
/// the same order: those of the sequence.
pub proof fn lemma_passes_agree(dna: &PackedDna, first: &PackedDnaIter, second: &PackedDnaIter)
    requires
        first.remaining() == dna@,
        second.remaining() == dna@,
    ensures
        first.remaining() == second.remaining(),
{
}

/// Whether every character of the text denotes a base.
pub open spec fn all_nucs(text: Seq<char>) -> bool {
    forall|i: int| 0 <= i < text.len() ==> (#[trigger] nuc_of_char(text[i])) is Some
}

/// Whether `i` is the place of the first character of the text that denotes
/// no base.
pub open spec fn is_first_invalid(text: Seq<char>, i: int) -> bool {
    &&& 0 <= i < text.len()
    &&& nuc_of_char(text[i]) is None
    &&& all_nucs(text.take(i))
}

/// The bases that the characters of the text denote, one for one.
pub open spec fn nucs_of_text(text: Seq<char>) -> Seq<Nuc> {
    text.map_values(|c: char| nuc_of_char(c).unwrap())
}

proof fn lemma_chars_fit_bytes(text: Seq<char>)
    ensures
        text.len() <= vstd::utf8::encode_utf8(text).len(),
    decreases text.len(),
{
    if text.len() > 0 {
        lemma_chars_fit_bytes(text.drop_first());
    }
}

impl std::str::FromStr for PackedDna {
    type Err = ParseNucError<char>;

    /// Packs the bases that the characters of the text denote, in either
    /// letter case. The first character that denotes no base is returned as
    /// the error, and nothing is packed.
    fn from_str(text: &str) -> (r: Result<PackedDna, ParseNucError<char>>)
        ensures
            match r {
                Ok(dna) => all_nucs(text@) && dna@ == nucs_of_text(text@),
                Err(e) => exists|i: int| is_first_invalid(text@, i) && e.0 == text@[i],
            },
    {
        let n_bytes: usize = text.as_bytes().len();
        let mut bytes: Vec<u8> = Vec::with_capacity(n_bytes / 4 + 1);
        let mut len: usize = 0;
        let mut chars = text.chars();
        let ghost mut taken: Seq<Nuc> = Seq::empty();
        proof {
            broadcast use vstd::string::group_string_axioms;

            lemma_chars_fit_bytes(text@);
            assert(bytes@ =~= pack(taken));
            assert(text@.skip(0) =~= text@);
        }
        loop
            invariant
                chars.decrease() is Some,
                0 <= len <= text@.len() <= usize::MAX,
                chars.remaining() == text@.skip(len as int),
                all_nucs(text@.take(len as int)),
                taken == nucs_of_text(text@.take(len as int)),
                bytes@ == pack(taken),
            ensures
                len == text@.len(),
                all_nucs(text@),
                taken == nucs_of_text(text@),
                bytes@ == pack(taken),
            decreases chars.decrease()->0,
        {
            proof {
                broadcast use vstd::string::group_string_axioms;

            }
            match chars.next() {
                Some(c) => {
                    assert(c == text@[len as int]);
                    match Nuc::try_from(c) {
                        Ok(nuc) => {
                            pack_push(&mut bytes, len, nuc, Ghost(taken));
                            proof {
                                let prefix = text@.take(len as int);
                                let longer = text@.take(len + 1);
                                assert(longer =~= prefix.push(c));
                                assert(nucs_of_text(longer) =~= nucs_of_text(prefix).push(nuc));
                                assert(text@.skip(len as int).drop_first() =~= text@.skip(len + 1));
                                taken = taken.push(nuc);
                            }
                            len = len + 1;
                        },
                        Err(e) => {
                            assert(is_first_invalid(text@, len as int));
                            return Err(e);
                        },
                    }
                },
                None => {
                    assert(text@.take(len as int) =~= text@);
                    break ;
                },
            }
        }
        proof {
            lemma_unpack_pack(taken);
        }
        Ok(PackedDna { bytes, len })
    }
}

} // verus!
