//! How often each base occurs in a sequence.

use crate::packed::{all_nucs, is_first_invalid, nucs_of_text, PackedDna};
use crate::{Nuc, ParseNucError};
use std::str::FromStr;
use vstd::prelude::*;

verus! {

/// The number of places of `s` that hold the base `nuc`.
pub open spec fn count_of(s: Seq<Nuc>, nuc: Nuc) -> nat {
    s.filter(|x: Nuc| x == nuc).len()
}

/// The number of occurrences of each base in one sequence.
#[derive(Debug, Clone, Copy, PartialEq, Eq, Hash, Structural)]
pub struct NucCounts {
    pub a: usize,
    pub c: usize,
    pub g: usize,
    pub t: usize,
}

impl NucCounts {
    /// Whether these are the numbers of occurrences of the four bases in `s`.
    pub open spec fn tallies(self, s: Seq<Nuc>) -> bool {
        &&& self.a == count_of(s, Nuc::A)
        &&& self.c == count_of(s, Nuc::C)
        &&& self.g == count_of(s, Nuc::G)
        &&& self.t == count_of(s, Nuc::T)
    }

    /// The number of occurrences counted for one base.
    pub fn of(&self, nuc: Nuc) -> (n: usize)
        ensures
            n == match nuc {
                Nuc::A => self.a,
                Nuc::C => self.c,
                Nuc::G => self.g,
                Nuc::T => self.t,
            },
    {
        match nuc {
            Nuc::A => self.a,
            Nuc::C => self.c,
            Nuc::G => self.g,
            Nuc::T => self.t,
        }
    }

    /// Counts the bases of a packed sequence in one pass over it.
    pub fn tally(dna: &PackedDna) -> (counts: NucCounts)
        ensures
            counts.tallies(dna@),
            counts.a + counts.c + counts.g + counts.t == dna@.len(),
    {
        let mut counts = NucCounts { a: 0, c: 0, g: 0, t: 0 };
        let mut it = dna.iter();
        let ghost mut seen: Seq<Nuc> = Seq::empty();
        proof {
            lemma_counts_sum(seen);
            assert(seen + it.remaining() =~= dna@);
        }
        loop
            invariant
                seen + it.remaining() == dna@,
                dna@.len() <= usize::MAX,
                counts.tallies(seen),
            ensures
                counts.tallies(dna@),
            decreases it.remaining().len(),
        {
            let ghost rest = it.remaining();
            match it.next() {
                Some(nuc) => {
                    proof {
                        lemma_count_push(seen, nuc);
                        lemma_counts_sum(seen.push(nuc));
                        assert(seen.push(nuc) + rest.drop_first() =~= seen + rest);
                        seen = seen.push(nuc);
                    }
                    match nuc {
                        Nuc::A => {
                            counts.a = counts.a + 1;
                        },
                        Nuc::C => {
                            counts.c = counts.c + 1;
                        },
                        Nuc::G => {
                            counts.g = counts.g + 1;
                        },
                        Nuc::T => {
                            counts.t = counts.t + 1;
                        },
                    }
                },
                None => {
                    assert(seen + rest =~= seen);
                    break ;
                },
            }
        }
        proof {
            lemma_counts_sum(dna@);
        }
        counts
    }
}

/// One more base at the end adds one to the count of that base and nothing
/// to the counts of the others.
pub proof fn lemma_count_push(s: Seq<Nuc>, nuc: Nuc)
    ensures
        forall|other: Nuc| #[trigger]
            count_of(s.push(nuc), other) == count_of(s, other) + if other == nuc {
                1int
            } else {
                0int
            },
{
    assert forall|other: Nuc| #[trigger]
        count_of(s.push(nuc), other) == count_of(s, other) + if other == nuc {
            1int
        } else {
            0int
        } by {
        s.lemma_filter_len_push(|x: Nuc| x == other, nuc);
    }
}

/// The counts of the four bases add up to the length of the sequence.
pub proof fn lemma_counts_sum(s: Seq<Nuc>)
    ensures
        count_of(s, Nuc::A) + count_of(s, Nuc::C) + count_of(s, Nuc::G) + count_of(s, Nuc::T)
            == s.len(),
    decreases s.len(),
{
    if s.len() == 0 {
        assert(s.filter(|x: Nuc| x == Nuc::A) =~= Seq::<Nuc>::empty());
        assert(s.filter(|x: Nuc| x == Nuc::C) =~= Seq::<Nuc>::empty());
        assert(s.filter(|x: Nuc| x == Nuc::G) =~= Seq::<Nuc>::empty());
        assert(s.filter(|x: Nuc| x == Nuc::T) =~= Seq::<Nuc>::empty());
    } else {
        let front = s.drop_last();
        lemma_counts_sum(front);
        lemma_count_push(front, s.last());
        assert(front.push(s.last()) =~= s);
    }
}

/// Reads a text as a DNA sequence and counts its bases. A text with a
/// character that denotes no base gives that character, the first of them,
/// and no counts.
pub fn count_text(text: &str) -> (r: Result<NucCounts, ParseNucError<char>>)
    ensures
        match r {
            Ok(counts) => all_nucs(text@) && counts.tallies(nucs_of_text(text@)),
            Err(e) => exists|i: int| is_first_invalid(text@, i) && e.0 == text@[i],
        },
{
    match PackedDna::from_str(text) {
        Ok(dna) => Ok(NucCounts::tally(&dna)),
        Err(e) => Err(e),
    }
}

} // verus!
