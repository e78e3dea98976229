//! Nucleotides and densely packed DNA sequences.

use vstd::prelude::*;
use vstd::std_specs::convert::TryFromSpecImpl;

pub mod count;
pub mod layout;
pub mod packed;
pub mod report;

verus! {

/// One of the four DNA bases.
#[derive(Debug, Clone, Copy, PartialEq, Eq, Hash, Structural)]
pub enum Nuc {
    /// Adenine
    A,
    /// Cytosine
    C,
    /// Guanine
    G,
    /// Thymine
    T,
}

impl Nuc {
    /// The two-bit code of a base: A is 0, C is 1, G is 2 and T is 3.
    pub open spec fn spec_code(self) -> u8 {
        match self {
            Nuc::A => 0u8,
            Nuc::C => 1u8,
            Nuc::G => 2u8,
            Nuc::T => 3u8,
        }
    }

    /// The base with the given two-bit code.
    pub fn from_code(code: u8) -> (nuc: Nuc)
        requires
            code < 4,
        ensures
            nuc == nuc_of_code(code),
            nuc.spec_code() == code,
    {
        if code == 0 {
            Nuc::A
        } else if code == 1 {
            Nuc::C
        } else if code == 2 {
            Nuc::G
        } else {
            Nuc::T
        }
    }

    /// The two-bit code of this base.
    pub fn code(self) -> (c: u8)
        ensures
            c == self.spec_code(),
            c < 4,
    {
        match self {
            Nuc::A => 0u8,
            Nuc::C => 1u8,
            Nuc::G => 2u8,
            Nuc::T => 3u8,
        }
    }
}

/// The base that a two-bit code stands for.
pub open spec fn nuc_of_code(code: u8) -> Nuc {
    if code == 0 {
        Nuc::A
    } else if code == 1 {
        Nuc::C
    } else if code == 2 {
        Nuc::G
    } else {
        Nuc::T
    }
}

/// The bases and the two-bit codes stand for each other, one for one.
pub proof fn lemma_code_bijective()
    ensures
        forall|nuc: Nuc| #[trigger] nuc.spec_code() < 4 && nuc_of_code(nuc.spec_code()) == nuc,
        forall|code: u8| code < 4 ==> (#[trigger] nuc_of_code(code)).spec_code() == code,
{
}

/// The input that could not be read as a nucleotide.
#[derive(Debug, PartialEq, Eq)]
pub struct ParseNucError<T>(pub T);

/// `String::push`: the character is added at the end of the string.
pub assume_specification[ String::push ](s: &mut String, c: char)
    ensures
        final(s)@ == old(s)@.push(c),
;

impl ParseNucError<char> {
    /// What went wrong, in words, with the character that was refused.
    pub fn message(&self) -> (text: String)
        ensures
            text@ == "failed to parse nucleotide from "@.push(self.0),
    {
        let mut text: String = String::new();
        text.append("failed to parse nucleotide from ");
        text.push(self.0);
        text
    }
}

impl ParseNucError<String> {
    /// What went wrong, in words, with the token that was refused.
    pub fn message(&self) -> (text: String)
        ensures
            text@ == "failed to parse nucleotide from "@ + self.0@,
    {
        let mut text: String = String::new();
        text.append("failed to parse nucleotide from ");
        text.append(self.0.as_str());
        text
    }
}

/// The upper-case form of an ASCII lower-case letter; any other character
/// is its own upper-case form.
pub open spec fn ascii_upper(c: char) -> char {
    if 'a' <= c && c <= 'z' {
        ((c as u32) - 32) as char
    } else {
        c
    }
}

/// The base that a character denotes, in either letter case.
pub open spec fn nuc_of_char(c: char) -> Option<Nuc> {
    if c == 'A' || c == 'a' {
        Some(Nuc::A)
    } else if c == 'C' || c == 'c' {
        Some(Nuc::C)
    } else if c == 'G' || c == 'g' {
        Some(Nuc::G)
    } else if c == 'T' || c == 't' {
        Some(Nuc::T)
    } else {
        None
    }
}

/// `char::to_ascii_uppercase`: the letters `a` to `z` become `A` to `Z`,
/// every other character is returned as it is.
pub assume_specification[ char::to_ascii_uppercase ](c: &char) -> (u: char)
    ensures
        u == ascii_upper(*c),
;

/// The upper-case form of a text, character by character.
pub open spec fn ascii_upper_seq(s: Seq<char>) -> Seq<char> {
    s.map_values(|c: char| ascii_upper(c))
}

/// The base that a token denotes: a token of exactly one character that
/// denotes a base, in either letter case.
pub open spec fn nuc_of_token(s: Seq<char>) -> Option<Nuc> {
    if s.len() == 1 {
        nuc_of_char(s[0])
    } else {
        None
    }
}

/// `str::to_ascii_uppercase`: a new string of the same characters, each
/// replaced by its ASCII upper-case form.
pub assume_specification[ str::to_ascii_uppercase ](s: &str) -> (u: String)
    ensures
        u@ == ascii_upper_seq(s@),
;

/// Letter case makes no difference to the base that a character or a
/// token denotes.
pub proof fn lemma_case_insensitive(c: char, token: Seq<char>)
    ensures
        nuc_of_char(ascii_upper(c)) == nuc_of_char(c),
        nuc_of_token(ascii_upper_seq(token)) == nuc_of_token(token),
{
}

impl std::str::FromStr for Nuc {
    type Err = ParseNucError<String>;

    /// The base that a token of one letter denotes, in either letter case.
    /// Any other token is refused, and returned in upper case as the error.
    fn from_str(s: &str) -> (r: Result<Self, Self::Err>)
        ensures
            match r {
                Ok(n) => nuc_of_token(s@) == Some(n),
                Err(e) => nuc_of_token(s@) is None && e.0@ == ascii_upper_seq(s@),
            },
    {
        let upper = s.to_ascii_uppercase();
        let mut chars = upper.as_str().chars();
        let first = chars.next();
        let second = chars.next();
        proof {
            broadcast use vstd::string::group_string_axioms;
        }
        match (first, second) {
            (Some('A'), None) => Ok(Nuc::A),
            (Some('C'), None) => Ok(Nuc::C),
            (Some('G'), None) => Ok(Nuc::G),
            (Some('T'), None) => Ok(Nuc::T),
            _ => Err(ParseNucError(upper)),
        }
    }
}

impl TryFrom<char> for Nuc {
    type Error = ParseNucError<char>;

    /// The base that a letter denotes, in either letter case. Any other
    /// character is refused, and returned as the error.
    fn try_from(value: char) -> (r: Result<Self, Self::Error>)
        ensures
            match nuc_of_char(value) {
                Some(nuc) => r == Ok::<Nuc, ParseNucError<char>>(nuc),
                None => r == Err::<Nuc, ParseNucError<char>>(ParseNucError(value)),
            },
    {
        match value.to_ascii_uppercase() {
            'A' => Ok(Nuc::A),
            'C' => Ok(Nuc::C),
            'G' => Ok(Nuc::G),
            'T' => Ok(Nuc::T),
            _ => Err(ParseNucError(value)),
        }
    }
}

impl TryFromSpecImpl<char> for Nuc {
    open spec fn obeys_try_from_spec() -> bool {
        true
    }

    open spec fn try_from_spec(v: char) -> Result<Self, Self::Error> {
        match nuc_of_char(v) {
            Some(n) => Ok(n),
            None => Err(ParseNucError(v)),
        }
    }
}

} // verus!
