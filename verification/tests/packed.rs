use dna::layout::read_slot;
use dna::packed::{IndexOutOfRange, PackedDna};
use dna::{Nuc, ParseNucError};
use std::str::FromStr;

fn pattern(n: usize) -> Vec<Nuc> {
    let all = [Nuc::G, Nuc::A, Nuc::T, Nuc::T, Nuc::C, Nuc::A, Nuc::G];
    (0..n).map(|i| all[(i * i + i / 3) % all.len()]).collect()
}

fn collect(dna: &PackedDna) -> Vec<Nuc> {
    let mut out = Vec::new();
    let mut it = dna.iter();
    while let Some(nuc) = it.next() {
        out.push(nuc);
    }
    out
}

#[test]
fn packed_dna_from_iterator() {
    let nucs = vec![Nuc::A, Nuc::C, Nuc::G, Nuc::T];
    let packed_dna = PackedDna::from_iterator(nucs.iter().cloned());
    assert_eq!(packed_dna.get(0), Ok(Nuc::A));
    assert_eq!(packed_dna.get(1), Ok(Nuc::C));
    assert_eq!(packed_dna.get(2), Ok(Nuc::G));
    assert_eq!(packed_dna.get(3), Ok(Nuc::T));
}

#[test]
fn round_trip_by_index() {
    for n in 0..70 {
        let nucs = pattern(n);
        let dna = PackedDna::from_iterator(nucs.iter().cloned());
        assert_eq!(dna.len(), n);
        for i in 0..n {
            assert_eq!(dna.get(i), Ok(nucs[i]));
        }
    }
}

#[test]
fn round_trip_by_iteration() {
    for n in 0..70 {
        let nucs = pattern(n);
        let dna = PackedDna::from_iterator(nucs.iter().cloned());
        assert_eq!(collect(&dna), nucs);
        assert_eq!(dna.to_vec(), nucs);
    }
}

#[test]
fn iteration_starts_anew_each_time() {
    let nucs = pattern(11);
    let dna = PackedDna::from_iterator(nucs.iter().cloned());
    let first = collect(&dna);
    let second = collect(&dna);
    assert_eq!(first, second);
    assert_eq!(first, nucs);
    let mut half = dna.iter();
    assert_eq!(half.next(), Some(nucs[0]));
    assert_eq!(half.next(), Some(nucs[1]));
    let mut fresh = dna.iter();
    assert_eq!(fresh.next(), Some(nucs[0]));
    assert_eq!(half.next(), Some(nucs[2]));
}

#[test]
fn iteration_stays_at_the_end() {
    let dna = PackedDna::from_iterator(vec![Nuc::T].into_iter());
    let mut it = dna.iter();
    assert_eq!(it.next(), Some(Nuc::T));
    assert_eq!(it.next(), None);
    assert_eq!(it.next(), None);
}

#[test]
fn empty_sequence() {
    let dna = PackedDna::from_iterator(Vec::<Nuc>::new().into_iter());
    assert_eq!(dna.len(), 0);
    assert!(dna.is_empty());
    assert_eq!(dna.as_bytes().len(), 0);
    assert_eq!(dna.get(0), Err(IndexOutOfRange { index: 0, length: 0 }));
    assert_eq!(dna.iter().next(), None);
    assert_eq!(dna.to_vec(), Vec::<Nuc>::new());
}

#[test]
fn four_bases_to_a_byte() {
    for n in 0..70 {
        let dna = PackedDna::from_iterator(pattern(n).into_iter());
        assert_eq!(dna.as_bytes().len(), (n + 3) / 4);
        assert_eq!(dna.is_empty(), n == 0);
    }
}

#[test]
fn first_base_in_the_lowest_bits() {
    let dna = PackedDna::from_iterator(vec![Nuc::A, Nuc::C, Nuc::G, Nuc::T].into_iter());
    assert_eq!(dna.as_bytes(), &[0b11_10_01_00u8][..]);
    let dna = PackedDna::from_iterator(vec![Nuc::T, Nuc::T, Nuc::T, Nuc::T, Nuc::C].into_iter());
    assert_eq!(dna.as_bytes(), &[0xffu8, 0x01][..]);
    let dna = PackedDna::from_iterator(vec![Nuc::G, Nuc::C].into_iter());
    assert_eq!(dna.as_bytes(), &[0b01_10u8][..]);
    let dna = PackedDna::from_iterator(vec![Nuc::A, Nuc::A, Nuc::T].into_iter());
    assert_eq!(dna.as_bytes(), &[0b11_00_00u8][..]);
}

#[test]
fn index_past_the_end() {
    for n in 0..20 {
        let nucs = pattern(n);
        let dna = PackedDna::from_iterator(nucs.iter().cloned());
        assert_eq!(dna.get(n), Err(IndexOutOfRange { index: n, length: n }));
        assert_eq!(dna.get(n + 1), Err(IndexOutOfRange { index: n + 1, length: n }));
        assert_eq!(dna.get(usize::MAX), Err(IndexOutOfRange { index: usize::MAX, length: n }));
        if n > 0 {
            assert_eq!(dna.get(n - 1), Ok(nucs[n - 1]));
        }
    }
}

#[test]
fn text_in_upper_case() {
    let dna = PackedDna::from_str("ACGTTT").unwrap();
    assert_eq!(dna.len(), 6);
    assert_eq!(dna.to_vec(), vec![Nuc::A, Nuc::C, Nuc::G, Nuc::T, Nuc::T, Nuc::T]);
}

#[test]
fn text_in_mixed_case() {
    let lower = PackedDna::from_str("acgtTT").unwrap();
    let upper = PackedDna::from_str("ACGTTT").unwrap();
    assert_eq!(lower, upper);
    assert_eq!(lower.to_vec(), upper.to_vec());
}

#[test]
fn text_parses_through_str_parse() {
    let dna: PackedDna = "gattaca".parse().unwrap();
    assert_eq!(
        dna.to_vec(),
        vec![Nuc::G, Nuc::A, Nuc::T, Nuc::T, Nuc::A, Nuc::C, Nuc::A]
    );
}

#[test]
fn empty_text() {
    let dna = PackedDna::from_str("").unwrap();
    assert!(dna.is_empty());
}

#[test]
fn text_with_an_invalid_character() {
    assert_eq!(PackedDna::from_str("ACGTN").unwrap_err(), ParseNucError('N'));
    assert_eq!(PackedDna::from_str("n").unwrap_err(), ParseNucError('n'));
    assert_eq!(PackedDna::from_str("ACG T").unwrap_err(), ParseNucError(' '));
}

#[test]
fn text_reports_the_first_invalid_character() {
    assert_eq!(PackedDna::from_str("AXCY").unwrap_err(), ParseNucError('X'));
    assert_eq!(PackedDna::from_str("yAXC").unwrap_err(), ParseNucError('y'));
    assert_eq!(PackedDna::from_str("ACGT\u{e9}N").unwrap_err(), ParseNucError('\u{e9}'));
}

#[test]
fn text_agrees_with_the_characters_one_by_one() {
    let text = "tgcaACGTacgtTGCAg";
    let nucs: Vec<Nuc> = text.chars().map(|c| Nuc::try_from(c).unwrap()).collect();
    assert_eq!(PackedDna::from_str(text).unwrap().to_vec(), nucs);
    assert_eq!(
        PackedDna::from_str(text).unwrap(),
        PackedDna::from_iterator(nucs.into_iter())
    );
}

#[test]
fn copy_holds_the_same_bases() {
    let dna = PackedDna::from_iterator(pattern(13).into_iter());
    let copy = dna.clone();
    assert_eq!(copy, dna);
    assert_eq!(copy.to_vec(), dna.to_vec());
    assert_eq!(copy.as_bytes(), dna.as_bytes());
}

#[test]
fn sequences_differ_by_length_and_by_base() {
    let a = PackedDna::from_iterator(vec![Nuc::A, Nuc::A].into_iter());
    let b = PackedDna::from_iterator(vec![Nuc::A].into_iter());
    let c = PackedDna::from_iterator(vec![Nuc::A, Nuc::C].into_iter());
    assert_ne!(a, b);
    assert_ne!(a, c);
}

#[test]
fn slots_of_a_byte() {
    assert_eq!(read_slot(0b11_10_01_00, 0), 0);
    assert_eq!(read_slot(0b11_10_01_00, 1), 1);
    assert_eq!(read_slot(0b11_10_01_00, 2), 2);
    assert_eq!(read_slot(0b11_10_01_00, 3), 3);
    assert_eq!(read_slot(0b00_01_11_10, 0), 2);
    assert_eq!(read_slot(0b00_01_11_10, 1), 3);
    assert_eq!(read_slot(0b00_01_11_10, 2), 1);
    assert_eq!(read_slot(0b00_01_11_10, 3), 0);
}
