use dna::count::{count_text, NucCounts};
use dna::packed::PackedDna;
use dna::report::{push_decimal, report};
use dna::{Nuc, ParseNucError};
use std::str::FromStr;

fn decimal(n: usize) -> String {
    let mut out = String::new();
    push_decimal(&mut out, n);
    out
}

#[test]
fn counts_of_a_short_text() {
    let dna = PackedDna::from_str("ACGTTT").unwrap();
    assert_eq!(dna.len(), 6);
    let counts = NucCounts::tally(&dna);
    assert_eq!(counts, NucCounts { a: 1, c: 1, g: 1, t: 3 });
    assert_eq!(count_text("ACGTTT"), Ok(NucCounts { a: 1, c: 1, g: 1, t: 3 }));
}

#[test]
fn report_of_a_short_text() {
    let counts = count_text("ACGTTT").unwrap();
    assert_eq!(report("ACGTTT", &counts), "Input: ACGTTT\n\nA: 1\nC: 1\nG: 1\nT: 3\n");
}

#[test]
fn counts_do_not_depend_on_letter_case() {
    assert_eq!(count_text("acgtTT"), count_text("ACGTTT"));
    assert_eq!(count_text("acgtTT"), Ok(NucCounts { a: 1, c: 1, g: 1, t: 3 }));
}

#[test]
fn report_keeps_the_input_as_given() {
    let counts = count_text("acgtTT").unwrap();
    assert_eq!(report("acgtTT", &counts), "Input: acgtTT\n\nA: 1\nC: 1\nG: 1\nT: 3\n");
}

#[test]
fn invalid_text_gives_no_counts() {
    assert_eq!(count_text("ACGTN"), Err(ParseNucError('N')));
    assert_eq!(count_text("ACxGTN"), Err(ParseNucError('x')));
}

#[test]
fn counts_of_the_empty_text() {
    assert_eq!(count_text(""), Ok(NucCounts { a: 0, c: 0, g: 0, t: 0 }));
    let counts = count_text("").unwrap();
    assert_eq!(report("", &counts), "Input: \n\nA: 0\nC: 0\nG: 0\nT: 0\n");
}

#[test]
fn counts_add_up_to_the_length() {
    let text = "gattacaGATTACAccgtTTTTTTTTTTTa";
    let dna = PackedDna::from_str(text).unwrap();
    let counts = NucCounts::tally(&dna);
    assert_eq!(counts.a + counts.c + counts.g + counts.t, dna.len());
    assert_eq!(counts, NucCounts { a: 7, c: 4, g: 3, t: 16 });
}

#[test]
fn counts_by_base() {
    let counts = NucCounts { a: 5, c: 6, g: 7, t: 8 };
    assert_eq!(counts.of(Nuc::A), 5);
    assert_eq!(counts.of(Nuc::C), 6);
    assert_eq!(counts.of(Nuc::G), 7);
    assert_eq!(counts.of(Nuc::T), 8);
}

#[test]
fn counts_of_one_base_only() {
    let dna = PackedDna::from_iterator(std::iter::repeat(Nuc::G).take(1000));
    assert_eq!(NucCounts::tally(&dna), NucCounts { a: 0, c: 0, g: 1000, t: 0 });
}

#[test]
fn report_with_long_numbers() {
    let counts = NucCounts { a: 10, c: 0, g: 123456789, t: 907 };
    assert_eq!(report("x", &counts), "Input: x\n\nA: 10\nC: 0\nG: 123456789\nT: 907\n");
}

#[test]
fn decimal_digits() {
    assert_eq!(decimal(0), "0");
    assert_eq!(decimal(7), "7");
    assert_eq!(decimal(9), "9");
    assert_eq!(decimal(10), "10");
    assert_eq!(decimal(99), "99");
    assert_eq!(decimal(100), "100");
    assert_eq!(decimal(1234567890), "1234567890");
    assert_eq!(decimal(usize::MAX), format!("{}", usize::MAX));
}

#[test]
fn decimal_is_written_at_the_end() {
    let mut out = String::from("n = ");
    push_decimal(&mut out, 42);
    assert_eq!(out, "n = 42");
    push_decimal(&mut out, 0);
    assert_eq!(out, "n = 420");
}
