use brain_ops::bytes::{less16, put_be, put_le, read_be, read_le};
use brain_ops::graph_fetch::spine_range;
use brain_ops::hash::first8;
use brain_ops::scope::RowScope;
use brain_ops::single::{Double, Single};
use brain_ops::text::{
    hex_text, is_blank, join_list, push_decimal, push_wide_decimal, signed_text, split_words,
    take_chars, trim_text,
};

#[test]
fn text_is_trimmed_and_split_at_white_space() {
    assert_eq!(trim_text("  ada \u{00a0}lovelace\t\n"), "ada \u{00a0}lovelace");
    assert_eq!(trim_text(" \t "), "");
    assert!(is_blank("\u{2003} "));
    assert!(!is_blank(" x "));
    let words: Vec<String> =
        split_words(" one\ttwo  three ").iter().map(|w| w.iter().collect()).collect();
    assert_eq!(words, vec!["one", "two", "three"]);
}

#[test]
fn numbers_print_in_decimal() {
    let mut out = String::from("n=");
    push_decimal(&mut out, u64::MAX);
    assert_eq!(out, format!("n={}", u64::MAX));
    let mut wide = String::new();
    push_wide_decimal(&mut wide, u128::MAX);
    assert_eq!(wide, u128::MAX.to_string());
    let mut zero = String::new();
    push_decimal(&mut zero, 0);
    assert_eq!(zero, "0");
    assert_eq!(signed_text(i64::MIN), i64::MIN.to_string());
    assert_eq!(signed_text(-7), "-7");
    assert_eq!(hex_text(&[0x0f, 0xa0]), "0fa0");
}

#[test]
fn text_is_cut_at_characters() {
    assert_eq!(take_chars("héllo", 2), "hé");
    assert_eq!(take_chars("hé", 9), "hé");
    assert_eq!(join_list(&vec!["a".to_string(), "b".to_string()], ", "), "a, b");
    assert_eq!(join_list(&Vec::new(), ", "), "");
}

#[test]
fn bytes_read_back_as_written() {
    let mut out: Vec<u8> = Vec::new();
    put_le(&mut out, 0x0102_0304, 4);
    put_be(&mut out, 0x0102_0304, 4);
    assert_eq!(out, vec![4, 3, 2, 1, 1, 2, 3, 4]);
    assert_eq!(read_le(&out, 0, 4), 0x0102_0304);
    assert_eq!(read_be(&out, 4, 4), 0x0102_0304);
}

#[test]
fn ids_order_by_their_first_difference() {
    let mut a = [0u8; 16];
    let mut b = [0u8; 16];
    assert!(!less16(&a, &b));
    a[15] = 200;
    b[3] = 1;
    assert!(less16(&a, &b));
    assert!(!less16(&b, &a));
}

#[test]
fn bit_patterns_order_as_floats() {
    let xs = [f32::NEG_INFINITY, -1.5, -0.0, 0.0, 1e-40, 0.5, 2.0, f32::INFINITY, f32::NAN];
    for x in xs {
        for y in xs {
            let a = Single::from_bits(x.to_bits());
            let b = Single::from_bits(y.to_bits());
            assert_eq!(a.is_below(b), x < y);
            assert_eq!(a.is_at_most(b), x <= y);
        }
        assert_eq!(Single::from_bits(x.to_bits()).is_nan(), x.is_nan());
    }
    let one = Double { bits: 1.0f64.to_bits() };
    let two = Double { bits: 2.0f64.to_bits() };
    assert!(one.order_key() < two.order_key());
    assert!(one.is_equal(Double { bits: 1.0f64.to_bits() }));
    let zero = Double { bits: 0.0f64.to_bits() };
    assert!(zero.is_equal(Double { bits: (-0.0f64).to_bits() }));
}

#[test]
fn digests_are_cut_to_eight_bytes() {
    let mut full = [0u8; 32];
    for (i, b) in full.iter_mut().enumerate() {
        *b = i as u8;
    }
    assert_eq!(first8(&full), [0, 1, 2, 3, 4, 5, 6, 7]);
}

#[test]
fn spine_spans_the_callers_statements() {
    let scope = RowScope::from_bytes(7, [9; 16]);
    let (low, high) = spine_range(&scope);
    assert_eq!(low, (7, [9; 16], [0; 16], 0, 0, 0, [0; 16]));
    assert_eq!(high, (7, [9; 16], [0xff; 16], u8::MAX, u32::MAX, u8::MAX, [0xff; 16]));
}

#[test]
fn white_space_is_a_short_list() {
    for c in '\0'..=char::MAX {
        let listed = matches!(
            c,
            '\u{9}'..='\u{D}'
                | ' '
                | '\u{85}'
                | '\u{A0}'
                | '\u{1680}'
                | '\u{2000}'..='\u{200A}'
                | '\u{2028}'
                | '\u{2029}'
                | '\u{202F}'
                | '\u{205F}'
                | '\u{3000}'
        );
        assert_eq!(is_blank(&c.to_string()), listed, "{:x}", c as u32);
    }
}
