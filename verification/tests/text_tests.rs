use itemdb::text::{
    i32_text, join_strings, piece_count, split_pieces, str_eq, str_less, trim_str, usize_text,
};

#[test]
fn i32_text_writes_decimal() {
    assert_eq!(i32_text(0), "0");
    assert_eq!(i32_text(7), "7");
    assert_eq!(i32_text(1234), "1234");
    assert_eq!(i32_text(-56), "-56");
    assert_eq!(i32_text(i32::MAX), "2147483647");
    assert_eq!(i32_text(i32::MIN), "-2147483648");
}

#[test]
fn usize_text_writes_decimal() {
    assert_eq!(usize_text(0), "0");
    assert_eq!(usize_text(10), "10");
    assert_eq!(usize_text(90210), "90210");
}

#[test]
fn str_eq_compares_text() {
    assert!(str_eq("item", "item"));
    assert!(!str_eq("item", "items"));
    assert!(str_eq("", ""));
}

#[test]
fn str_less_is_the_order_of_str() {
    let words = ["", "Zeta", "alpha", "alphabet", "beta", "é", "😀"];
    for a in words.iter() {
        for b in words.iter() {
            assert_eq!(str_less(a, b), a < b, "{a:?} < {b:?}");
        }
    }
}

#[test]
fn join_strings_puts_separator_between() {
    let parts = vec!["a".to_string(), "bc".to_string(), "".to_string(), "d".to_string()];
    assert_eq!(join_strings(&parts, ", "), "a, bc, , d");
    assert_eq!(join_strings(&vec![], ", "), "");
    assert_eq!(join_strings(&vec!["x".to_string()], ", "), "x");
}

#[test]
fn trim_str_matches_str_trim() {
    for s in ["", "  ", " a ", "\n\tSELECT 1\r\n", "\u{3000}x\u{2028}", "a b", "\u{85}y"] {
        assert_eq!(trim_str(s), s.trim(), "{s:?}");
    }
}

#[test]
fn split_pieces_matches_str_split() {
    for s in ["", ";", "a;b", ";a;;b;", "no separator", "é;ü"] {
        let expected: Vec<&str> = s.split(';').collect();
        assert_eq!(split_pieces(s, ';'), expected, "{s:?}");
    }
}

#[test]
fn piece_count_counts_pipe_pieces() {
    assert_eq!(piece_count("auto|claim", '|'), 2);
    assert_eq!(piece_count("finance", '|'), 1);
    assert_eq!(piece_count("", '|'), 1);
    assert_eq!(piece_count("|a||", '|'), 4);
}
