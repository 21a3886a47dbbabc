use wallet_performance::text::{
    chars_of, clone_opt, contains, decimal_string, is_whitespace, join, labelled,
    parse_u64, signed_decimal_string, split_words, str_eq, str_lt,
};

#[test]
fn whitespace_agrees_with_the_standard_library() {
    for n in 0u32..0x110000 {
        if let Some(c) = char::from_u32(n) {
            assert_eq!(is_whitespace(c), c.is_whitespace(), "{:?}", c);
        }
    }
}

#[test]
fn decimals_agree_with_the_standard_library() {
    for n in [0u64, 1, 9, 10, 11, 99, 100, 12_345, 522_000, u64::MAX - 1, u64::MAX] {
        assert_eq!(decimal_string(n), n.to_string());
        assert_eq!(parse_u64(&decimal_string(n)), Some(n));
    }
    for n in [0i32, 1, -1, 10, -10, i32::MAX, i32::MIN] {
        assert_eq!(signed_decimal_string(n), n.to_string());
    }
}

#[test]
fn numbers_are_parsed_as_the_standard_library_does() {
    let texts = [
        "", "+", "-", "0", "00", "007", "+7", "++7", "-7", " 7", "7 ", "1a", "18446744073709551615",
        "18446744073709551616", "99999999999999999999999", "\u{0663}", "0x10",
    ];
    for t in texts {
        assert_eq!(parse_u64(t), t.parse::<u64>().ok(), "{:?}", t);
    }
}

#[test]
fn labels_differ_by_their_number() {
    assert_eq!(labelled("pool_", 12), "pool_12");
    assert_ne!(labelled("pool_", 1), labelled("pool_", 11));
}

#[test]
fn words_are_split_and_joined() {
    let words = split_words("  alpha\tbeta \n gamma\u{2003}delta ");
    assert_eq!(words, vec!["alpha", "beta", "gamma", "delta"]);
    assert_eq!(join(&words, " "), "alpha beta gamma delta");
    assert_eq!(split_words(&join(&words, " ")), words);
    assert!(split_words("").is_empty());
    assert!(split_words(" \t ").is_empty());
    assert_eq!(join(&Vec::new(), " "), "");
}

#[test]
fn substrings_are_found_as_the_standard_library_does() {
    let cases = [
        ("", ""), ("abc", ""), ("", "a"), ("FundsPending", "FundsPending"),
        ("xFundsPendingx", "FundsPending"), ("not enough funds", "funds"), ("Funds", "funds"),
        ("aab", "ab"), ("abab", "abb"), ("näh", "h"),
    ];
    for (s, needle) in cases {
        assert_eq!(contains(s, needle), s.contains(needle), "{:?} {:?}", s, needle);
    }
}

#[test]
fn texts_are_ordered_as_the_standard_library_does() {
    let texts = ["", "a", "ab", "b", "Z", "baseline", "pool_payout", "pool_payout_burst", "é", "\u{10000}", "\u{ffff}"];
    for a in texts {
        for b in texts {
            assert_eq!(str_lt(a, b), a < b, "{:?} {:?}", a, b);
            assert_eq!(str_eq(a, b), a == b);
        }
    }
}

#[test]
fn texts_are_copied_and_put_together() {
    assert_eq!(chars_of("aé"), vec!['a', 'é']);
    assert_eq!(clone_opt(&Some("x".to_string())), Some("x".to_string()));
    assert_eq!(clone_opt(&None), None);
}
