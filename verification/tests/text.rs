use lingxi_ascendc::order::sorted_by_key;
use lingxi_ascendc::paths::join_path;
use lingxi_ascendc::text::{
    after_prefix, comes_before, contains, cut_before, decimal_of, has_prefix, joined, lines_of,
    lowered, slice, trimmed, trims_to_nothing, words_of,
};

#[test]
fn text_functions_agree_with_std() {
    let samples = [
        "",
        " ",
        "a",
        " a b ",
        "\u{3000}x\u{a0}\u{85}",
        "a\nb",
        "a\r\nb\r",
        "\n\n",
        "\r\n",
        "one  two\tthree\n",
        "caf\u{e9} \u{1f600}!",
        "\u{200b}z",
        "A-Z a-z \u{c4}",
    ];
    for s in samples {
        assert_eq!(trimmed(s), s.trim(), "{s:?}");
        assert_eq!(trimmed(&trimmed(s)), s.trim(), "{s:?}");
        assert_eq!(trims_to_nothing(s), s.trim().is_empty(), "{s:?}");
        assert_eq!(lines_of(s), s.lines().collect::<Vec<_>>(), "{s:?}");
        assert_eq!(words_of(s), s.split_whitespace().collect::<Vec<_>>(), "{s:?}");
        assert_eq!(lowered(s), s.to_ascii_lowercase(), "{s:?}");
        assert_eq!(cut_before(s, 'b'), s.split('b').next().unwrap_or(""), "{s:?}");
        for t in samples {
            assert_eq!(contains(s, t), s.contains(t), "{s:?} {t:?}");
            assert_eq!(has_prefix(s, t), s.starts_with(t), "{s:?} {t:?}");
            assert_eq!(after_prefix(s, t).as_deref(), s.strip_prefix(t), "{s:?} {t:?}");
            assert_eq!(comes_before(s, t), s < t, "{s:?} {t:?}");
        }
    }
}

#[test]
fn numbers_and_pieces() {
    for n in [0, 7, 10, 109, u64::MAX] {
        assert_eq!(decimal_of(n), n.to_string());
    }
    assert_eq!(slice("h\u{e9}llo", 1, 3), "\u{e9}l");
    assert_eq!(joined(&vec!["a".to_owned(), "b".to_owned(), String::new()], "--"), "a--b--");
    assert_eq!(joined(&Vec::new(), "--"), "");
}

#[test]
fn paths_join_like_paths() {
    for (base, part) in
        [("/a", "b"), ("/a/", "b"), ("", "b"), ("/a", "/b"), ("a", ""), ("/", "b/c"), ("a", "../b")]
    {
        let expected = std::path::Path::new(base).join(part);
        assert_eq!(join_path(base, part), expected.to_str().expect("text"));
    }
}

#[test]
fn entries_sort_by_key_and_stay_in_order_otherwise() {
    let entry = |k: &str, v: &str| (k.to_owned(), v.to_owned());
    let sorted =
        sorted_by_key(vec![entry("b", "1"), entry("a", "2"), entry("b", "3"), entry("", "4")]);
    assert_eq!(sorted, vec![entry("", "4"), entry("a", "2"), entry("b", "1"), entry("b", "3")]);
}
