use inspect::order::{lex_compare, precedes, rank_order, Precedence, SortKey};
use inspect::text::{
    byte_length, chars_of, count_distinct, find, has_infix, has_prefix, has_suffix, join,
    matches_at, occurrences, parse_u64, position_of, push_all, push_decimal, push_str,
    replace_all, rfind, same, same_as, slice_of, split_lines, split_on, split_words, trimmed,
    whitespace, width,
};

fn chars(s: &str) -> Vec<char> {
    s.chars().collect()
}

fn text(v: &[char]) -> String {
    v.iter().collect()
}

const SAMPLES: [&str; 16] = [
    "",
    "a",
    " a ",
    "a\nb",
    "a\nb\n",
    "a\r\nb\r\n",
    "\n",
    "\n\n",
    "\r",
    "a\r",
    "\r\n\r\n",
    "  two  words\tand\u{a0}more \u{3000}",
    "fn main() {\n    let x = 1;\n}\n",
    "\u{e9}t\u{e9}\n\u{4e2d}\u{6587} \u{1f600}",
    "a\n\rb",
    "x\u{85}y\u{2028}z",
];

#[test]
fn characters_of_a_string_in_order() {
    for s in SAMPLES {
        assert_eq!(chars_of(s), chars(s));
    }
}

#[test]
fn whitespace_is_what_std_calls_whitespace() {
    for u in 0..=0x10FFFFu32 {
        if let Some(c) = char::from_u32(u) {
            assert_eq!(whitespace(c), c.is_whitespace(), "U+{:04X}", u);
        }
    }
}

#[test]
fn width_is_the_length_in_utf8() {
    for u in 0..=0x10FFFFu32 {
        if let Some(c) = char::from_u32(u) {
            assert_eq!(width(c), c.len_utf8(), "U+{:04X}", u);
        }
    }
    for s in SAMPLES {
        assert_eq!(byte_length(&chars(s)), s.len() as u128);
    }
}

#[test]
fn lines_as_std_splits_them() {
    for s in SAMPLES {
        let expected: Vec<Vec<char>> = s.lines().map(chars).collect();
        assert_eq!(split_lines(&chars(s)), expected, "{:?}", s);
    }
    assert_eq!(split_lines(&chars("a\n\nb")), vec![chars("a"), chars(""), chars("b")]);
    assert_eq!(split_lines(&chars("a\r\n")), vec![chars("a")]);
    assert_eq!(split_lines(&chars("a\r")), vec![chars("a\r")]);
    assert!(split_lines(&chars("")).is_empty());
}

#[test]
fn trimmed_as_std_trims() {
    for s in SAMPLES {
        assert_eq!(text(&trimmed(&chars(s))), s.trim(), "{:?}", s);
    }
    assert_eq!(text(&trimmed(&chars(" \t\n "))), "");
    assert_eq!(text(&trimmed(&chars("\u{2003}a b\u{2003}"))), "a b");
}

#[test]
fn words_as_std_splits_them() {
    for s in SAMPLES {
        let expected: Vec<Vec<char>> = s.split_whitespace().map(chars).collect();
        assert_eq!(split_words(&chars(s)), expected, "{:?}", s);
    }
    assert_eq!(split_words(&chars("@@ -1,2 +3,4 @@")).len(), 4);
}

#[test]
fn numbers_as_std_parses_them() {
    for s in [
        "", "0", "7", "42", "007", "+5", "+", "-5", "5-", " 5", "5 ", "1e3", "0x10", "٣",
        "18446744073709551615", "18446744073709551616", "99999999999999999999999999", "+0",
        "++1", "1+", "1_000",
    ] {
        assert_eq!(parse_u64(&chars(s)), s.parse::<u64>().ok(), "{:?}", s);
    }
    assert_eq!(parse_u64(&chars("18446744073709551615")), Some(u64::MAX));
    assert_eq!(parse_u64(&chars("18446744073709551616")), None);
}

#[test]
fn decimal_digits_of_a_number() {
    for n in [0u64, 1, 9, 10, 11, 99, 100, 12345, u64::MAX] {
        let mut out = chars("n=");
        push_decimal(&mut out, n);
        assert_eq!(text(&out), format!("n={}", n));
    }
}

#[test]
fn searching_in_texts() {
    let s = chars("abcabc");
    assert_eq!(find(&s, &chars("bc")), Some(1));
    assert_eq!(rfind(&s, &chars("bc")), Some(4));
    assert_eq!(find(&s, &chars("")), Some(0));
    assert_eq!(rfind(&s, &chars("")), Some(6));
    assert_eq!(find(&s, &chars("d")), None);
    assert_eq!(rfind(&s, &chars("abcabcd")), None);
    assert_eq!(find(&chars(""), &chars("")), Some(0));
    assert!(matches_at(&s, &chars("cab"), 2));
    assert!(!matches_at(&s, &chars("cab"), 3));
    assert!(!matches_at(&s, &chars("abc"), 4));
    assert!(matches_at(&s, &chars(""), 6));
    assert!(!matches_at(&s, &chars(""), 7));
    assert!(has_prefix(&s, "abc"));
    assert!(has_prefix(&s, ""));
    assert!(!has_prefix(&s, "bc"));
    assert!(has_suffix(&s, "abc"));
    assert!(!has_suffix(&s, "ab"));
    assert!(!has_suffix(&chars("c"), "bc"));
    assert!(has_infix(&s, "ca"));
    assert!(!has_infix(&s, "cc"));
    assert!(same(&s, &chars("abcabc")));
    assert!(!same(&s, &chars("abcab")));
    assert!(same_as(&s, "abcabc"));
    assert!(!same_as(&s, "abcabd"));
    assert_eq!(position_of(&s, 'c'), 2);
    assert_eq!(position_of(&s, 'x'), 6);
    assert_eq!(text(&slice_of(&s, 1, 4)), "bca");
    assert_eq!(text(&slice_of(&s, 3, 3)), "");
}

#[test]
fn replacing_and_splitting_as_std_does() {
    let cases = [
        ("", "a", "b"),
        ("aaa", "a", "bb"),
        ("aaa", "aa", "b"),
        ("abcabc", "bc", ""),
        ("{x} and {x}{y}", "{x}", "{y}"),
        ("no place", "{x}", "y"),
        ("diff --git a\ndiff --git b", "diff --git ", "|"),
        ("..a....b..", "..", "-"),
    ];
    for (s, from, to) in cases {
        assert_eq!(text(&replace_all(&chars(s), &chars(from), &chars(to))), s.replace(from, to));
        let expected: Vec<Vec<char>> = s.split(from).map(chars).collect();
        assert_eq!(split_on(&chars(s), &chars(from)), expected, "{:?} by {:?}", s, from);
    }
    for (s, p) in [("\n+a\n+++ b\n+c", "\n+"), ("\n+a\n+++ b\n+c", "\n+++"), ("\n-\n--\n---", "\n-"), ("", "\n-")] {
        assert_eq!(occurrences(&chars(s), &chars(p)), s.matches(p).count());
    }
    assert_eq!(occurrences(&chars("aaaa"), &chars("aa")), 3);
    // An empty pattern has no place.
    assert_eq!(text(&replace_all(&chars("abc"), &chars(""), &chars("-"))), "abc");
    assert_eq!(split_on(&chars("abc"), &chars("")), vec![chars("abc")]);
    assert_eq!(split_on(&chars(""), &chars("")), vec![chars("")]);
}

#[test]
fn pushing_and_joining() {
    let mut out = chars("a");
    push_all(&mut out, &chars("bc"));
    push_str(&mut out, "d\u{e9}");
    assert_eq!(text(&out), "abcd\u{e9}");
    assert_eq!(text(&join(&vec![], ", ")), "");
    assert_eq!(text(&join(&vec![chars("a")], ", ")), "a");
    assert_eq!(text(&join(&vec![chars("a"), chars(""), chars("b")], ", ")), "a, , b");
    assert_eq!(count_distinct(&vec![]), 0);
    assert_eq!(count_distinct(&vec![chars("a"), chars("b"), chars("a"), chars(""), chars("b")]), 3);
}

#[test]
fn texts_in_the_order_of_their_characters() {
    let samples = ["", "a", "ab", "b", "B", "a\u{e9}", "\u{e9}", "\u{10000}", "\u{ffff}", "aa", "a "];
    for a in samples {
        for b in samples {
            let expected = if a < b {
                Precedence::Before
            } else if a > b {
                Precedence::After
            } else {
                Precedence::Same
            };
            assert_eq!(lex_compare(&chars(a), &chars(b)), expected, "{:?} and {:?}", a, b);
        }
    }
}

fn key(major: u128, minor: &str) -> SortKey {
    SortKey { major, minor: chars(minor) }
}

#[test]
fn ranking_by_number_then_text_then_place() {
    let keys = vec![
        key(5, "b"),
        key(9, "z"),
        key(5, "a"),
        key(5, "b"),
        key(0, ""),
        key(9, "a"),
        key(5, "ab"),
    ];
    assert_eq!(rank_order(&keys), vec![5, 1, 2, 6, 0, 3, 4]);
    assert!(precedes(&keys, 1, 0));
    assert!(!precedes(&keys, 0, 1));
    assert!(precedes(&keys, 0, 3));
    assert!(!precedes(&keys, 3, 0));
    assert!(!precedes(&keys, 3, 3));
    assert!(rank_order(&vec![]).is_empty());
    let same: Vec<SortKey> = (0..50).map(|_| key(1, "x")).collect();
    assert_eq!(rank_order(&same), (0..50).collect::<Vec<usize>>());
    let rising: Vec<SortKey> = (0..50).map(|i| key(i, "")).collect();
    assert_eq!(rank_order(&rising), (0..50).rev().collect::<Vec<usize>>());
}

#[test]
fn a_ranking_is_the_same_each_time() {
    let keys: Vec<SortKey> =
        (0..40u128).map(|i| key((i * 7) % 5, &format!("id{}", (i * 11) % 13))).collect();
    let first = rank_order(&keys);
    let second = rank_order(&keys);
    assert_eq!(first, second);
    let mut sorted: Vec<usize> = (0..40).collect();
    sorted.sort_by(|&a, &b| {
        keys[b].major.cmp(&keys[a].major).then(keys[a].minor.cmp(&keys[b].minor)).then(a.cmp(&b))
    });
    assert_eq!(first, sorted);
}
