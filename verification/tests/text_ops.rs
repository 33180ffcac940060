use arch_sunshine::lines::{join_with, replace_all, split_at_char, split_lines, split_whitespace};
use arch_sunshine::order::{sort_dedup_texts, sort_texts, text_less};
use arch_sunshine::text::{parse_u32, parse_u64, trim};

fn owned(v: &[&str]) -> Vec<String> {
    v.iter().map(|s| s.to_string()).collect()
}

#[test]
fn split_lines_matches_std_lines() {
    let samples = [
        "",
        "a",
        "a\n",
        "a\nb",
        "a\r\nb\r\n",
        "\n",
        "\n\n",
        "a\n\nb",
        "x\r",
        "x\ry\n",
        "\r\n",
        "tail without newline",
    ];
    for s in samples {
        let expected: Vec<String> = s.lines().map(|l| l.to_string()).collect();
        assert_eq!(split_lines(s), expected, "input {:?}", s);
    }
}

#[test]
fn split_whitespace_matches_std() {
    let samples = ["", "   ", "a b", "  a\t b \n c  ", "s16le 2ch 48000Hz", "x\u{a0}y"];
    for s in samples {
        let expected: Vec<String> = s.split_whitespace().map(|w| w.to_string()).collect();
        assert_eq!(split_whitespace(s), expected, "input {:?}", s);
    }
}

#[test]
fn join_with_matches_std_join() {
    assert_eq!(join_with(&owned(&[]), ", "), "");
    assert_eq!(join_with(&owned(&["a"]), ", "), "a");
    assert_eq!(join_with(&owned(&["a", "b", "c"]), ", "), "a, b, c");
}

#[test]
fn replace_all_matches_std_replace() {
    let cases = [
        ("aaa", "aa", "b"),
        ("[G]\nx\n[G]\n", "[G]\n", "[G][$i]\n"),
        ("no match", "zz", "y"),
        ("abab", "ab", ""),
    ];
    for (s, p, w) in cases {
        assert_eq!(replace_all(s, p, w), s.replace(p, w));
    }
}

#[test]
fn text_order_matches_string_order() {
    let words = ["", "a", "ab", "b", "renderD128", "renderD129", "card0", "é", "z"];
    for a in words {
        for b in words {
            assert_eq!(text_less(a, b), a < b, "{:?} < {:?}", a, b);
        }
    }
}

#[test]
fn sorting_keeps_every_item() {
    let items = owned(&["b", "a", "c", "a"]);
    assert_eq!(sort_texts(items.clone()), owned(&["a", "a", "b", "c"]));
    assert_eq!(sort_dedup_texts(items), owned(&["a", "b", "c"]));
}

#[test]
fn integer_parsing_matches_std() {
    for s in ["0", "+7", "42", "-1", "", "+", "18446744073709551615", "18446744073709551616", " 1"] {
        assert_eq!(parse_u64(s), s.parse::<u64>().ok(), "input {:?}", s);
        assert_eq!(parse_u32(s), s.parse::<u32>().ok(), "input {:?}", s);
    }
}

#[test]
fn trim_matches_std() {
    for s in ["", "  x ", "\t\u{3000}y\u{a0}", "a b"] {
        assert_eq!(trim(s), s.trim());
    }
}

#[test]
fn split_at_char_matches_std_split() {
    for s in ["", ":", "/usr/bin:/bin", "a::b:", ":lead", "no-separator"] {
        let expected: Vec<String> = s.split(':').map(|w| w.to_string()).collect();
        assert_eq!(split_at_char(s, ':'), expected, "input {:?}", s);
    }
}
