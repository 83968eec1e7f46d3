use dep_scout::relevance::{count_hits, matches_exactly, name_is_exact, term_overlap, tokenize};
use dep_scout::model::{Ecosystem, Package};
use dep_scout::sources::seen::Seen;
use dep_scout::sources::url::pct_encode;
use dep_scout::text::{
    contains_text, cut_long, decimal_text, fmt_num, join, listed_in, parse_unsigned, replace_char,
    same_text_ignoring_case, trim, up_to_dot, words_of, Strip,
};

#[test]
fn numbers_in_groups_of_three() {
    assert_eq!(fmt_num(0), "0");
    assert_eq!(fmt_num(7), "7");
    assert_eq!(fmt_num(999), "999");
    assert_eq!(fmt_num(1000), "1,000");
    assert_eq!(fmt_num(12345), "12,345");
    assert_eq!(fmt_num(123456), "123,456");
    assert_eq!(fmt_num(1234567), "1,234,567");
    assert_eq!(fmt_num(u64::MAX), "18,446,744,073,709,551,615");
}

#[test]
fn grouping_only_adds_commas() {
    let mut n: u64 = 1;
    while n < u64::MAX / 7 {
        let g = fmt_num(n);
        assert_eq!(g.replace(',', ""), n.to_string());
        let c: Vec<char> = g.chars().collect();
        for (i, x) in c.iter().enumerate() {
            assert_eq!(*x == ',', (c.len() - 1 - i) % 4 == 3);
        }
        n = n * 7 + 3;
    }
}

#[test]
fn decimal_text_reads_back() {
    for n in [0u64, 1, 9, 10, 99, 100, 4_294_967_296, u64::MAX] {
        assert_eq!(decimal_text(n), n.to_string());
        assert_eq!(parse_unsigned(&decimal_text(n)), Some(n));
    }
}

#[test]
fn unsigned_numbers_read_like_std() {
    for s in [
        "", "+", "-", "0", "+7", "++7", "007", "12a", "-1", " 1", "18446744073709551615",
        "18446744073709551616", "99999999999999999999999", "٣",
    ] {
        assert_eq!(parse_unsigned(s), s.parse::<u64>().ok(), "{s:?}");
    }
}

#[test]
fn white_space_is_that_of_unicode() {
    let mut n: u32 = 0;
    while n <= 0x10FFFF {
        if let Some(c) = char::from_u32(n) {
            assert_eq!(Strip::White.has(c), c.is_whitespace(), "{n:x}");
        }
        n += 1;
    }
}

#[test]
fn trimming_is_that_of_std() {
    for s in ["", "  ", " a b ", "\u{3000}x\u{a0}", "x", "\n\tx y\r\n", "\u{200b}x"] {
        assert_eq!(trim(s), s.trim());
        assert_eq!(trim(trim(s)), trim(s));
    }
}

#[test]
fn substrings() {
    assert!(contains_text("abc", ""));
    assert!(contains_text("", ""));
    assert!(!contains_text("", "a"));
    assert!(contains_text("xaab", "aab"));
    assert!(!contains_text("ab", "abc"));
    assert!(contains_text("日本語", "本"));
}

#[test]
fn joining_and_cutting() {
    let v: Vec<String> = vec!["a".to_string(), "b".to_string(), "c".to_string()];
    assert_eq!(join(&v, "；"), "a；b；c");
    assert_eq!(join(&Vec::new(), "；"), "");
    assert_eq!(up_to_dot("1.2.3"), "1");
    assert_eq!(up_to_dot("12"), "12");
    assert_eq!(up_to_dot(".1"), "");
    assert_eq!(replace_char("a b  c", ' ', "-"), "a-b--c");
    assert_eq!(replace_char("a b", ' ', ""), "ab");
}

#[test]
fn words_and_lists() {
    assert_eq!(words_of("  http\tclient  x ", 3), vec!["http", "client"]);
    assert_eq!(words_of("日本 日本語 ab", 3), vec!["日本語"]);
    assert_eq!(listed_in("web, http  ,,client"), vec!["web", "http", "client"]);
    let none: Vec<String> = Vec::new();
    assert_eq!(listed_in(""), none);
}

#[test]
fn cutting_at_marks() {
    let chars: Vec<char> = "ab,c,,defg".chars().collect();
    let cut: Vec<bool> = chars.iter().map(|c| *c == ',').collect();
    assert_eq!(cut_long(&chars, &cut, 2), vec!["ab", "defg"]);
}

#[test]
fn ascii_case_is_ignored() {
    assert!(same_text_ignoring_case("React", "rEACT"));
    assert!(!same_text_ignoring_case("react", "reac"));
    assert!(!same_text_ignoring_case("é", "É"));
}

#[test]
fn queries_become_terms() {
    assert_eq!(tokenize("Async HTTP-client, v2!"), vec!["async", "http", "client", "v2"]);
    assert_eq!(tokenize("a b c"), Vec::<String>::new());
    // Length is counted in bytes: one two-byte letter is a term.
    assert_eq!(tokenize("É x"), vec!["é"]);
    assert_eq!(tokenize("日志 库"), vec!["日志", "库"]);
}

#[test]
fn overlap_counts_terms_in_name_description_and_keywords() {
    let mut p = Package::new(Ecosystem::Rust, "ReqWest".to_string());
    p.description = Some("An ergonomic HTTP Client".to_string());
    p.keywords = vec!["Async".to_string(), "web".to_string()];
    let o = term_overlap("async http client yaml", &p);
    assert_eq!((o.hits, o.terms), (3, 4));
    let o = term_overlap("reqw", &p);
    assert_eq!((o.hits, o.terms), (1, 1));
    let o = term_overlap("!", &p);
    assert_eq!((o.hits, o.terms), (0, 0));
    // A term does not reach from one field into the next.
    let o = term_overlap("reqwestan", &p);
    assert_eq!((o.hits, o.terms), (0, 1));
}

#[test]
fn hits_are_counted_once_per_term() {
    let terms: Vec<String> = vec!["ab".to_string(), "zz".to_string(), "ab".to_string()];
    assert_eq!(count_hits(&terms, "abab"), 2);
}

#[test]
fn exact_names() {
    let p = Package::new(Ecosystem::Rust, "Serde".to_string());
    assert!(name_is_exact("serde json", &p));
    assert!(name_is_exact("  SERDE ", &p));
    assert!(!name_is_exact("serde_json2", &Package::new(Ecosystem::Rust, "json".to_string())));
    // A whole query can be a name that is no single term.
    let q = Package::new(Ecosystem::Npm, "@types/node".to_string());
    assert!(name_is_exact("@types/node", &q));
    assert!(!name_is_exact("types/node", &q));
    assert!(matches_exactly(&vec!["x".to_string()], "y", "x"));
    assert!(matches_exactly(&Vec::new(), "y", "y"));
    assert!(!matches_exactly(&Vec::new(), "y", "x"));
}

#[test]
fn percent_encoding() {
    assert_eq!(pct_encode("github.com/a-b_c~d"), "github.com%2Fa-b_c~d");
    assert_eq!(pct_encode("org.x:y 1"), "org.x%3Ay%201");
    assert_eq!(pct_encode("é"), "%C3%A9");
    assert_eq!(pct_encode(""), "");
}

#[test]
fn percent_encoding_is_undone_by_decoding() {
    for s in ["", "%2F", "a/b", "日本 + 語", "~._-", "\u{0}\u{7f}"] {
        let e = pct_encode(s);
        let b = e.as_bytes();
        let mut out: Vec<u8> = Vec::new();
        let mut i = 0;
        while i < b.len() {
            assert!(b[i] != b'/');
            if b[i] == b'%' {
                out.push(u8::from_str_radix(&e[i + 1..i + 3], 16).unwrap());
                i += 3;
            } else {
                out.push(b[i]);
                i += 1;
            }
        }
        assert_eq!(String::from_utf8(out).unwrap(), s);
    }
}

#[test]
fn seen_keys_are_new_once() {
    let mut s = Seen::new();
    assert!(s.insert("a".to_string()));
    assert!(s.insert("b".to_string()));
    assert!(!s.insert("a".to_string()));
    assert!(s.insert("A".to_string()));
}
