use alpacka::text::{
    char_is_whitespace, cut_once, find_any, is_one_of, is_text, occurs_at, parse_u64, split_lines,
    to_chars, trim,
};

fn chars(s: &str) -> Vec<char> {
    s.chars().collect()
}

fn text(c: &[char]) -> String {
    c.iter().collect()
}

const SAMPLES: [&str; 30] = [
    "",
    "\n",
    "\r",
    "\r\n",
    "\n\n",
    "\n\r",
    "\r\r\n",
    "a",
    "a\n",
    "a\r\n",
    "a\r",
    "a\nb",
    "a\nb\n",
    "a\r\nb\r\n",
    "a\n\nb",
    "a\n\n\nb\n\n",
    "\na",
    "\r\na",
    "a\rb\nc",
    "a\r\r\nb",
    "foo\nbar\n\r\nbaz\r",
    "one line without end",
    " 9 \n",
    "%NAME%\nfoo\n\n%VERSION%\n1.0\n",
    "%FILES%\nusr/\nusr/bin/\n\n%BACKUP%\netc/x\n",
    "grüße\népée\r\n日本語",
    "\u{85}x\u{2028}y\u{2029}z",
    "a: b",
    "x\n\r\n\r",
    "\r\n\r\n",
];

#[test]
fn to_chars_gives_the_characters() {
    for s in SAMPLES {
        assert_eq!(to_chars(s), chars(s));
    }
    assert_eq!(to_chars("aé日\u{10ffff}"), ['a', 'é', '日', '\u{10ffff}']);
}

#[test]
fn split_lines_agrees_with_std() {
    for s in SAMPLES {
        let c = chars(s);
        let got: Vec<String> = split_lines(&c).into_iter().map(text).collect();
        let want: Vec<&str> = s.lines().collect();
        assert_eq!(got, want, "lines of {s:?}");
    }
}

#[test]
fn split_lines_examples() {
    let lines = |s: &str| -> Vec<String> {
        split_lines(&chars(s)).into_iter().map(text).collect()
    };
    assert_eq!(lines(""), Vec::<String>::new());
    assert_eq!(lines("\n"), [""]);
    assert_eq!(lines("a\n\nb"), ["a", "", "b"]);
    assert_eq!(lines("a\r\nb\r"), ["a", "b\r"]);
    assert_eq!(lines("a\r\r\n"), ["a\r"]);
}

#[test]
fn find_any_agrees_with_std() {
    let sets: [&[char]; 4] = [&['\n'], &['=', '>', '<'], &[], &['a', 'é', '日']];
    for s in SAMPLES.into_iter().chain(["name>=1", "a=b", "<", "x<y>z", "no operator"]) {
        let c = chars(s);
        for set in sets {
            let want = s.chars().position(|x| set.contains(&x)).unwrap_or(c.len());
            assert_eq!(find_any(&c, set), want, "{s:?} {set:?}");
        }
    }
}

#[test]
fn find_any_examples() {
    assert_eq!(find_any(&chars("glibc>=2.38"), &['=', '>', '<']), 5);
    assert_eq!(find_any(&chars("glibc"), &['=', '>', '<']), 5);
    assert_eq!(find_any(&chars("=x"), &['=', '>', '<']), 0);
    assert_eq!(find_any(&chars(""), &['=']), 0);
}

#[test]
fn is_one_of_examples() {
    assert!(is_one_of('<', &['=', '>', '<']));
    assert!(is_one_of('=', &['=', '>', '<']));
    assert!(!is_one_of('a', &['=', '>', '<']));
    assert!(!is_one_of('a', &[]));
}

#[test]
fn is_text_compares_all_characters() {
    assert!(is_text(&chars("NAME"), "NAME"));
    assert!(is_text(&chars(""), ""));
    assert!(is_text(&chars("日本"), "日本"));
    assert!(!is_text(&chars("NAME"), "NAMES"));
    assert!(!is_text(&chars("NAMES"), "NAME"));
    assert!(!is_text(&chars("NAME"), "NAMe"));
    assert!(!is_text(&chars(""), "x"));
    assert!(!is_text(&chars("x"), ""));
}

#[test]
fn occurs_at_examples() {
    let s = chars("foo: bar");
    assert!(occurs_at(&s, 3, &[':', ' ']));
    assert!(!occurs_at(&s, 2, &[':', ' ']));
    assert!(!occurs_at(&s, 7, &['r', '!']));
    assert!(occurs_at(&s, 7, &['r']));
    assert!(occurs_at(&s, 8, &[]));
    assert!(!occurs_at(&s, 8, &['x']));
    assert!(occurs_at(&s, 0, &s));
}

#[test]
fn cut_once_agrees_with_std() {
    let seps = [": ", ":", "ab", "\n", "日本", "aa"];
    let extra = ["foo: needed for bar", "a: b: c", ": ", "x:", "x: ", "aaa", "aab", "abab", "日本語: 日本"];
    for s in SAMPLES.into_iter().chain(extra) {
        let c = chars(s);
        for sep in seps {
            let got = cut_once(&c, &chars(sep)).map(|(a, b)| (text(a), text(b)));
            let want = s.split_once(sep).map(|(a, b)| (a.to_string(), b.to_string()));
            assert_eq!(got, want, "{s:?} at {sep:?}");
        }
    }
}

#[test]
fn cut_once_examples() {
    let cut = |s: &str| cut_once(&chars(s), &[':', ' ']).map(|(a, b)| (text(a), text(b)));
    assert_eq!(cut("foo: needed for bar"), Some(("foo".to_string(), "needed for bar".to_string())));
    assert_eq!(cut("foo"), None);
    assert_eq!(cut("a:b"), None);
    assert_eq!(cut(": "), Some((String::new(), String::new())));
    assert_eq!(cut(""), None);
}

#[test]
fn parse_u64_agrees_with_std() {
    let samples = [
        "", "0", "1", "9", "10", "007", "+", "-", "+0", "+12", "-12", "++1", "+-1", "1+", "12a", "a12",
        " 1", "1 ", "1_000", "0x10", "1.0", "1e3", "٣", "１", "18446744073709551615",
        "18446744073709551616", "18446744073709551620", "184467440737095516150",
        "99999999999999999999", "+18446744073709551615", "00000000000000000000000001",
        "1844674407370955161", "1844674407370955162", "9223372036854775808",
    ];
    for s in samples {
        assert_eq!(parse_u64(&chars(s)), s.parse::<u64>().ok(), "{s:?}");
    }
}

#[test]
fn parse_u64_examples() {
    assert_eq!(parse_u64(&chars("9654735")), Some(9654735));
    assert_eq!(parse_u64(&chars("+42")), Some(42));
    assert_eq!(parse_u64(&chars("0")), Some(0));
    assert_eq!(parse_u64(&chars("18446744073709551615")), Some(u64::MAX));
    assert_eq!(parse_u64(&chars("18446744073709551616")), None);
    assert_eq!(parse_u64(&chars("")), None);
    assert_eq!(parse_u64(&chars("-1")), None);
}

#[test]
fn whitespace_agrees_with_std_on_every_character() {
    let mut count = 0;
    for code in 0..=0x10ffffu32 {
        if let Some(c) = char::from_u32(code) {
            assert_eq!(char_is_whitespace(c), c.is_whitespace(), "U+{code:04X}");
            if char_is_whitespace(c) {
                count += 1;
            }
        }
    }
    assert_eq!(count, 25);
}

#[test]
fn trim_agrees_with_std() {
    let extra = [" ", "  ", " a", "a ", " a ", "\t9\r\n", " a b ", "\u{3000}x\u{a0}", "\u{200b}x", "  \n "];
    for s in SAMPLES.into_iter().chain(extra) {
        assert_eq!(text(trim(&chars(s))), s.trim(), "{s:?}");
    }
}

#[test]
fn trim_examples() {
    assert_eq!(text(trim(&chars("9\n"))), "9");
    assert_eq!(text(trim(&chars("  a b  "))), "a b");
    assert_eq!(text(trim(&chars(" \t\r\n"))), "");
    assert_eq!(text(trim(&chars(""))), "");
}
