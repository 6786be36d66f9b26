use alpacka::{DepVer, Depend, ReqCmp};
use smol_str::SmolStr;

fn versioned(name: &str, op: ReqCmp, ver: &str) -> Depend {
    Depend { name: SmolStr::new(name), ver: Some(DepVer { req_cmp: op, ver: SmolStr::new(ver) }) }
}

fn bare(name: &str) -> Depend {
    Depend { name: SmolStr::new(name), ver: None }
}

fn assert_parses(text: &str, name: &str, constraint: Option<(ReqCmp, &str)>) {
    let dep = Depend::parse(text);
    assert_eq!(dep.name, name, "name of {text:?}");
    match (dep.ver, constraint) {
        (None, None) => {}
        (Some(got), Some((op, ver))) => {
            assert_eq!(got.req_cmp, op, "operator of {text:?}");
            assert_eq!(got.ver, ver, "version of {text:?}");
        }
        (got, want) => panic!("{text:?}: got {got:?}, expected {want:?}"),
    }
}

#[test]
fn bare_name_has_no_constraint() {
    assert_parses("glibc", "glibc", None);
}

#[test]
fn empty_text_is_an_empty_name() {
    assert_parses("", "", None);
}

#[test]
fn each_operator_is_read() {
    assert_parses("name=ver", "name", Some((ReqCmp::Eq, "ver")));
    assert_parses("name<ver", "name", Some((ReqCmp::Lt, "ver")));
    assert_parses("name<=ver", "name", Some((ReqCmp::LtEq, "ver")));
    assert_parses("name>ver", "name", Some((ReqCmp::Gt, "ver")));
    assert_parses("name>=ver", "name", Some((ReqCmp::GtEq, "ver")));
}

#[test]
fn two_character_operator_takes_precedence() {
    assert_parses("pkg<=1.0", "pkg", Some((ReqCmp::LtEq, "1.0")));
    assert_parses("pkg>=1.0", "pkg", Some((ReqCmp::GtEq, "1.0")));
}

#[test]
fn realistic_specifier() {
    assert_parses("glibc>=2.38", "glibc", Some((ReqCmp::GtEq, "2.38")));
    assert_parses("libfoo.so=3-64", "libfoo.so", Some((ReqCmp::Eq, "3-64")));
}

#[test]
fn the_first_operator_character_ends_the_name() {
    assert_parses("a=b=c", "a", Some((ReqCmp::Eq, "b=c")));
    assert_parses("a==b", "a", Some((ReqCmp::Eq, "=b")));
    assert_parses("a=<b", "a", Some((ReqCmp::Eq, "<b")));
    assert_parses("a<>b", "a", Some((ReqCmp::Lt, ">b")));
    assert_parses("a><b", "a", Some((ReqCmp::Gt, "<b")));
    assert_parses("a<==b", "a", Some((ReqCmp::LtEq, "=b")));
}

#[test]
fn name_and_version_may_be_empty() {
    assert_parses("=1", "", Some((ReqCmp::Eq, "1")));
    assert_parses("a<", "a", Some((ReqCmp::Lt, "")));
    assert_parses("a>=", "a", Some((ReqCmp::GtEq, "")));
    assert_parses("<=", "", Some((ReqCmp::LtEq, "")));
    assert_parses(">", "", Some((ReqCmp::Gt, "")));
}

#[test]
fn nothing_is_trimmed() {
    assert_parses(" a >= 1 ", " a ", Some((ReqCmp::GtEq, " 1 ")));
}

#[test]
fn characters_outside_ascii_are_kept() {
    assert_parses("grüße>=1.0-β", "grüße", Some((ReqCmp::GtEq, "1.0-β")));
    assert_parses("日本語", "日本語", None);
}

#[test]
fn long_names_are_kept_whole() {
    let name = "a-package-name-that-does-not-fit-into-twenty-three-bytes";
    let text = format!("{name}>=1.2.3.4.5.6.7.8.9.10.11.12.13.14.15");
    assert_parses(&text, name, Some((ReqCmp::GtEq, "1.2.3.4.5.6.7.8.9.10.11.12.13.14.15")));
}

#[test]
fn written_specifiers_read_back() {
    let ops = [
        (ReqCmp::Lt, "<"),
        (ReqCmp::LtEq, "<="),
        (ReqCmp::Gt, ">"),
        (ReqCmp::GtEq, ">="),
        (ReqCmp::Eq, "="),
    ];
    for name in ["", "a", "lib32-glibc", "x.y_z+w"] {
        assert_parses(name, name, None);
        for (op, sign) in ops {
            for ver in ["", "1", "1.2.3-4", "2:1.0", "<1", ">1"] {
                let text = format!("{name}{sign}{ver}");
                assert_parses(&text, name, Some((op, ver)));
            }
        }
    }
}

#[test]
fn string_order_is_not_numeric_order() {
    // As numbers 1.10 is the later version; as text "1.10" stands before "1.2".
    let later = versioned("pkg", ReqCmp::Eq, "1.10");
    assert!(!later.satisfies(&versioned("pkg", ReqCmp::Gt, "1.2")));
    assert!(!later.satisfies(&versioned("pkg", ReqCmp::GtEq, "1.2")));
    assert!(later.satisfies(&versioned("pkg", ReqCmp::Lt, "1.2")));
    let earlier = versioned("pkg", ReqCmp::Eq, "1.2");
    assert!(earlier.satisfies(&versioned("pkg", ReqCmp::Gt, "1.10")));
    assert!(!earlier.satisfies(&versioned("pkg", ReqCmp::Lt, "1.10")));
    assert!(!earlier.satisfies(&versioned("pkg", ReqCmp::LtEq, "1.10")));
}

#[test]
fn satisfies_needs_the_same_name() {
    let have = versioned("a", ReqCmp::Eq, "1");
    assert!(!have.satisfies(&versioned("b", ReqCmp::Eq, "1")));
    assert!(!have.satisfies(&bare("b")));
    assert!(!bare("a").satisfies(&versioned("b", ReqCmp::Eq, "1")));
}

#[test]
fn a_requirement_without_constraint_takes_any_version() {
    assert!(versioned("a", ReqCmp::Eq, "1").satisfies(&bare("a")));
    assert!(bare("a").satisfies(&bare("a")));
}

#[test]
fn each_operator_compares_the_versions() {
    let cases = [
        ("1", "2", [true, true, false, false, false]),
        ("2", "2", [false, true, false, true, true]),
        ("3", "2", [false, false, true, true, false]),
        ("", "2", [true, true, false, false, false]),
        ("2", "", [false, false, true, true, false]),
        ("", "", [false, true, false, true, true]),
        ("2", "20", [true, true, false, false, false]),
        ("abc", "abd", [true, true, false, false, false]),
        ("b", "abc", [false, false, true, true, false]),
        ("Z", "a", [true, true, false, false, false]),
        ("é", "z", [false, false, true, true, false]),
        ("\u{10000}", "\u{ffff}", [false, false, true, true, false]),
    ];
    let ops = [ReqCmp::Lt, ReqCmp::LtEq, ReqCmp::Gt, ReqCmp::GtEq, ReqCmp::Eq];
    for (have, want, expected) in cases {
        for (op, holds) in ops.into_iter().zip(expected) {
            let candidate = versioned("p", ReqCmp::Eq, have);
            let requirement = versioned("p", op, want);
            assert_eq!(candidate.satisfies(&requirement), holds, "{have:?} {op:?} {want:?}");
        }
    }
}

#[test]
fn the_operator_of_the_candidate_plays_no_part() {
    for op in [ReqCmp::Lt, ReqCmp::LtEq, ReqCmp::Gt, ReqCmp::GtEq, ReqCmp::Eq] {
        assert!(versioned("p", op, "5").satisfies(&versioned("p", ReqCmp::GtEq, "4")));
        assert!(!versioned("p", op, "3").satisfies(&versioned("p", ReqCmp::GtEq, "4")));
    }
}

#[test]
fn dep_ver_satisfies_compares_with_the_other_operator() {
    let have = DepVer { req_cmp: ReqCmp::Lt, ver: SmolStr::new("1.5") };
    assert!(have.satisfies(&DepVer { req_cmp: ReqCmp::GtEq, ver: SmolStr::new("1.5") }));
    assert!(!have.satisfies(&DepVer { req_cmp: ReqCmp::Gt, ver: SmolStr::new("1.5") }));
    assert!(have.satisfies(&DepVer { req_cmp: ReqCmp::Lt, ver: SmolStr::new("1.6") }));
}

#[test]
fn order_of_versions_agrees_with_the_order_of_str() {
    let samples = ["", "0", "1", "1.0", "1.10", "1.2", "10", "2", "a", "A", "ä", "z", "1:0", "\u{7ff}", "\u{800}", "\u{10ffff}"];
    for a in samples {
        for b in samples {
            let have = versioned("p", ReqCmp::Eq, a);
            assert_eq!(have.satisfies(&versioned("p", ReqCmp::Lt, b)), a < b, "{a:?} < {b:?}");
            assert_eq!(have.satisfies(&versioned("p", ReqCmp::LtEq, b)), a <= b, "{a:?} <= {b:?}");
            assert_eq!(have.satisfies(&versioned("p", ReqCmp::Gt, b)), a > b, "{a:?} > {b:?}");
            assert_eq!(have.satisfies(&versioned("p", ReqCmp::GtEq, b)), a >= b, "{a:?} >= {b:?}");
            assert_eq!(have.satisfies(&versioned("p", ReqCmp::Eq, b)), a == b, "{a:?} = {b:?}");
        }
    }
}

#[test]
fn specifiers_are_read_from_characters_too() {
    let line: Vec<char> = "zlib>1.3".chars().collect();
    let dep = Depend::parse_chars(&line);
    assert_eq!(dep.name, "zlib");
    let ver = dep.ver.unwrap();
    assert_eq!(ver.req_cmp, ReqCmp::Gt);
    assert_eq!(ver.ver, "1.3");
}

#[test]
fn optional_dependencies_are_read_from_characters() {
    let read = |s: &str| alpacka::OptDepend::parse_chars(&s.chars().collect::<Vec<char>>());
    let opt = read("foo: needed for bar");
    assert_eq!(opt.dep.name, "foo");
    assert!(opt.dep.ver.is_none());
    assert_eq!(opt.reason.as_deref(), Some("needed for bar"));

    let opt = read("foo>=2: needed");
    assert_eq!(opt.dep.name, "foo");
    let ver = opt.dep.ver.unwrap();
    assert_eq!(ver.req_cmp, ReqCmp::GtEq);
    assert_eq!(ver.ver, "2");
    assert_eq!(opt.reason.as_deref(), Some("needed"));

    let opt = read("foo");
    assert_eq!(opt.dep.name, "foo");
    assert!(opt.reason.is_none());

    let opt = read("foo:bar");
    assert_eq!(opt.dep.name, "foo:bar");
    assert!(opt.reason.is_none());
}

#[test]
fn order_of_versions_is_the_order_of_code_points() {
    let samples = [
        "", "1", "1.2", "1.10", "a", "ab", "b", "é", "e\u{301}", "\u{7f}", "\u{80}", "\u{7ff}",
        "\u{800}", "\u{d7ff}", "\u{e000}", "\u{ffff}", "\u{10000}", "\u{10ffff}", "a\u{10000}",
        "a\u{ffff}",
    ];
    for a in samples {
        for b in samples {
            let before = a.chars().lt(b.chars());
            let have = versioned("p", ReqCmp::Eq, a);
            assert_eq!(have.satisfies(&versioned("p", ReqCmp::Lt, b)), before, "{a:?} < {b:?}");
            assert_eq!(have.satisfies(&versioned("p", ReqCmp::GtEq, b)), !before, "{a:?} >= {b:?}");
        }
    }
}
