use alpacka::{
    check_db_version, is_description_file, parse_file_list, DbReadError, MandatoryField,
    ParseError, Pkg, Section, SUPPORTED_DB_VERSION,
};

const DESC: &str = "%NAME%\nfoo\n\n%VERSION%\n1.0-1\n\n%ARCH%\nx86_64\n";

fn paths(files: &[Box<str>]) -> Vec<&str> {
    files.iter().map(|f| &**f).collect()
}

#[test]
fn the_supported_version_is_nine() {
    assert_eq!(SUPPORTED_DB_VERSION, "9");
}

#[test]
fn the_supported_version_is_accepted() {
    assert!(check_db_version("9".to_string()).is_ok());
    assert!(check_db_version("9\n".to_string()).is_ok());
    assert!(check_db_version(" \t9\r\n ".to_string()).is_ok());
}

#[test]
fn another_version_is_a_mismatch() {
    for marker in ["", "8", "10", "99", "9 9", "nine", "09", "9.0", "+9", "\n", "９"] {
        match check_db_version(marker.to_string()) {
            Err(DbReadError::DbVerMismatch { supported, got }) => {
                assert_eq!(supported, "9");
                assert_eq!(got, marker);
            }
            other => panic!("{marker:?}: {other:?}"),
        }
    }
}

#[test]
fn a_mismatch_holds_the_marker_untrimmed() {
    match check_db_version(" 10\n".to_string()) {
        Err(DbReadError::DbVerMismatch { supported, got }) => {
            assert_eq!(supported, "9");
            assert_eq!(got, " 10\n");
        }
        other => panic!("{other:?}"),
    }
}

#[test]
fn file_list_passes_over_the_header() {
    let files = parse_file_list("%FILES%\nusr/\nusr/bin/\nusr/bin/foo\n");
    assert_eq!(paths(&files), ["usr/", "usr/bin/", "usr/bin/foo"]);
}

#[test]
fn file_list_ends_at_the_first_empty_line() {
    let files = parse_file_list("%FILES%\nusr/\nusr/bin/foo\n\n%BACKUP%\netc/foo.conf\tabc\n");
    assert_eq!(paths(&files), ["usr/", "usr/bin/foo"]);
}

#[test]
fn file_list_edge_cases() {
    assert!(parse_file_list("").is_empty());
    assert!(parse_file_list("%FILES%").is_empty());
    assert!(parse_file_list("%FILES%\n").is_empty());
    assert!(parse_file_list("%FILES%\n\nusr/\n").is_empty());
    assert_eq!(paths(&parse_file_list("\nusr/\n")), ["usr/"]);
    assert_eq!(paths(&parse_file_list("anything\nusr/")), ["usr/"]);
    assert_eq!(paths(&parse_file_list("%FILES%\r\na b\r\nc\r\n\r\nd\r\n")), ["a b", "c"]);
    assert_eq!(paths(&parse_file_list("h\n f \nusr/share/日本語\n")), [" f ", "usr/share/日本語"]);
}

#[test]
fn file_list_agrees_with_the_iterator_chain() {
    let samples = [
        "",
        "\n",
        "%FILES%\na\nb\n\nc\n",
        "%FILES%\r\na\r\n\r\nb",
        "x\n\n\n",
        "x\ny",
        "x\ny\r",
        "\n\n",
        "x\n\r\ny\n",
    ];
    for s in samples {
        let want: Vec<&str> = s.lines().skip(1).take_while(|l| !l.is_empty()).collect();
        assert_eq!(paths(&parse_file_list(s)), want, "{s:?}");
    }
}

#[test]
fn only_desc_describes_a_package() {
    assert!(is_description_file("desc"));
    assert!(!is_description_file("files"));
    assert!(!is_description_file("Desc"));
    assert!(!is_description_file("desc "));
    assert!(!is_description_file("descr"));
    assert!(!is_description_file("des"));
    assert!(!is_description_file(""));
    assert!(!is_description_file("foo-1.0-1/desc"));
}

#[test]
fn a_local_package_has_files_and_the_flag() {
    let pkg = Pkg::local(DESC, true, "%FILES%\nusr/\nusr/bin/foo\n").unwrap();
    assert_eq!(pkg.desc.name, "foo");
    assert_eq!(pkg.desc.version, "1.0-1");
    assert!(pkg.desc.install_script);
    assert_eq!(paths(&pkg.files), ["usr/", "usr/bin/foo"]);

    let pkg = Pkg::local(DESC, false, "").unwrap();
    assert!(!pkg.desc.install_script);
    assert!(pkg.files.is_empty());
}

#[test]
fn a_synced_package_has_neither() {
    let pkg = Pkg::synced(DESC).unwrap();
    assert_eq!(pkg.desc.name, "foo");
    assert!(!pkg.desc.install_script);
    assert!(pkg.files.is_empty());
}

#[test]
fn a_bad_record_makes_no_package() {
    assert_eq!(
        Pkg::local("%NAME%\nfoo\n", false, "%FILES%\nusr/\n").unwrap_err(),
        ParseError::MissingField(MandatoryField::Version)
    );
    assert_eq!(
        Pkg::synced("%CSIZE%\nmany\n").unwrap_err(),
        ParseError::InvalidNumber(Section::CSize)
    );
}
