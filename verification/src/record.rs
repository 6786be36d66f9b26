//! The grammar of a description record: sections of lines, read by a machine
//! with two kinds of state, between sections and inside one.

use crate::pkgdesc::{
    depend_of, depend_seq, opt_depend_of, opt_depend_seq, text_opt, text_seq, Depend, DependView,
    InstallReason, OptDepend, OptDependView, PkgDesc, PkgDescView, Validation,
};
use crate::smol::smol_from_chars;
use crate::text::{
    decimal_u64, is_line, is_text, joined, lemma_lines_of_joined, lines, parse_u64, split_lines,
    texts, to_chars,
};
use smol_str::SmolStr;
use vstd::prelude::*;

verus! {

/// The sections of a record. `Other` stands for every header that names no
/// field.
#[derive(Debug, Clone, Copy, PartialEq, Eq, Structural)]
pub enum Section {
    Name,
    Version,
    Arch,
    Desc,
    Url,
    License,
    Depends,
    OptDepends,
    Provides,
    Conflicts,
    Replaces,
    Groups,
    Size,
    CSize,
    Packager,
    BuildDate,
    InstallDate,
    Reason,
    Validation,
    Sha256Sum,
    Md5Sum,
    PgpSig,
    Other,
}

/// A field that every record must set.
#[derive(Debug, Clone, Copy, PartialEq, Eq, Structural)]
pub enum MandatoryField {
    Name,
    Version,
    Arch,
}

/// Why a record could not be read.
#[derive(Debug, Clone, Copy, PartialEq, Eq, Structural)]
pub enum ParseError {
    /// The record ended without a line for this field.
    MissingField(MandatoryField),
    /// A line of this section is not a decimal numeral of a `u64`.
    InvalidNumber(Section),
}

/// The section that a header names. `SIZE` and `ISIZE` name the same one.
pub open spec fn section_named(name: Seq<char>) -> Section {
    if name == "NAME"@ {
        Section::Name
    } else if name == "VERSION"@ {
        Section::Version
    } else if name == "ARCH"@ {
        Section::Arch
    } else if name == "DESC"@ {
        Section::Desc
    } else if name == "URL"@ {
        Section::Url
    } else if name == "LICENSE"@ {
        Section::License
    } else if name == "DEPENDS"@ {
        Section::Depends
    } else if name == "OPTDEPENDS"@ {
        Section::OptDepends
    } else if name == "PROVIDES"@ {
        Section::Provides
    } else if name == "CONFLICTS"@ {
        Section::Conflicts
    } else if name == "REPLACES"@ {
        Section::Replaces
    } else if name == "GROUPS"@ {
        Section::Groups
    } else if name == "SIZE"@ || name == "ISIZE"@ {
        Section::Size
    } else if name == "CSIZE"@ {
        Section::CSize
    } else if name == "PACKAGER"@ {
        Section::Packager
    } else if name == "BUILDDATE"@ {
        Section::BuildDate
    } else if name == "INSTALLDATE"@ {
        Section::InstallDate
    } else if name == "REASON"@ {
        Section::Reason
    } else if name == "VALIDATION"@ {
        Section::Validation
    } else if name == "SHA256SUM"@ {
        Section::Sha256Sum
    } else if name == "MD5SUM"@ {
        Section::Md5Sum
    } else if name == "PGPSIG"@ {
        Section::PgpSig
    } else {
        Section::Other
    }
}

/// The name that a header line gives: the line without its first and its
/// last character, whatever they are.
pub open spec fn header_name(line: Seq<char>) -> Seq<char> {
    if line.len() >= 2 {
        line.subrange(1, line.len() - 1)
    } else {
        Seq::empty()
    }
}

impl Section {
    /// The section that the header `name` names.
    pub fn named(name: &[char]) -> (sec: Section)
        ensures
            sec == section_named(name@),
    {
        if is_text(name, "NAME") {
            Section::Name
        } else if is_text(name, "VERSION") {
            Section::Version
        } else if is_text(name, "ARCH") {
            Section::Arch
        } else if is_text(name, "DESC") {
            Section::Desc
        } else if is_text(name, "URL") {
            Section::Url
        } else if is_text(name, "LICENSE") {
            Section::License
        } else if is_text(name, "DEPENDS") {
            Section::Depends
        } else if is_text(name, "OPTDEPENDS") {
            Section::OptDepends
        } else if is_text(name, "PROVIDES") {
            Section::Provides
        } else if is_text(name, "CONFLICTS") {
            Section::Conflicts
        } else if is_text(name, "REPLACES") {
            Section::Replaces
        } else if is_text(name, "GROUPS") {
            Section::Groups
        } else if is_text(name, "SIZE") || is_text(name, "ISIZE") {
            Section::Size
        } else if is_text(name, "CSIZE") {
            Section::CSize
        } else if is_text(name, "PACKAGER") {
            Section::Packager
        } else if is_text(name, "BUILDDATE") {
            Section::BuildDate
        } else if is_text(name, "INSTALLDATE") {
            Section::InstallDate
        } else if is_text(name, "REASON") {
            Section::Reason
        } else if is_text(name, "VALIDATION") {
            Section::Validation
        } else if is_text(name, "SHA256SUM") {
            Section::Sha256Sum
        } else if is_text(name, "MD5SUM") {
            Section::Md5Sum
        } else if is_text(name, "PGPSIG") {
            Section::PgpSig
        } else {
            Section::Other
        }
    }

    /// The section that the header line `line` opens.
    pub fn opened_by(line: &[char]) -> (sec: Section)
        ensures
            sec == section_named(header_name(line@)),
    {
        if line.len() >= 2 {
            Section::named(&line[1..line.len() - 1])
        } else {
            assert(line@.subrange(0, 0) == Seq::<char>::empty());
            Section::named(&line[0..0])
        }
    }
}

/// The state of the machine that reads a record: the section that is open,
/// if any, and the fields as far as they have been read.
#[derive(Debug)]
pub struct Scan {
    pub section: Option<Section>,
    pub name: Option<SmolStr>,
    pub version: Option<SmolStr>,
    pub arch: Option<SmolStr>,
    pub desc: Option<SmolStr>,
    pub url: Option<SmolStr>,
    pub packager: Option<SmolStr>,
    pub licenses: Vec<SmolStr>,
    pub depends: Vec<Depend>,
    pub opt_depends: Vec<OptDepend>,
    pub provides: Vec<Depend>,
    pub conflicts: Vec<SmolStr>,
    pub replaces: Vec<SmolStr>,
    pub groups: Vec<SmolStr>,
    pub size: u64,
    pub c_size: u64,
    pub build_date: u64,
    pub install_date: u64,
    pub install_reason: InstallReason,
    pub validations: Vec<Validation>,
}

/// What a `Scan` holds.
pub struct ScanView {
    pub section: Option<Section>,
    pub name: Option<Seq<char>>,
    pub version: Option<Seq<char>>,
    pub arch: Option<Seq<char>>,
    pub desc: Option<Seq<char>>,
    pub url: Option<Seq<char>>,
    pub packager: Option<Seq<char>>,
    pub licenses: Seq<Seq<char>>,
    pub depends: Seq<DependView>,
    pub opt_depends: Seq<OptDependView>,
    pub provides: Seq<DependView>,
    pub conflicts: Seq<Seq<char>>,
    pub replaces: Seq<Seq<char>>,
    pub groups: Seq<Seq<char>>,
    pub size: u64,
    pub c_size: u64,
    pub build_date: u64,
    pub install_date: u64,
    pub install_reason: InstallReason,
    pub validations: Seq<Validation>,
}

impl View for Scan {
    type V = ScanView;

    open spec fn view(&self) -> ScanView {
        ScanView {
            section: self.section,
            name: text_opt(self.name),
            version: text_opt(self.version),
            arch: text_opt(self.arch),
            desc: text_opt(self.desc),
            url: text_opt(self.url),
            packager: text_opt(self.packager),
            licenses: text_seq(self.licenses@),
            depends: depend_seq(self.depends@),
            opt_depends: opt_depend_seq(self.opt_depends@),
            provides: depend_seq(self.provides@),
            conflicts: text_seq(self.conflicts@),
            replaces: text_seq(self.replaces@),
            groups: text_seq(self.groups@),
            size: self.size,
            c_size: self.c_size,
            build_date: self.build_date,
            install_date: self.install_date,
            install_reason: self.install_reason,
            validations: self.validations@,
        }
    }
}

/// What a result holds: the view of the value, or the error.
pub open spec fn outcome<T: View>(res: Result<T, ParseError>) -> Result<T::V, ParseError> {
    match res {
        Ok(v) => Ok(v@),
        Err(e) => Err(e),
    }
}

/// The state before the first line: no section is open, no field is set,
/// every list is empty, every number is 0 and the package counts as
/// installed explicitly.
pub open spec fn start() -> ScanView {
    ScanView {
        section: None,
        name: None,
        version: None,
        arch: None,
        desc: None,
        url: None,
        packager: None,
        licenses: Seq::empty(),
        depends: Seq::empty(),
        opt_depends: Seq::empty(),
        provides: Seq::empty(),
        conflicts: Seq::empty(),
        replaces: Seq::empty(),
        groups: Seq::empty(),
        size: 0,
        c_size: 0,
        build_date: 0,
        install_date: 0,
        install_reason: InstallReason::Explicit,
        validations: Seq::empty(),
    }
}

/// The number that a line of the section `sec` must spell.
pub open spec fn number_of(sec: Section, line: Seq<char>) -> Result<u64, ParseError> {
    match decimal_u64(line) {
        Some(n) => Ok(n),
        None => Err(ParseError::InvalidNumber(sec)),
    }
}

/// The state after the data line `line` of the section `sec`.
///
/// A field with one value takes the line in place of what it had; a list
/// gets the line as its new last item. A line of a section that names no
/// field changes nothing.
pub open spec fn store(st: ScanView, sec: Section, line: Seq<char>) -> Result<
    ScanView,
    ParseError,
> {
    match sec {
        Section::Name => Ok(ScanView { name: Some(line), ..st }),
        Section::Version => Ok(ScanView { version: Some(line), ..st }),
        Section::Arch => Ok(ScanView { arch: Some(line), ..st }),
        Section::Desc => Ok(ScanView { desc: Some(line), ..st }),
        Section::Url => Ok(ScanView { url: Some(line), ..st }),
        Section::License => Ok(ScanView { licenses: st.licenses.push(line), ..st }),
        Section::Depends => Ok(ScanView { depends: st.depends.push(depend_of(line)), ..st }),
        Section::OptDepends => Ok(
            ScanView { opt_depends: st.opt_depends.push(opt_depend_of(line)), ..st },
        ),
        Section::Provides => Ok(ScanView { provides: st.provides.push(depend_of(line)), ..st }),
        Section::Conflicts => Ok(ScanView { conflicts: st.conflicts.push(line), ..st }),
        Section::Replaces => Ok(ScanView { replaces: st.replaces.push(line), ..st }),
        Section::Groups => Ok(ScanView { groups: st.groups.push(line), ..st }),
        Section::Size => match number_of(sec, line) {
            Ok(n) => Ok(ScanView { size: n, ..st }),
            Err(e) => Err(e),
        },
        Section::CSize => match number_of(sec, line) {
            Ok(n) => Ok(ScanView { c_size: n, ..st }),
            Err(e) => Err(e),
        },
        Section::Packager => Ok(ScanView { packager: Some(line), ..st }),
        Section::BuildDate => match number_of(sec, line) {
            Ok(n) => Ok(ScanView { build_date: n, ..st }),
            Err(e) => Err(e),
        },
        Section::InstallDate => match number_of(sec, line) {
            Ok(n) => Ok(ScanView { install_date: n, ..st }),
            Err(e) => Err(e),
        },
        Section::Reason => Ok(
            ScanView {
                install_reason: if line == "0"@ {
                    InstallReason::Explicit
                } else {
                    InstallReason::Dep
                },
                ..st
            },
        ),
        Section::Validation => if line == "pgp"@ {
            Ok(ScanView { validations: st.validations.push(Validation::Pgp), ..st })
        } else {
            Ok(st)
        },
        Section::Sha256Sum => Ok(
            ScanView { validations: st.validations.push(Validation::Sha256), ..st },
        ),
        Section::Md5Sum => Ok(ScanView { validations: st.validations.push(Validation::Md5), ..st }),
        Section::PgpSig => Ok(ScanView { validations: st.validations.push(Validation::Pgp), ..st }),
        Section::Other => Ok(st),
    }
}

/// The state after one more line.
///
/// An empty line closes the section. Between sections every other line is a
/// header and opens the section that it names. Inside a section every other
/// line is data of that section.
pub open spec fn step(st: ScanView, line: Seq<char>) -> Result<ScanView, ParseError> {
    if line.len() == 0 {
        Ok(ScanView { section: None, ..st })
    } else {
        match st.section {
            None => Ok(ScanView { section: Some(section_named(header_name(line))), ..st }),
            Some(sec) => store(st, sec, line),
        }
    }
}

/// The state after all of `lines`, or the error of the first line that has
/// one.
pub open spec fn scan(st: ScanView, lines: Seq<Seq<char>>) -> Result<ScanView, ParseError>
    decreases lines.len(),
{
    if lines.len() == 0 {
        Ok(st)
    } else {
        match step(st, lines[0]) {
            Ok(next) => scan(next, lines.drop_first()),
            Err(e) => Err(e),
        }
    }
}

/// The description that the fields make, once the record has ended: name,
/// version and architecture must be set, and are asked for in that order.
pub open spec fn finish(st: ScanView, install_script: bool) -> Result<PkgDescView, ParseError> {
    if st.name is None {
        Err(ParseError::MissingField(MandatoryField::Name))
    } else if st.version is None {
        Err(ParseError::MissingField(MandatoryField::Version))
    } else if st.arch is None {
        Err(ParseError::MissingField(MandatoryField::Arch))
    } else {
        Ok(
            PkgDescView {
                name: st.name->0,
                version: st.version->0,
                desc: st.desc,
                arch: st.arch->0,
                url: st.url,
                licenses: st.licenses,
                depends: st.depends,
                opt_depends: st.opt_depends,
                provides: st.provides,
                conflicts: st.conflicts,
                replaces: st.replaces,
                size: st.size,
                c_size: st.c_size,
                packager: st.packager,
                groups: st.groups,
                build_date: st.build_date,
                install_date: st.install_date,
                install_reason: st.install_reason,
                install_script,
                validations: st.validations,
            },
        )
    }
}

/// The description that the text of a record spells, or the reason why it
/// spells none.
pub open spec fn record_of(text: Seq<char>, install_script: bool) -> Result<
    PkgDescView,
    ParseError,
> {
    match scan(start(), lines(text)) {
        Ok(st) => finish(st, install_script),
        Err(e) => Err(e),
    }
}

/// Whether `l` can stand as a data line: it is a line and is not empty.
pub open spec fn is_data_line(l: Seq<char>) -> bool {
    l.len() > 0 && is_line(l)
}

/// The text of a record that holds the three mandatory sections and nothing
/// else.
pub open spec fn minimal_record(name: Seq<char>, version: Seq<char>, arch: Seq<char>) -> Seq<
    char,
> {
    joined(
        seq![
            "%NAME%"@,
            name,
            Seq::empty(),
            "%VERSION%"@,
            version,
            Seq::empty(),
            "%ARCH%"@,
            arch,
        ],
    )
}

/// The description that holds the three mandatory fields and nothing else:
/// every list is empty, every number is 0, every other text is absent, and
/// the package counts as installed explicitly.
pub open spec fn minimal_desc(
    name: Seq<char>,
    version: Seq<char>,
    arch: Seq<char>,
    install_script: bool,
) -> PkgDescView {
    PkgDescView {
        name,
        version,
        desc: None,
        arch,
        url: None,
        licenses: Seq::empty(),
        depends: Seq::empty(),
        opt_depends: Seq::empty(),
        provides: Seq::empty(),
        conflicts: Seq::empty(),
        replaces: Seq::empty(),
        size: 0,
        c_size: 0,
        packager: None,
        groups: Seq::empty(),
        build_date: 0,
        install_date: 0,
        install_reason: InstallReason::Explicit,
        install_script,
        validations: Seq::empty(),
    }
}

/// A record with only the three mandatory sections is read, and gives the
/// description with those three fields and nothing else.
pub proof fn lemma_minimal_record(
    name: Seq<char>,
    version: Seq<char>,
    arch: Seq<char>,
    install_script: bool,
)
    requires
        is_data_line(name),
        is_data_line(version),
        is_data_line(arch),
    ensures
        record_of(minimal_record(name, version, arch), install_script) == Ok::<
            PkgDescView,
            ParseError,
        >(minimal_desc(name, version, arch, install_script)),
{
    reveal_strlit("%NAME%");
    reveal_strlit("NAME");
    reveal_strlit("%VERSION%");
    reveal_strlit("VERSION");
    reveal_strlit("%ARCH%");
    reveal_strlit("ARCH");
    let ls = seq![
        "%NAME%"@,
        name,
        Seq::empty(),
        "%VERSION%"@,
        version,
        Seq::empty(),
        "%ARCH%"@,
        arch,
    ];
    assert forall|i: int| 0 <= i < ls.len() implies is_line(#[trigger] ls[i]) by {}
    lemma_lines_of_joined(ls);
    assert(header_name("%NAME%"@) =~= "NAME"@);
    assert(header_name("%VERSION%"@) =~= "VERSION"@);
    assert(header_name("%ARCH%"@) =~= "ARCH"@);
    assert("ARCH"@[0] != "NAME"@[0]);
    let s0 = start();
    let s1 = ScanView { section: Some(Section::Name), ..s0 };
    let s2 = ScanView { name: Some(name), ..s1 };
    let s3 = ScanView { section: None, ..s2 };
    let s4 = ScanView { section: Some(Section::Version), ..s3 };
    let s5 = ScanView { version: Some(version), ..s4 };
    let s6 = ScanView { section: None, ..s5 };
    let s7 = ScanView { section: Some(Section::Arch), ..s6 };
    let s8 = ScanView { arch: Some(arch), ..s7 };
    assert(step(s0, ls[0]) == Ok::<ScanView, ParseError>(s1));
    assert(step(s1, ls[1]) == Ok::<ScanView, ParseError>(s2));
    assert(step(s2, ls[2]) == Ok::<ScanView, ParseError>(s3));
    assert(step(s3, ls[3]) == Ok::<ScanView, ParseError>(s4));
    assert(step(s4, ls[4]) == Ok::<ScanView, ParseError>(s5));
    assert(step(s5, ls[5]) == Ok::<ScanView, ParseError>(s6));
    assert(step(s6, ls[6]) == Ok::<ScanView, ParseError>(s7));
    assert(step(s7, ls[7]) == Ok::<ScanView, ParseError>(s8));
    lemma_scan_first(s7, ls.skip(7));
    assert(ls.skip(7).drop_first() =~= Seq::empty());
    assert(scan(s7, ls.skip(7)) == Ok::<ScanView, ParseError>(s8));
    lemma_scan_first(s6, ls.skip(6));
    assert(ls.skip(6).drop_first() =~= ls.skip(7));
    lemma_scan_first(s5, ls.skip(5));
    assert(ls.skip(5).drop_first() =~= ls.skip(6));
    lemma_scan_first(s4, ls.skip(4));
    assert(ls.skip(4).drop_first() =~= ls.skip(5));
    lemma_scan_first(s3, ls.skip(3));
    assert(ls.skip(3).drop_first() =~= ls.skip(4));
    lemma_scan_first(s2, ls.skip(2));
    assert(ls.skip(2).drop_first() =~= ls.skip(3));
    lemma_scan_first(s1, ls.skip(1));
    assert(ls.skip(1).drop_first() =~= ls.skip(2));
    lemma_scan_first(s0, ls);
    assert(ls.drop_first() =~= ls.skip(1));
    assert(scan(s0, ls) == Ok::<ScanView, ParseError>(s8));
}

/// Reading lines is reading the first and then the others.
proof fn lemma_scan_first(st: ScanView, lines: Seq<Seq<char>>)
    requires
        lines.len() > 0,
    ensures
        scan(st, lines) == match step(st, lines[0]) {
            Ok(next) => scan(next, lines.drop_first()),
            Err(e) => Err(e),
        },
{
}

/// The section whose lines set the mandatory field `field`.
pub open spec fn section_of(field: MandatoryField) -> Section {
    match field {
        MandatoryField::Name => Section::Name,
        MandatoryField::Version => Section::Version,
        MandatoryField::Arch => Section::Arch,
    }
}

/// What the mandatory field `field` holds in the state `st`.
pub open spec fn field_of(st: ScanView, field: MandatoryField) -> Option<Seq<char>> {
    match field {
        MandatoryField::Name => st.name,
        MandatoryField::Version => st.version,
        MandatoryField::Arch => st.arch,
    }
}

/// Whether none of `lines`, read as a header, names the section `sec`.
pub open spec fn never_names(lines: Seq<Seq<char>>, sec: Section) -> bool {
    forall|i: int| 0 <= i < lines.len() ==> section_named(header_name(#[trigger] lines[i])) != sec
}

/// A mandatory field that is not set stays so while its section is not open
/// and no line names that section.
proof fn lemma_scan_keeps_unset(st: ScanView, lines: Seq<Seq<char>>, field: MandatoryField)
    requires
        never_names(lines, section_of(field)),
        st.section != Some(section_of(field)),
        field_of(st, field) is None,
    ensures
        scan(st, lines) matches Ok(end) ==> field_of(end, field) is None,
    decreases lines.len(),
{
    if lines.len() > 0 {
        let rest = lines.drop_first();
        assert forall|i: int| 0 <= i < rest.len() implies section_named(
            header_name(#[trigger] rest[i]),
        ) != section_of(field) by {
            assert(rest[i] == lines[i + 1]);
        }
        assert(section_named(header_name(lines[0])) != section_of(field));
        match step(st, lines[0]) {
            Ok(next) => {
                lemma_scan_keeps_unset(next, rest, field);
            },
            Err(_) => {},
        }
    }
}

/// A record in which no line names the section of a mandatory field is not
/// accepted; unless a number in it is malformed, the error is that a field
/// is missing.
pub proof fn lemma_record_needs_field(text: Seq<char>, install_script: bool, field: MandatoryField)
    requires
        never_names(lines(text), section_of(field)),
    ensures
        record_of(text, install_script) is Err,
        scan(start(), lines(text)) is Ok ==> record_of(text, install_script)->Err_0 is MissingField,
{
    lemma_scan_keeps_unset(start(), lines(text), field);
}

/// Appends the text `line` to a list of strings.
fn push_text(list: &mut Vec<SmolStr>, line: &[char])
    ensures
        text_seq(final(list)@) == text_seq(old(list)@).push(line@),
{
    list.push(smol_from_chars(line));
    assert(text_seq(list@) =~= text_seq(old(list)@).push(line@));
}

/// Appends the specifier that `line` spells to a list of dependencies.
fn push_depend(list: &mut Vec<Depend>, line: &[char])
    ensures
        depend_seq(final(list)@) == depend_seq(old(list)@).push(depend_of(line@)),
{
    list.push(Depend::parse_chars(line));
    assert(depend_seq(list@) =~= depend_seq(old(list)@).push(depend_of(line@)));
}

/// Appends the optional dependency that `line` spells to a list of them.
fn push_opt_depend(list: &mut Vec<OptDepend>, line: &[char])
    ensures
        opt_depend_seq(final(list)@) == opt_depend_seq(old(list)@).push(opt_depend_of(line@)),
{
    list.push(OptDepend::parse_chars(line));
    assert(opt_depend_seq(list@) =~= opt_depend_seq(old(list)@).push(opt_depend_of(line@)));
}

/// Reads the number that a line of the section `sec` must spell.
fn read_number(sec: Section, line: &[char]) -> (res: Result<u64, ParseError>)
    ensures
        res == number_of(sec, line@),
{
    match parse_u64(line) {
        Some(n) => Ok(n),
        None => Err(ParseError::InvalidNumber(sec)),
    }
}

impl Scan {
    /// The state before the first line.
    pub fn new() -> (st: Scan)
        ensures
            st@ == start(),
    {
        let st = Scan {
            section: None,
            name: None,
            version: None,
            arch: None,
            desc: None,
            url: None,
            packager: None,
            licenses: Vec::new(),
            depends: Vec::new(),
            opt_depends: Vec::new(),
            provides: Vec::new(),
            conflicts: Vec::new(),
            replaces: Vec::new(),
            groups: Vec::new(),
            size: 0,
            c_size: 0,
            build_date: 0,
            install_date: 0,
            install_reason: InstallReason::Explicit,
            validations: Vec::new(),
        };
        assert(st@.licenses =~= Seq::empty());
        assert(st@.depends =~= Seq::empty());
        assert(st@.opt_depends =~= Seq::empty());
        assert(st@.provides =~= Seq::empty());
        assert(st@.conflicts =~= Seq::empty());
        assert(st@.replaces =~= Seq::empty());
        assert(st@.groups =~= Seq::empty());
        st
    }

    /// Stores the data line `line` of the section `sec`.
    pub fn store(self, sec: Section, line: &[char]) -> (res: Result<Scan, ParseError>)
        ensures
            outcome(res) == store(self@, sec, line@),
    {
        let mut st = self;
        match sec {
            Section::Name => {
                st.name = Some(smol_from_chars(line));
            },
            Section::Version => {
                st.version = Some(smol_from_chars(line));
            },
            Section::Arch => {
                st.arch = Some(smol_from_chars(line));
            },
            Section::Desc => {
                st.desc = Some(smol_from_chars(line));
            },
            Section::Url => {
                st.url = Some(smol_from_chars(line));
            },
            Section::License => {
                push_text(&mut st.licenses, line);
            },
            Section::Depends => {
                push_depend(&mut st.depends, line);
            },
            Section::OptDepends => {
                push_opt_depend(&mut st.opt_depends, line);
            },
            Section::Provides => {
                push_depend(&mut st.provides, line);
            },
            Section::Conflicts => {
                push_text(&mut st.conflicts, line);
            },
            Section::Replaces => {
                push_text(&mut st.replaces, line);
            },
            Section::Groups => {
                push_text(&mut st.groups, line);
            },
            Section::Size => {
                st.size = read_number(sec, line)?;
            },
            Section::CSize => {
                st.c_size = read_number(sec, line)?;
            },
            Section::Packager => {
                st.packager = Some(smol_from_chars(line));
            },
            Section::BuildDate => {
                st.build_date = read_number(sec, line)?;
            },
            Section::InstallDate => {
                st.install_date = read_number(sec, line)?;
            },
            Section::Reason => {
                st.install_reason = if is_text(line, "0") {
                    InstallReason::Explicit
                } else {
                    InstallReason::Dep
                };
            },
            Section::Validation => {
                if is_text(line, "pgp") {
                    st.validations.push(Validation::Pgp);
                }
            },
            Section::Sha256Sum => {
                st.validations.push(Validation::Sha256);
            },
            Section::Md5Sum => {
                st.validations.push(Validation::Md5);
            },
            Section::PgpSig => {
                st.validations.push(Validation::Pgp);
            },
            Section::Other => {},
        }
        Ok(st)
    }

    /// Reads one more line.
    pub fn feed(self, line: &[char]) -> (res: Result<Scan, ParseError>)
        ensures
            outcome(res) == step(self@, line@),
    {
        let mut st = self;
        if line.len() == 0 {
            st.section = None;
            Ok(st)
        } else {
            match st.section {
                None => {
                    st.section = Some(Section::opened_by(line));
                    Ok(st)
                },
                Some(sec) => st.store(sec, line),
            }
        }
    }

    /// Ends the record and makes the description.
    pub fn finish(self, install_script: bool) -> (res: Result<PkgDesc, ParseError>)
        ensures
            outcome(res) == finish(self@, install_script),
    {
        let name = match self.name {
            Some(name) => name,
            None => {
                return Err(ParseError::MissingField(MandatoryField::Name));
            },
        };
        let version = match self.version {
            Some(version) => version,
            None => {
                return Err(ParseError::MissingField(MandatoryField::Version));
            },
        };
        let arch = match self.arch {
            Some(arch) => arch,
            None => {
                return Err(ParseError::MissingField(MandatoryField::Arch));
            },
        };
        Ok(
            PkgDesc {
                name,
                version,
                desc: self.desc,
                arch,
                url: self.url,
                licenses: self.licenses,
                depends: self.depends,
                opt_depends: self.opt_depends,
                provides: self.provides,
                conflicts: self.conflicts,
                replaces: self.replaces,
                size: self.size,
                c_size: self.c_size,
                packager: self.packager,
                groups: self.groups,
                build_date: self.build_date,
                install_date: self.install_date,
                install_reason: self.install_reason,
                install_script,
                validations: self.validations,
            },
        )
    }
}

impl PkgDesc {
    /// Reads the description of a package from the text of its record.
    ///
    /// `install_script` is not read from the text: the description holds it
    /// as it is given.
    pub fn parse(src: &str, install_script: bool) -> (res: Result<PkgDesc, ParseError>)
        ensures
            outcome(res) == record_of(src@, install_script),
    {
        let chars = to_chars(src);
        let all = split_lines(chars.as_slice());
        let mut st = Scan::new();
        let mut i: usize = 0;
        assert(texts(all@).skip(0) == texts(all@));
        while i < all.len()
            invariant
                i <= all.len(),
                texts(all@) == lines(src@),
                scan(start(), texts(all@)) == scan(st@, texts(all@).skip(i as int)),
            decreases all.len() - i,
        {
            assert(texts(all@).skip(i as int).drop_first() == texts(all@).skip(i + 1));
            assert(texts(all@).skip(i as int)[0] == all@[i as int]@);
            st = match st.feed(all[i]) {
                Ok(next) => next,
                Err(e) => {
                    return Err(e);
                },
            };
            i += 1;
        }
        st.finish(install_script)
    }
}

} // verus!
