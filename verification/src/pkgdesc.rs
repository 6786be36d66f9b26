//! Package descriptions: the data, the grammar of a dependency specifier and
//! when one specifier satisfies another.

use crate::smol::{smol_eq, smol_from_chars, smol_lt, smol_text};
use crate::text::{
    cut_once, find_any, first_of, lemma_first_of, lemma_first_of_is, lemma_split_once_none,
    lemma_split_once_recovers, lemma_text_lt_total, split_once, text_lt, to_chars,
};
use smol_str::SmolStr;
use vstd::prelude::*;

verus! {

/// How a required version is compared with the version at hand.
#[derive(Debug, Clone, Copy, PartialEq, Eq, Structural)]
pub enum ReqCmp {
    Lt,
    LtEq,
    Gt,
    GtEq,
    Eq,
}

/// A version constraint: an operator and the version it compares with.
#[derive(Debug)]
pub struct DepVer {
    pub req_cmp: ReqCmp,
    pub ver: SmolStr,
}

/// A dependency specifier: a package name, with or without a version
/// constraint.
#[derive(Debug)]
pub struct Depend {
    pub name: SmolStr,
    pub ver: Option<DepVer>,
}

/// A dependency that a package can use but does not need, and what for.
#[derive(Debug)]
pub struct OptDepend {
    pub dep: Depend,
    pub reason: Option<SmolStr>,
}

/// Why a package was installed.
#[derive(Debug, Clone, Copy, PartialEq, Eq, Structural)]
pub enum InstallReason {
    Explicit,
    Dep,
}

/// A way in which a package declares that it can be validated.
#[derive(Debug, Clone, Copy, PartialEq, Eq, Structural)]
pub enum Validation {
    Pgp,
    Sha256,
    Md5,
}

/// The description of one package.
#[derive(Debug)]
pub struct PkgDesc {
    pub name: SmolStr,
    pub version: SmolStr,
    pub desc: Option<SmolStr>,
    pub arch: SmolStr,
    pub url: Option<SmolStr>,
    pub licenses: Vec<SmolStr>,
    pub depends: Vec<Depend>,
    pub opt_depends: Vec<OptDepend>,
    pub provides: Vec<Depend>,
    pub conflicts: Vec<SmolStr>,
    pub replaces: Vec<SmolStr>,
    pub size: u64,
    /// Compressed size
    pub c_size: u64,
    pub packager: Option<SmolStr>,
    pub groups: Vec<SmolStr>,
    pub build_date: u64,
    pub install_date: u64,
    pub install_reason: InstallReason,
    pub install_script: bool,
    pub validations: Vec<Validation>,
}

/// What a `DepVer` holds.
pub struct DepVerView {
    pub req_cmp: ReqCmp,
    pub ver: Seq<char>,
}

/// What a `Depend` holds.
pub struct DependView {
    pub name: Seq<char>,
    pub ver: Option<DepVerView>,
}

/// What an `OptDepend` holds.
pub struct OptDependView {
    pub dep: DependView,
    pub reason: Option<Seq<char>>,
}

/// What a `PkgDesc` holds.
pub struct PkgDescView {
    pub name: Seq<char>,
    pub version: Seq<char>,
    pub desc: Option<Seq<char>>,
    pub arch: Seq<char>,
    pub url: Option<Seq<char>>,
    pub licenses: Seq<Seq<char>>,
    pub depends: Seq<DependView>,
    pub opt_depends: Seq<OptDependView>,
    pub provides: Seq<DependView>,
    pub conflicts: Seq<Seq<char>>,
    pub replaces: Seq<Seq<char>>,
    pub size: u64,
    pub c_size: u64,
    pub packager: Option<Seq<char>>,
    pub groups: Seq<Seq<char>>,
    pub build_date: u64,
    pub install_date: u64,
    pub install_reason: InstallReason,
    pub install_script: bool,
    pub validations: Seq<Validation>,
}

/// The text of a string that may be absent.
pub open spec fn text_opt(s: Option<SmolStr>) -> Option<Seq<char>> {
    match s {
        Some(t) => Some(smol_text(t)),
        None => None,
    }
}

/// The texts of a list of strings.
pub open spec fn text_seq(v: Seq<SmolStr>) -> Seq<Seq<char>> {
    v.map_values(|s: SmolStr| smol_text(s))
}

/// What a list of dependency specifiers holds.
pub open spec fn depend_seq(v: Seq<Depend>) -> Seq<DependView> {
    v.map_values(|d: Depend| d@)
}

/// What a list of optional dependencies holds.
pub open spec fn opt_depend_seq(v: Seq<OptDepend>) -> Seq<OptDependView> {
    v.map_values(|d: OptDepend| d@)
}

impl DependView {
    /// The specifier of a name alone.
    pub open spec fn bare(name: Seq<char>) -> DependView {
        DependView { name, ver: None }
    }

    /// The specifier of a name with the constraint `op ver`.
    pub open spec fn versioned(name: Seq<char>, op: ReqCmp, ver: Seq<char>) -> DependView {
        DependView { name, ver: Some(DepVerView { req_cmp: op, ver }) }
    }
}

impl View for DepVer {
    type V = DepVerView;

    open spec fn view(&self) -> DepVerView {
        DepVerView { req_cmp: self.req_cmp, ver: smol_text(self.ver) }
    }
}

impl View for OptDepend {
    type V = OptDependView;

    open spec fn view(&self) -> OptDependView {
        OptDependView { dep: self.dep@, reason: text_opt(self.reason) }
    }
}

impl View for PkgDesc {
    type V = PkgDescView;

    open spec fn view(&self) -> PkgDescView {
        PkgDescView {
            name: smol_text(self.name),
            version: smol_text(self.version),
            desc: text_opt(self.desc),
            arch: smol_text(self.arch),
            url: text_opt(self.url),
            licenses: text_seq(self.licenses@),
            depends: depend_seq(self.depends@),
            opt_depends: opt_depend_seq(self.opt_depends@),
            provides: depend_seq(self.provides@),
            conflicts: text_seq(self.conflicts@),
            replaces: text_seq(self.replaces@),
            size: self.size,
            c_size: self.c_size,
            packager: text_opt(self.packager),
            groups: text_seq(self.groups@),
            build_date: self.build_date,
            install_date: self.install_date,
            install_reason: self.install_reason,
            install_script: self.install_script,
            validations: self.validations@,
        }
    }
}

impl View for Depend {
    type V = DependView;

    open spec fn view(&self) -> DependView {
        DependView {
            name: smol_text(self.name),
            ver: match self.ver {
                Some(v) => Some(v@),
                None => None,
            },
        }
    }
}

/// Whether `c` begins a comparison operator.
pub open spec fn is_operator_char(c: char) -> bool {
    c == '<' || c == '>' || c == '='
}

/// The position of the first `<`, `>` or `=` in `s`, or `s.len()` when `s`
/// has none.
pub open spec fn operator_index(s: Seq<char>) -> int {
    first_of(s, seq!['=', '>', '<']) as int
}

/// The operator that `s` begins with, and the number of characters it takes.
/// A two-character operator goes before the one-character operator that it
/// begins with.
pub open spec fn operator_at(s: Seq<char>) -> (ReqCmp, int)
    recommends
        s.len() > 0,
        is_operator_char(s[0]),
{
    if s[0] == '<' {
        if s.len() > 1 && s[1] == '=' {
            (ReqCmp::LtEq, 2)
        } else {
            (ReqCmp::Lt, 1)
        }
    } else if s[0] == '>' {
        if s.len() > 1 && s[1] == '=' {
            (ReqCmp::GtEq, 2)
        } else {
            (ReqCmp::Gt, 1)
        }
    } else {
        (ReqCmp::Eq, 1)
    }
}

/// The dependency specifier that `s` spells.
///
/// Without a `<`, `>` or `=`, all of `s` is the name and there is no
/// constraint. Otherwise the name is what stands before the first of them,
/// the operator begins there, and the version is everything after the
/// operator. Every text spells a specifier.
pub open spec fn depend_of(s: Seq<char>) -> DependView {
    let p = operator_index(s);
    if p >= s.len() {
        DependView::bare(s)
    } else {
        let (op, width) = operator_at(s.skip(p));
        DependView::versioned(s.take(p), op, s.skip(p + width))
    }
}

/// How an operator is written.
pub open spec fn operator_text(op: ReqCmp) -> Seq<char> {
    match op {
        ReqCmp::Lt => seq!['<'],
        ReqCmp::LtEq => seq!['<', '='],
        ReqCmp::Gt => seq!['>'],
        ReqCmp::GtEq => seq!['>', '='],
        ReqCmp::Eq => seq!['='],
    }
}

/// Whether `s` holds none of `<`, `>` and `=`, as a package name must.
pub open spec fn is_plain_name(s: Seq<char>) -> bool {
    forall|i: int| 0 <= i < s.len() ==> !is_operator_char(#[trigger] s[i])
}

/// In a plain name followed by text that begins with an operator, the
/// operator is found where the name ends.
pub proof fn lemma_operator_after_name(name: Seq<char>, rest: Seq<char>)
    requires
        is_plain_name(name),
        rest.len() > 0,
        is_operator_char(rest[0]),
    ensures
        operator_index(name + rest) == name.len(),
{
    let s = name + rest;
    let set = seq!['=', '>', '<'];
    assert forall|j: int| 0 <= j < name.len() implies !set.contains(#[trigger] s[j]) by {
        assert(s[j] == name[j]);
    }
    assert(s[name.len() as int] == rest[0]);
    assert(set[0] == '=' && set[1] == '>' && set[2] == '<');
    lemma_first_of_is(s, set, name.len() as int);
}

/// The name of every specifier is plain: it ends before the first `<`, `>`
/// or `=`.
pub proof fn lemma_parsed_name_is_plain(s: Seq<char>)
    ensures
        is_plain_name(depend_of(s).name),
{
    let set = seq!['=', '>', '<'];
    lemma_first_of(s, set);
    let name = depend_of(s).name;
    assert forall|i: int| 0 <= i < name.len() implies !is_operator_char(#[trigger] name[i]) by {
        assert(name[i] == s[i]);
        assert(!set.contains(s[i]));
        assert(set[0] == '=' && set[1] == '>' && set[2] == '<');
    }
}

/// A plain name alone reads back as that name, without a constraint.
pub proof fn lemma_parse_recovers_name(name: Seq<char>)
    requires
        is_plain_name(name),
    ensures
        depend_of(name) == DependView::bare(name),
{
    let set = seq!['=', '>', '<'];
    lemma_first_of(name, set);
    if first_of(name, set) < name.len() {
        let c = name[first_of(name, set) as int];
        assert(set.contains(c));
        assert(is_operator_char(c));
    }
}

/// A specifier written as a plain name, an operator and a version reads back
/// as exactly those three.
///
/// After `<` or `>` the version must not begin with `=`: the two characters
/// together are the longer operator.
pub proof fn lemma_parse_recovers_parts(name: Seq<char>, op: ReqCmp, ver: Seq<char>)
    requires
        is_plain_name(name),
        op == ReqCmp::Lt || op == ReqCmp::Gt ==> ver.len() == 0 || ver[0] != '=',
    ensures
        depend_of(name + operator_text(op) + ver) == DependView::versioned(name, op, ver),
{
    let rest = operator_text(op) + ver;
    let s = name + rest;
    assert(s == name + operator_text(op) + ver);
    lemma_operator_after_name(name, rest);
    let p = operator_index(s);
    assert(s.skip(p) == rest);
    assert(s.take(p) == name);
    let width = operator_at(rest).1;
    assert(operator_at(rest).0 == op);
    assert(width == operator_text(op).len());
    assert(s.skip(p + width) == ver);
}

/// Whether the version `have` meets the constraint `op want`, by the
/// lexicographic order of the two texts.
pub open spec fn version_accepts(op: ReqCmp, have: Seq<char>, want: Seq<char>) -> bool {
    match op {
        ReqCmp::Lt => text_lt(have, want),
        ReqCmp::LtEq => text_lt(have, want) || have == want,
        ReqCmp::Gt => text_lt(want, have),
        ReqCmp::GtEq => text_lt(want, have) || have == want,
        ReqCmp::Eq => have == want,
    }
}

/// The five operators are those of one total order: of `<`, `=` and `>`
/// exactly one holds, `<=` holds where `>` does not, and `>=` where `<` does
/// not.
pub proof fn lemma_operators_agree(have: Seq<char>, want: Seq<char>)
    ensures
        version_accepts(ReqCmp::Lt, have, want) || version_accepts(ReqCmp::Eq, have, want)
            || version_accepts(ReqCmp::Gt, have, want),
        !(version_accepts(ReqCmp::Lt, have, want) && version_accepts(ReqCmp::Eq, have, want)),
        !(version_accepts(ReqCmp::Gt, have, want) && version_accepts(ReqCmp::Eq, have, want)),
        !(version_accepts(ReqCmp::Lt, have, want) && version_accepts(ReqCmp::Gt, have, want)),
        version_accepts(ReqCmp::LtEq, have, want) == !version_accepts(ReqCmp::Gt, have, want),
        version_accepts(ReqCmp::GtEq, have, want) == !version_accepts(ReqCmp::Lt, have, want),
{
    lemma_text_lt_total(have, want);
}

/// Whether `have` satisfies the requirement `want`: the names are equal and,
/// where `want` carries a constraint, the version of `have` meets it.
pub open spec fn satisfies_spec(have: DependView, want: DependView) -> bool
    recommends
        have.name == want.name && want.ver is Some ==> have.ver is Some,
{
    have.name == want.name && match want.ver {
        Some(c) => version_accepts(c.req_cmp, have.ver->0.ver, c.ver),
        None => true,
    }
}

/// Reads the operator that `s` begins with.
fn read_operator(s: &[char]) -> (out: (ReqCmp, usize))
    requires
        s.len() > 0,
        is_operator_char(s@[0]),
    ensures
        out.0 == operator_at(s@).0,
        out.1 == operator_at(s@).1,
        1 <= out.1 <= s.len(),
{
    let followed = s.len() > 1 && s[1] == '=';
    if s[0] == '<' {
        if followed {
            (ReqCmp::LtEq, 2)
        } else {
            (ReqCmp::Lt, 1)
        }
    } else if s[0] == '>' {
        if followed {
            (ReqCmp::GtEq, 2)
        } else {
            (ReqCmp::Gt, 1)
        }
    } else {
        (ReqCmp::Eq, 1)
    }
}

impl DepVer {
    /// Whether this version meets the constraint `other`.
    pub fn satisfies(&self, other: &Self) -> (ok: bool)
        ensures
            ok == version_accepts(other@.req_cmp, self@.ver, other@.ver),
    {
        match other.req_cmp {
            ReqCmp::Lt => smol_lt(&self.ver, &other.ver),
            ReqCmp::LtEq => smol_lt(&self.ver, &other.ver) || smol_eq(&self.ver, &other.ver),
            ReqCmp::Gt => smol_lt(&other.ver, &self.ver),
            ReqCmp::GtEq => smol_lt(&other.ver, &self.ver) || smol_eq(&self.ver, &other.ver),
            ReqCmp::Eq => smol_eq(&self.ver, &other.ver),
        }
    }
}

impl Depend {
    /// Reads a dependency specifier from a line of text. Nothing is trimmed.
    pub fn parse(src: &str) -> (dep: Depend)
        ensures
            dep@ == depend_of(src@),
    {
        let chars = to_chars(src);
        Depend::parse_chars(chars.as_slice())
    }

    /// Reads a dependency specifier from the characters of a line.
    pub fn parse_chars(line: &[char]) -> (dep: Depend)
        ensures
            dep@ == depend_of(line@),
    {
        let marks = ['=', '>', '<'];
        let p = find_any(line, &marks);
        assert(marks@ == seq!['=', '>', '<']);
        if p >= line.len() {
            return Depend { name: smol_from_chars(line), ver: None };
        }
        proof {
            lemma_first_of(line@, marks@);
        }
        let rest = &line[p..line.len()];
        let (op, width) = read_operator(rest);
        let name = smol_from_chars(&line[0..p]);
        let ver = smol_from_chars(&line[p + width..line.len()]);
        Depend { name, ver: Some(DepVer { req_cmp: op, ver }) }
    }

    /// Whether this dependency satisfies the requirement `req`.
    ///
    /// A requirement with a version constraint can only be held against a
    /// dependency that has a version: where the names are equal, the caller
    /// sees to that.
    pub fn satisfies(&self, req: &Self) -> (ok: bool)
        requires
            self@.name == req@.name && req@.ver is Some ==> self@.ver is Some,
        ensures
            ok == satisfies_spec(self@, req@),
    {
        if smol_eq(&self.name, &req.name) {
            match &req.ver {
                Some(want) => self.ver.as_ref().unwrap().satisfies(want),
                None => true,
            }
        } else {
            false
        }
    }
}

/// The optional dependency that `line` spells: a dependency specifier and,
/// after the first `": "`, the reason. Without a `": "` all of `line` is the
/// specifier and there is no reason.
pub open spec fn opt_depend_of(line: Seq<char>) -> OptDependView {
    match split_once(line, seq![':', ' ']) {
        Some((dep, reason)) => OptDependView { dep: depend_of(dep), reason: Some(reason) },
        None => OptDependView { dep: depend_of(line), reason: None },
    }
}

/// Whether `s` holds no `": "`.
pub open spec fn has_no_separator(s: Seq<char>) -> bool {
    forall|j: int| 0 <= j < s.len() - 1 ==> !(#[trigger] s[j] == ':' && s[j + 1] == ' ')
}

/// A specifier and a reason that are written with `": "` between them read
/// back as that specifier and that reason, whatever the reason holds.
pub proof fn lemma_opt_depend_recovers(dep: Seq<char>, reason: Seq<char>)
    requires
        has_no_separator(dep),
    ensures
        opt_depend_of(dep + seq![':', ' '] + reason) == (OptDependView {
            dep: depend_of(dep),
            reason: Some(reason),
        }),
{
    let sep = seq![':', ' '];
    assert forall|j: int| 0 <= j < dep.len() implies !sep.is_prefix_of(
        #[trigger] (dep + sep).skip(j),
    ) by {
        let at = (dep + sep).skip(j);
        if sep.is_prefix_of(at) {
            assert(at.subrange(0, 2)[0] == sep[0]);
            assert(at.subrange(0, 2)[1] == sep[1]);
            assert(at[0] == dep[j]);
            if j + 1 < dep.len() {
                assert(at[1] == dep[j + 1]);
            } else {
                assert(at[1] == ':');
            }
        }
    }
    lemma_split_once_recovers(dep, sep, reason);
}

/// A specifier without `": "` reads back as that specifier, without a
/// reason.
pub proof fn lemma_opt_depend_without_reason(dep: Seq<char>)
    requires
        has_no_separator(dep),
    ensures
        opt_depend_of(dep) == (OptDependView { dep: depend_of(dep), reason: None }),
{
    let sep = seq![':', ' '];
    assert forall|j: int| 0 <= j <= dep.len() implies !sep.is_prefix_of(#[trigger] dep.skip(j)) by {
        let at = dep.skip(j);
        if sep.is_prefix_of(at) {
            assert(at.subrange(0, 2)[0] == sep[0]);
            assert(at.subrange(0, 2)[1] == sep[1]);
            assert(at[0] == dep[j]);
            assert(at[1] == dep[j + 1]);
        }
    }
    lemma_split_once_none(dep, sep);
}

impl OptDepend {
    /// Reads an optional dependency from the characters of a line.
    pub fn parse_chars(line: &[char]) -> (opt: OptDepend)
        ensures
            opt@ == opt_depend_of(line@),
    {
        let sep = [':', ' '];
        assert(sep@ == seq![':', ' ']);
        match cut_once(line, &sep) {
            Some((dep, reason)) => OptDepend {
                dep: Depend::parse_chars(dep),
                reason: Some(smol_from_chars(reason)),
            },
            None => OptDepend { dep: Depend::parse_chars(line), reason: None },
        }
    }
}

} // verus!
