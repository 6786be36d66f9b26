//! The rules of the package databases: the version that a local database
//! must have, the list of files that a package owns, and which entries of a
//! sync database describe a package.

use crate::pkgdesc::{PkgDesc, PkgDescView};
use crate::record::{outcome, record_of, ParseError};
use crate::text::{is_text, lines, split_lines, texts, to_chars, trim, trimmed};
use vstd::prelude::*;

verus! {

/// `std::io::Error`, carried through as it is: nothing is known of a value.
#[verifier::external_type_specification]
#[verifier::external_body]
pub struct ExIoError(std::io::Error);

/// The one version of the local database that is supported.
pub const SUPPORTED_DB_VERSION: &'static str = "9";

/// A package of a database: its description and the files it owns. Only a
/// package of the local database has files.
#[derive(Debug)]
pub struct Pkg {
    pub desc: PkgDesc,
    pub files: Vec<Box<str>>,
}

/// What a `Pkg` holds.
pub struct PkgView {
    pub desc: PkgDescView,
    pub files: Seq<Seq<char>>,
}

/// The texts of a list of paths.
pub open spec fn path_seq(v: Seq<Box<str>>) -> Seq<Seq<char>> {
    v.map_values(|p: Box<str>| p@)
}

impl View for Pkg {
    type V = PkgView;

    open spec fn view(&self) -> PkgView {
        PkgView { desc: self.desc@, files: path_seq(self.files@) }
    }
}

/// Why a database could not be read.
#[derive(Debug)]
pub enum DbReadError {
    /// Reading failed.
    Io(std::io::Error),
    /// The local database has another version than the supported one.
    DbVerMismatch { supported: &'static str, got: String },
}

/// Whether `marker`, the text of the version marker of a local database,
/// names the supported version: it does when, without the white space
/// around it, it is that version.
pub open spec fn is_supported_version(marker: Seq<char>) -> bool {
    trimmed(marker) == SUPPORTED_DB_VERSION@
}

/// Accepts the version marker of a local database, or says how it differs.
/// The error holds the marker as it was read, white space included.
pub fn check_db_version(db_ver: String) -> (res: Result<(), DbReadError>)
    ensures
        is_supported_version(db_ver@) ==> res is Ok,
        !is_supported_version(db_ver@) ==> res == Err::<(), DbReadError>(
            DbReadError::DbVerMismatch { supported: SUPPORTED_DB_VERSION, got: db_ver },
        ),
{
    let chars = to_chars(db_ver.as_str());
    if is_text(trim(chars.as_slice()), SUPPORTED_DB_VERSION) {
        Ok(())
    } else {
        Err(DbReadError::DbVerMismatch { supported: SUPPORTED_DB_VERSION, got: db_ver })
    }
}

/// The lines at the head of `ls` that are not empty: all lines up to the
/// first empty one.
pub open spec fn leading_nonempty(ls: Seq<Seq<char>>) -> Seq<Seq<char>>
    decreases ls.len(),
{
    if ls.len() == 0 || ls[0].len() == 0 {
        Seq::empty()
    } else {
        seq![ls[0]] + leading_nonempty(ls.drop_first())
    }
}

/// The paths that the text of a file list names: the first line is a
/// header and is passed over; every line after it is a path, up to the first
/// empty line or the end of the text.
pub open spec fn file_list_of(text: Seq<char>) -> Seq<Seq<char>> {
    let ls = lines(text);
    if ls.len() == 0 {
        Seq::empty()
    } else {
        leading_nonempty(ls.drop_first())
    }
}

/// Calls `FromIterator<char>` of `Box<str>`, which builds the string that
/// the characters spell: the result holds exactly `chars`, in that order.
#[verifier::external_body]
fn boxed_text(chars: &[char]) -> (s: Box<str>)
    ensures
        s@ == chars@,
{
    chars.iter().copied().collect()
}

/// Reads the list of the files that a package owns.
pub fn parse_file_list(src: &str) -> (files: Vec<Box<str>>)
    ensures
        path_seq(files@) == file_list_of(src@),
{
    let chars = to_chars(src);
    let all = split_lines(chars.as_slice());
    let mut files: Vec<Box<str>> = Vec::new();
    if all.len() == 0 {
        assert(path_seq(files@) =~= Seq::empty());
        return files;
    }
    let mut i: usize = 1;
    let ghost body = texts(all@).drop_first();
    assert(body.skip(0) == body);
    assert(path_seq(files@) =~= Seq::empty());
    while i < all.len() && all[i].len() > 0
        invariant
            1 <= i <= all.len(),
            body == texts(all@).drop_first(),
            leading_nonempty(body) == path_seq(files@) + leading_nonempty(body.skip(i - 1)),
        decreases all.len() - i,
    {
        let ghost before = path_seq(files@);
        assert(body.skip(i - 1)[0] == all@[i as int]@);
        assert(body.skip(i - 1).drop_first() == body.skip(i as int));
        files.push(boxed_text(all[i]));
        assert(path_seq(files@) =~= before.push(all@[i as int]@));
        i += 1;
    }
    assert(leading_nonempty(body.skip(i - 1)) == Seq::<Seq<char>>::empty()) by {
        if i < all.len() {
            assert(body.skip(i - 1)[0] == all@[i as int]@);
        }
    }
    files
}

/// Whether an entry of a sync database with this file name describes a
/// package: only a file named `desc` does.
pub fn is_description_file(file_name: &str) -> (yes: bool)
    ensures
        yes == (file_name@ == "desc"@),
{
    let chars = to_chars(file_name);
    is_text(chars.as_slice(), "desc")
}

impl Pkg {
    /// A package of the local database, from the text of its record, whether
    /// it has an install script, and the text of its file list.
    pub fn local(desc: &str, install_script: bool, files: &str) -> (res: Result<Pkg, ParseError>)
        ensures
            outcome(res) == match record_of(desc@, install_script) {
                Ok(d) => Ok(PkgView { desc: d, files: file_list_of(files@) }),
                Err(e) => Err(e),
            },
    {
        match PkgDesc::parse(desc, install_script) {
            Ok(desc) => Ok(Pkg { desc, files: parse_file_list(files) }),
            Err(e) => Err(e),
        }
    }

    /// A package of a sync database, from the text of its record. It has no
    /// install script and no files.
    pub fn synced(desc: &str) -> (res: Result<Pkg, ParseError>)
        ensures
            outcome(res) == match record_of(desc@, false) {
                Ok(d) => Ok(PkgView { desc: d, files: Seq::empty() }),
                Err(e) => Err(e),
            },
    {
        match PkgDesc::parse(desc, false) {
            Ok(desc) => {
                let pkg = Pkg { desc, files: Vec::new() };
                assert(pkg@.files =~= Seq::empty());
                Ok(pkg)
            },
            Err(e) => Err(e),
        }
    }
}

} // verus!
