//! Package databases of a system package manager: descriptions of packages
//! read from the text of their records, dependency specifiers with version
//! constraints, and reverse dependencies within a collection of packages.

pub mod db;
pub mod dep;
pub mod pkgdesc;
pub mod record;
pub mod smol;
pub mod text;

pub use db::{
    check_db_version, is_description_file, parse_file_list, DbReadError, Pkg,
    SUPPORTED_DB_VERSION,
};
pub use pkgdesc::{DepVer, Depend, InstallReason, OptDepend, PkgDesc, ReqCmp, Validation};
pub use record::{MandatoryField, ParseError, Section};
