//! Where the archive is installed: the directory given by the user, else the
//! platform's conventional mods directory. The directory must already exist;
//! it is never created.

use vstd::prelude::*;
use crate::paths::{joined, join_path};

verus! {

/// The platform the program runs on, as far as the default directory goes.
#[derive(Clone, Copy, Debug, PartialEq, Eq, Structural)]
pub enum Platform {
    Linux,
    Windows,
    Other,
}

/// Why no install directory could be settled on.
#[derive(Debug, PartialEq, Eq)]
pub enum TargetError {
    /// The platform's user directory (home, or application data) is unknown.
    NoUserDir,
    /// The chosen directory does not exist.
    Missing(String),
}

/// The mods directory below `base`, the user directory the platform's
/// convention starts from; `.` on a platform without a convention.
pub open spec fn default_dir(platform: Platform, base: Seq<char>) -> Seq<char> {
    match platform {
        Platform::Linux => joined(base, ".factorio/mods"@),
        Platform::Windows => joined(base, "Factorio/mods"@),
        Platform::Other => "."@,
    }
}

/// Relies on dirs::home_dir, for the user's home directory. It reads the
/// environment, so nothing is promised of the answer.
#[verifier::external_body]
fn home_dir() -> (r: Option<String>) {
    match dirs::home_dir() {
        Some(p) => Some(p.to_string_lossy().into_owned()),
        None => None,
    }
}

/// Relies on dirs::data_dir, for the user's application data directory. It
/// reads the environment, so nothing is promised of the answer.
#[verifier::external_body]
fn data_dir() -> (r: Option<String>) {
    match dirs::data_dir() {
        Some(p) => Some(p.to_string_lossy().into_owned()),
        None => None,
    }
}

/// Relies on std::path::Path::exists, for whether something stands at the
/// path. The disk decides, so nothing is promised of the answer.
#[verifier::external_body]
fn path_exists(path: &str) -> (r: bool) {
    std::path::Path::new(path).exists()
}

/// The default mods directory, given the platform's user directory `base`
/// (`None` where it is unknown; not consulted on a platform without a
/// convention).
pub fn default_mods_dir(platform: Platform, base: Option<String>) -> (r: Result<
    String,
    TargetError,
>)
    ensures
        platform == Platform::Other ==> r is Ok && r->Ok_0@ == "."@,
        platform != Platform::Other ==> match base {
            Some(b) => r is Ok && r->Ok_0@ == default_dir(platform, b@),
            None => r == Err::<String, TargetError>(TargetError::NoUserDir),
        },
{
    match platform {
        Platform::Other => Ok(".".to_owned()),
        Platform::Linux => match base {
            Some(b) => Ok(join_path(b.as_str(), ".factorio/mods")),
            None => Err(TargetError::NoUserDir),
        },
        Platform::Windows => match base {
            Some(b) => Ok(join_path(b.as_str(), "Factorio/mods")),
            None => Err(TargetError::NoUserDir),
        },
    }
}

/// The platform's conventional mods directory: `.factorio/mods` under the
/// home directory on Linux, `Factorio/mods` under the application data
/// directory on Windows, and `.` elsewhere.
pub fn get_default_factorio_home(platform: Platform) -> (r: Result<String, TargetError>)
    ensures
        platform == Platform::Other ==> r is Ok && r->Ok_0@ == "."@,
        r is Ok ==> exists|b: Seq<char>| r->Ok_0@ == default_dir(platform, b),
        r is Err ==> platform != Platform::Other && r == Err::<String, TargetError>(
            TargetError::NoUserDir,
        ),
{
    let base = match platform {
        Platform::Linux => home_dir(),
        Platform::Windows => data_dir(),
        Platform::Other => None,
    };
    let ghost given = base;
    let r = default_mods_dir(platform, base);
    proof {
        if r is Ok {
            match given {
                Some(b) => assert(r->Ok_0@ == default_dir(platform, b@)),
                None => assert(r->Ok_0@ == default_dir(platform, Seq::empty())),
            }
        }
    }
    r
}

/// Accepts `dir` as the install directory when it exists.
pub fn check_target_dir(dir: String, exists: bool) -> (r: Result<String, TargetError>)
    ensures
        exists ==> r == Ok::<String, TargetError>(dir),
        !exists ==> r == Err::<String, TargetError>(TargetError::Missing(dir)),
{
    if exists {
        Ok(dir)
    } else {
        Err(TargetError::Missing(dir))
    }
}

/// The install directory: `install_dir` where one is given, else the
/// platform's default; an error where the directory does not exist.
pub fn get_target_dir(install_dir: Option<String>, platform: Platform) -> (r: Result<
    String,
    TargetError,
>)
    ensures
        install_dir is Some ==> r == Ok::<String, TargetError>(install_dir->Some_0) || r == Err::<
            String,
            TargetError,
        >(TargetError::Missing(install_dir->Some_0)),
        install_dir is None ==> match r {
            Ok(d) => exists|b: Seq<char>| d@ == default_dir(platform, b),
            Err(TargetError::Missing(d)) => exists|b: Seq<char>| d@ == default_dir(platform, b),
            Err(TargetError::NoUserDir) => platform != Platform::Other,
        },
{
    let dir = match install_dir {
        Some(d) => d,
        None => match get_default_factorio_home(platform) {
            Ok(d) => d,
            Err(e) => return Err(e),
        },
    };
    let exists = path_exists(dir.as_str());
    check_target_dir(dir, exists)
}

} // verus!
