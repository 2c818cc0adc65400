//! The installer's decisions: where the server directory comes from and
//! whether it can be used, which package script suits the distribution, and
//! where the game archives get linked into the server.

use vstd::prelude::*;
use vstd::string::*;
use crate::paths::{join_path, path_join, StoreItem};
use crate::text::str_equal;

verus! {

/// Where the server directory is taken from.
#[derive(Clone, Copy, PartialEq, Eq, Debug, Structural)]
pub enum TargetSource {
    /// The single command-line argument names it.
    Argument,
    /// No argument was given: the user is asked for it.
    Prompt,
    /// Too many arguments: the usage is printed and the program exits.
    Usage,
}

/// How the server directory is obtained, given the number of command-line
/// words (the program's name included).
pub fn target_source(argc: usize) -> (s: TargetSource)
    ensures
        argc == 2 ==> s == TargetSource::Argument,
        argc == 1 ==> s == TargetSource::Prompt,
        argc != 1 && argc != 2 ==> s == TargetSource::Usage,
{
    if argc == 2 {
        TargetSource::Argument
    } else if argc == 1 {
        TargetSource::Prompt
    } else {
        TargetSource::Usage
    }
}

/// Why a server directory cannot be used.
#[derive(Clone, Copy, PartialEq, Eq, Debug, Structural)]
pub enum TargetError {
    /// It does not exist or is not a directory.
    NotADirectory,
    /// Its entries cannot be listed.
    Unreadable,
    /// It already holds something.
    NotEmpty,
}

impl TargetError {
    /// The message the installer fails with.
    pub fn message(&self) -> (m: &'static str)
        ensures
            *self == TargetError::NotADirectory ==> m@ == "Target is not a directory"@,
            *self == TargetError::Unreadable ==> m@ == "Failed to read the directory"@,
            *self == TargetError::NotEmpty ==> m@ == "Target directory is not empty"@,
    {
        match self {
            TargetError::NotADirectory => "Target is not a directory",
            TargetError::Unreadable => "Failed to read the directory",
            TargetError::NotEmpty => "Target directory is not empty",
        }
    }
}

/// Whether the server directory can be used: it must be `present`, be a directory,
/// be listable (`listing` is `None` when listing failed, else whether it has
/// an entry) and be empty.
pub fn check_target(present: bool, is_dir: bool, listing: Option<bool>) -> (r: Result<(), TargetError>)
    ensures
        !present || !is_dir ==> r == Err::<(), TargetError>(TargetError::NotADirectory),
        present && is_dir && listing is None ==> r == Err::<(), TargetError>(TargetError::Unreadable),
        present && is_dir && listing == Some(true) ==> r == Err::<(), TargetError>(TargetError::NotEmpty),
        present && is_dir && listing == Some(false) ==> r is Ok,
{
    if !present || !is_dir {
        return Err(TargetError::NotADirectory);
    }
    match listing {
        None => Err(TargetError::Unreadable),
        Some(true) => Err(TargetError::NotEmpty),
        Some(false) => Ok(()),
    }
}

/// A distribution family that has a package script.
#[derive(Clone, Copy, PartialEq, Eq, Debug, Structural)]
pub enum Distro {
    Debian,
    Arch,
}

impl Distro {
    /// The helper script that installs the packages the build needs.
    pub fn script(&self) -> (s: StoreItem)
        ensures
            *self == Distro::Debian ==> s == StoreItem::DepsDebian,
            *self == Distro::Arch ==> s == StoreItem::DepsArch,
    {
        match self {
            Distro::Debian => StoreItem::DepsDebian,
            Distro::Arch => StoreItem::DepsArch,
        }
    }
}

/// The distribution family for a distribution id: exactly `debian` or
/// `arch`; any other id is not supported.
pub fn supported_distro(id: &str) -> (r: Option<Distro>)
    ensures
        id@ == "debian"@ ==> r == Some(Distro::Debian),
        id@ == "arch"@ ==> r == Some(Distro::Arch),
        id@ != "debian"@ && id@ != "arch"@ ==> r is None,
{
    proof {
        reveal_strlit("debian");
        reveal_strlit("arch");
        assert("debian"@[0] != "arch"@[0]);
    }
    if str_equal(id, "debian") {
        Some(Distro::Debian)
    } else if str_equal(id, "arch") {
        Some(Distro::Arch)
    } else {
        None
    }
}

/// Where the game archive `file_name` of the pak directory is linked: in
/// `main` under the server directory `target`.
pub fn link_path(target: &str, file_name: &str) -> (p: String)
    ensures
        p@ == path_join(path_join(target@, "main"@), file_name@),
{
    let main = join_path(target, "main");
    join_path(main.as_str(), file_name)
}

} // verus!
