//! Where the installer keeps its files: the data directory under the home
//! directory, and the server directory that the user names.

use vstd::prelude::*;
use vstd::string::*;

verus! {

/// `rel` appended to `base` as `Path::join` does on Unix: an absolute `rel`
/// replaces `base`; otherwise a `/` goes between them unless `base` is empty
/// or already ends with one.
pub open spec fn path_join(base: Seq<char>, rel: Seq<char>) -> Seq<char> {
    if rel.len() > 0 && rel[0] == '/' {
        rel
    } else if base.len() > 0 && base.last() != '/' {
        base + seq!['/'] + rel
    } else {
        base + rel
    }
}

/// `base` joined with `rel`, as `Path::new(base).join(rel)` gives it.
pub fn join_path(base: &str, rel: &str) -> (r: String)
    ensures
        r@ == path_join(base@, rel@),
{
    let sep = "/";
    proof {
        reveal_strlit("/");
    }
    let m = rel.unicode_len();
    if m > 0 && rel.get_char(0) == '/' {
        return String::from_str(rel);
    }
    let n = base.unicode_len();
    let mut out = String::from_str(base);
    if n > 0 && base.get_char(n - 1) != '/' {
        out.append(sep);
    }
    out.append(rel);
    out
}

/// The installer's files under the home directory.
#[derive(Clone, Copy, PartialEq, Eq, Debug, Structural)]
pub enum StoreItem {
    /// The data directory itself.
    DataDir,
    /// Where the downloaded game archives (`.pk3`) are kept.
    PakDir,
    /// The downloaded dedicated server archive.
    ServerArchive,
    /// The helper script that installs packages on Debian-like systems.
    DepsDebian,
    /// The helper script that installs packages on Arch-like systems.
    DepsArch,
    /// The helper script that builds iw1x-server.
    CompileScript,
    /// The directory where the iw1x-server build leaves its library.
    Iw1xBinDir,
}

/// The data directory: `.local/share/orbix` under the home directory.
pub open spec fn data_dir(home: Seq<char>) -> Seq<char> {
    path_join(home, ".local/share/orbix"@)
}

/// The path of a store item, given the home directory.
pub open spec fn store_path_of(home: Seq<char>, item: StoreItem) -> Seq<char> {
    match item {
        StoreItem::DataDir => data_dir(home),
        StoreItem::PakDir => path_join(home, ".local/share/orbix/main"@),
        StoreItem::ServerArchive => path_join(home, ".local/share/orbix/cod-lnxded-1.1d.tar.bz2"@),
        StoreItem::DepsDebian => path_join(data_dir(home), "deps_debian"@),
        StoreItem::DepsArch => path_join(data_dir(home), "deps_arch"@),
        StoreItem::CompileScript => path_join(data_dir(home), "compile_iw1x"@),
        StoreItem::Iw1xBinDir => path_join(data_dir(home), "iw1x-server/bin"@),
    }
}

/// The path of a store item under the home directory `home`.
pub fn store_path(home: &str, item: StoreItem) -> (r: String)
    ensures
        r@ == store_path_of(home@, item),
{
    match item {
        StoreItem::DataDir => join_path(home, ".local/share/orbix"),
        StoreItem::PakDir => join_path(home, ".local/share/orbix/main"),
        StoreItem::ServerArchive => join_path(home, ".local/share/orbix/cod-lnxded-1.1d.tar.bz2"),
        StoreItem::DepsDebian => {
            let d = join_path(home, ".local/share/orbix");
            join_path(d.as_str(), "deps_debian")
        },
        StoreItem::DepsArch => {
            let d = join_path(home, ".local/share/orbix");
            join_path(d.as_str(), "deps_arch")
        },
        StoreItem::CompileScript => {
            let d = join_path(home, ".local/share/orbix");
            join_path(d.as_str(), "compile_iw1x")
        },
        StoreItem::Iw1xBinDir => {
            let d = join_path(home, ".local/share/orbix");
            join_path(d.as_str(), "iw1x-server/bin")
        },
    }
}

/// The server's files under the directory the user chose.
#[derive(Clone, Copy, PartialEq, Eq, Debug, Structural)]
pub enum TargetItem {
    /// The `main` directory that holds the game archives and the config.
    MainDir,
    /// The server configuration.
    ServerConfig,
    /// The copy of the server archive that is unpacked there.
    ServerArchive,
    /// The iw1x library that the server preloads.
    Iw1xLibrary,
    /// The dedicated server binary.
    ServerBinary,
    /// The script that starts the server.
    StartScript,
}

/// The path of a server file, given the server directory.
pub open spec fn target_path_of(target: Seq<char>, item: TargetItem) -> Seq<char> {
    match item {
        TargetItem::MainDir => path_join(target, "main"@),
        TargetItem::ServerConfig => path_join(target, "main/myserver.cfg"@),
        TargetItem::ServerArchive => path_join(target, "cod-lnxded-1.1d.tar.bz2"@),
        TargetItem::Iw1xLibrary => path_join(target, "iw1x.so"@),
        TargetItem::ServerBinary => path_join(target, "cod_lnxded"@),
        TargetItem::StartScript => path_join(target, "start.sh"@),
    }
}

/// The path of a server file under the server directory `target`.
pub fn target_path(target: &str, item: TargetItem) -> (r: String)
    ensures
        r@ == target_path_of(target@, item),
{
    match item {
        TargetItem::MainDir => join_path(target, "main"),
        TargetItem::ServerConfig => join_path(target, "main/myserver.cfg"),
        TargetItem::ServerArchive => join_path(target, "cod-lnxded-1.1d.tar.bz2"),
        TargetItem::Iw1xLibrary => join_path(target, "iw1x.so"),
        TargetItem::ServerBinary => join_path(target, "cod_lnxded"),
        TargetItem::StartScript => join_path(target, "start.sh"),
    }
}

/// The data directory is never empty and never ends with `/`.
proof fn lemma_data_dir_shape(home: Seq<char>)
    ensures
        data_dir(home).len() > 0,
        data_dir(home).last() == 'x',
{
    reveal_strlit(".local/share/orbix");
    assert(".local/share/orbix"@[0] == '.');
    let rel = ".local/share/orbix"@;
    if home.len() > 0 && home.last() != '/' {
        assert((home + seq!['/'] + rel).last() == rel.last());
    } else {
        assert((home + rel).last() == rel.last());
    }
}

/// The directory that downloads go to and the one that links are made from
/// agree: `main` under the data directory is the pak directory, and the
/// server archive downloaded into the data directory is the one that is
/// copied to the server, whatever the home directory is.
pub proof fn law_store_paths_agree(home: Seq<char>)
    ensures
        path_join(data_dir(home), "main"@) == store_path_of(home, StoreItem::PakDir),
        path_join(data_dir(home), "cod-lnxded-1.1d.tar.bz2"@) == store_path_of(
            home,
            StoreItem::ServerArchive,
        ),
{
    reveal_strlit(".local/share/orbix");
    reveal_strlit("main");
    reveal_strlit(".local/share/orbix/main");
    reveal_strlit("cod-lnxded-1.1d.tar.bz2");
    reveal_strlit(".local/share/orbix/cod-lnxded-1.1d.tar.bz2");
    lemma_data_dir_shape(home);
    let d = ".local/share/orbix"@;
    assert(d[0] == '.');
    assert(".local/share/orbix/main"@[0] == '.');
    assert(".local/share/orbix/cod-lnxded-1.1d.tar.bz2"@[0] == '.');
    assert("main"@[0] == 'm');
    assert("cod-lnxded-1.1d.tar.bz2"@[0] == 'c');
    assert(d + seq!['/'] + "main"@ =~= ".local/share/orbix/main"@);
    assert(d + seq!['/'] + "cod-lnxded-1.1d.tar.bz2"@ =~= ".local/share/orbix/cod-lnxded-1.1d.tar.bz2"@);
    if home.len() > 0 && home.last() != '/' {
        assert(home + seq!['/'] + d + seq!['/'] + "main"@ =~= home + seq!['/'] + (d + seq!['/']
            + "main"@));
        assert(home + seq!['/'] + d + seq!['/'] + "cod-lnxded-1.1d.tar.bz2"@ =~= home + seq!['/']
            + (d + seq!['/'] + "cod-lnxded-1.1d.tar.bz2"@));
    } else {
        assert(home + d + seq!['/'] + "main"@ =~= home + (d + seq!['/'] + "main"@));
        assert(home + d + seq!['/'] + "cod-lnxded-1.1d.tar.bz2"@ =~= home + (d + seq!['/']
            + "cod-lnxded-1.1d.tar.bz2"@));
    }
}

/// A relative name placed under a directory: after a `/` when the directory
/// is named and does not end with one, else right after it.
pub open spec fn under(dir: Seq<char>, name: Seq<char>) -> Seq<char> {
    if dir.len() > 0 && dir.last() != '/' {
        dir + seq!['/'] + name
    } else {
        dir + name
    }
}

/// Every server file lies under the server directory, as the name of that
/// file within it, and the configuration lies in the `main` directory.
pub proof fn law_target_paths_under_target(t: Seq<char>)
    ensures
        target_path_of(t, TargetItem::MainDir) == under(t, "main"@),
        target_path_of(t, TargetItem::ServerConfig) == under(t, "main/myserver.cfg"@),
        target_path_of(t, TargetItem::ServerArchive) == under(t, "cod-lnxded-1.1d.tar.bz2"@),
        target_path_of(t, TargetItem::Iw1xLibrary) == under(t, "iw1x.so"@),
        target_path_of(t, TargetItem::ServerBinary) == under(t, "cod_lnxded"@),
        target_path_of(t, TargetItem::StartScript) == under(t, "start.sh"@),
        target_path_of(t, TargetItem::ServerConfig) == under(
            target_path_of(t, TargetItem::MainDir),
            "myserver.cfg"@,
        ),
{
    reveal_strlit("cod-lnxded-1.1d.tar.bz2");
    reveal_strlit("cod_lnxded");
    reveal_strlit("iw1x.so");
    reveal_strlit("main");
    reveal_strlit("main/myserver.cfg");
    reveal_strlit("start.sh");
    reveal_strlit("myserver.cfg");
    if t.len() > 0 && t.last() != '/' {
        assert(t + seq!['/'] + "main"@ + seq!['/'] + "myserver.cfg"@ =~= t + seq!['/']
            + "main/myserver.cfg"@);
        assert((t + seq!['/'] + "main"@).last() == 'n');
    } else {
        assert(t + "main"@ + seq!['/'] + "myserver.cfg"@ =~= t + "main/myserver.cfg"@);
        assert((t + "main"@).last() == 'n');
    }
}

/// Every file of the installer lies under `.local/share/orbix` in the home
/// directory, as its name within that directory.
pub proof fn law_store_paths_under_home(h: Seq<char>)
    ensures
        store_path_of(h, StoreItem::DataDir) == under(h, ".local/share/orbix"@),
        store_path_of(h, StoreItem::PakDir) == under(h, ".local/share/orbix/main"@),
        store_path_of(h, StoreItem::ServerArchive) == under(h, ".local/share/orbix/cod-lnxded-1.1d.tar.bz2"@),
        store_path_of(h, StoreItem::DepsDebian) == under(h, ".local/share/orbix/deps_debian"@),
        store_path_of(h, StoreItem::DepsArch) == under(h, ".local/share/orbix/deps_arch"@),
        store_path_of(h, StoreItem::CompileScript) == under(h, ".local/share/orbix/compile_iw1x"@),
        store_path_of(h, StoreItem::Iw1xBinDir) == under(h, ".local/share/orbix/iw1x-server/bin"@),
{
    reveal_strlit(".local/share/orbix");
    reveal_strlit(".local/share/orbix/cod-lnxded-1.1d.tar.bz2");
    reveal_strlit(".local/share/orbix/compile_iw1x");
    reveal_strlit(".local/share/orbix/deps_arch");
    reveal_strlit(".local/share/orbix/deps_debian");
    reveal_strlit(".local/share/orbix/iw1x-server/bin");
    reveal_strlit(".local/share/orbix/main");
    reveal_strlit("deps_debian");
    reveal_strlit("deps_arch");
    reveal_strlit("compile_iw1x");
    reveal_strlit("iw1x-server/bin");
    let d = ".local/share/orbix"@;
    lemma_data_dir_shape(h);
    if h.len() > 0 && h.last() != '/' {
        assert(h + seq!['/'] + d + seq!['/'] + "deps_debian"@ =~= h + seq!['/']
            + ".local/share/orbix/deps_debian"@);
        assert(h + seq!['/'] + d + seq!['/'] + "deps_arch"@ =~= h + seq!['/']
            + ".local/share/orbix/deps_arch"@);
        assert(h + seq!['/'] + d + seq!['/'] + "compile_iw1x"@ =~= h + seq!['/']
            + ".local/share/orbix/compile_iw1x"@);
        assert(h + seq!['/'] + d + seq!['/'] + "iw1x-server/bin"@ =~= h + seq!['/']
            + ".local/share/orbix/iw1x-server/bin"@);
    } else {
        assert(h + d + seq!['/'] + "deps_debian"@ =~= h + ".local/share/orbix/deps_debian"@);
        assert(h + d + seq!['/'] + "deps_arch"@ =~= h + ".local/share/orbix/deps_arch"@);
        assert(h + d + seq!['/'] + "compile_iw1x"@ =~= h + ".local/share/orbix/compile_iw1x"@);
        assert(h + d + seq!['/'] + "iw1x-server/bin"@ =~= h + ".local/share/orbix/iw1x-server/bin"@);
    }
}

} // verus!
