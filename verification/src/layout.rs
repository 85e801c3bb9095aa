//! Where the launcher keeps things: every path it uses, as the components
//! below its base directory (the home directory for the first two, the game
//! directory for the others).

use vstd::prelude::*;
use vstd::string::StringExecFns;
use crate::text::strings_view;

verus! {

/// A place the launcher reads or writes.
pub enum LauncherPath {
    /// The default game directory, below the home directory.
    DefaultGameDir,
    /// The settings file, below the home directory.
    ConfigFile,
    /// The document describing a version.
    VersionDocument(String),
    /// A version's client jar.
    ClientJar(String),
    /// A version's native libraries.
    Natives(String),
    /// The Java runtime shipped with the game.
    BundledJava,
    /// The game's libraries.
    Libraries,
    /// The game's assets.
    Assets,
    /// The log of the last game start.
    CrashLog,
    /// The file naming the installed modpack version.
    VersionMarker,
    /// Where the player's files wait during an installation.
    Backup,
    /// The downloaded modpack archive.
    PackArchive,
}

/// The components of a launcher path.
pub open spec fn path_components(p: LauncherPath) -> Seq<Seq<char>> {
    match p {
        LauncherPath::DefaultGameDir => seq![".battleverse_launcher"@],
        LauncherPath::ConfigFile => seq![".battleverse_config.json"@],
        LauncherPath::VersionDocument(id) => seq!["versions"@, id@, id@ + ".json"@],
        LauncherPath::ClientJar(id) => seq!["versions"@, id@, id@ + ".jar"@],
        LauncherPath::Natives(id) => seq!["versions"@, id@, "natives"@],
        LauncherPath::BundledJava => seq![
            "runtime"@,
            "java-runtime-gamma"@,
            "windows-x64"@,
            "java-runtime-gamma"@,
            "bin"@,
            "java.exe"@,
        ],
        LauncherPath::Libraries => seq!["libraries"@],
        LauncherPath::Assets => seq!["assets"@],
        LauncherPath::CrashLog => seq!["launcher_crash_log.txt"@],
        LauncherPath::VersionMarker => seq!["modpack_version.txt"@],
        LauncherPath::Backup => seq![".battleverse_backup"@],
        LauncherPath::PackArchive => seq!["pack.zip"@],
    }
}

fn with_suffix(id: &String, suffix: &str) -> (r: String)
    ensures
        r@ == id@ + suffix@,
{
    let mut r = id.clone();
    r.append(suffix);
    r
}

/// The components of a launcher path, to be joined below its base.
pub fn components(p: &LauncherPath) -> (r: Vec<String>)
    ensures
        strings_view(r@) == path_components(*p),
{
    let mut v: Vec<String> = Vec::new();
    match p {
        LauncherPath::DefaultGameDir => v.push(".battleverse_launcher".to_owned()),
        LauncherPath::ConfigFile => v.push(".battleverse_config.json".to_owned()),
        LauncherPath::VersionDocument(id) => {
            v.push("versions".to_owned());
            v.push(id.clone());
            v.push(with_suffix(id, ".json"));
        },
        LauncherPath::ClientJar(id) => {
            v.push("versions".to_owned());
            v.push(id.clone());
            v.push(with_suffix(id, ".jar"));
        },
        LauncherPath::Natives(id) => {
            v.push("versions".to_owned());
            v.push(id.clone());
            v.push("natives".to_owned());
        },
        LauncherPath::BundledJava => {
            v.push("runtime".to_owned());
            v.push("java-runtime-gamma".to_owned());
            v.push("windows-x64".to_owned());
            v.push("java-runtime-gamma".to_owned());
            v.push("bin".to_owned());
            v.push("java.exe".to_owned());
        },
        LauncherPath::Libraries => v.push("libraries".to_owned()),
        LauncherPath::Assets => v.push("assets".to_owned()),
        LauncherPath::CrashLog => v.push("launcher_crash_log.txt".to_owned()),
        LauncherPath::VersionMarker => v.push("modpack_version.txt".to_owned()),
        LauncherPath::Backup => v.push(".battleverse_backup".to_owned()),
        LauncherPath::PackArchive => v.push("pack.zip".to_owned()),
    }
    assert(strings_view(v@) =~= path_components(*p));
    v
}

} // verus!
