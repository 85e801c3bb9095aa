//! The launcher's settings, the installed modpack version, and the game
//! folder chooser.

use vstd::prelude::*;
use vstd::string::StringExecFns;
use crate::text::{replace, replace_all, trim, trimmed};

verus! {

/// The settings the launcher keeps between runs.
pub struct LauncherConfig {
    pub username: String,
    pub auth_token: Option<String>,
    pub mc_dir: String,
    /// Memory for the game, in gibibytes, as typed.
    pub ram: String,
}

/// The settings of a first run: no player, no token, the default game
/// directory and 6 GiB of memory.
pub fn default_config(default_mc_dir: String) -> (r: LauncherConfig)
    ensures
        r.username@ == Seq::<char>::empty(),
        r.auth_token is None,
        r.mc_dir@ == default_mc_dir@,
        r.ram@ == "6"@,
{
    LauncherConfig {
        username: String::new(),
        auth_token: None,
        mc_dir: default_mc_dir,
        ram: "6".to_owned(),
    }
}

/// The settings in force: the stored ones when they could be read, else
/// those of a first run.
pub fn load_config(stored: Option<LauncherConfig>, default_mc_dir: String) -> (r: LauncherConfig)
    ensures
        match stored {
            Some(c) => r == c,
            None => {
                &&& r.username@ == Seq::<char>::empty()
                &&& r.auth_token is None
                &&& r.mc_dir@ == default_mc_dir@
                &&& r.ram@ == "6"@
            },
        },
{
    match stored {
        Some(c) => c,
        None => default_config(default_mc_dir),
    }
}

/// What to offer for the installed modpack: `INSTALL` when no version file
/// could be read, `LAUNCH` when it names the remote version (white space
/// around either ignored), `UPDATE` otherwise.
pub open spec fn local_version_status(local: Option<Seq<char>>, remote: Seq<char>) -> Seq<char> {
    match local {
        None => "INSTALL"@,
        Some(content) => if trimmed(content) == trimmed(remote) {
            "LAUNCH"@
        } else {
            "UPDATE"@
        },
    }
}

/// Compares the installed modpack version (the version file's content, when
/// it could be read) with the remote one.
pub fn check_local_version(local: Option<&str>, remote_version: &str) -> (r: String)
    ensures
        r@ == local_version_status(
            match local {
                Some(s) => Some(s@),
                None => None,
            },
            remote_version@,
        ),
{
    match local {
        None => "INSTALL".to_owned(),
        Some(content) => {
            let a = trim(content);
            let b = trim(remote_version);
            if a == b {
                "LAUNCH".to_owned()
            } else {
                "UPDATE".to_owned()
            }
        },
    }
}

/// What the version file holds after an install: the version, trimmed.
pub fn version_file_content(version: &str) -> (r: String)
    ensures
        r@ == trimmed(version@),
{
    trim(version)
}

/// The PowerShell script opening the folder chooser at `current_dir`.
pub open spec fn dialog_script(current_dir: Seq<char>) -> Seq<char> {
    "Add-Type -AssemblyName System.Windows.Forms; $f = New-Object System.Windows.Forms.FolderBrowserDialog; $f.SelectedPath = '"@
        + replace_all(current_dir, "'"@, "''"@)
        + "'; $f.Description = 'Выберите папку для установки игры Battleverse'; if ($f.ShowDialog() -eq [System.Windows.Forms.DialogResult]::OK) { $f.SelectedPath }"@
}

/// The PowerShell script for the folder chooser; single quotes in the
/// directory are doubled, as a PowerShell single-quoted string wants.
pub fn folder_dialog_script(current_dir: &str) -> (r: String)
    ensures
        r@ == dialog_script(current_dir@),
{
    proof {
        reveal_strlit("'");
    }
    let mut r =
        "Add-Type -AssemblyName System.Windows.Forms; $f = New-Object System.Windows.Forms.FolderBrowserDialog; $f.SelectedPath = '".to_owned();
    let escaped = replace(current_dir, "'", "''");
    r.append(escaped.as_str());
    r.append(
        "'; $f.Description = 'Выберите папку для установки игры Battleverse'; if ($f.ShowDialog() -eq [System.Windows.Forms.DialogResult]::OK) { $f.SelectedPath }",
    );
    r
}

/// The directory chosen: what the chooser printed, trimmed, or the current
/// directory when it printed nothing (the dialog was cancelled).
pub open spec fn chosen_directory(current_dir: Seq<char>, dialog_output: Seq<char>) -> Seq<char> {
    if trimmed(dialog_output).len() == 0 {
        current_dir
    } else {
        trimmed(dialog_output)
    }
}

/// The game directory after the folder chooser printed `dialog_output`.
pub fn select_game_directory(current_dir: &str, dialog_output: &str) -> (r: String)
    ensures
        r@ == chosen_directory(current_dir@, dialog_output@),
{
    let path = trim(dialog_output);
    if path.as_str().is_empty() {
        current_dir.to_owned()
    } else {
        path
    }
}

} // verus!
