use battleverse_launcher::layout::{components, LauncherPath};
use battleverse_launcher::config::{
    check_local_version, default_config, folder_dialog_script, load_config,
    select_game_directory, version_file_content, LauncherConfig,
};

#[test]
fn first_run_settings() {
    let c = default_config("C:\\Users\\me\\.battleverse_launcher".to_string());
    assert_eq!(c.username, "");
    assert!(c.auth_token.is_none());
    assert_eq!(c.mc_dir, "C:\\Users\\me\\.battleverse_launcher");
    assert_eq!(c.ram, "6");
}

#[test]
fn stored_settings_win() {
    let stored = LauncherConfig {
        username: "Steve".to_string(),
        auth_token: Some("t".to_string()),
        mc_dir: "D:\\mc".to_string(),
        ram: "8".to_string(),
    };
    let c = load_config(Some(stored), "C:\\default".to_string());
    assert_eq!(c.username, "Steve");
    assert_eq!(c.auth_token.as_deref(), Some("t"));
    assert_eq!(c.mc_dir, "D:\\mc");
    assert_eq!(c.ram, "8");
    let d = load_config(None, "C:\\default".to_string());
    assert_eq!(d.mc_dir, "C:\\default");
    assert_eq!(d.ram, "6");
}

#[test]
fn local_version_states() {
    assert_eq!(check_local_version(None, "1.2.0"), "INSTALL");
    assert_eq!(check_local_version(Some(" 1.2.0\r\n"), "1.2.0 "), "LAUNCH");
    assert_eq!(check_local_version(Some("1.1.0"), "1.2.0"), "UPDATE");
}

#[test]
fn written_version_is_launchable() {
    let remote = "  2.0.1\n";
    let written = version_file_content(remote);
    assert_eq!(written, "2.0.1");
    assert_eq!(check_local_version(Some(&written), remote), "LAUNCH");
}

#[test]
fn dialog_script_escapes_quotes() {
    let script = folder_dialog_script("C:\\Users\\O'Brien");
    assert_eq!(
        script,
        "Add-Type -AssemblyName System.Windows.Forms; $f = New-Object System.Windows.Forms.FolderBrowserDialog; $f.SelectedPath = 'C:\\Users\\O''Brien'; $f.Description = 'Выберите папку для установки игры Battleverse'; if ($f.ShowDialog() -eq [System.Windows.Forms.DialogResult]::OK) { $f.SelectedPath }"
    );
}

#[test]
fn chosen_directory() {
    assert_eq!(select_game_directory("C:\\mc", "  D:\\Games\\mc\r\n"), "D:\\Games\\mc");
    assert_eq!(select_game_directory("C:\\mc", ""), "C:\\mc");
    assert_eq!(select_game_directory("C:\\mc", " \r\n"), "C:\\mc");
}

#[test]
fn launcher_layout() {
    assert_eq!(
        components(&LauncherPath::VersionDocument("1.20.1".to_string())),
        vec!["versions", "1.20.1", "1.20.1.json"]
    );
    assert_eq!(
        components(&LauncherPath::ClientJar("1.20.1-forge-47.2.0".to_string())),
        vec!["versions", "1.20.1-forge-47.2.0", "1.20.1-forge-47.2.0.jar"]
    );
    assert_eq!(components(&LauncherPath::Natives("v".to_string())), vec!["versions", "v", "natives"]);
    assert_eq!(
        components(&LauncherPath::BundledJava),
        vec!["runtime", "java-runtime-gamma", "windows-x64", "java-runtime-gamma", "bin", "java.exe"]
    );
    assert_eq!(components(&LauncherPath::VersionMarker), vec!["modpack_version.txt"]);
    assert_eq!(components(&LauncherPath::ConfigFile), vec![".battleverse_config.json"]);
    assert_eq!(components(&LauncherPath::DefaultGameDir), vec![".battleverse_launcher"]);
    assert_eq!(components(&LauncherPath::PackArchive), vec!["pack.zip"]);
    assert_eq!(components(&LauncherPath::Backup), vec![".battleverse_backup"]);
    assert_eq!(components(&LauncherPath::CrashLog), vec!["launcher_crash_log.txt"]);
    assert_eq!(components(&LauncherPath::Libraries), vec!["libraries"]);
    assert_eq!(components(&LauncherPath::Assets), vec!["assets"]);
}
