use battleverse_launcher::launch::{
    build_launch_args, classpath, java_command, launch_game, strip_classpath, version_id,
    LaunchSettings,
};

fn strings(v: &[&str]) -> Vec<String> {
    v.iter().map(|s| s.to_string()).collect()
}

fn settings(username: &str) -> LaunchSettings {
    LaunchSettings {
        mc_dir: "C:\\mc".to_string(),
        assets_dir: "C:\\mc\\assets".to_string(),
        username: username.to_string(),
        version_id: "1.20.1-forge-47.2.0".to_string(),
        ram_gb: 6,
    }
}

#[test]
fn version_ids() {
    assert_eq!(version_id("1.20.1", ""), "1.20.1");
    assert_eq!(version_id("1.20.1", "47.2.0"), "1.20.1-forge-47.2.0");
}

#[test]
fn classpath_flags_are_stripped() {
    let args = strings(&["-Xss1M", "-cp", "${classpath}", "-Da=b", "-classpath", "x", "${classpath}", "-cp", "-cp", "y"]);
    assert_eq!(strip_classpath(&args), strings(&["-Xss1M", "-Da=b", "y"]));
    assert_eq!(strip_classpath(&strings(&["-cp"])), Vec::<String>::new());
}

#[test]
fn classpath_joins_with_semicolons() {
    let jars = strings(&["C:\\mc\\libraries\\a.jar", "C:\\mc\\libraries\\b.jar"]);
    assert_eq!(
        classpath(&jars, Some("C:\\mc\\versions\\v\\v.jar".to_string())),
        "C:\\mc\\libraries\\a.jar;C:\\mc\\libraries\\b.jar;C:\\mc\\versions\\v\\v.jar"
    );
    assert_eq!(classpath(&jars, None), "C:\\mc\\libraries\\a.jar;C:\\mc\\libraries\\b.jar");
    assert_eq!(classpath(&vec![], None), "");
}

#[test]
fn java_executable_choice() {
    assert_eq!(java_command(Some("C:\\java.exe".to_string())), "C:\\java.exe");
    assert_eq!(java_command(None), "java");
}

#[test]
fn full_command_line() {
    let args = build_launch_args(
        &settings("Steve"),
        "a.jar;b.jar",
        &strings(&["-Xss1M", "-cp", "${classpath}", "-Dv=1"]),
        &strings(&["--launchTarget", "forgeclient"]),
        "00000000-0000-3000-8000-000000000000",
    );
    assert_eq!(
        args,
        strings(&[
            "-Xmx6144M",
            "-Xms6144M",
            "-Xss1M",
            "-Dv=1",
            "-cp",
            "a.jar;b.jar",
            "cpw.mods.bootstraplauncher.BootstrapLauncher",
            "--username",
            "Steve",
            "--version",
            "1.20.1-forge-47.2.0",
            "--gameDir",
            "C:\\mc",
            "--assetsDir",
            "C:\\mc\\assets",
            "--assetIndex",
            "5",
            "--uuid",
            "00000000-0000-3000-8000-000000000000",
            "--accessToken",
            "",
            "--clientId",
            "${clientid}",
            "--xuid",
            "${auth_xuid}",
            "--userType",
            "msa",
            "--versionType",
            "release",
            "--launchTarget",
            "forgeclient",
        ])
    );
}

#[test]
fn launch_without_libraries_fails() {
    let out = launch_game(&settings("Steve"), None, false, &vec![], None, Ok(vec![]), &vec![]);
    let shown: Vec<(String, u64, u64)> =
        out.progress.iter().map(|p| (p.status.clone(), p.val, p.max_val)).collect();
    assert_eq!(
        shown,
        vec![
            ("ПОДГОТОВКА СРЕДЫ...".to_string(), 10, 100),
            ("СБОРКА КЛАССОВ (CLASSPATH)...".to_string(), 40, 100),
        ]
    );
    match out.plan {
        Err(e) => assert_eq!(e, "Папка libraries не найдена! Установите сборку перед запуском."),
        Ok(_) => panic!("expected an error"),
    }
}

#[test]
fn launch_with_unreadable_version_fails() {
    let out = launch_game(
        &settings("Steve"),
        None,
        true,
        &vec![],
        None,
        Err("version file missing".to_string()),
        &vec![],
    );
    assert_eq!(out.progress.len(), 3);
    assert_eq!(out.progress[2].status, "НАСТРОЙКА АРГУМЕНТОВ...");
    assert_eq!(out.progress[2].val, 70);
    match out.plan {
        Err(e) => assert_eq!(e, "version file missing"),
        Ok(_) => panic!("expected an error"),
    }
}

#[test]
fn launch_plan_uses_offline_uuid() {
    let out = launch_game(
        &settings("example.org"),
        Some("C:\\mc\\runtime\\java.exe".to_string()),
        true,
        &strings(&["C:\\mc\\libraries\\a.jar"]),
        Some("C:\\mc\\versions\\v\\v.jar".to_string()),
        Ok(strings(&["-Dx=1"])),
        &strings(&["--extra"]),
    );
    assert_eq!(out.progress.len(), 4);
    assert_eq!(out.progress[3].status, "ЗАПУСК ИГРЫ...");
    assert_eq!(out.progress[3].val, 100);
    let plan = match out.plan {
        Ok(p) => p,
        Err(e) => panic!("unexpected error {e}"),
    };
    assert_eq!(plan.java_path, "C:\\mc\\runtime\\java.exe");
    assert_eq!(plan.power_scheme, "8c5e7fda-e8bf-4a96-9a85-a6e23a8c635c");
    assert_eq!(plan.args[2], "-Dx=1");
    assert_eq!(plan.args[3], "-cp");
    assert_eq!(plan.args[4], "C:\\mc\\libraries\\a.jar;C:\\mc\\versions\\v\\v.jar");
    // the name-based UUID of "example.org" in the DNS namespace
    assert_eq!(plan.args[17], "04738bdf-b25a-3829-a801-b21a1d25095b");
    assert_eq!(plan.args.last().unwrap(), "--extra");
    assert_eq!(plan.args.len(), 29);
}

#[test]
fn heap_flags_agree() {
    let mut s = settings("x");
    s.ram_gb = 16;
    let args = build_launch_args(&s, "", &vec![], &vec![], "u");
    assert_eq!(args[0], "-Xmx16384M");
    assert_eq!(args[1], "-Xms16384M");
}
