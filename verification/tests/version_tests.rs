use battleverse_launcher::json::{Json, JsonMember, JsonNumber};
use battleverse_launcher::version::{
    get_game_args_from_json, get_jvm_args_from_json, get_libraries_from_json,
    is_entry_allowed, is_jar_file_name, maven_library_path, substitute_placeholders,
};

fn s(v: &str) -> Json {
    Json::Str(v.to_string())
}

fn obj(members: Vec<(&str, Json)>) -> Json {
    Json::Object(
        members
            .into_iter()
            .map(|(k, v)| JsonMember { key: k.to_string(), value: v })
            .collect(),
    )
}

fn rule(action: &str, os: Option<&str>) -> Json {
    match os {
        Some(name) => obj(vec![("action", s(action)), ("os", obj(vec![("name", s(name))]))]),
        None => obj(vec![("action", s(action))]),
    }
}

fn library(name: &str, rules: Option<Vec<Json>>) -> Json {
    let mut members = vec![("name", s(name))];
    if let Some(r) = rules {
        members.push(("rules", Json::Array(r)));
    }
    obj(members)
}

#[test]
fn maven_paths() {
    assert_eq!(
        maven_library_path(&"org.lwjgl:lwjgl:3.3.1".to_string()),
        Some("org/lwjgl/lwjgl/3.3.1/lwjgl-3.3.1.jar".to_string())
    );
    assert_eq!(
        maven_library_path(&"org.lwjgl:lwjgl:3.3.1:natives-windows".to_string()),
        Some("org/lwjgl/lwjgl/3.3.1/lwjgl-3.3.1-natives-windows.jar".to_string())
    );
    // five parts: no classifier is used
    assert_eq!(
        maven_library_path(&"a.b:c:1:d:e".to_string()),
        Some("a/b/c/1/c-1.jar".to_string())
    );
    assert_eq!(maven_library_path(&"a.b:c".to_string()), None);
}

#[test]
fn rules_for_windows() {
    assert!(is_entry_allowed(&library("x:y:1", None)));
    assert!(is_entry_allowed(&library("x:y:1", Some(vec![rule("allow", Some("windows"))]))));
    assert!(!is_entry_allowed(&library("x:y:1", Some(vec![rule("allow", Some("linux"))]))));
    assert!(is_entry_allowed(&library("x:y:1", Some(vec![rule("disallow", Some("osx"))]))));
    assert!(!is_entry_allowed(&library("x:y:1", Some(vec![rule("disallow", Some("windows"))]))));
    // the last rule with a verdict decides; a rule without `os` has none
    assert!(!is_entry_allowed(&library(
        "x:y:1",
        Some(vec![rule("allow", Some("windows")), rule("allow", Some("osx")), rule("allow", None)])
    )));
    // an empty rule list allows
    assert!(is_entry_allowed(&library("x:y:1", Some(vec![]))));
}

#[test]
fn libraries_of_a_version() {
    let doc = obj(vec![(
        "libraries",
        Json::Array(vec![
            obj(vec![
                ("name", s("com.mojang:logging:1.1.1")),
                (
                    "downloads",
                    obj(vec![(
                        "artifact",
                        obj(vec![("path", s("com/mojang/logging/1.1.1/logging-1.1.1.jar"))]),
                    )]),
                ),
            ]),
            library(
                "org.lwjgl:lwjgl:3.3.1:natives-windows",
                Some(vec![rule("allow", Some("windows"))]),
            ),
            library(
                "org.lwjgl:lwjgl:3.3.1:natives-linux",
                Some(vec![rule("allow", Some("linux"))]),
            ),
            library("ca.weblite:java-objc-bridge:1.1", Some(vec![rule("allow", None), rule("disallow", Some("osx"))])),
            library("broken", None),
            s("not an object"),
        ]),
    )]);
    assert_eq!(
        get_libraries_from_json(&doc),
        vec![
            "com/mojang/logging/1.1.1/logging-1.1.1.jar".to_string(),
            "org/lwjgl/lwjgl/3.3.1/lwjgl-3.3.1-natives-windows.jar".to_string(),
            "ca/weblite/java-objc-bridge/1.1/java-objc-bridge-1.1.jar".to_string(),
        ]
    );
    assert!(get_libraries_from_json(&obj(vec![])).is_empty());
    assert!(get_libraries_from_json(&obj(vec![("libraries", s("x"))])).is_empty());
}

fn version_doc() -> Json {
    obj(vec![(
        "arguments",
        obj(vec![
            (
                "jvm",
                Json::Array(vec![
                    obj(vec![
                        ("rules", Json::Array(vec![rule("allow", Some("osx"))])),
                        ("value", Json::Array(vec![s("-XstartOnFirstThread")])),
                    ]),
                    obj(vec![
                        ("rules", Json::Array(vec![rule("allow", Some("windows"))])),
                        ("value", s("-XX:HeapDumpPath=MojangTricksIntelDriversForPerformance_javaw.exe_minecraft.exe.heapdump")),
                    ]),
                    obj(vec![("value", Json::Array(vec![s("-Xss1M"), Json::Number(JsonNumber::Unsigned(3)), s("-Dx=y")]))]),
                    s("-Djava.library.path=${natives_directory}"),
                    s("-cp"),
                    s("${classpath}"),
                    s("-p"),
                    s("${library_directory}/a.jar${classpath_separator}${library_directory}/b.jar"),
                    s("-Dversion=${version_name}"),
                    Json::Null,
                ]),
            ),
            (
                "game",
                Json::Array(vec![
                    s("--launchTarget"),
                    s("forgeclient"),
                    obj(vec![("value", s("ignored"))]),
                    Json::Bool(true),
                ]),
            ),
        ]),
    )])
}

#[test]
fn jvm_arguments_of_a_version() {
    let args = get_jvm_args_from_json(
        &version_doc(),
        "C:\\mc\\libraries",
        "C:\\mc\\versions\\1.20.1-forge-47.2.0\\natives",
        "1.20.1-forge-47.2.0",
    );
    assert_eq!(
        args,
        vec![
            "-XX:HeapDumpPath=MojangTricksIntelDriversForPerformance_javaw.exe_minecraft.exe.heapdump",
            "-Xss1M",
            "-Dx=y",
            "-Djava.library.path=C:\\mc\\versions\\1.20.1-forge-47.2.0\\natives",
            "-cp",
            "${classpath}",
            "-p",
            "C:\\mc\\libraries/a.jar;C:\\mc\\libraries/b.jar",
            "-Dversion=1.20.1-forge-47.2.0",
        ]
    );
    assert!(get_jvm_args_from_json(&obj(vec![]), "a", "b", "c").is_empty());
}

#[test]
fn game_arguments_of_a_version() {
    assert_eq!(get_game_args_from_json(&version_doc()), vec!["--launchTarget", "forgeclient"]);
    assert!(get_game_args_from_json(&Json::Null).is_empty());
}

#[test]
fn plain_arguments_pass_unchanged() {
    let arg = "-Dfml.ignoreInvalidMinecraftCertificates=true";
    assert_eq!(substitute_placeholders(arg, "L", "N", "V"), arg);
    assert_eq!(
        substitute_placeholders("${version_name}${version_name}", "L", "N", "V"),
        "VV"
    );
}

#[test]
fn jar_extension() {
    assert!(is_jar_file_name("forge-47.2.0.jar"));
    assert!(is_jar_file_name("a.b.jar"));
    assert!(!is_jar_file_name(".jar"));
    assert!(!is_jar_file_name("jar"));
    assert!(!is_jar_file_name("x.jar.bak"));
    assert!(!is_jar_file_name("x.JAR"));
    for name in ["forge-47.2.0.jar", ".jar", "x.jar.bak", "a.b.jar", "x.tar"] {
        let std_says = std::path::Path::new(name).extension().map_or(false, |e| e == "jar");
        assert_eq!(is_jar_file_name(name), std_says);
    }
}
