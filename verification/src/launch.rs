//! Assembling the command line that starts a Forge-modded Minecraft client.

use vstd::prelude::*;
use vstd::string::StringExecFns;
use crate::progress::{ProgressPayload, progress, progress_view};
use crate::system::high_performance_scheme;
use crate::version::opt_view;
use crate::text::{decimal, decimal_chars, from_chars, join, join_with, strings_view};

verus! {

/// The id of the version to start: the Minecraft version itself, or
/// `<minecraft>-forge-<forge>` when a Forge version is given.
pub open spec fn spec_version_id(mc_version: Seq<char>, forge_version: Seq<char>) -> Seq<char> {
    if forge_version.len() == 0 {
        mc_version
    } else {
        mc_version + "-forge-"@ + forge_version
    }
}

/// The id of the version to start.
pub fn version_id(mc_version: &str, forge_version: &str) -> (r: String)
    ensures
        r@ == spec_version_id(mc_version@, forge_version@),
{
    let mut r = mc_version.to_owned();
    if !forge_version.is_empty() {
        r.append("-forge-");
        r.append(forge_version);
    }
    r
}

/// `-cp` and `-classpath`, the flags whose next argument is a class path.
pub open spec fn is_classpath_flag(a: Seq<char>) -> bool {
    a == "-cp"@ || a == "-classpath"@
}

/// The arguments with every class path flag and the argument after it
/// dropped, and every `${classpath}` placeholder dropped; `skip` says that the
/// first argument follows a class path flag.
pub open spec fn without_classpath_from(args: Seq<Seq<char>>, skip: bool) -> Seq<Seq<char>>
    decreases args.len(),
{
    if args.len() == 0 {
        Seq::empty()
    } else if skip {
        without_classpath_from(args.drop_first(), false)
    } else if is_classpath_flag(args[0]) {
        without_classpath_from(args.drop_first(), true)
    } else if args[0] == "${classpath}"@ {
        without_classpath_from(args.drop_first(), false)
    } else {
        seq![args[0]] + without_classpath_from(args.drop_first(), false)
    }
}

/// The JVM arguments of a version without its own class path, which the
/// launcher supplies itself.
pub open spec fn without_classpath(args: Seq<Seq<char>>) -> Seq<Seq<char>> {
    without_classpath_from(args, false)
}

/// Drops class path flags with their values and `${classpath}` placeholders.
pub fn strip_classpath(args: &Vec<String>) -> (r: Vec<String>)
    ensures
        strings_view(r@) == without_classpath(strings_view(args@)),
{
    let ghost all = strings_view(args@);
    let mut out: Vec<String> = Vec::new();
    let mut skip_next = false;
    let mut i: usize = 0;
    let cp = "-cp".to_owned();
    let classpath = "-classpath".to_owned();
    let placeholder = "${classpath}".to_owned();
    assert(all.skip(0) =~= all);
    assert(strings_view(out@) =~= Seq::<Seq<char>>::empty());
    while i < args.len()
        invariant
            i <= args.len(),
            all == strings_view(args@),
            cp@ == "-cp"@,
            classpath@ == "-classpath"@,
            placeholder@ == "${classpath}"@,
            strings_view(out@) + without_classpath_from(all.skip(i as int), skip_next)
                == without_classpath(all),
        decreases args.len() - i,
    {
        let ghost rest = all.skip(i as int);
        assert(rest[0] == args@[i as int]@);
        assert(rest.drop_first() =~= all.skip(i + 1));
        let ghost before = strings_view(out@);
        if skip_next {
            skip_next = false;
        } else if args[i] == cp || args[i] == classpath {
            skip_next = true;
        } else if args[i] == placeholder {
        } else {
            out.push(args[i].clone());
            assert(strings_view(out@) =~= before.push(args@[i as int]@));
            assert(seq![rest[0]] + without_classpath_from(rest.drop_first(), false)
                =~= seq![rest[0]] + without_classpath_from(all.skip(i + 1), false));
            assert(before.push(rest[0]) + without_classpath_from(all.skip(i + 1), false)
                =~= before + (seq![rest[0]] + without_classpath_from(all.skip(i + 1), false)));
        }
        i = i + 1;
    }
    assert(all.skip(args.len() as int) =~= Seq::<Seq<char>>::empty());
    assert(strings_view(out@) + Seq::<Seq<char>>::empty() =~= strings_view(out@));
    out
}

/// What the launcher knows about the session to start.
pub struct LaunchSettings {
    /// The game directory.
    pub mc_dir: String,
    /// The assets directory inside it.
    pub assets_dir: String,
    /// The player's name.
    pub username: String,
    /// The id of the version to start.
    pub version_id: String,
    /// Memory for the JVM, in gibibytes.
    pub ram_gb: u32,
}

/// `-Xmx<mb>M` / `-Xms<mb>M`: a JVM heap limit in mebibytes.
pub open spec fn heap_flag(prefix: Seq<char>, ram_mb: nat) -> Seq<char> {
    prefix + decimal(ram_mb) + seq!['M']
}

/// The full argument list handed to `java`: heap limits, the version's JVM
/// arguments without a class path, the launcher's class path, Forge's
/// bootstrap main class, the player and directory arguments, and the
/// version's own game arguments.
pub open spec fn launch_args(
    ram_mb: nat,
    jvm_args: Seq<Seq<char>>,
    classpath: Seq<char>,
    username: Seq<char>,
    version_id: Seq<char>,
    mc_dir: Seq<char>,
    assets_dir: Seq<char>,
    uuid: Seq<char>,
    game_args: Seq<Seq<char>>,
) -> Seq<Seq<char>> {
    seq![heap_flag("-Xmx"@, ram_mb), heap_flag("-Xms"@, ram_mb)] + without_classpath(jvm_args)
        + seq![
        "-cp"@,
        classpath,
        "cpw.mods.bootstraplauncher.BootstrapLauncher"@,
        "--username"@,
        username,
        "--version"@,
        version_id,
        "--gameDir"@,
        mc_dir,
        "--assetsDir"@,
        assets_dir,
        "--assetIndex"@,
        "5"@,
        "--uuid"@,
        uuid,
        "--accessToken"@,
        Seq::empty(),
        "--clientId"@,
        "${clientid}"@,
        "--xuid"@,
        "${auth_xuid}"@,
        "--userType"@,
        "msa"@,
        "--versionType"@,
        "release"@,
    ] + game_args
}

fn heap_flag_string(prefix: &str, ram_mb: u32) -> (r: String)
    ensures
        r@ == heap_flag(prefix@, ram_mb as nat),
{
    let mut v: Vec<char> = crate::text::to_chars(prefix);
    let digits = decimal_chars(ram_mb);
    crate::text::push_all(&mut v, &digits);
    v.push('M');
    from_chars(&v)
}

/// The argument list for a session whose player UUID is `uuid`.
pub fn build_launch_args(
    settings: &LaunchSettings,
    classpath: &str,
    jvm_args: &Vec<String>,
    game_args: &Vec<String>,
    uuid: &str,
) -> (r: Vec<String>)
    requires
        settings.ram_gb * 1024 <= u32::MAX,
    ensures
        strings_view(r@) == launch_args(
            (settings.ram_gb * 1024) as nat,
            strings_view(jvm_args@),
            classpath@,
            settings.username@,
            settings.version_id@,
            settings.mc_dir@,
            settings.assets_dir@,
            uuid@,
            strings_view(game_args@),
        ),
{
    let ram_mb = settings.ram_gb * 1024;
    let mut args: Vec<String> = Vec::new();
    args.push(heap_flag_string("-Xmx", ram_mb));
    args.push(heap_flag_string("-Xms", ram_mb));
    let filtered = strip_classpath(jvm_args);
    let ghost heap = seq![heap_flag("-Xmx"@, ram_mb as nat), heap_flag("-Xms"@, ram_mb as nat)];
    assert(strings_view(args@) =~= heap);
    let mut i: usize = 0;
    while i < filtered.len()
        invariant
            i <= filtered.len(),
            strings_view(args@) == heap + strings_view(filtered@).take(i as int),
        decreases filtered.len() - i,
    {
        let ghost before = strings_view(args@);
        args.push(filtered[i].clone());
        i = i + 1;
        assert(strings_view(args@) =~= before.push(filtered@[i - 1]@));
        assert(strings_view(filtered@).take(i as int) =~= strings_view(filtered@).take(i - 1).push(
            filtered@[i - 1]@,
        ));
    }
    assert(strings_view(filtered@).take(filtered.len() as int) =~= strings_view(filtered@));
    let ghost head = strings_view(args@);
    args.push("-cp".to_owned());
    args.push(classpath.to_owned());
    args.push("cpw.mods.bootstraplauncher.BootstrapLauncher".to_owned());
    args.push("--username".to_owned());
    args.push(settings.username.clone());
    args.push("--version".to_owned());
    args.push(settings.version_id.clone());
    args.push("--gameDir".to_owned());
    args.push(settings.mc_dir.clone());
    args.push("--assetsDir".to_owned());
    args.push(settings.assets_dir.clone());
    args.push("--assetIndex".to_owned());
    args.push("5".to_owned());
    args.push("--uuid".to_owned());
    args.push(uuid.to_owned());
    args.push("--accessToken".to_owned());
    args.push(String::new());
    args.push("--clientId".to_owned());
    args.push("${clientid}".to_owned());
    args.push("--xuid".to_owned());
    args.push("${auth_xuid}".to_owned());
    args.push("--userType".to_owned());
    args.push("msa".to_owned());
    args.push("--versionType".to_owned());
    args.push("release".to_owned());
    let ghost fixed = strings_view(args@);
    assert(fixed =~= head + seq![
        "-cp"@,
        classpath@,
        "cpw.mods.bootstraplauncher.BootstrapLauncher"@,
        "--username"@,
        settings.username@,
        "--version"@,
        settings.version_id@,
        "--gameDir"@,
        settings.mc_dir@,
        "--assetsDir"@,
        settings.assets_dir@,
        "--assetIndex"@,
        "5"@,
        "--uuid"@,
        uuid@,
        "--accessToken"@,
        Seq::empty(),
        "--clientId"@,
        "${clientid}"@,
        "--xuid"@,
        "${auth_xuid}"@,
        "--userType"@,
        "msa"@,
        "--versionType"@,
        "release"@,
    ]);
    let mut j: usize = 0;
    while j < game_args.len()
        invariant
            j <= game_args.len(),
            strings_view(args@) == fixed + strings_view(game_args@).take(j as int),
        decreases game_args.len() - j,
    {
        let ghost before = strings_view(args@);
        args.push(game_args[j].clone());
        j = j + 1;
        assert(strings_view(args@) =~= before.push(game_args@[j - 1]@));
        assert(strings_view(game_args@).take(j as int) =~= strings_view(game_args@).take(j - 1).push(
            game_args@[j - 1]@,
        ));
    }
    assert(strings_view(game_args@).take(game_args.len() as int) =~= strings_view(game_args@));
    assert(strings_view(args@) =~= launch_args(
        ram_mb as nat,
        strings_view(jvm_args@),
        classpath@,
        settings.username@,
        settings.version_id@,
        settings.mc_dir@,
        settings.assets_dir@,
        uuid@,
        strings_view(game_args@),
    ));
    args
}


/// The player UUID the game receives for `name` when playing offline: the
/// name-based (version 3, MD5) UUID of `name`'s UTF-8 bytes in the DNS
/// namespace, written in lowercase hyphenated form.
pub uninterp spec fn offline_uuid_of(name: Seq<char>) -> Seq<char>;

/// `uuid::Uuid::new_v3(&Uuid::NAMESPACE_DNS, name.as_bytes())`, formatted
/// with `{:x}`. The contract names the result and states nothing more of it.
#[verifier::external_body]
fn offline_uuid(name: &str) -> (r: String)
    ensures
        r@ == offline_uuid_of(name@),
{
    format!("{:x}", uuid::Uuid::new_v3(&uuid::Uuid::NAMESPACE_DNS, name.as_bytes()))
}

/// The class path entries: the libraries, then the version's client jar
/// when it exists.
pub open spec fn classpath_entries(
    library_jars: Seq<Seq<char>>,
    client_jar: Option<Seq<char>>,
) -> Seq<Seq<char>> {
    match client_jar {
        Some(c) => library_jars.push(c),
        None => library_jars,
    }
}

/// The class path: its entries joined with `;`.
pub open spec fn spec_classpath(library_jars: Seq<Seq<char>>, client_jar: Option<Seq<char>>) -> Seq<
    char,
> {
    join_with(classpath_entries(library_jars, client_jar), ";"@)
}

/// The class path handed to `java`.
pub fn classpath(library_jars: &Vec<String>, client_jar: Option<String>) -> (r: String)
    ensures
        r@ == spec_classpath(strings_view(library_jars@), opt_view(client_jar)),
{
    let mut entries: Vec<String> = Vec::new();
    let mut i: usize = 0;
    while i < library_jars.len()
        invariant
            i <= library_jars.len(),
            strings_view(entries@) == strings_view(library_jars@).take(i as int),
        decreases library_jars.len() - i,
    {
        let ghost before = strings_view(entries@);
        entries.push(library_jars[i].clone());
        i = i + 1;
        assert(strings_view(entries@) =~= before.push(library_jars@[i - 1]@));
        assert(strings_view(library_jars@).take(i as int) =~= strings_view(library_jars@).take(
            i - 1,
        ).push(library_jars@[i - 1]@));
    }
    assert(strings_view(library_jars@).take(library_jars.len() as int) =~= strings_view(
        library_jars@,
    ));
    match client_jar {
        Some(c) => {
            let ghost before = strings_view(entries@);
            entries.push(c);
            assert(strings_view(entries@) =~= before.push(entries@.last()@));
        },
        None => {},
    }
    join(&entries, ";")
}

/// The Java executable: the runtime bundled with the game when it exists,
/// else `java` from the system path.
pub open spec fn spec_java_command(bundled_java: Option<Seq<char>>) -> Seq<char> {
    match bundled_java {
        Some(p) => p,
        None => "java"@,
    }
}

/// The Java executable to start.
pub fn java_command(bundled_java: Option<String>) -> (r: String)
    ensures
        r@ == spec_java_command(opt_view(bundled_java)),
{
    match bundled_java {
        Some(p) => p,
        None => "java".to_owned(),
    }
}

/// Progress while the environment is prepared.
pub open spec fn preparing_progress() -> (Seq<char>, u64, u64) {
    ("ПОДГОТОВКА СРЕДЫ..."@, 10, 100)
}

/// Progress while the class path is assembled.
pub open spec fn classpath_progress() -> (Seq<char>, u64, u64) {
    ("СБОРКА КЛАССОВ (CLASSPATH)..."@, 40, 100)
}

/// Progress while the arguments are set up.
pub open spec fn arguments_progress() -> (Seq<char>, u64, u64) {
    ("НАСТРОЙКА АРГУМЕНТОВ..."@, 70, 100)
}

/// Progress when the game is started.
pub open spec fn starting_progress() -> (Seq<char>, u64, u64) {
    ("ЗАПУСК ИГРЫ..."@, 100, 100)
}

/// The error when the game's libraries are not installed.
pub open spec fn missing_libraries_message() -> Seq<char> {
    "Папка libraries не найдена! Установите сборку перед запуском."@
}

/// How to start the game.
pub struct LaunchPlan {
    /// The Java executable.
    pub java_path: String,
    /// Its arguments.
    pub args: Vec<String>,
    /// The power plan to switch to while the game runs.
    pub power_scheme: String,
}

/// The progress reports shown, in order, and then either how to start the
/// game or why it cannot start.
pub struct LaunchOutcome {
    pub progress: Vec<ProgressPayload>,
    pub plan: Result<LaunchPlan, String>,
}

/// What `launch_game` answers for these inputs when the player's UUID is
/// `uuid`: with no libraries directory, two progress reports and the missing
/// libraries error; when the JVM arguments could not be read, three reports
/// and that error; otherwise four reports and the plan: the chosen Java, the
/// high performance power plan, and the full argument list.
pub open spec fn launch_decision(
    r: LaunchOutcome,
    settings: LaunchSettings,
    bundled_java: Option<String>,
    libraries_dir_exists: bool,
    library_jars: Vec<String>,
    client_jar: Option<String>,
    jvm_args: Result<Vec<String>, String>,
    game_args: Vec<String>,
    uuid: Seq<char>,
) -> bool {
    if !libraries_dir_exists {
        &&& progress_view(r.progress@) == seq![preparing_progress(), classpath_progress()]
        &&& r.plan matches Err(e) && e@ == missing_libraries_message()
    } else {
        match jvm_args {
            Err(read_error) => {
                &&& progress_view(r.progress@) == seq![
                    preparing_progress(),
                    classpath_progress(),
                    arguments_progress(),
                ]
                &&& r.plan matches Err(e) && e@ == read_error@
            },
            Ok(jvm) => {
                &&& progress_view(r.progress@) == seq![
                    preparing_progress(),
                    classpath_progress(),
                    arguments_progress(),
                    starting_progress(),
                ]
                &&& r.plan matches Ok(plan) && {
                    &&& plan.java_path@ == spec_java_command(opt_view(bundled_java))
                    &&& plan.power_scheme@ == "8c5e7fda-e8bf-4a96-9a85-a6e23a8c635c"@
                    &&& strings_view(plan.args@) == launch_args(
                        (settings.ram_gb * 1024) as nat,
                        strings_view(jvm@),
                        spec_classpath(strings_view(library_jars@), opt_view(client_jar)),
                        settings.username@,
                        settings.version_id@,
                        settings.mc_dir@,
                        settings.assets_dir@,
                        uuid,
                        strings_view(game_args@),
                    )
                }
            },
        }
    }
}

/// What `launch_game` decides, for a session whose player UUID is `uuid`.
/// `jvm_args` holds the version's JVM arguments with placeholders filled in,
/// or the error met while reading them.
pub fn launch_game_with_uuid(
    settings: &LaunchSettings,
    bundled_java: Option<String>,
    libraries_dir_exists: bool,
    library_jars: &Vec<String>,
    client_jar: Option<String>,
    jvm_args: Result<Vec<String>, String>,
    game_args: &Vec<String>,
    uuid: &str,
) -> (r: LaunchOutcome)
    requires
        settings.ram_gb * 1024 <= u32::MAX,
    ensures
        launch_decision(
            r,
            *settings,
            bundled_java,
            libraries_dir_exists,
            *library_jars,
            client_jar,
            jvm_args,
            *game_args,
            uuid@,
        ),
{
    let mut reports: Vec<ProgressPayload> = Vec::new();
    reports.push(progress("ПОДГОТОВКА СРЕДЫ...", 10, 100));
    let java_path = java_command(bundled_java);
    reports.push(progress("СБОРКА КЛАССОВ (CLASSPATH)...", 40, 100));
    if !libraries_dir_exists {
        assert(progress_view(reports@) =~= seq![preparing_progress(), classpath_progress()]);
        return LaunchOutcome {
            progress: reports,
            plan: Err("Папка libraries не найдена! Установите сборку перед запуском.".to_owned()),
        };
    }
    let cp = classpath(library_jars, client_jar);
    reports.push(progress("НАСТРОЙКА АРГУМЕНТОВ...", 70, 100));
    let jvm = match jvm_args {
        Ok(j) => j,
        Err(e) => {
            assert(progress_view(reports@) =~= seq![
                preparing_progress(),
                classpath_progress(),
                arguments_progress(),
            ]);
            return LaunchOutcome { progress: reports, plan: Err(e) };
        },
    };
    let args = build_launch_args(settings, cp.as_str(), &jvm, game_args, uuid);
    reports.push(progress("ЗАПУСК ИГРЫ...", 100, 100));
    assert(progress_view(reports@) =~= seq![
        preparing_progress(),
        classpath_progress(),
        arguments_progress(),
        starting_progress(),
    ]);
    LaunchOutcome {
        progress: reports,
        plan: Ok(LaunchPlan { java_path, args, power_scheme: high_performance_scheme() }),
    }
}

/// Decides how to start the game: the progress to report and either the
/// command line or the error `launch_game` answers. The player's offline
/// UUID is computed from their name.
pub fn launch_game(
    settings: &LaunchSettings,
    bundled_java: Option<String>,
    libraries_dir_exists: bool,
    library_jars: &Vec<String>,
    client_jar: Option<String>,
    jvm_args: Result<Vec<String>, String>,
    game_args: &Vec<String>,
) -> (r: LaunchOutcome)
    requires
        settings.ram_gb * 1024 <= u32::MAX,
    ensures
        launch_decision(
            r,
            *settings,
            bundled_java,
            libraries_dir_exists,
            *library_jars,
            client_jar,
            jvm_args,
            *game_args,
            offline_uuid_of(settings.username@),
        ),
{
    let uuid = offline_uuid(settings.username.as_str());
    launch_game_with_uuid(
        settings,
        bundled_java,
        libraries_dir_exists,
        library_jars,
        client_jar,
        jvm_args,
        game_args,
        uuid.as_str(),
    )
}

} // verus!
