//! Properties of how the launcher decides to start the game and of the
//! command line it starts it with.

use vstd::prelude::*;
use crate::launch::{
    LaunchOutcome, LaunchSettings, launch_args, launch_decision, spec_java_command, spec_version_id,
    without_classpath,
};
use crate::progress::progress_view;
use crate::text::{decimal, strings_view};

verus! {

/// The version started is the Minecraft version itself, or, with a Forge
/// version, `<minecraft>-forge-<forge>`.
pub proof fn law_version_id(mc_version: Seq<char>, forge_version: Seq<char>)
    ensures
        forge_version.len() == 0 ==> spec_version_id(mc_version, forge_version) == mc_version,
        forge_version.len() > 0 ==> spec_version_id(mc_version, forge_version) == mc_version
            + "-forge-"@ + forge_version,
{
}

/// After the main class, the command line names the player, the version, the
/// game and assets directories, asset index `5`, the player's UUID, an empty
/// access token, the client id and Xbox user placeholders, and an `msa`
/// user of a `release` version, each flag followed by its value.
pub proof fn law_launch_args_player_arguments(
    ram_mb: nat,
    jvm_args: Seq<Seq<char>>,
    classpath: Seq<char>,
    username: Seq<char>,
    version_id: Seq<char>,
    mc_dir: Seq<char>,
    assets_dir: Seq<char>,
    uuid: Seq<char>,
    game_args: Seq<Seq<char>>,
)
    ensures
        ({
            let args = launch_args(
                ram_mb,
                jvm_args,
                classpath,
                username,
                version_id,
                mc_dir,
                assets_dir,
                uuid,
                game_args,
            );
            let k = without_classpath(jvm_args).len() as int;
            args.subrange(5 + k, 27 + k) == seq![
                "--username"@,
                username,
                "--version"@,
                version_id,
                "--gameDir"@,
                mc_dir,
                "--assetsDir"@,
                assets_dir,
                "--assetIndex"@,
                "5"@,
                "--uuid"@,
                uuid,
                "--accessToken"@,
                Seq::<char>::empty(),
                "--clientId"@,
                "${clientid}"@,
                "--xuid"@,
                "${auth_xuid}"@,
                "--userType"@,
                "msa"@,
                "--versionType"@,
                "release"@,
            ]
        }),
{
    let args = launch_args(
        ram_mb,
        jvm_args,
        classpath,
        username,
        version_id,
        mc_dir,
        assets_dir,
        uuid,
        game_args,
    );
    let k = without_classpath(jvm_args).len() as int;
    assert(args.subrange(5 + k, 27 + k) =~= seq![
        "--username"@,
        username,
        "--version"@,
        version_id,
        "--gameDir"@,
        mc_dir,
        "--assetsDir"@,
        assets_dir,
        "--assetIndex"@,
        "5"@,
        "--uuid"@,
        uuid,
        "--accessToken"@,
        Seq::<char>::empty(),
        "--clientId"@,
        "${clientid}"@,
        "--xuid"@,
        "${auth_xuid}"@,
        "--userType"@,
        "msa"@,
        "--versionType"@,
        "release"@,
    ]);
}

/// The four stages a launch reports, in order.
pub open spec fn launch_stages() -> Seq<(Seq<char>, u64, u64)> {
    seq![
        ("ПОДГОТОВКА СРЕДЫ..."@, 10u64, 100u64),
        ("СБОРКА КЛАССОВ (CLASSPATH)..."@, 40u64, 100u64),
        ("НАСТРОЙКА АРГУМЕНТОВ..."@, 70u64, 100u64),
        ("ЗАПУСК ИГРЫ..."@, 100u64, 100u64),
    ]
}

/// A launch starts the game exactly when the game's libraries are installed
/// and its JVM arguments could be read. Without libraries it stops after the
/// second stage with the missing libraries error; when the arguments could
/// not be read it stops after the third with the error met while reading
/// them. The stages it reports are always the first ones, in order. A game
/// that starts gets the high performance power plan and a command line
/// whose heap limits are the configured gibibytes in mebibytes.
pub proof fn law_launch_outcome(
    r: LaunchOutcome,
    settings: LaunchSettings,
    bundled_java: Option<String>,
    libraries_dir_exists: bool,
    library_jars: Vec<String>,
    client_jar: Option<String>,
    jvm_args: Result<Vec<String>, String>,
    game_args: Vec<String>,
    uuid: Seq<char>,
)
    requires
        launch_decision(
            r,
            settings,
            bundled_java,
            libraries_dir_exists,
            library_jars,
            client_jar,
            jvm_args,
            game_args,
            uuid,
        ),
    ensures
        r.plan is Ok <==> (libraries_dir_exists && jvm_args is Ok),
        2 <= progress_view(r.progress@).len() <= 4,
        progress_view(r.progress@) == launch_stages().take(progress_view(r.progress@).len() as int),
        !libraries_dir_exists ==> progress_view(r.progress@).len() == 2 && (r.plan matches Err(e)
            && e@ == "Папка libraries не найдена! Установите сборку перед запуском."@),
        forall|m: String|
            libraries_dir_exists && jvm_args == Err::<Vec<String>, String>(m) ==> progress_view(
                r.progress@,
            ).len() == 3 && (r.plan matches Err(e) && e@ == m@),
        r.plan matches Ok(plan) ==> {
            &&& progress_view(r.progress@).len() == 4
            &&& plan.power_scheme@ == "8c5e7fda-e8bf-4a96-9a85-a6e23a8c635c"@
            &&& strings_view(plan.args@)[0] == "-Xmx"@ + decimal((settings.ram_gb * 1024) as nat)
                + "M"@
            &&& strings_view(plan.args@)[1] == "-Xms"@ + decimal((settings.ram_gb * 1024) as nat)
                + "M"@
        },
{
    reveal_strlit("M");
    assert(seq!['M'] =~= "M"@);
    let p = progress_view(r.progress@);
    if !libraries_dir_exists {
        assert(launch_stages().take(2) =~= p);
    } else {
        match jvm_args {
            Err(_) => {
                assert(launch_stages().take(3) =~= p);
            },
            Ok(_) => {
                assert(launch_stages().take(4) =~= p);
            },
        }
    }
}

/// The game runs on the Java runtime shipped with it when there is one, and
/// otherwise on `java` from the system path.
pub proof fn law_java_choice(bundled_java: Option<Seq<char>>)
    ensures
        forall|p: Seq<char>| bundled_java == Some(p) ==> spec_java_command(bundled_java) == p,
        bundled_java is None ==> spec_java_command(bundled_java) == "java"@,
{
}

} // verus!
