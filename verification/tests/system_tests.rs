use battleverse_launcher::system::{
    active_power_scheme_query, empty_working_set, game_session_step, get_active_power_scheme,
    high_performance_scheme, set_power_scheme, set_process_high_priority, SessionAction,
    SessionEvent,
};

#[test]
fn power_scheme_parsing() {
    let out = "Power Scheme GUID: 381b4222-f694-41f0-9685-ff5bb260df2e  (Balanced)\r\n";
    assert_eq!(
        get_active_power_scheme(out),
        Some("381b4222-f694-41f0-9685-ff5bb260df2e".to_string())
    );
    assert_eq!(get_active_power_scheme("no scheme"), None);
    assert_eq!(get_active_power_scheme("GUID:   short  "), None);
    // only the literal label `GUID:` is recognised
    let localized = "GUID схемы питания: 8c5e7fda-e8bf-4a96-9a85-a6e23a8c635c  (Высокая производительность)";
    assert_eq!(get_active_power_scheme(localized), None);
    // the 36 bytes are counted after trimming
    assert_eq!(
        get_active_power_scheme("GUID:\t  0123456789abcdef0123456789abcdef0123xyz"),
        Some("0123456789abcdef0123456789abcdef0123".to_string())
    );
}

#[test]
fn power_commands() {
    let q = active_power_scheme_query();
    assert_eq!(q.program, "powercfg");
    assert_eq!(q.args, vec!["-getactivescheme".to_string()]);
    let c = set_power_scheme(&high_performance_scheme());
    assert_eq!(c.program, "powercfg");
    assert_eq!(c.args, vec!["-setactive".to_string(), "8c5e7fda-e8bf-4a96-9a85-a6e23a8c635c".to_string()]);
}

#[test]
fn process_tuning_actions() {
    assert!(matches!(set_process_high_priority(4242), SessionAction::RaisePriority { pid: 4242 }));
    assert!(matches!(empty_working_set(), SessionAction::TrimWorkingSet));
}

#[test]
fn session_after_spawn() {
    let acts = game_session_step(&Some("381b".to_string()), SessionEvent::Spawned { pid: 7 });
    assert_eq!(acts.len(), 3);
    assert!(matches!(acts[0], SessionAction::RaisePriority { pid: 7 }));
    assert!(matches!(acts[1], SessionAction::TrimWorkingSet));
    assert!(matches!(acts[2], SessionAction::GameActive(true)));
}

#[test]
fn session_end_restores_power_plan() {
    let acts = game_session_step(&Some("381b".to_string()), SessionEvent::Exited);
    assert_eq!(acts.len(), 3);
    match &acts[0] {
        SessionAction::SetPowerScheme(g) => assert_eq!(g, "381b"),
        _ => panic!("expected the power plan to come back"),
    }
    assert!(matches!(acts[1], SessionAction::GameActive(false)));
    assert!(matches!(acts[2], SessionAction::ClearProgress));
    let acts = game_session_step(&None, SessionEvent::Exited);
    assert_eq!(acts.len(), 2);
}

#[test]
fn session_spawn_failure() {
    let acts = game_session_step(
        &Some("381b".to_string()),
        SessionEvent::SpawnFailed { error: "No such file".to_string() },
    );
    assert_eq!(acts.len(), 2);
    assert!(matches!(&acts[0], SessionAction::SetPowerScheme(g) if g == "381b"));
    match &acts[1] {
        SessionAction::Fail(m) => assert_eq!(m, "Не удалось запустить Java процесс игры: No such file"),
        _ => panic!("expected a failure"),
    }
}
