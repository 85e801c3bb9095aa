use battleverse_launcher::install::{
    clean_dirs, install_start, install_step, is_directory_entry, InstallAction, InstallEvent,
    InstallState,
};

fn reports(actions: &[InstallAction]) -> Vec<(String, u64, u64)> {
    actions
        .iter()
        .filter_map(|a| match a {
            InstallAction::Report(p) => Some((p.status.clone(), p.val, p.max_val)),
            _ => None,
        })
        .collect()
}

fn r(s: &str, v: u64, m: u64) -> (String, u64, u64) {
    (s.to_string(), v, m)
}

#[test]
fn old_pack_folders() {
    assert_eq!(clean_dirs(), vec!["mods", "config", "scripts", "kubejs", "tacz", "defaultconfigs"]);
}

#[test]
fn directory_entries() {
    assert!(is_directory_entry("mods/"));
    assert!(!is_directory_entry("mods/a.jar"));
    assert!(!is_directory_entry(""));
}

#[test]
fn whole_installation() {
    let (mut state, acts) = install_start();
    let mut shown = reports(&acts);
    let mut events = vec![
        InstallEvent::Connected { content_length: Some(300) },
        InstallEvent::ChunkWritten { len: 100 },
        InstallEvent::ChunkWritten { len: 200 },
        InstallEvent::DownloadFinished,
        InstallEvent::BackupFinished,
        InstallEvent::CleanFinished,
        InstallEvent::ArchiveOpened { files: 12 },
    ];
    for i in 0..12 {
        events.push(InstallEvent::EntryExtracted { index: i });
    }
    events.push(InstallEvent::ExtractionFinished);
    events.push(InstallEvent::RestoreFinished);
    let mut all = Vec::new();
    for e in events {
        let (next, acts) = install_step(state, e);
        state = next;
        shown.extend(reports(&acts));
        all.extend(acts);
    }
    assert!(matches!(state, InstallState::Done));
    assert_eq!(
        shown,
        vec![
            r("СОЕДИНЕНИЕ С СЕРВЕРОМ...", 0, 100),
            r("ЗАГРУЗКА ИГРОВЫХ АРХИВОВ...", 0, 300),
            r("ЗАГРУЗКА ИГРОВЫХ АРХИВОВ...", 100, 300),
            r("ЗАГРУЗКА ИГРОВЫХ АРХИВОВ...", 300, 300),
            r("РЕЗЕРВНОЕ КОПИРОВАНИЕ...", 100, 100),
            r("ОЧИСТКА СТАРЫХ ДАННЫХ...", 100, 100),
            r("ОБРАБОТКА ДАННЫХ...", 0, 100),
            r("РАСПАКОВКА ФАЙЛОВ...", 0, 12),
            r("РАСПАКОВКА ФАЙЛОВ...", 10, 12),
            r("РАСПАКОВКА ФАЙЛОВ...", 11, 12),
            r("ВОССТАНОВЛЕНИЕ НАСТРОЕК...", 100, 100),
            r("ГОТОВО", 100, 100),
        ]
    );
    assert!(matches!(all.last(), Some(InstallAction::Finish)));
    assert!(all.iter().any(|a| matches!(a, InstallAction::CreateArchive)));
    assert!(all.iter().any(|a| matches!(a, InstallAction::RemoveFolders(v) if v.len() == 6)));
}

#[test]
fn unknown_size_uses_scale_of_one() {
    let (next, acts) = install_step(InstallState::Connecting, InstallEvent::Connected { content_length: None });
    assert_eq!(reports(&acts), vec![r("ЗАГРУЗКА ИГРОВЫХ АРХИВОВ...", 0, 1)]);
    let (_, acts) = install_step(next, InstallEvent::ChunkWritten { len: 50 });
    assert_eq!(reports(&acts), vec![r("ЗАГРУЗКА ИГРОВЫХ АРХИВОВ...", 50, 1)]);
}

#[test]
fn error_aborts_installation() {
    let (next, acts) = install_step(
        InstallState::Downloading { downloaded: 10, total: 100 },
        InstallEvent::Failed { error: "connection reset".to_string() },
    );
    assert!(matches!(next, InstallState::Failed));
    assert_eq!(acts.len(), 1);
    assert!(matches!(&acts[0], InstallAction::Abort(m) if m == "connection reset"));
    let (next, acts) = install_step(next, InstallEvent::RestoreFinished);
    assert!(matches!(next, InstallState::Failed));
    assert!(acts.is_empty());
}

#[test]
fn finished_installation_is_final() {
    let (next, acts) = install_step(InstallState::Done, InstallEvent::Failed { error: "late".to_string() });
    assert!(matches!(next, InstallState::Done));
    assert!(acts.is_empty());
}

#[test]
fn out_of_order_event_is_ignored() {
    let (next, acts) = install_step(InstallState::BackingUp, InstallEvent::ChunkWritten { len: 5 });
    assert!(matches!(next, InstallState::BackingUp));
    assert!(acts.is_empty());
}
