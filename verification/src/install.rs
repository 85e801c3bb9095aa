//! Installing a modpack: download the archive, keep the player's own files
//! aside, clear the old pack, unpack the new one and put the player's files
//! back. The steps that touch the network and the disk are carried out by
//! the caller; this module decides, event by event, what comes next and
//! what progress to show.

use vstd::prelude::*;
use crate::progress::{ProgressPayload, progress};
use crate::text::{strings_view, to_chars};

verus! {

/// The folders of the old pack removed before the new one is unpacked.
pub open spec fn old_pack_folders() -> Seq<Seq<char>> {
    seq!["mods"@, "config"@, "scripts"@, "kubejs"@, "tacz"@, "defaultconfigs"@]
}

/// The folders of the old pack removed before the new one is unpacked.
pub fn clean_dirs() -> (r: Vec<String>)
    ensures
        strings_view(r@) == old_pack_folders(),
{
    let mut v: Vec<String> = Vec::new();
    v.push("mods".to_owned());
    v.push("config".to_owned());
    v.push("scripts".to_owned());
    v.push("kubejs".to_owned());
    v.push("tacz".to_owned());
    v.push("defaultconfigs".to_owned());
    assert(strings_view(v@) =~= old_pack_folders());
    v
}

/// Whether an archive entry named `name` is a folder: its name ends with `/`.
pub fn is_directory_entry(name: &str) -> (r: bool)
    ensures
        r == (name@.len() > 0 && name@.last() == '/'),
{
    let chars = to_chars(name);
    chars.len() > 0 && chars[chars.len() - 1] == '/'
}

/// The scale of the download bar: the announced size, at least 1.
pub open spec fn download_scale(total: u64) -> u64 {
    if total >= 1 {
        total
    } else {
        1
    }
}

/// Where an installation stands.
pub enum InstallState {
    /// The download has been requested.
    Connecting,
    /// The archive is being written: `downloaded` bytes so far, `total`
    /// announced by the server (0 when it announced none).
    Downloading { downloaded: u64, total: u64 },
    /// The player's own files are being put aside.
    BackingUp,
    /// The old pack's folders are being removed.
    Cleaning,
    /// The archive is being opened.
    Opening,
    /// Entries are being unpacked; the archive holds `files` entries.
    Extracting { files: u64 },
    /// The player's files are being put back.
    Restoring,
    /// The installation is complete.
    Done,
    /// The installation stopped on an error.
    Failed,
}

/// What the caller reports back after doing the work it was asked for.
pub enum InstallEvent {
    /// The server answered, announcing this many bytes when it did.
    Connected { content_length: Option<u64> },
    /// A piece of this many bytes was written to the archive.
    ChunkWritten { len: u64 },
    /// The whole archive has been written.
    DownloadFinished,
    /// The player's files have been put aside.
    BackupFinished,
    /// The old folders have been removed.
    CleanFinished,
    /// The archive was opened and holds this many entries.
    ArchiveOpened { files: u64 },
    /// The entry with this index was unpacked.
    EntryExtracted { index: u64 },
    /// Every entry has been unpacked.
    ExtractionFinished,
    /// The player's files are back.
    RestoreFinished,
    /// A step failed with this message.
    Failed { error: String },
}

/// The work the caller is asked to do.
pub enum InstallAction {
    /// Show this progress.
    Report(ProgressPayload),
    /// Create the file the archive is downloaded into.
    CreateArchive,
    /// Empty the backup folder and copy the player's files into it.
    BackUp,
    /// Remove these folders of the old pack.
    RemoveFolders(Vec<String>),
    /// Open the downloaded archive.
    OpenArchive,
    /// Delete the downloaded archive.
    RemoveArchive,
    /// Copy the player's files back and remove the backup folder.
    Restore,
    /// Report success.
    Finish,
    /// Report failure with this message.
    Abort(String),
}

/// The abstract form of an [`InstallEvent`].
pub enum InstallEventView {
    Connected { content_length: Option<u64> },
    ChunkWritten { len: u64 },
    DownloadFinished,
    BackupFinished,
    CleanFinished,
    ArchiveOpened { files: u64 },
    EntryExtracted { index: u64 },
    ExtractionFinished,
    RestoreFinished,
    Failed { error: Seq<char> },
}

impl View for InstallEvent {
    type V = InstallEventView;

    open spec fn view(&self) -> InstallEventView {
        match self {
            InstallEvent::Connected { content_length } => InstallEventView::Connected {
                content_length: *content_length,
            },
            InstallEvent::ChunkWritten { len } => InstallEventView::ChunkWritten { len: *len },
            InstallEvent::DownloadFinished => InstallEventView::DownloadFinished,
            InstallEvent::BackupFinished => InstallEventView::BackupFinished,
            InstallEvent::CleanFinished => InstallEventView::CleanFinished,
            InstallEvent::ArchiveOpened { files } => InstallEventView::ArchiveOpened {
                files: *files,
            },
            InstallEvent::EntryExtracted { index } => InstallEventView::EntryExtracted {
                index: *index,
            },
            InstallEvent::ExtractionFinished => InstallEventView::ExtractionFinished,
            InstallEvent::RestoreFinished => InstallEventView::RestoreFinished,
            InstallEvent::Failed { error } => InstallEventView::Failed { error: error@ },
        }
    }
}

/// The abstract form of an [`InstallAction`].
pub enum InstallActionView {
    Report((Seq<char>, u64, u64)),
    CreateArchive,
    BackUp,
    RemoveFolders(Seq<Seq<char>>),
    OpenArchive,
    RemoveArchive,
    Restore,
    Finish,
    Abort(Seq<char>),
}

impl View for InstallAction {
    type V = InstallActionView;

    open spec fn view(&self) -> InstallActionView {
        match self {
            InstallAction::Report(p) => InstallActionView::Report(p@),
            InstallAction::CreateArchive => InstallActionView::CreateArchive,
            InstallAction::BackUp => InstallActionView::BackUp,
            InstallAction::RemoveFolders(v) => InstallActionView::RemoveFolders(strings_view(v@)),
            InstallAction::OpenArchive => InstallActionView::OpenArchive,
            InstallAction::RemoveArchive => InstallActionView::RemoveArchive,
            InstallAction::Restore => InstallActionView::Restore,
            InstallAction::Finish => InstallActionView::Finish,
            InstallAction::Abort(m) => InstallActionView::Abort(m@),
        }
    }
}

/// The views of a sequence of actions.
pub open spec fn install_actions_view(v: Seq<InstallAction>) -> Seq<InstallActionView> {
    v.map_values(|a: InstallAction| a@)
}

/// A progress report as an action.
pub open spec fn report(status: Seq<char>, val: u64, max_val: u64) -> InstallActionView {
    InstallActionView::Report((status, val, max_val))
}

/// The status line while the archive downloads.
pub open spec fn downloading_status() -> Seq<char> {
    "ЗАГРУЗКА ИГРОВЫХ АРХИВОВ..."@
}

/// The status line while entries are unpacked.
pub open spec fn unpacking_status() -> Seq<char> {
    "РАСПАКОВКА ФАЙЛОВ..."@
}

/// Whether unpacking the entry `index` of `files` is shown: every tenth
/// entry, and the last one.
pub open spec fn shows_unpacking(index: u64, files: u64) -> bool {
    index % 10 == 0 || index + 1 == files
}

/// The first state and actions of an installation.
pub open spec fn install_begin() -> (InstallState, Seq<InstallActionView>) {
    (InstallState::Connecting, seq![report("СОЕДИНЕНИЕ С СЕРВЕРОМ..."@, 0, 100)])
}

/// Whether the caller may report `event` in `state`: a written piece may not
/// carry the byte count past `u64::MAX`.
pub open spec fn install_event_allowed(state: InstallState, event: InstallEventView) -> bool {
    match (state, event) {
        (
            InstallState::Downloading { downloaded, total },
            InstallEventView::ChunkWritten { len },
        ) => downloaded + len <= u64::MAX,
        _ => true,
    }
}

/// The next state and the actions to carry out, in order, when `event`
/// happens in `state`. An error ends any unfinished installation; an event
/// that does not belong to the state changes nothing.
pub open spec fn install_next(state: InstallState, event: InstallEventView) -> (
    InstallState,
    Seq<InstallActionView>,
) {
    match (state, event) {
        (InstallState::Done, _) => (state, Seq::empty()),
        (InstallState::Failed, _) => (state, Seq::empty()),
        (_, InstallEventView::Failed { error }) => (
            InstallState::Failed,
            seq![InstallActionView::Abort(error)],
        ),
        (InstallState::Connecting, InstallEventView::Connected { content_length }) => {
            let total = match content_length {
                Some(n) => n,
                None => 0,
            };
            (
                InstallState::Downloading { downloaded: 0, total },
                seq![
                    InstallActionView::CreateArchive,
                    report(downloading_status(), 0, download_scale(total)),
                ],
            )
        },
        (InstallState::Downloading { downloaded, total }, InstallEventView::ChunkWritten { len }) => {
            let now = (downloaded + len) as u64;
            (
                InstallState::Downloading { downloaded: now, total },
                seq![report(downloading_status(), now, download_scale(total))],
            )
        },
        (InstallState::Downloading { .. }, InstallEventView::DownloadFinished) => (
            InstallState::BackingUp,
            seq![report("РЕЗЕРВНОЕ КОПИРОВАНИЕ..."@, 100, 100), InstallActionView::BackUp],
        ),
        (InstallState::BackingUp, InstallEventView::BackupFinished) => (
            InstallState::Cleaning,
            seq![
                report("ОЧИСТКА СТАРЫХ ДАННЫХ..."@, 100, 100),
                InstallActionView::RemoveFolders(old_pack_folders()),
            ],
        ),
        (InstallState::Cleaning, InstallEventView::CleanFinished) => (
            InstallState::Opening,
            seq![report("ОБРАБОТКА ДАННЫХ..."@, 0, 100), InstallActionView::OpenArchive],
        ),
        (InstallState::Opening, InstallEventView::ArchiveOpened { files }) => (
            InstallState::Extracting { files },
            Seq::empty(),
        ),
        (InstallState::Extracting { files }, InstallEventView::EntryExtracted { index }) => (
            state,
            if index < files && shows_unpacking(index, files) {
                seq![report(unpacking_status(), index, files)]
            } else {
                Seq::empty()
            },
        ),
        (InstallState::Extracting { .. }, InstallEventView::ExtractionFinished) => (
            InstallState::Restoring,
            seq![
                InstallActionView::RemoveArchive,
                report("ВОССТАНОВЛЕНИЕ НАСТРОЕК..."@, 100, 100),
                InstallActionView::Restore,
            ],
        ),
        (InstallState::Restoring, InstallEventView::RestoreFinished) => (
            InstallState::Done,
            seq![report("ГОТОВО"@, 100, 100), InstallActionView::Finish],
        ),
        _ => (state, Seq::empty()),
    }
}

fn report_action(status: &str, val: u64, max_val: u64) -> (r: InstallAction)
    ensures
        r@ == report(status@, val, max_val),
{
    InstallAction::Report(progress(status, val, max_val))
}

/// Starts an installation (after the download address is known).
pub fn install_start() -> (r: (InstallState, Vec<InstallAction>))
    ensures
        (r.0, install_actions_view(r.1@)) == install_begin(),
{
    let mut actions: Vec<InstallAction> = Vec::new();
    actions.push(report_action("СОЕДИНЕНИЕ С СЕРВЕРОМ...", 0, 100));
    assert(install_actions_view(actions@) =~= install_begin().1);
    (InstallState::Connecting, actions)
}

/// Decides what follows `event` in `state`.
pub fn install_step(state: InstallState, event: InstallEvent) -> (r: (InstallState, Vec<InstallAction>))
    requires
        install_event_allowed(state, event@),
    ensures
        (r.0, install_actions_view(r.1@)) == install_next(state, event@),
{
    let mut actions: Vec<InstallAction> = Vec::new();
    let ghost ev = event@;
    let next = match state {
        InstallState::Done => InstallState::Done,
        InstallState::Failed => InstallState::Failed,
        _ => match event {
            InstallEvent::Failed { error } => {
                actions.push(InstallAction::Abort(error));
                InstallState::Failed
            },
            InstallEvent::Connected { content_length } => match state {
                InstallState::Connecting => {
                    let total: u64 = match content_length {
                        Some(n) => n,
                        None => 0,
                    };
                    let scale: u64 = if total >= 1 {
                        total
                    } else {
                        1
                    };
                    actions.push(InstallAction::CreateArchive);
                    actions.push(report_action("ЗАГРУЗКА ИГРОВЫХ АРХИВОВ...", 0, scale));
                    InstallState::Downloading { downloaded: 0, total }
                },
                _ => state,
            },
            InstallEvent::ChunkWritten { len } => match state {
                InstallState::Downloading { downloaded, total } => {
                    let now = downloaded + len;
                    let scale: u64 = if total >= 1 {
                        total
                    } else {
                        1
                    };
                    actions.push(report_action("ЗАГРУЗКА ИГРОВЫХ АРХИВОВ...", now, scale));
                    InstallState::Downloading { downloaded: now, total }
                },
                _ => state,
            },
            InstallEvent::DownloadFinished => match state {
                InstallState::Downloading { .. } => {
                    actions.push(report_action("РЕЗЕРВНОЕ КОПИРОВАНИЕ...", 100, 100));
                    actions.push(InstallAction::BackUp);
                    InstallState::BackingUp
                },
                _ => state,
            },
            InstallEvent::BackupFinished => match state {
                InstallState::BackingUp => {
                    actions.push(report_action("ОЧИСТКА СТАРЫХ ДАННЫХ...", 100, 100));
                    actions.push(InstallAction::RemoveFolders(clean_dirs()));
                    InstallState::Cleaning
                },
                _ => state,
            },
            InstallEvent::CleanFinished => match state {
                InstallState::Cleaning => {
                    actions.push(report_action("ОБРАБОТКА ДАННЫХ...", 0, 100));
                    actions.push(InstallAction::OpenArchive);
                    InstallState::Opening
                },
                _ => state,
            },
            InstallEvent::ArchiveOpened { files } => match state {
                InstallState::Opening => InstallState::Extracting { files },
                _ => state,
            },
            InstallEvent::EntryExtracted { index } => match state {
                InstallState::Extracting { files } => {
                    if index < files && (index % 10 == 0 || index + 1 == files) {
                        actions.push(report_action("РАСПАКОВКА ФАЙЛОВ...", index, files));
                    }
                    state
                },
                _ => state,
            },
            InstallEvent::ExtractionFinished => match state {
                InstallState::Extracting { .. } => {
                    actions.push(InstallAction::RemoveArchive);
                    actions.push(report_action("ВОССТАНОВЛЕНИЕ НАСТРОЕК...", 100, 100));
                    actions.push(InstallAction::Restore);
                    InstallState::Restoring
                },
                _ => state,
            },
            InstallEvent::RestoreFinished => match state {
                InstallState::Restoring => {
                    actions.push(report_action("ГОТОВО", 100, 100));
                    actions.push(InstallAction::Finish);
                    InstallState::Done
                },
                _ => state,
            },
        },
    };
    assert(install_actions_view(actions@) =~= install_next(state, ev).1);
    (next, actions)
}

} // verus!
