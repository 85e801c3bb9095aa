//! Properties of the order of an installation's steps and of the places the
//! launcher keeps its files.

use vstd::prelude::*;
use crate::install::{
    InstallActionView, InstallEventView, InstallState, install_next, old_pack_folders, report,
};
use crate::layout::{LauncherPath, path_components};

verus! {

/// The old pack's folders are removed only once the player's files have
/// been put aside: the one step that asks for the removal is the end of the
/// backup, and the backup is entered only by a step that asks for it.
pub proof fn law_backup_before_removal(state: InstallState, event: InstallEventView)
    ensures
        !(state is BackingUp && event is BackupFinished) ==> forall|i: int|
            0 <= i < install_next(state, event).1.len() ==> !(#[trigger] install_next(
                state,
                event,
            ).1[i] is RemoveFolders),
        install_next(state, event).0 is BackingUp && !(state is BackingUp) ==> install_next(
            state,
            event,
        ).1.contains(InstallActionView::BackUp),
        install_next(state, event).0 is Cleaning && !(state is Cleaning) ==> state is BackingUp,
{
    let acts = install_next(state, event).1;
    if install_next(state, event).0 is BackingUp && !(state is BackingUp) {
        assert(acts[1] == InstallActionView::BackUp);
    }
}

/// The player's files are put back only after the new pack is unpacked: the
/// one step that asks for it is the end of unpacking, unpacking is entered
/// only once the archive is open, and the archive is opened only after the
/// old folders are cleared.
pub proof fn law_restore_after_unpacking(state: InstallState, event: InstallEventView)
    ensures
        !(state is Extracting && event is ExtractionFinished) ==> !install_next(
            state,
            event,
        ).1.contains(InstallActionView::Restore),
        install_next(state, event).0 is Extracting && !(state is Extracting) ==> state is Opening
            && event is ArchiveOpened,
        install_next(state, event).0 is Opening && !(state is Opening) ==> state is Cleaning,
{
    let acts = install_next(state, event).1;
    if !(state is Extracting && event is ExtractionFinished) {
        assert forall|i: int| 0 <= i < acts.len() implies acts[i] != InstallActionView::Restore by {
        }
    }
}

/// Clearing the old pack never touches the player's files put aside nor the
/// downloaded archive: neither is among the folders removed.
pub proof fn law_cleaning_spares_backup_and_archive()
    ensures
        !old_pack_folders().contains(path_components(LauncherPath::Backup)[0]),
        !old_pack_folders().contains(path_components(LauncherPath::PackArchive)[0]),
        path_components(LauncherPath::Backup).len() == 1,
        path_components(LauncherPath::PackArchive).len() == 1,
{
    reveal_strlit(".battleverse_backup");
    reveal_strlit("pack.zip");
    reveal_strlit("mods");
    reveal_strlit("config");
    reveal_strlit("scripts");
    reveal_strlit("kubejs");
    reveal_strlit("tacz");
    reveal_strlit("defaultconfigs");
    let folders = old_pack_folders();
    assert forall|i: int| 0 <= i < folders.len() implies folders[i] != ".battleverse_backup"@
        && folders[i] != "pack.zip"@ by {
        assert(folders[i][0] != ".battleverse_backup"@[0] || folders[i].len()
            != ".battleverse_backup"@.len());
        assert(folders[i][0] != "pack.zip"@[0] || folders[i].len() != "pack.zip"@.len());
    }
}

/// A version's document, client jar and natives all live in its own folder
/// `versions/<id>`; the document is `<id>.json` and the jar `<id>.jar`.
pub proof fn law_version_files_together(id: String)
    ensures
        path_components(LauncherPath::VersionDocument(id)) == seq!["versions"@, id@, id@ + ".json"@],
        path_components(LauncherPath::ClientJar(id)) == seq!["versions"@, id@, id@ + ".jar"@],
        path_components(LauncherPath::Natives(id)).take(2) == seq!["versions"@, id@],
{
    assert(path_components(LauncherPath::Natives(id)).take(2) =~= seq!["versions"@, id@]);
}

/// Once the server answers, the archive file is created and the download
/// starts from zero bytes, counting towards the size the server announced
/// (zero when it announced none); the bar's scale is that size, or 1 when
/// the size is zero.
pub proof fn law_download_starts_empty(content_length: Option<u64>)
    ensures
        ({
            let total: u64 = match content_length {
                Some(n) => n,
                None => 0,
            };
            let scale: u64 = if total == 0 {
                1
            } else {
                total
            };
            install_next(InstallState::Connecting, InstallEventView::Connected { content_length })
                == (
                InstallState::Downloading { downloaded: 0, total },
                seq![
                    InstallActionView::CreateArchive,
                    report("ЗАГРУЗКА ИГРОВЫХ АРХИВОВ..."@, 0, scale),
                ],
            )
        }),
{
}

/// Among the entries of an archive of `files`, unpacking is reported for
/// every tenth entry (counting from the first) and for the last one, and
/// for no other.
pub proof fn law_unpacking_cadence(files: u64, index: u64)
    requires
        index < files,
    ensures
        install_next(
            InstallState::Extracting { files },
            InstallEventView::EntryExtracted { index },
        ).1.len() > 0 <==> (index % 10 == 0 || index == files - 1),
        install_next(
            InstallState::Extracting { files },
            InstallEventView::EntryExtracted { index },
        ).0 == (InstallState::Extracting { files }),
{
}

} // verus!
