//! Properties the launcher keeps across its operations, proved over the
//! specifications its functions are verified against.

use vstd::prelude::*;
use crate::config::local_version_status;
use crate::install::{
    InstallActionView, InstallEventView, InstallState, download_scale, downloading_status,
    install_next, report, unpacking_status,
};
use crate::json::{Json, JsonNumber, array_in, str_in};
use crate::remote::status_of;
use crate::launch::{is_classpath_flag, launch_args, without_classpath, without_classpath_from};
use crate::remote::{is_mediafire, mediafire_link, resolved_url};
use crate::system::{SessionActionView, SessionEvent, session_actions};
use crate::text::{
    first_occurrence, lemma_first_occurrence_from, occurs_at, replace_all, trim_end, trim_start,
    trimmed,
};
use crate::version::{entry_allowed, libraries_of, library_path, rule_verdict, rules_allow, substitute};

verus! {

proof fn lemma_trim_start_idempotent(s: Seq<char>)
    ensures
        trim_start(trim_start(s)) == trim_start(s),
        trim_start(s).len() > 0 ==> !crate::text::is_white_space(trim_start(s)[0]),
    decreases s.len(),
{
    if s.len() > 0 && crate::text::is_white_space(s[0]) {
        lemma_trim_start_idempotent(s.drop_first());
    }
}

proof fn lemma_trim_end_keeps_start(s: Seq<char>)
    requires
        s.len() > 0 ==> !crate::text::is_white_space(s[0]),
    ensures
        trim_end(s).len() > 0 ==> !crate::text::is_white_space(trim_end(s)[0]),
        trim_end(s).len() > 0 ==> !crate::text::is_white_space(trim_end(s).last()),
        trim_end(s).len() > 0 ==> trim_end(s)[0] == s[0],
    decreases s.len(),
{
    if s.len() > 0 && crate::text::is_white_space(s.last()) {
        if s.len() > 1 {
            assert(s.drop_last()[0] == s[0]);
        }
        lemma_trim_end_keeps_start(s.drop_last());
    }
}

/// Trimming twice is trimming once.
pub proof fn law_trim_idempotent(s: Seq<char>)
    ensures
        trimmed(trimmed(s)) == trimmed(s),
{
    let t = trimmed(s);
    lemma_trim_start_idempotent(s);
    lemma_trim_end_keeps_start(trim_start(s));
    // `t` starts and ends with non-white space (or is empty), so trimming keeps it.
    assert(trim_start(t) == t);
    assert(trim_end(t) == t);
}

/// After a version is installed and written to the version file, the
/// launcher offers to launch that version rather than to update it.
pub proof fn law_installed_version_is_launchable(version: Seq<char>)
    ensures
        local_version_status(Some(trimmed(version)), version) == "LAUNCH"@,
{
    law_trim_idempotent(version);
}

/// A version file naming the remote version offers `LAUNCH`; white space
/// around either side does not matter.
pub proof fn law_same_version_is_launchable(local: Seq<char>, remote: Seq<char>)
    requires
        trimmed(local) == trimmed(remote),
    ensures
        local_version_status(Some(local), remote) == "LAUNCH"@,
{
}

/// A version file naming another version than the remote one (white space
/// around either ignored) offers `UPDATE`; only an equal version offers
/// `LAUNCH`.
pub proof fn law_different_version_updates(local: Seq<char>, remote: Seq<char>)
    ensures
        trimmed(local) != trimmed(remote) ==> local_version_status(Some(local), remote)
            == "UPDATE"@,
        local_version_status(Some(local), remote) == "LAUNCH"@ <==> trimmed(local) == trimmed(
            remote,
        ),
{
    reveal_strlit("LAUNCH");
    reveal_strlit("UPDATE");
    assert("LAUNCH"@[0] != "UPDATE"@[0]);
}

/// Without a readable version file the launcher offers an installation.
pub proof fn law_missing_version_file_installs(remote: Seq<char>)
    ensures
        local_version_status(None, remote) == "INSTALL"@,
{
}

proof fn lemma_without_classpath_clean(args: Seq<Seq<char>>, skip: bool)
    ensures
        forall|i: int|
            0 <= i < without_classpath_from(args, skip).len() ==> {
                &&& !is_classpath_flag(#[trigger] without_classpath_from(args, skip)[i])
                &&& without_classpath_from(args, skip)[i] != "${classpath}"@
            },
        without_classpath_from(args, skip).len() <= args.len(),
    decreases args.len(),
{
    if args.len() > 0 {
        lemma_without_classpath_clean(args.drop_first(), true);
        lemma_without_classpath_clean(args.drop_first(), false);
    }
}

/// The version's JVM arguments keep no class path of their own: no `-cp` or
/// `-classpath` flag and no `${classpath}` placeholder is left, and nothing
/// is added.
pub proof fn law_jvm_args_lose_their_classpath(args: Seq<Seq<char>>)
    ensures
        forall|i: int|
            0 <= i < without_classpath(args).len() ==> {
                &&& !is_classpath_flag(#[trigger] without_classpath(args)[i])
                &&& without_classpath(args)[i] != "${classpath}"@
            },
        without_classpath(args).len() <= args.len(),
{
    lemma_without_classpath_clean(args, false);
}

/// An argument the launcher keeps in any case: neither `-cp`, `-classpath`
/// nor `${classpath}`.
pub open spec fn plain_jvm_arg(a: Seq<char>) -> bool {
    a != "-cp"@ && a != "-classpath"@ && a != "${classpath}"@
}

proof fn lemma_distinct_classpath_words()
    ensures
        "-cp"@ != "${classpath}"@,
        "-classpath"@ != "${classpath}"@,
        "-cp"@ != "-classpath"@,
{
    reveal_strlit("-cp");
    reveal_strlit("-classpath");
    reveal_strlit("${classpath}");
    assert("-cp"@.len() != "${classpath}"@.len());
    assert("-classpath"@.len() != "${classpath}"@.len());
    assert("-cp"@.len() != "-classpath"@.len());
}

proof fn lemma_plain_prefix_kept(pre: Seq<Seq<char>>, rest: Seq<Seq<char>>)
    requires
        forall|i: int| 0 <= i < pre.len() ==> plain_jvm_arg(#[trigger] pre[i]),
    ensures
        without_classpath_from(pre + rest, false) == pre + without_classpath_from(rest, false),
    decreases pre.len(),
{
    if pre.len() > 0 {
        let tail = pre.drop_first();
        assert forall|i: int| 0 <= i < tail.len() implies plain_jvm_arg(#[trigger] tail[i]) by {
            assert(tail[i] == pre[i + 1]);
        }
        lemma_plain_prefix_kept(tail, rest);
        assert((pre + rest)[0] == pre[0]);
        assert((pre + rest).drop_first() =~= tail + rest);
        assert(plain_jvm_arg(pre[0]));
        assert(seq![pre[0]] + (tail + without_classpath_from(rest, false)) =~= pre
            + without_classpath_from(rest, false));
    } else {
        assert(pre + rest =~= rest);
        assert(pre + without_classpath_from(rest, false) =~= without_classpath_from(rest, false));
    }
}

/// Arguments that are none of `-cp`, `-classpath` and `${classpath}` all
/// stay, in their order: the launcher removes nothing else.
pub proof fn law_plain_jvm_args_kept(args: Seq<Seq<char>>)
    requires
        forall|i: int| 0 <= i < args.len() ==> plain_jvm_arg(#[trigger] args[i]),
    ensures
        without_classpath(args) == args,
{
    lemma_plain_prefix_kept(args, Seq::empty());
    assert(args + Seq::<Seq<char>>::empty() =~= args);
}

/// A class path flag goes together with the argument after it, and only
/// they go: what comes before is kept and what follows is treated alike.
pub proof fn law_classpath_flag_and_value_removed(
    pre: Seq<Seq<char>>,
    flag: Seq<char>,
    value: Seq<char>,
    post: Seq<Seq<char>>,
)
    requires
        forall|i: int| 0 <= i < pre.len() ==> plain_jvm_arg(#[trigger] pre[i]),
        flag == "-cp"@ || flag == "-classpath"@,
    ensures
        without_classpath(pre + seq![flag, value] + post) == pre + without_classpath(post),
{
    let rest = seq![flag, value] + post;
    assert(pre + seq![flag, value] + post =~= pre + rest);
    lemma_plain_prefix_kept(pre, rest);
    assert(rest[0] == flag);
    assert(rest.drop_first() =~= seq![value] + post);
    assert((seq![value] + post).drop_first() =~= post);
    assert(is_classpath_flag(rest[0]));
    assert(without_classpath_from(rest, false) == without_classpath_from(seq![value] + post, true));
    assert(without_classpath_from(seq![value] + post, true) == without_classpath_from(post, false));
}

/// A `${classpath}` placeholder is removed alone.
pub proof fn law_classpath_placeholder_removed(pre: Seq<Seq<char>>, post: Seq<Seq<char>>)
    requires
        forall|i: int| 0 <= i < pre.len() ==> plain_jvm_arg(#[trigger] pre[i]),
    ensures
        without_classpath(pre + seq!["${classpath}"@] + post) == pre + without_classpath(post),
{
    lemma_distinct_classpath_words();
    let rest = seq!["${classpath}"@] + post;
    assert(pre + seq!["${classpath}"@] + post =~= pre + rest);
    lemma_plain_prefix_kept(pre, rest);
    assert(rest[0] == "${classpath}"@);
    assert(!is_classpath_flag(rest[0]));
    assert(rest.drop_first() =~= post);
}

/// The game's command line starts with equal minimum and maximum heap sizes,
/// then the version's JVM arguments without their class path, then exactly
/// the launcher's `-cp <classpath>` and Forge's bootstrap main class, and it
/// ends with the version's game arguments.
pub proof fn law_launch_args_layout(
    ram_mb: nat,
    jvm_args: Seq<Seq<char>>,
    classpath: Seq<char>,
    username: Seq<char>,
    version_id: Seq<char>,
    mc_dir: Seq<char>,
    assets_dir: Seq<char>,
    uuid: Seq<char>,
    game_args: Seq<Seq<char>>,
)
    ensures
        ({
            let args = launch_args(
                ram_mb,
                jvm_args,
                classpath,
                username,
                version_id,
                mc_dir,
                assets_dir,
                uuid,
                game_args,
            );
            let k = without_classpath(jvm_args).len() as int;
            &&& args[0] == "-Xmx"@ + crate::text::decimal(ram_mb) + seq!['M']
            &&& args[1] == "-Xms"@ + crate::text::decimal(ram_mb) + seq!['M']
            &&& args.subrange(2, 2 + k) == without_classpath(jvm_args)
            &&& args[2 + k] == "-cp"@
            &&& args[3 + k] == classpath
            &&& args[4 + k] == "cpw.mods.bootstraplauncher.BootstrapLauncher"@
            &&& args.len() == 27 + k + game_args.len()
            &&& args.subrange(27 + k, args.len() as int) == game_args
        }),
{
    let args = launch_args(
        ram_mb,
        jvm_args,
        classpath,
        username,
        version_id,
        mc_dir,
        assets_dir,
        uuid,
        game_args,
    );
    let k = without_classpath(jvm_args).len() as int;
    assert(args.subrange(2, 2 + k) =~= without_classpath(jvm_args));
    assert(args.subrange(27 + k, args.len() as int) =~= game_args);
}

proof fn lemma_replace_absent(s: Seq<char>, pat: Seq<char>, rep: Seq<char>)
    requires
        forall|i: int| !occurs_at(s, pat, i),
    ensures
        replace_all(s, pat, rep) == s,
    decreases s.len(),
{
    if s.len() > 0 {
        if 0 < pat.len() <= s.len() && s.take(pat.len() as int) == pat {
            assert(s.subrange(0, pat.len() as int) =~= s.take(pat.len() as int));
            assert(occurs_at(s, pat, 0));
        }
        let t = s.skip(1);
        assert forall|i: int| !occurs_at(t, pat, i) by {
            if occurs_at(t, pat, i) {
                assert(s.subrange(i + 1, i + 1 + pat.len()) =~= t.subrange(i, i + pat.len()));
                assert(occurs_at(s, pat, i + 1));
            }
        }
        lemma_replace_absent(t, pat, rep);
        assert(seq![s[0]] + t =~= s);
    }
}

/// Replacing a text that does not occur changes nothing.
pub proof fn law_replace_absent_pattern(s: Seq<char>, pat: Seq<char>, rep: Seq<char>)
    requires
        forall|i: int| !occurs_at(s, pat, i),
    ensures
        replace_all(s, pat, rep) == s,
{
    lemma_replace_absent(s, pat, rep);
}

proof fn lemma_no_dollar_no_placeholder(s: Seq<char>, pat: Seq<char>)
    requires
        pat.len() > 0,
        pat[0] == '$',
        forall|k: int| 0 <= k < s.len() ==> s[k] != '$',
    ensures
        forall|i: int| !occurs_at(s, pat, i),
{
    assert forall|i: int| !occurs_at(s, pat, i) by {
        if occurs_at(s, pat, i) {
            assert(s.subrange(i, i + pat.len())[0] == pat[0]);
        }
    }
}

/// A JVM argument without a `$` is passed on unchanged, whatever the
/// directories and version are.
pub proof fn law_plain_argument_unchanged(
    arg: Seq<char>,
    libraries_dir: Seq<char>,
    natives_dir: Seq<char>,
    version_id: Seq<char>,
)
    requires
        forall|k: int| 0 <= k < arg.len() ==> arg[k] != '$',
    ensures
        substitute(arg, libraries_dir, natives_dir, version_id) == arg,
{
    reveal_strlit("${library_directory}");
    reveal_strlit("${natives_directory}");
    reveal_strlit("${classpath_separator}");
    reveal_strlit("${version_name}");
    lemma_no_dollar_no_placeholder(arg, "${library_directory}"@);
    lemma_replace_absent(arg, "${library_directory}"@, libraries_dir);
    lemma_no_dollar_no_placeholder(arg, "${natives_directory}"@);
    lemma_replace_absent(arg, "${natives_directory}"@, natives_dir);
    lemma_no_dollar_no_placeholder(arg, "${classpath_separator}"@);
    lemma_replace_absent(arg, "${classpath_separator}"@, seq![';']);
    lemma_no_dollar_no_placeholder(arg, "${version_name}"@);
    lemma_replace_absent(arg, "${version_name}"@, version_id);
}

/// Among the rules of an entry, a later rule with a verdict overrides all
/// earlier ones; a rule without a verdict leaves the decision as it was.
pub proof fn law_last_rule_decides(rules: Seq<Json>, rule: Json)
    ensures
        rule_verdict(rule) matches Some(v) ==> rules_allow(rules.push(rule)) == v,
        rule_verdict(rule) is None ==> rules_allow(rules.push(rule)) == rules_allow(rules),
{
    assert(rules.push(rule).drop_last() =~= rules);
}

/// A library whose rules disallow it on Windows contributes no path,
/// whatever its `downloads` or `name` hold.
pub proof fn law_disallowed_library_left_out(items: Seq<Json>, item: Json, rules: Seq<Json>)
    requires
        array_in(item.field("rules"@)) == Some(rules),
        !rules_allow(rules),
    ensures
        libraries_of(items.push(item)) == libraries_of(items),
{
    assert(items.push(item).drop_last() =~= items);
}

/// A library allowed here whose path is known contributes exactly that path,
/// after those of the earlier entries.
pub proof fn law_allowed_library_listed(items: Seq<Json>, item: Json, path: Seq<char>)
    requires
        entry_allowed(item),
        library_path(item) == Some(path),
    ensures
        libraries_of(items.push(item)) == libraries_of(items).push(path),
{
    assert(items.push(item).drop_last() =~= items);
}

/// Every listed path is the path of an entry that applies on Windows.
pub proof fn law_library_paths_from_allowed_entries(items: Seq<Json>)
    ensures
        forall|k: int|
            #![trigger libraries_of(items)[k]]
            0 <= k < libraries_of(items).len() ==> exists|j: int|
                0 <= j < items.len() && entry_allowed(#[trigger] items[j]) && library_path(
                    items[j],
                ) == Some(libraries_of(items)[k]),
    decreases items.len(),
{
    if items.len() > 0 {
        let init = items.drop_last();
        law_library_paths_from_allowed_entries(init);
        let out = libraries_of(items);
        assert forall|k: int| #![trigger out[k]] 0 <= k < out.len() implies exists|j: int|
            0 <= j < items.len() && entry_allowed(#[trigger] items[j]) && library_path(items[j])
                == Some(out[k]) by {
            if k < libraries_of(init).len() {
                assert(out[k] == libraries_of(init)[k]);
                let j = choose|j: int|
                    0 <= j < init.len() && entry_allowed(#[trigger] init[j]) && library_path(
                        init[j],
                    ) == Some(libraries_of(init)[k]);
                assert(items[j] == init[j]);
            } else {
                assert(items[items.len() - 1] == items.last());
            }
        }
    }
}

/// The last rule that names an operating system decides: a rule naming
/// Windows allows when its action is `allow`, a rule naming any other system
/// allows only when its action is `disallow`; rules naming no system change
/// nothing, and without such rules the entry is allowed.
pub proof fn law_os_rules(rules: Seq<Json>, rule: Json, action: Seq<char>, os: Json, name: Seq<char>)
    requires
        str_in(rule.field("action"@)) == Some(action),
        rule.field("os"@) == Some(os),
        os is Object,
        str_in(os.field("name"@)) == Some(name),
    ensures
        name == "windows"@ ==> rules_allow(rules.push(rule)) == (action == "allow"@),
        name != "windows"@ ==> rules_allow(rules.push(rule)) == (action == "disallow"@),
        rules_allow(Seq::empty()),
{
    assert(rules.push(rule).drop_last() =~= rules);
}

/// A rule that names no operating system leaves the decision as it was.
pub proof fn law_rule_without_os_ignored(rules: Seq<Json>, rule: Json)
    requires
        rule.field("os"@) is None,
    ensures
        rules_allow(rules.push(rule)) == rules_allow(rules),
{
    assert(rules.push(rule).drop_last() =~= rules);
}

/// An entry without a `rules` array applies on every machine.
pub proof fn law_entry_without_rules_applies(entry: Json)
    requires
        array_in(entry.field("rules"@)) is None,
    ensures
        entry_allowed(entry),
{
}

/// When the status reply's `online` member is a boolean, the status says
/// exactly that; otherwise the server counts as offline.
pub proof fn law_status_online_flag(data: Json)
    ensures
        forall|b: bool| data.field("online"@) == Some(Json::Bool(b)) ==> status_of(data).0 == b,
        !(data.field("online"@) matches Some(Json::Bool(_))) ==> !status_of(data).0,
{
}

/// The player counts are the reply's `players.online` and `players.max`
/// when those are non-negative integers (kept to their low 32 bits), else 0
/// online and 100 at most.
pub proof fn law_status_player_counts(data: Json, players: Json)
    requires
        data.field("players"@) == Some(players),
    ensures
        forall|n: u64|
            players.field("online"@) == Some(Json::Number(JsonNumber::Unsigned(n)))
                ==> status_of(data).1 == n as u32,
        forall|n: u64|
            players.field("max"@) == Some(Json::Number(JsonNumber::Unsigned(n)))
                ==> status_of(data).2 == n as u32,
        !(players.field("online"@) matches Some(Json::Number(JsonNumber::Unsigned(_))))
            ==> status_of(data).1 == 0,
        !(players.field("max"@) matches Some(Json::Number(JsonNumber::Unsigned(_))))
            ==> status_of(data).2 == 100,
{
}

/// Without a `players` object the counts are 0 online and 100 at most.
pub proof fn law_status_without_players(data: Json)
    requires
        !(data.field("players"@) matches Some(Json::Object(_))),
    ensures
        status_of(data).1 == 0,
        status_of(data).2 == 100,
{
}

/// A download address that is not MediaFire's is used as given, whatever
/// page was fetched.
pub proof fn law_plain_url_unchanged(url: Seq<char>, page: Option<Seq<char>>)
    requires
        !is_mediafire(url),
    ensures
        resolved_url(url, page) == url,
{
}

/// A direct link taken from a MediaFire page never holds a double quote: it
/// stops at the quote that closes the `href`.
pub proof fn law_mediafire_link_unquoted(page: Seq<char>)
    ensures
        mediafire_link(page) matches Some(link) ==> forall|k: int|
            0 <= k < link.len() ==> link[k] != '"',
{
    if let Some(i) = first_occurrence(page, "href=\"https://download"@) {
        lemma_first_occurrence_from(page, "href=\"https://download"@, 0);
        let sub = page.skip(i + 6);
        lemma_first_occurrence_from(sub, seq!['"'], 0);
        if let Some(e) = first_occurrence(sub, seq!['"']) {
            assert forall|k: int| 0 <= k < sub.take(e).len() implies sub.take(e)[k] != '"' by {
                if sub[k] == '"' {
                    assert(sub.subrange(k, k + 1) =~= seq!['"']);
                    assert(occurs_at(sub, seq!['"'], k));
                }
            }
        }
    }
}

/// A finished or failed installation stays as it is and asks for nothing
/// more.
pub proof fn law_install_end_is_final(state: InstallState, event: InstallEventView)
    requires
        state is Done || state is Failed,
    ensures
        install_next(state, event) == (state, Seq::<InstallActionView>::empty()),
{
}

/// An error during an unfinished installation stops it and is reported
/// with its own message.
pub proof fn law_install_error_aborts(state: InstallState, error: Seq<char>)
    requires
        !(state is Done || state is Failed),
    ensures
        install_next(state, InstallEventView::Failed { error }) == (
            InstallState::Failed,
            seq![InstallActionView::Abort(error)],
        ),
{
}

/// An installation completes only by putting the player's files back, and
/// its last report is `ГОТОВО` at 100 of 100 followed by success.
pub proof fn law_install_completion(state: InstallState, event: InstallEventView)
    requires
        !(state is Done),
        install_next(state, event).0 is Done,
    ensures
        state is Restoring,
        event is RestoreFinished,
        install_next(state, event).1 == seq![
            report("ГОТОВО"@, 100, 100),
            InstallActionView::Finish,
        ],
{
}

/// While downloading, each written piece adds its size to the count, and
/// the count is what the progress bar shows, on a scale of at least 1.
pub proof fn law_download_progress_counts_bytes(downloaded: u64, total: u64, len: u64)
    requires
        downloaded + len <= u64::MAX,
    ensures
        install_next(
            InstallState::Downloading { downloaded, total },
            InstallEventView::ChunkWritten { len },
        ) == (
            InstallState::Downloading { downloaded: (downloaded + len) as u64, total },
            seq![report(downloading_status(), (downloaded + len) as u64, download_scale(total))],
        ),
        download_scale(total) >= 1,
{
}

/// Unpacking shows the first and the last entry, and every unpacking
/// report stays below its scale.
pub proof fn law_unpacking_reports(files: u64, index: u64)
    ensures
        files > 0 ==> install_next(
            InstallState::Extracting { files },
            InstallEventView::EntryExtracted { index: 0 },
        ).1 == seq![report(unpacking_status(), 0, files)],
        files > 0 ==> install_next(
            InstallState::Extracting { files },
            InstallEventView::EntryExtracted { index: (files - 1) as u64 },
        ).1 == seq![report(unpacking_status(), (files - 1) as u64, files)],
        forall|k: int|
            0 <= k < install_next(
                InstallState::Extracting { files },
                InstallEventView::EntryExtracted { index },
            ).1.len() ==> #[trigger] install_next(
                InstallState::Extracting { files },
                InstallEventView::EntryExtracted { index },
            ).1[k] == report(unpacking_status(), index, files) && index < files,
{
}

/// The state an installation reaches from `state` through `events`.
pub open spec fn install_run(state: InstallState, events: Seq<InstallEventView>) -> InstallState
    decreases events.len(),
{
    if events.len() == 0 {
        state
    } else {
        install_run(install_next(state, events[0]).0, events.drop_first())
    }
}

proof fn lemma_install_run_concat(
    state: InstallState,
    a: Seq<InstallEventView>,
    b: Seq<InstallEventView>,
)
    ensures
        install_run(state, a + b) == install_run(install_run(state, a), b),
    decreases a.len(),
{
    if a.len() == 0 {
        assert(a + b =~= b);
    } else {
        assert((a + b)[0] == a[0]);
        assert((a + b).drop_first() =~= a.drop_first() + b);
        lemma_install_run_concat(install_next(state, a[0]).0, a.drop_first(), b);
    }
}

proof fn lemma_chunks_keep_downloading(downloaded: u64, total: u64, chunks: Seq<InstallEventView>)
    requires
        forall|i: int| 0 <= i < chunks.len() ==> #[trigger] chunks[i] is ChunkWritten,
    ensures
        install_run(InstallState::Downloading { downloaded, total }, chunks) is Downloading,
    decreases chunks.len(),
{
    if chunks.len() > 0 {
        let len = chunks[0]->len;
        assert(forall|i: int|
            0 <= i < chunks.drop_first().len() ==> chunks.drop_first()[i] == chunks[i + 1]);
        lemma_chunks_keep_downloading((downloaded + len) as u64, total, chunks.drop_first());
    }
}

proof fn lemma_entries_keep_extracting(files: u64, entries: Seq<InstallEventView>)
    requires
        forall|i: int| 0 <= i < entries.len() ==> #[trigger] entries[i] is EntryExtracted,
    ensures
        install_run(InstallState::Extracting { files }, entries) == (InstallState::Extracting {
            files,
        }),
    decreases entries.len(),
{
    if entries.len() > 0 {
        assert(forall|i: int|
            0 <= i < entries.drop_first().len() ==> entries.drop_first()[i] == entries[i + 1]);
        lemma_entries_keep_extracting(files, entries.drop_first());
    }
}

/// An installation that hears, in order, that the server answered, any
/// number of written pieces, the end of the download, of the backup and of
/// the clean-up, the archive's opening, any number of unpacked entries, the
/// end of unpacking and the return of the player's files, is complete.
pub proof fn law_install_completes(
    content_length: Option<u64>,
    chunks: Seq<InstallEventView>,
    files: u64,
    entries: Seq<InstallEventView>,
)
    requires
        forall|i: int| 0 <= i < chunks.len() ==> #[trigger] chunks[i] is ChunkWritten,
        forall|i: int| 0 <= i < entries.len() ==> #[trigger] entries[i] is EntryExtracted,
    ensures
        install_run(
            InstallState::Connecting,
            seq![InstallEventView::Connected { content_length }] + chunks + seq![
                InstallEventView::DownloadFinished,
                InstallEventView::BackupFinished,
                InstallEventView::CleanFinished,
                InstallEventView::ArchiveOpened { files },
            ] + entries + seq![
                InstallEventView::ExtractionFinished,
                InstallEventView::RestoreFinished,
            ],
        ) is Done,
{
    let head = seq![InstallEventView::Connected { content_length }];
    let middle = seq![
        InstallEventView::DownloadFinished,
        InstallEventView::BackupFinished,
        InstallEventView::CleanFinished,
        InstallEventView::ArchiveOpened { files },
    ];
    let tail = seq![InstallEventView::ExtractionFinished, InstallEventView::RestoreFinished];
    let s0 = InstallState::Connecting;
    lemma_install_run_concat(s0, head + chunks + middle + entries, tail);
    lemma_install_run_concat(s0, head + chunks + middle, entries);
    lemma_install_run_concat(s0, head + chunks, middle);
    lemma_install_run_concat(s0, head, chunks);
    let total = match content_length {
        Some(n) => n,
        None => 0,
    };
    assert(install_run(s0, head) == (InstallState::Downloading { downloaded: 0, total })) by {
        assert(head.drop_first() =~= Seq::<InstallEventView>::empty());
    }
    lemma_chunks_keep_downloading(0, total, chunks);
    let s1 = install_run(s0, head + chunks);
    assert(install_run(s1, middle) == (InstallState::Extracting { files })) by {
        reveal_with_fuel(install_run, 5);
    }
    lemma_entries_keep_extracting(files, entries);
    assert(install_run(InstallState::Extracting { files }, tail) is Done) by {
        reveal_with_fuel(install_run, 3);
    }
}

/// The actions an installation asks for from `state` through `events`, in
/// order.
pub open spec fn install_trace(state: InstallState, events: Seq<InstallEventView>) -> Seq<
    InstallActionView,
>
    decreases events.len(),
{
    if events.len() == 0 {
        Seq::empty()
    } else {
        install_next(state, events[0]).1 + install_trace(
            install_next(state, events[0]).0,
            events.drop_first(),
        )
    }
}

/// How far an installation has come; a failed one is off the scale.
pub open spec fn install_stage(state: InstallState) -> int {
    match state {
        InstallState::Connecting => 0,
        InstallState::Downloading { .. } => 1,
        InstallState::BackingUp => 2,
        InstallState::Cleaning => 3,
        InstallState::Opening => 4,
        InstallState::Extracting { .. } => 5,
        InstallState::Restoring => 6,
        InstallState::Done => 7,
        InstallState::Failed => -1,
    }
}

/// The work asked for on entering each stage.
pub open spec fn stage_work(stage: int) -> Option<InstallActionView> {
    if stage == 1 {
        Some(InstallActionView::CreateArchive)
    } else if stage == 2 {
        Some(InstallActionView::BackUp)
    } else if stage == 3 {
        Some(InstallActionView::RemoveFolders(crate::install::old_pack_folders()))
    } else if stage == 4 {
        Some(InstallActionView::OpenArchive)
    } else if stage == 6 {
        Some(InstallActionView::Restore)
    } else if stage == 7 {
        Some(InstallActionView::Finish)
    } else {
        None
    }
}

proof fn lemma_install_step_stage(state: InstallState, event: InstallEventView)
    ensures
        ({
            let (next, actions) = install_next(state, event);
            ||| next is Failed
            ||| install_stage(next) == install_stage(state)
            ||| (install_stage(next) == install_stage(state) + 1 && match stage_work(
                install_stage(next),
            ) {
                Some(w) => actions.contains(w),
                None => true,
            })
        }),
{
    let (next, actions) = install_next(state, event);
    if install_stage(next) == install_stage(state) + 1 {
        if let Some(w) = stage_work(install_stage(next)) {
            if next is Restoring {
                assert(actions[2] == w);
            } else if next is Done {
                assert(actions[1] == w);
            } else if next is Downloading {
                assert(actions[0] == w);
            } else {
                assert(actions[1] == w);
            }
        }
    }
}

proof fn lemma_install_reaches_every_stage(
    state: InstallState,
    events: Seq<InstallEventView>,
    stage: int,
)
    requires
        0 <= install_stage(state) < stage <= 7,
        install_run(state, events) is Done,
    ensures
        stage_work(stage) matches Some(w) ==> install_trace(state, events).contains(w),
    decreases events.len(),
{
    if events.len() == 0 {
        assert(install_run(state, events) == state);
    } else {
        let (next, actions) = install_next(state, events[0]);
        let rest = events.drop_first();
        let trace = install_trace(state, events);
        assert(trace == actions + install_trace(next, rest));
        lemma_install_step_stage(state, events[0]);
        assert(install_run(state, events) == install_run(next, rest));
        if next is Failed {
            law_failed_install_stays_failed(rest);
        } else if install_stage(next) >= stage {
            if let Some(w) = stage_work(stage) {
                let i = choose|i: int| 0 <= i < actions.len() && actions[i] == w;
                assert(trace[i] == w);
            }
        } else {
            lemma_install_reaches_every_stage(next, rest, stage);
            if let Some(w) = stage_work(stage) {
                let later = install_trace(next, rest);
                let i = choose|i: int| 0 <= i < later.len() && later[i] == w;
                assert(trace[actions.len() + i] == w);
            }
        }
    }
}

/// An installation that starts and ends complete has, along the way, asked
/// for the archive file, the backup of the player's files, the removal of
/// every old pack folder, the opening of the archive, the restoring of the
/// player's files, and success.
pub proof fn law_completed_install_did_every_step(events: Seq<InstallEventView>)
    requires
        install_run(InstallState::Connecting, events) is Done,
    ensures
        install_trace(InstallState::Connecting, events).contains(InstallActionView::CreateArchive),
        install_trace(InstallState::Connecting, events).contains(InstallActionView::BackUp),
        install_trace(InstallState::Connecting, events).contains(
            InstallActionView::RemoveFolders(crate::install::old_pack_folders()),
        ),
        install_trace(InstallState::Connecting, events).contains(InstallActionView::OpenArchive),
        install_trace(InstallState::Connecting, events).contains(InstallActionView::Restore),
        install_trace(InstallState::Connecting, events).contains(InstallActionView::Finish),
{
    lemma_install_reaches_every_stage(InstallState::Connecting, events, 1);
    lemma_install_reaches_every_stage(InstallState::Connecting, events, 2);
    lemma_install_reaches_every_stage(InstallState::Connecting, events, 3);
    lemma_install_reaches_every_stage(InstallState::Connecting, events, 4);
    lemma_install_reaches_every_stage(InstallState::Connecting, events, 6);
    lemma_install_reaches_every_stage(InstallState::Connecting, events, 7);
}

/// The end of unpacking asks for the archive to be removed and the player's
/// files to be put back.
pub proof fn law_unpacking_end_restores(files: u64)
    ensures
        install_next(
            InstallState::Extracting { files },
            InstallEventView::ExtractionFinished,
        ).1.contains(InstallActionView::Restore),
        install_next(
            InstallState::Extracting { files },
            InstallEventView::ExtractionFinished,
        ).1.contains(InstallActionView::RemoveArchive),
{
    let acts = install_next(InstallState::Extracting { files }, InstallEventView::ExtractionFinished).1;
    assert(acts[2] == InstallActionView::Restore);
    assert(acts[0] == InstallActionView::RemoveArchive);
}

/// A failed installation stays failed whatever is reported afterwards.
pub proof fn law_failed_install_stays_failed(events: Seq<InstallEventView>)
    ensures
        install_run(InstallState::Failed, events) is Failed,
    decreases events.len(),
{
    if events.len() > 0 {
        law_failed_install_stays_failed(events.drop_first());
    }
}

/// When the game ends or cannot start, the power plan that was active
/// before the launch is switched back first.
pub proof fn law_session_restores_power_plan(previous: Seq<char>, event: SessionEvent)
    requires
        !(event is Spawned),
    ensures
        session_actions(Some(previous), event)[0] == SessionActionView::SetPowerScheme(previous),
{
}

/// No `$` occurs in `s`.
pub open spec fn free_of_dollar(s: Seq<char>) -> bool {
    forall|k: int| 0 <= k < s.len() ==> s[k] != '$'
}

proof fn lemma_dollar_free_unchanged(s: Seq<char>, pat: Seq<char>, rep: Seq<char>)
    requires
        pat.len() > 0,
        pat[0] == '$',
        free_of_dollar(s),
    ensures
        replace_all(s, pat, rep) == s,
{
    lemma_no_dollar_no_placeholder(s, pat);
    lemma_replace_absent(s, pat, rep);
}

proof fn lemma_joined_dollar_free(a: Seq<char>, b: Seq<char>, c: Seq<char>)
    requires
        free_of_dollar(a),
        free_of_dollar(b),
        free_of_dollar(c),
    ensures
        free_of_dollar(a + b + c),
{
    assert forall|k: int| 0 <= k < (a + b + c).len() implies (a + b + c)[k] != '$' by {
        if k < a.len() {
            assert((a + b + c)[k] == a[k]);
        } else if k < a.len() + b.len() {
            assert((a + b + c)[k] == b[k - a.len()]);
        } else {
            assert((a + b + c)[k] == c[k - a.len() - b.len()]);
        }
    }
}

/// A text whose only `$` opens `ph` holds no other placeholder that differs
/// from `ph` in its third character.
proof fn lemma_other_placeholder_absent(
    pre: Seq<char>,
    ph: Seq<char>,
    post: Seq<char>,
    other: Seq<char>,
)
    requires
        free_of_dollar(pre),
        free_of_dollar(post),
        ph.len() >= 3,
        ph[0] == '$',
        free_of_dollar(ph.drop_first()),
        other.len() >= 3,
        other[0] == '$',
        other[2] != ph[2],
    ensures
        forall|i: int| !occurs_at(pre + ph + post, other, i),
{
    let s = pre + ph + post;
    assert forall|i: int| !occurs_at(s, other, i) by {
        if occurs_at(s, other, i) {
            assert(s.subrange(i, i + other.len())[0] == s[i]);
            assert(s[i] == '$');
            if i < pre.len() {
                assert(s[i] == pre[i]);
            } else if i < pre.len() + ph.len() {
                if i > pre.len() {
                    assert(s[i] == ph[i - pre.len()]);
                    assert(ph.drop_first()[i - pre.len() - 1] == ph[i - pre.len()]);
                } else {
                    assert(s.subrange(i, i + other.len())[2] == s[i + 2]);
                    assert(s[i + 2] == ph[2]);
                }
            } else {
                assert(s[i] == post[i - pre.len() - ph.len()]);
            }
        }
    }
}

/// Replacing the one placeholder of a text puts the value in its place.
proof fn lemma_single_placeholder_replaced(
    pre: Seq<char>,
    ph: Seq<char>,
    post: Seq<char>,
    rep: Seq<char>,
)
    requires
        free_of_dollar(pre),
        free_of_dollar(post),
        ph.len() > 0,
        ph[0] == '$',
    ensures
        replace_all(pre + ph + post, ph, rep) == pre + rep + post,
{
    let s = pre + ph + post;
    let n = pre.len() as int;
    assert(s.subrange(n, n + ph.len()) =~= ph);
    assert(occurs_at(s, ph, n));
    lemma_first_occurrence_from(s, ph, 0);
    crate::laws_text::law_replace_first_occurrence(s, ph, rep);
    match first_occurrence(s, ph) {
        Some(i) => {
            if i < n {
                assert(s.subrange(i, i + ph.len())[0] == s[i]);
                assert(s[i] == pre[i]);
            }
            assert(i == n);
            assert(s.take(n) =~= pre);
            assert(s.skip(n + ph.len()) =~= post);
            lemma_dollar_free_unchanged(post, ph, rep);
        },
        None => {},
    }
}

/// A JVM argument holding one placeholder, with no other `$` in it nor in
/// the values, gets that placeholder's value in its place and is otherwise
/// unchanged: the libraries directory for `${library_directory}`, the
/// natives directory for `${natives_directory}`, `;` for
/// `${classpath_separator}` and the version id for `${version_name}`.
pub proof fn law_placeholder_filled(
    pre: Seq<char>,
    post: Seq<char>,
    libraries_dir: Seq<char>,
    natives_dir: Seq<char>,
    version_id: Seq<char>,
)
    requires
        free_of_dollar(pre),
        free_of_dollar(post),
        free_of_dollar(libraries_dir),
        free_of_dollar(natives_dir),
        free_of_dollar(version_id),
    ensures
        substitute(pre + "${library_directory}"@ + post, libraries_dir, natives_dir, version_id)
            == pre + libraries_dir + post,
        substitute(pre + "${natives_directory}"@ + post, libraries_dir, natives_dir, version_id)
            == pre + natives_dir + post,
        substitute(pre + "${classpath_separator}"@ + post, libraries_dir, natives_dir, version_id)
            == pre + seq![';'] + post,
        substitute(pre + "${version_name}"@ + post, libraries_dir, natives_dir, version_id)
            == pre + version_id + post,
{
    reveal_strlit("${library_directory}");
    reveal_strlit("${natives_directory}");
    reveal_strlit("${classpath_separator}");
    reveal_strlit("${version_name}");
    let lib_ph = "${library_directory}"@;
    let natives_ph = "${natives_directory}"@;
    let sep = "${classpath_separator}"@;
    let ver = "${version_name}"@;
    let semi = seq![';'];
    assert(free_of_dollar(semi));
    assert(free_of_dollar(lib_ph.drop_first()));
    assert(free_of_dollar(natives_ph.drop_first()));
    assert(free_of_dollar(sep.drop_first()));
    assert(free_of_dollar(ver.drop_first()));
    // `${library_directory}`
    lemma_single_placeholder_replaced(pre, lib_ph, post, libraries_dir);
    lemma_joined_dollar_free(pre, libraries_dir, post);
    lemma_dollar_free_unchanged(pre + libraries_dir + post, natives_ph, natives_dir);
    lemma_dollar_free_unchanged(pre + libraries_dir + post, sep, semi);
    lemma_dollar_free_unchanged(pre + libraries_dir + post, ver, version_id);
    // `${natives_directory}`
    lemma_other_placeholder_absent(pre, natives_ph, post, lib_ph);
    lemma_replace_absent(pre + natives_ph + post, lib_ph, libraries_dir);
    lemma_single_placeholder_replaced(pre, natives_ph, post, natives_dir);
    lemma_joined_dollar_free(pre, natives_dir, post);
    lemma_dollar_free_unchanged(pre + natives_dir + post, sep, semi);
    lemma_dollar_free_unchanged(pre + natives_dir + post, ver, version_id);
    // `${classpath_separator}`
    lemma_other_placeholder_absent(pre, sep, post, lib_ph);
    lemma_replace_absent(pre + sep + post, lib_ph, libraries_dir);
    lemma_other_placeholder_absent(pre, sep, post, natives_ph);
    lemma_replace_absent(pre + sep + post, natives_ph, natives_dir);
    lemma_single_placeholder_replaced(pre, sep, post, semi);
    lemma_joined_dollar_free(pre, semi, post);
    lemma_dollar_free_unchanged(pre + semi + post, ver, version_id);
    // `${version_name}`
    lemma_other_placeholder_absent(pre, ver, post, lib_ph);
    lemma_replace_absent(pre + ver + post, lib_ph, libraries_dir);
    lemma_other_placeholder_absent(pre, ver, post, natives_ph);
    lemma_replace_absent(pre + ver + post, natives_ph, natives_dir);
    lemma_other_placeholder_absent(pre, ver, post, sep);
    lemma_replace_absent(pre + ver + post, sep, semi);
    lemma_single_placeholder_replaced(pre, ver, post, version_id);
}

} // verus!
