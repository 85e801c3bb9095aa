//! Properties of what the launcher makes of its services' replies, of its
//! answers to the game process, and of the folder chooser.

use vstd::prelude::*;
use crate::config::{chosen_directory, dialog_script};
use crate::json::Json;
use crate::remote::{is_mediafire, login_error, login_result, mediafire_link, resolved_url};
use crate::system::{
    SessionActionView, SessionEvent, active_scheme_guid, guid_cut_is_valid, session_actions,
    text_after_guid_label,
};
use vstd::utf8::{decode_utf8, encode_utf8};
use crate::text::{first_occurrence, lemma_first_occurrence_from, occurs_at, replace_all, trimmed};

verus! {

/// A login reply holding a `token` string succeeds with exactly that token,
/// and with the reply's `user.username` string as the player's name, or
/// `Player` when the reply names nobody.
pub proof fn law_login_keeps_token(data: Json, token: String)
    requires
        data.field("token"@) == Some(Json::Str(token)),
    ensures
        login_result(data) is Ok,
        login_result(data)->Ok_0.0 == token@,
        forall|user: Json, name: String|
            data.field("user"@) == Some(user) && user.field("username"@) == Some(Json::Str(name))
                ==> login_result(data)->Ok_0.1 == name@,
        data.field("user"@) is None ==> login_result(data)->Ok_0.1 == "Player"@,
{
}

/// A login reply whose `token` is missing or not a string is refused with
/// `No token in response`.
pub proof fn law_login_without_token_refused(data: Json)
    requires
        !(data.field("token"@) matches Some(Json::Str(_))),
    ensures
        login_result(data) == Err::<(Seq<char>, Seq<char>), Seq<char>>("No token in response"@),
{
}

/// A refused login shows the reply's `error` string as it is, and
/// `Login failed` when there is no reply or it carries no such string.
pub proof fn law_login_error_shown(data: Json)
    ensures
        forall|e: String|
            data.field("error"@) == Some(Json::Str(e)) ==> login_error(Some(data)) == e@,
        !(data.field("error"@) matches Some(Json::Str(_))) ==> login_error(Some(data))
            == "Login failed"@,
        login_error(None) == "Login failed"@,
{
}

/// A link found on a MediaFire page is the quoted value of an `href` in the
/// page: `href="`, the link, then a double quote; and it is a MediaFire
/// download address. A page without `href="https://download` has no link.
pub proof fn law_mediafire_link_found(page: Seq<char>)
    ensures
        mediafire_link(page) matches Some(link) ==> {
            &&& exists|i: int| occurs_at(page, "href=\""@ + link + seq!['"'], i)
            &&& link.len() >= 16
            &&& link.take(16) == "https://download"@
        },
        first_occurrence(page, "href=\"https://download"@) is None ==> mediafire_link(page) is None,
{
    reveal_strlit("href=\"https://download");
    reveal_strlit("href=\"");
    reveal_strlit("https://download");
    let marker = "href=\"https://download"@;
    if let Some(i) = first_occurrence(page, marker) {
        lemma_first_occurrence_from(page, marker, 0);
        let sub = page.skip(i + 6);
        lemma_first_occurrence_from(sub, seq!['"'], 0);
        if let Some(e) = first_occurrence(sub, seq!['"']) {
            let link = sub.take(e);
            assert(page.subrange(i, i + 22) == marker);
            assert forall|k: int| 0 <= k < 16 implies sub[k] == marker[6 + k] by {
                assert(sub[k] == page[i + 6 + k]);
                assert(page.subrange(i, i + 22)[6 + k] == page[i + 6 + k]);
            }
            assert(sub.subrange(e, e + 1) == seq!['"']);
            assert(sub.subrange(e, e + 1)[0] == sub[e]);
            assert(sub[e] == '"');
            if e < 16 {
                assert(sub[e] == marker[6 + e]);
                assert(false);
            }
            assert(link.take(16) =~= "https://download"@);
            let whole = "href=\""@ + link + seq!['"'];
            assert(page.subrange(i, i + whole.len()) =~= whole) by {
                assert forall|k: int| 0 <= k < whole.len() implies page.subrange(
                    i,
                    i + whole.len(),
                )[k] == whole[k] by {
                    if k < 6 {
                        assert(page.subrange(i, i + 22)[k] == page[i + k]);
                        assert(marker[k] == "href=\""@[k]);
                    } else if k < 6 + e {
                        assert(sub[k - 6] == page[i + k]);
                    } else {
                        assert(sub[e] == page[i + 6 + e]);
                    }
                }
            }
            assert(occurs_at(page, whole, i));
        }
    }
}

/// A MediaFire address is downloaded from the direct link on its page when
/// the page has one; when the page could not be fetched or has no link,
/// the address is kept.
pub proof fn law_mediafire_resolution(url: Seq<char>, page: Option<Seq<char>>)
    requires
        is_mediafire(url),
    ensures
        page is None ==> resolved_url(url, page) == url,
        forall|p: Seq<char>, link: Seq<char>|
            page == Some(p) && mediafire_link(p) == Some(link) ==> resolved_url(url, page) == link,
        forall|p: Seq<char>|
            page == Some(p) && mediafire_link(p) is None ==> resolved_url(url, page) == url,
{
}

/// An address is MediaFire's exactly when `mediafire.com` occurs in it.
pub proof fn law_mediafire_address(url: Seq<char>)
    ensures
        is_mediafire(url) <==> exists|i: int| occurs_at(url, "mediafire.com"@, i),
{
    lemma_first_occurrence_from(url, "mediafire.com"@, 0);
    if let Some(i) = first_occurrence(url, "mediafire.com"@) {
        assert(occurs_at(url, "mediafire.com"@, i));
    }
}

/// A started game is raised to high priority, the launcher gives back
/// memory, and the game is shown as running: the power plan is left as the
/// launch set it and nothing is reported as failed.
pub proof fn law_started_game(previous: Option<Seq<char>>, pid: u32)
    ensures
        session_actions(previous, SessionEvent::Spawned { pid }) == seq![
            SessionActionView::RaisePriority(pid),
            SessionActionView::TrimWorkingSet,
            SessionActionView::GameActive(true),
        ],
        forall|i: int|
            0 <= i < session_actions(previous, SessionEvent::Spawned { pid }).len() ==> !(
            #[trigger] session_actions(previous, SessionEvent::Spawned { pid })[i] is SetPowerScheme),
{
}

/// When the game ends, the power plan active before the launch comes back
/// (when it is known), then the game is shown as stopped and the progress
/// is cleared; nothing else happens.
pub proof fn law_ended_game(previous: Option<Seq<char>>)
    ensures
        forall|g: Seq<char>|
            previous == Some(g) ==> session_actions(previous, SessionEvent::Exited) == seq![
                SessionActionView::SetPowerScheme(g),
                SessionActionView::GameActive(false),
                SessionActionView::ClearProgress,
            ],
        previous is None ==> session_actions(previous, SessionEvent::Exited) == seq![
            SessionActionView::GameActive(false),
            SessionActionView::ClearProgress,
        ],
{
    if let Some(g) = previous {
        assert(seq![SessionActionView::SetPowerScheme(g)] + seq![
            SessionActionView::GameActive(false),
            SessionActionView::ClearProgress,
        ] =~= seq![
            SessionActionView::SetPowerScheme(g),
            SessionActionView::GameActive(false),
            SessionActionView::ClearProgress,
        ]);
    } else {
        assert(Seq::<SessionActionView>::empty() + seq![
            SessionActionView::GameActive(false),
            SessionActionView::ClearProgress,
        ] =~= seq![SessionActionView::GameActive(false), SessionActionView::ClearProgress]);
    }
}

/// A game that cannot start brings the previous power plan back (when it is
/// known) and is reported with a message ending in the reason; it is never
/// shown as running.
pub proof fn law_failed_start(previous: Option<Seq<char>>, error: String)
    ensures
        ({
            let acts = session_actions(previous, SessionEvent::SpawnFailed { error });
            &&& acts.last() matches SessionActionView::Fail(m) && m.len() >= error@.len() && m.skip(
                m.len() - error@.len(),
            ) == error@ && m.take(m.len() - error@.len())
                == "Не удалось запустить Java процесс игры: "@
            &&& previous matches Some(g) ==> acts == seq![
                SessionActionView::SetPowerScheme(g),
                acts.last(),
            ]
            &&& previous is None ==> acts.len() == 1
        }),
{
    let acts = session_actions(previous, SessionEvent::SpawnFailed { error });
    let m = "Не удалось запустить Java процесс игры: "@ + error@;
    assert(m.skip(m.len() - error@.len()) =~= error@);
    assert(m.take(m.len() - error@.len()) =~= "Не удалось запустить Java процесс игры: "@);
    if let Some(g) = previous {
        assert(acts =~= seq![SessionActionView::SetPowerScheme(g), SessionActionView::Fail(m)]);
    }
}

/// After the folder chooser, the game directory is what it printed without
/// surrounding white space; when it printed nothing but white space (the
/// dialog was cancelled) the directory stays as it was.
pub proof fn law_chosen_directory(current_dir: Seq<char>, dialog_output: Seq<char>)
    ensures
        trimmed(dialog_output).len() == 0 ==> chosen_directory(current_dir, dialog_output)
            == current_dir,
        trimmed(dialog_output).len() > 0 ==> chosen_directory(current_dir, dialog_output)
            == trimmed(dialog_output),
{
}

/// The active power plan's GUID is the beginning of the text after the first
/// `GUID:` of `powercfg`'s output (white space around that text ignored), 36
/// bytes long; without `GUID:` there is none.
pub proof fn law_active_scheme_guid(output: Seq<char>)
    requires
        guid_cut_is_valid(output),
    ensures
        first_occurrence(output, "GUID:"@) is None ==> active_scheme_guid(output) is None,
        active_scheme_guid(output) matches Some(g) ==> {
            &&& first_occurrence(output, "GUID:"@) matches Some(i) && occurs_at(output, "GUID:"@, i)
                && g == trimmed(output.skip(i + "GUID:"@.len())).take(g.len() as int)
            &&& encode_utf8(g).len() == 36
        },
{
    broadcast use vstd::utf8::encode_utf8_valid_utf8, vstd::utf8::encode_utf8_decode_utf8;
    reveal_strlit("GUID:");
    lemma_first_occurrence_from(output, "GUID:"@, 0);
    if let Some(rest) = text_after_guid_label(output) {
        let bytes = encode_utf8(rest);
        if bytes.len() >= 36 {
            let g = decode_utf8(bytes.take(36));
            assert(bytes.take(36) =~= bytes.subrange(0, 36));
            vstd::utf8::valid_utf8_split(bytes, 36);
            vstd::utf8::decode_utf8_split(bytes, 36);
            vstd::utf8::decode_utf8_encode_utf8(bytes.subrange(0, 36));
            assert(rest == g + decode_utf8(bytes.subrange(36, bytes.len() as int)));
            assert(rest.take(g.len() as int) =~= g);
        }
    }
}

/// `s` holds no single quote.
pub open spec fn free_of_quote(s: Seq<char>) -> bool {
    forall|k: int| 0 <= k < s.len() ==> s[k] != '\''
}

proof fn lemma_quote_free_kept(s: Seq<char>)
    requires
        free_of_quote(s),
    ensures
        replace_all(s, "'"@, "''"@) == s,
{
    reveal_strlit("'");
    lemma_first_occurrence_from(s, "'"@, 0);
    if let Some(k) = first_occurrence(s, "'"@) {
        assert(s.subrange(k, k + 1)[0] == s[k]);
    }
    crate::laws_text::law_replace_first_occurrence(s, "'"@, "''"@);
}

/// The folder chooser opens at the current directory, written inside a
/// single-quoted PowerShell string: a directory without quotes stands there
/// as it is, and a single quote in it is doubled.
pub proof fn law_dialog_quotes_directory(a: Seq<char>, b: Seq<char>)
    requires
        free_of_quote(a),
        free_of_quote(b),
    ensures
        ({
            let head = "Add-Type -AssemblyName System.Windows.Forms; $f = New-Object System.Windows.Forms.FolderBrowserDialog; $f.SelectedPath = '"@;
            let tail = "'; $f.Description = 'Выберите папку для установки игры Battleverse'; if ($f.ShowDialog() -eq [System.Windows.Forms.DialogResult]::OK) { $f.SelectedPath }"@;
            &&& dialog_script(a) == head + a + tail
            &&& dialog_script(a + "'"@ + b) == head + a + "''"@ + b + tail
        }),
{
    reveal_strlit("'");
    reveal_strlit("''");
    lemma_quote_free_kept(a);
    lemma_quote_free_kept(b);
    let s = a + "'"@ + b;
    let n = a.len() as int;
    assert(s.subrange(n, n + 1) =~= "'"@);
    assert(occurs_at(s, "'"@, n));
    lemma_first_occurrence_from(s, "'"@, 0);
    crate::laws_text::law_replace_first_occurrence(s, "'"@, "''"@);
    if let Some(k) = first_occurrence(s, "'"@) {
        if k < n {
            assert(s.subrange(k, k + 1)[0] == s[k]);
            assert(s[k] == a[k]);
        }
        assert(k == n);
        assert(s.take(n) =~= a);
        assert(s.skip(n + 1) =~= b);
    }
    let head = "Add-Type -AssemblyName System.Windows.Forms; $f = New-Object System.Windows.Forms.FolderBrowserDialog; $f.SelectedPath = '"@;
    let tail = "'; $f.Description = 'Выберите папку для установки игры Battleverse'; if ($f.ShowDialog() -eq [System.Windows.Forms.DialogResult]::OK) { $f.SelectedPath }"@;
    assert(head + (a + "''"@ + b) + tail =~= head + a + "''"@ + b + tail);
}

/// White space among ASCII characters is exactly tab, line feed, vertical
/// tab, form feed, carriage return and space.
pub proof fn law_ascii_white_space(c: char)
    requires
        (c as u32) < 128,
    ensures
        crate::text::is_white_space(c) <==> (c == '\t' || c == '\n' || c == '\x0B' || c == '\x0C'
            || c == '\r' || c == ' '),
{
}

} // verus!
