//! The Windows tuning the launcher applies around a game session: the
//! power plan it switches to and back, and the steps taken on the game process.

use vstd::prelude::*;
use vstd::utf8::{decode_utf8, encode_utf8, is_char_boundary};
use vstd::string::StringExecFns;
use crate::text::{find, first_occurrence, from_chars, to_chars, trim_chars, trimmed};

verus! {

/// A program to run, with its arguments.
pub struct ProcessCommand {
    pub program: String,
    pub args: Vec<String>,
}

/// The GUID of the power plan the launcher switches to while the game runs
/// (Windows' "High performance" plan).
pub fn high_performance_scheme() -> (r: String)
    ensures
        r@ == "8c5e7fda-e8bf-4a96-9a85-a6e23a8c635c"@,
{
    "8c5e7fda-e8bf-4a96-9a85-a6e23a8c635c".to_owned()
}

/// The command that prints the active power plan: `powercfg -getactivescheme`.
pub fn active_power_scheme_query() -> (r: ProcessCommand)
    ensures
        r.program@ == "powercfg"@,
        r.args@.len() == 1,
        r.args@[0]@ == "-getactivescheme"@,
{
    let mut args: Vec<String> = Vec::new();
    args.push("-getactivescheme".to_owned());
    ProcessCommand { program: "powercfg".to_owned(), args }
}

/// The command that activates the power plan `guid`: `powercfg -setactive <guid>`.
pub fn set_power_scheme(guid: &str) -> (r: ProcessCommand)
    ensures
        r.program@ == "powercfg"@,
        r.args@.len() == 2,
        r.args@[0]@ == "-setactive"@,
        r.args@[1]@ == guid@,
{
    let mut args: Vec<String> = Vec::new();
    args.push("-setactive".to_owned());
    args.push(guid.to_owned());
    ProcessCommand { program: "powercfg".to_owned(), args }
}

/// The text after the first `GUID:` of `powercfg -getactivescheme`'s output,
/// without surrounding white space; `None` when there is no `GUID:`.
pub open spec fn text_after_guid_label(output: Seq<char>) -> Option<Seq<char>> {
    match first_occurrence(output, "GUID:"@) {
        Some(i) => Some(trimmed(output.skip(i + 5))),
        None => None,
    }
}

/// Whether reading the active plan's GUID out of `output` is well defined:
/// when at least 36 bytes follow the label, the 36th ends a character.
pub open spec fn guid_cut_is_valid(output: Seq<char>) -> bool {
    match text_after_guid_label(output) {
        Some(rest) => encode_utf8(rest).len() >= 36 ==> is_char_boundary(encode_utf8(rest), 36),
        None => true,
    }
}

/// The GUID of the active power plan as `powercfg -getactivescheme` prints it:
/// the first 36 bytes of the text after `GUID:`, when there are that many.
pub open spec fn active_scheme_guid(output: Seq<char>) -> Option<Seq<char>> {
    match text_after_guid_label(output) {
        Some(rest) => if encode_utf8(rest).len() >= 36 {
            Some(decode_utf8(encode_utf8(rest).take(36)))
        } else {
            None
        },
        None => None,
    }
}

/// Reads the active power plan's GUID out of the output of
/// `powercfg -getactivescheme`.
pub fn get_active_power_scheme(output: &str) -> (r: Option<String>)
    requires
        guid_cut_is_valid(output@),
    ensures
        match r {
            Some(g) => active_scheme_guid(output@) == Some(g@),
            None => active_scheme_guid(output@) is None,
        },
        r matches Some(g) ==> encode_utf8(g@).len() == 36,
{
    proof {
        reveal_strlit("GUID:");
    }
    let chars = to_chars(output);
    let label = to_chars("GUID:");
    let pos = match find(&chars, &label) {
        Some(p) => p,
        None => return None,
    };
    proof {
        crate::text::lemma_first_occurrence_from(output@, label@, 0);
        assert(label@.len() == 5);
        assert(first_occurrence(chars@, label@) == Some(pos as int));
        assert(crate::text::occurs_at(chars@, label@, pos as int));
        assert(pos + 5 <= chars.len());
    }
    let mut after: Vec<char> = Vec::new();
    let mut i: usize = pos + 5;
    while i < chars.len()
        invariant
            pos + 5 <= i <= chars.len(),
            after@ == chars@.subrange(pos + 5, i as int),
        decreases chars.len() - i,
    {
        after.push(chars[i]);
        i = i + 1;
        assert(after@ =~= chars@.subrange(pos + 5, i as int));
    }
    assert(after@ =~= output@.skip(pos + 5));
    let rest_chars = trim_chars(&after);
    let rest = from_chars(&rest_chars);
    let rest_str = rest.as_str();
    assert(text_after_guid_label(output@) == Some(rest_str@));
    if at_least_36_bytes(&rest_chars) {
        let (guid, _) = rest_str.split_at(36);
        proof {
            assert(encode_utf8(guid@) =~= encode_utf8(rest@).take(36));
            vstd::utf8::encode_utf8_decode_utf8(guid@);
            assert(active_scheme_guid(output@) == Some(guid@));
        }
        let g = guid.to_owned();
        assert(g@ == guid@);
        assert(encode_utf8(g@).len() == 36);
        Some(g)
    } else {
        None
    }
}

proof fn lemma_encode_utf8_concat(a: Seq<char>, b: Seq<char>)
    ensures
        encode_utf8(a + b) == encode_utf8(a) + encode_utf8(b),
    decreases a.len(),
{
    if a.len() == 0 {
        assert(a + b =~= b);
        assert(encode_utf8(a) =~= Seq::<u8>::empty());
        assert(encode_utf8(a) + encode_utf8(b) =~= encode_utf8(b));
    } else {
        lemma_encode_utf8_concat(a.drop_first(), b);
        assert((a + b).drop_first() =~= a.drop_first() + b);
        assert((a + b)[0] == a[0]);
        assert(encode_utf8(a + b) =~= encode_utf8(a) + encode_utf8(b));
    }
}

/// The number of bytes `c` takes in UTF-8.
fn utf8_width(c: char) -> (w: usize)
    ensures
        w == encode_utf8(seq![c]).len(),
        1 <= w <= 4,
{
    proof {
        vstd::utf8::char_is_scalar(c);
        assert(seq![c].drop_first() =~= Seq::<char>::empty());
        assert(encode_utf8(Seq::<char>::empty()) =~= Seq::<u8>::empty());
        assert(encode_utf8(seq![c]) =~= vstd::utf8::encode_scalar(c as u32));
    }
    let u = c as u32;
    if u < 0x80 {
        1
    } else if u < 0x800 {
        2
    } else if u < 0x10000 {
        3
    } else {
        4
    }
}

/// Whether the UTF-8 encoding of `s` has at least 36 bytes.
fn at_least_36_bytes(s: &Vec<char>) -> (r: bool)
    ensures
        r == (encode_utf8(s@).len() >= 36),
{
    let mut total: usize = 0;
    let mut i: usize = 0;
    assert(s@.take(0) =~= Seq::<char>::empty());
    while i < s.len()
        invariant
            i <= s.len(),
            total == encode_utf8(s@.take(i as int)).len(),
            total < 36,
        decreases s.len() - i,
    {
        let w = utf8_width(s[i]);
        proof {
            lemma_encode_utf8_concat(s@.take(i as int), seq![s@[i as int]]);
            assert(s@.take(i + 1) =~= s@.take(i as int) + seq![s@[i as int]]);
        }
        total = total + w;
        i = i + 1;
        if total >= 36 {
            proof {
                lemma_encode_utf8_concat(s@.take(i as int), s@.skip(i as int));
                assert(s@.take(i as int) + s@.skip(i as int) =~= s@);
            }
            return true;
        }
    }
    assert(s@.take(s.len() as int) =~= s@);
    false
}

/// What the launcher does around the game process.
pub enum SessionAction {
    /// Switch to the power plan with this GUID.
    SetPowerScheme(String),
    /// Give the game process high scheduling priority.
    RaisePriority { pid: u32 },
    /// Release the launcher's own working set.
    TrimWorkingSet,
    /// Tell the interface whether the game is running.
    GameActive(bool),
    /// Clear the progress bar.
    ClearProgress,
    /// Report that the game could not be started.
    Fail(String),
}

/// Give the game process `pid` high priority.
pub fn set_process_high_priority(pid: u32) -> (r: SessionAction)
    ensures
        r == (SessionAction::RaisePriority { pid }),
{
    SessionAction::RaisePriority { pid }
}

/// Release the launcher's working set while the game runs.
pub fn empty_working_set() -> (r: SessionAction)
    ensures
        r == SessionAction::TrimWorkingSet,
{
    SessionAction::TrimWorkingSet
}


/// The abstract form of a [`SessionAction`].
pub enum SessionActionView {
    SetPowerScheme(Seq<char>),
    RaisePriority(u32),
    TrimWorkingSet,
    GameActive(bool),
    ClearProgress,
    Fail(Seq<char>),
}

impl View for SessionAction {
    type V = SessionActionView;

    open spec fn view(&self) -> SessionActionView {
        match self {
            SessionAction::SetPowerScheme(g) => SessionActionView::SetPowerScheme(g@),
            SessionAction::RaisePriority { pid } => SessionActionView::RaisePriority(*pid),
            SessionAction::TrimWorkingSet => SessionActionView::TrimWorkingSet,
            SessionAction::GameActive(b) => SessionActionView::GameActive(*b),
            SessionAction::ClearProgress => SessionActionView::ClearProgress,
            SessionAction::Fail(m) => SessionActionView::Fail(m@),
        }
    }
}

/// What happened to the game process.
pub enum SessionEvent {
    /// The game process started with this id.
    Spawned { pid: u32 },
    /// The game process could not be started, for this reason.
    SpawnFailed { error: String },
    /// The game process ended.
    Exited,
}

/// The views of a sequence of session actions.
pub open spec fn actions_view(v: Seq<SessionAction>) -> Seq<SessionActionView> {
    v.map_values(|a: SessionAction| a@)
}

/// Switching back to the power plan that was active before the game, when
/// it is known.
pub open spec fn restore_scheme(previous_scheme: Option<Seq<char>>) -> Seq<SessionActionView> {
    match previous_scheme {
        Some(g) => seq![SessionActionView::SetPowerScheme(g)],
        None => Seq::empty(),
    }
}

/// The launcher's answer to an event of the game process: a started game
/// gets high priority, the launcher releases memory and shows the game as
/// running; when the game ends or fails to start, the previous power plan
/// comes back; an ended game clears the interface, a failed start is
/// reported with its reason.
pub open spec fn session_actions(
    previous_scheme: Option<Seq<char>>,
    event: SessionEvent,
) -> Seq<SessionActionView> {
    match event {
        SessionEvent::Spawned { pid } => seq![
            SessionActionView::RaisePriority(pid),
            SessionActionView::TrimWorkingSet,
            SessionActionView::GameActive(true),
        ],
        SessionEvent::SpawnFailed { error } => restore_scheme(previous_scheme) + seq![
            SessionActionView::Fail("Не удалось запустить Java процесс игры: "@ + error@),
        ],
        SessionEvent::Exited => restore_scheme(previous_scheme) + seq![
            SessionActionView::GameActive(false),
            SessionActionView::ClearProgress,
        ],
    }
}

/// What the launcher does when the game process starts, fails to start or
/// ends; `previous_scheme` is the power plan active before the launch.
pub fn game_session_step(previous_scheme: &Option<String>, event: SessionEvent) -> (r: Vec<
    SessionAction,
>)
    ensures
        actions_view(r@) == session_actions(crate::version::opt_view(*previous_scheme), event),
{
    let mut out: Vec<SessionAction> = Vec::new();
    match event {
        SessionEvent::Spawned { pid } => {
            out.push(set_process_high_priority(pid));
            out.push(empty_working_set());
            out.push(SessionAction::GameActive(true));
        },
        SessionEvent::SpawnFailed { error } => {
            match previous_scheme {
                Some(g) => out.push(SessionAction::SetPowerScheme(g.clone())),
                None => {},
            }
            let mut message = "Не удалось запустить Java процесс игры: ".to_owned();
            message.append(error.as_str());
            out.push(SessionAction::Fail(message));
        },
        SessionEvent::Exited => {
            match previous_scheme {
                Some(g) => out.push(SessionAction::SetPowerScheme(g.clone())),
                None => {},
            }
            out.push(SessionAction::GameActive(false));
            out.push(SessionAction::ClearProgress);
        },
    }
    assert(actions_view(out@) =~= session_actions(
        crate::version::opt_view(*previous_scheme),
        event,
    ));
    out
}

} // verus!
