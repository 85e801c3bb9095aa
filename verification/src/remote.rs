//! Talking to the launcher's web services: the addresses it calls, and what
//! it makes of the replies.

use vstd::prelude::*;
use vstd::string::StringExecFns;
use crate::json::{Json, bool_in, get_in, str_in, u64_in};
use crate::text::{find, first_occurrence, from_chars, to_chars};

verus! {

/// The status service's address for the server `ip`.
pub fn server_status_url(ip: &str) -> (r: String)
    ensures
        r@ == "https://api.mcsrvstat.us/3/"@ + ip@,
{
    let mut r = "https://api.mcsrvstat.us/3/".to_owned();
    r.append(ip);
    r
}

/// The login endpoint of the launcher API at `api_url`.
pub fn login_url(api_url: &str) -> (r: String)
    ensures
        r@ == api_url@ + "/login"@,
{
    let mut r = api_url.to_owned();
    r.append("/login");
    r
}

/// The messages endpoint of the launcher API at `api_url`.
pub fn messages_url(api_url: &str) -> (r: String)
    ensures
        r@ == api_url@ + "/messages"@,
{
    let mut r = api_url.to_owned();
    r.append("/messages");
    r
}

/// The endpoint announcing that the player is about to join.
pub fn prepare_join_url(api_url: &str) -> (r: String)
    ensures
        r@ == api_url@ + "/prepare-join"@,
{
    let mut r = api_url.to_owned();
    r.append("/prepare-join");
    r
}

/// The `Authorization` header value for `token`.
pub fn bearer(token: &str) -> (r: String)
    ensures
        r@ == "Bearer "@ + token@,
{
    let mut r = "Bearer ".to_owned();
    r.append(token);
    r
}

/// Whether a Minecraft server is up, and how many players it has and holds.
pub struct ServerStatus {
    pub online: bool,
    pub players_online: u32,
    pub players_max: u32,
}

/// What the status service's reply says: `online` when it is a boolean
/// (else offline); `players.online` and `players.max` when they are
/// non-negative integers (else 0 and 100), cut to 32 bits.
pub open spec fn status_of(data: Json) -> (bool, u32, u32) {
    let online = match bool_in(data.field("online"@)) {
        Some(b) => b,
        None => false,
    };
    let players = data.field("players"@);
    let now = match u64_in(get_in(players, "online"@)) {
        Some(n) => n,
        None => 0,
    };
    let max = match u64_in(get_in(players, "max"@)) {
        Some(n) => n,
        None => 100,
    };
    (online, now as u32, max as u32)
}

/// The server status read from the status service's reply.
pub fn check_server_status(data: &Json) -> (r: ServerStatus)
    ensures
        (r.online, r.players_online, r.players_max) == status_of(*data),
{
    let online = match data.get("online") {
        Some(v) => match v.as_bool() {
            Some(b) => b,
            None => false,
        },
        None => false,
    };
    let players = data.get("players");
    let now: u64 = match players {
        Some(p) => match p.get("online") {
            Some(o) => match o.as_u64() {
                Some(n) => n,
                None => 0,
            },
            None => 0,
        },
        None => 0,
    };
    let max: u64 = match players {
        Some(p) => match p.get("max") {
            Some(m) => match m.as_u64() {
                Some(n) => n,
                None => 100,
            },
            None => 100,
        },
        None => 100,
    };
    ServerStatus { online, players_online: now as u32, players_max: max as u32 }
}

/// A successful login: the session token and the player's name.
pub struct LoginResponse {
    pub token: String,
    pub username: String,
}

/// What a successful login reply yields: the `token` string, and the
/// `user.username` string or `Player` when there is none; a reply without a
/// token string is an error.
pub open spec fn login_result(data: Json) -> Result<(Seq<char>, Seq<char>), Seq<char>> {
    match str_in(data.field("token"@)) {
        Some(token) => Ok(
            (
                token,
                match str_in(get_in(data.field("user"@), "username"@)) {
                    Some(u) => u,
                    None => "Player"@,
                },
            ),
        ),
        None => Err("No token in response"@),
    }
}

/// The login read from the reply to a successful login request.
pub fn login_response(data: &Json) -> (r: Result<LoginResponse, String>)
    ensures
        match (r, login_result(*data)) {
            (Ok(resp), Ok((token, name))) => resp.token@ == token && resp.username@ == name,
            (Err(e), Err(msg)) => e@ == msg,
            _ => false,
        },
{
    let token = match data.get("token") {
        Some(t) => match t.as_str() {
            Some(s) => s.clone(),
            None => return Err("No token in response".to_owned()),
        },
        None => return Err("No token in response".to_owned()),
    };
    let username = match data.get("user") {
        Some(u) => match u.get("username") {
            Some(n) => match n.as_str() {
                Some(s) => s.clone(),
                None => "Player".to_owned(),
            },
            None => "Player".to_owned(),
        },
        None => "Player".to_owned(),
    };
    Ok(LoginResponse { token, username })
}

/// The message a refused login shows: the reply's `error` string, or
/// `Login failed` when the reply is missing or has none.
pub open spec fn login_error(data: Option<Json>) -> Seq<char> {
    match str_in(get_in(data, "error"@)) {
        Some(e) => e,
        None => "Login failed"@,
    }
}

/// The message for a refused login, from the reply when it could be read.
pub fn login_error_message(data: Option<&Json>) -> (r: String)
    ensures
        r@ == login_error(crate::json::deref_opt(data)),
{
    match data {
        Some(d) => match d.get("error") {
            Some(e) => match e.as_str() {
                Some(s) => s.clone(),
                None => "Login failed".to_owned(),
            },
            None => "Login failed".to_owned(),
        },
        None => "Login failed".to_owned(),
    }
}

/// Whether a download address points at MediaFire.
pub open spec fn is_mediafire(url: Seq<char>) -> bool {
    first_occurrence(url, "mediafire.com"@) is Some
}

/// The direct download link on a MediaFire page: the text after the first
/// `href="https://download`'s `href="` up to the next double quote.
pub open spec fn mediafire_link(page: Seq<char>) -> Option<Seq<char>> {
    match first_occurrence(page, "href=\"https://download"@) {
        Some(i) => {
            let sub = page.skip(i + 6);
            match first_occurrence(sub, seq!['"']) {
                Some(e) => Some(sub.take(e)),
                None => None,
            }
        },
        None => None,
    }
}

/// The address to download from: an address that is not MediaFire's as it
/// is; for MediaFire, the direct link found on the fetched page, or the
/// address itself when the page could not be fetched or has no link.
pub open spec fn resolved_url(url: Seq<char>, page: Option<Seq<char>>) -> Seq<char> {
    if !is_mediafire(url) {
        url
    } else {
        match page {
            Some(p) => match mediafire_link(p) {
                Some(link) => link,
                None => url,
            },
            None => url,
        }
    }
}

/// Whether a download address points at MediaFire, whose page must be
/// fetched to find the file.
pub fn is_mediafire_url(url: &str) -> (r: bool)
    ensures
        r == is_mediafire(url@),
{
    let u = to_chars(url);
    let host = to_chars("mediafire.com");
    find(&u, &host).is_some()
}

/// The direct download link on a MediaFire page.
pub fn mediafire_direct_link(page: &str) -> (r: Option<String>)
    ensures
        crate::version::opt_view(r) == mediafire_link(page@),
{
    proof {
        reveal_strlit("href=\"https://download");
    }
    let p = to_chars(page);
    let marker = to_chars("href=\"https://download");
    let pos = match find(&p, &marker) {
        Some(i) => i,
        None => return None,
    };
    proof {
        crate::text::lemma_first_occurrence_from(page@, marker@, 0);
        assert(first_occurrence(p@, marker@) == Some(pos as int));
        assert(crate::text::occurs_at(p@, marker@, pos as int));
        assert(marker@.len() >= 6);
        assert(pos + 6 <= p.len());
    }
    let mut sub: Vec<char> = Vec::new();
    let mut i: usize = pos + 6;
    while i < p.len()
        invariant
            pos + 6 <= i <= p.len(),
            sub@ == p@.subrange(pos + 6, i as int),
        decreases p.len() - i,
    {
        sub.push(p[i]);
        i = i + 1;
        assert(sub@ =~= p@.subrange(pos + 6, i as int));
    }
    assert(sub@ =~= page@.skip(pos + 6));
    let mut quote: Vec<char> = Vec::new();
    quote.push('"');
    assert(quote@ =~= seq!['"']);
    let end = match find(&sub, &quote) {
        Some(e) => e,
        None => return None,
    };
    proof {
        crate::text::lemma_first_occurrence_from(sub@, quote@, 0);
    }
    let mut link: Vec<char> = Vec::new();
    let mut k: usize = 0;
    while k < end
        invariant
            k <= end <= sub.len(),
            link@ == sub@.take(k as int),
        decreases end - k,
    {
        link.push(sub[k]);
        k = k + 1;
        assert(link@ =~= sub@.take(k as int));
    }
    Some(from_chars(&link))
}

/// The address to download a modpack from; `page` is the MediaFire page
/// fetched for a MediaFire address, when that succeeded.
pub fn resolve_mediafire(url: &str, page: Option<String>) -> (r: String)
    ensures
        r@ == resolved_url(url@, crate::version::opt_view(page)),
{
    if !is_mediafire_url(url) {
        return url.to_owned();
    }
    match page {
        Some(p) => match mediafire_direct_link(p.as_str()) {
            Some(link) => link,
            None => url.to_owned(),
        },
        None => url.to_owned(),
    }
}

} // verus!
