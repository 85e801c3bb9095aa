use battleverse_launcher::json::{Json, JsonMember, JsonNumber};
use battleverse_launcher::remote::{
    bearer, check_server_status, is_mediafire_url, login_error_message, login_response,
    login_url, mediafire_direct_link, messages_url, prepare_join_url, resolve_mediafire,
    server_status_url,
};

fn s(v: &str) -> Json {
    Json::Str(v.to_string())
}

fn n(v: u64) -> Json {
    Json::Number(JsonNumber::Unsigned(v))
}

fn obj(members: Vec<(&str, Json)>) -> Json {
    Json::Object(
        members
            .into_iter()
            .map(|(k, v)| JsonMember { key: k.to_string(), value: v })
            .collect(),
    )
}

#[test]
fn service_addresses() {
    assert_eq!(server_status_url("play.example.net"), "https://api.mcsrvstat.us/3/play.example.net");
    assert_eq!(login_url("https://api.example.net"), "https://api.example.net/login");
    assert_eq!(messages_url("https://api.example.net"), "https://api.example.net/messages");
    assert_eq!(prepare_join_url("https://api.example.net"), "https://api.example.net/prepare-join");
    assert_eq!(bearer("t0k"), "Bearer t0k");
}

#[test]
fn server_status_read() {
    let st = check_server_status(&obj(vec![
        ("online", Json::Bool(true)),
        ("players", obj(vec![("online", n(5)), ("max", n(20))])),
    ]));
    assert!(st.online);
    assert_eq!((st.players_online, st.players_max), (5, 20));
}

#[test]
fn server_status_defaults() {
    let st = check_server_status(&obj(vec![]));
    assert!(!st.online);
    assert_eq!((st.players_online, st.players_max), (0, 100));
    let st = check_server_status(&obj(vec![
        ("online", s("yes")),
        ("players", obj(vec![("online", Json::Number(JsonNumber::Negative(-1))), ("max", Json::Number(JsonNumber::Other))])),
    ]));
    assert!(!st.online);
    assert_eq!((st.players_online, st.players_max), (0, 100));
}

#[test]
fn server_status_truncates_to_32_bits() {
    let st = check_server_status(&obj(vec![(
        "players",
        obj(vec![("online", n((1u64 << 32) + 3)), ("max", n(u64::MAX))]),
    )]));
    assert_eq!((st.players_online, st.players_max), (3, u32::MAX));
}

#[test]
fn login_success_reply() {
    let r = login_response(&obj(vec![
        ("token", s("abc")),
        ("user", obj(vec![("username", s("Steve"))])),
    ]));
    match r {
        Ok(resp) => {
            assert_eq!(resp.token, "abc");
            assert_eq!(resp.username, "Steve");
        }
        Err(e) => panic!("{e}"),
    }
    match login_response(&obj(vec![("token", s("abc"))])) {
        Ok(resp) => assert_eq!(resp.username, "Player"),
        Err(e) => panic!("{e}"),
    }
}

#[test]
fn login_reply_without_token() {
    for data in [obj(vec![]), obj(vec![("token", n(5))]), Json::Null] {
        match login_response(&data) {
            Err(e) => assert_eq!(e, "No token in response"),
            Ok(_) => panic!("expected an error"),
        }
    }
}

#[test]
fn login_refusal_messages() {
    assert_eq!(login_error_message(Some(&obj(vec![("error", s("Wrong password"))]))), "Wrong password");
    assert_eq!(login_error_message(Some(&obj(vec![("error", n(1))]))), "Login failed");
    assert_eq!(login_error_message(None), "Login failed");
}

#[test]
fn mediafire_links() {
    let page = "<html><a class=\"input\" href=\"https://download1234.mediafire.com/abc/pack.zip\" id=\"downloadButton\">";
    assert_eq!(
        mediafire_direct_link(page),
        Some("https://download1234.mediafire.com/abc/pack.zip".to_string())
    );
    assert_eq!(mediafire_direct_link("no link here"), None);
    assert_eq!(mediafire_direct_link("href=\"https://download-unterminated"), None);
    assert!(is_mediafire_url("https://www.mediafire.com/file/x/pack.zip/file"));
    assert!(!is_mediafire_url("https://example.net/pack.zip"));
}

#[test]
fn mediafire_resolution() {
    let page = "x href=\"https://download9.mediafire.com/p.zip\" y".to_string();
    assert_eq!(
        resolve_mediafire("https://www.mediafire.com/file/p", Some(page.clone())),
        "https://download9.mediafire.com/p.zip"
    );
    assert_eq!(resolve_mediafire("https://www.mediafire.com/file/p", None), "https://www.mediafire.com/file/p");
    assert_eq!(
        resolve_mediafire("https://www.mediafire.com/file/p", Some("nothing".to_string())),
        "https://www.mediafire.com/file/p"
    );
    // any other address is used as given, whatever page is supplied
    assert_eq!(resolve_mediafire("https://example.net/p.zip", Some(page)), "https://example.net/p.zip");
}
