use wire::ident::SessionId;
use wire::json::Json;
use wire::model::{session_from_properties, Bot, Preference, Property};
use wire::session::{indexed_title, session_slug, Ambient, Session, SessionIndexRow};

const UUID: &str = "0123abcd-4567-89ef-0123-456789abcdef";
const OTHER: &str = "ffffffff-0000-4000-8000-000000000001";

fn id(text: &str) -> SessionId {
    SessionId::parse(text).unwrap()
}

fn session(title: Option<&str>) -> Session {
    Session { id: id(UUID), title: title.map(|title| title.to_string()) }
}

fn nothing() -> Ambient {
    Ambient {
        codex_thread_id: None,
        wire_session_id: None,
        codex_thread_name: None,
        wire_session_name: None,
        index: Vec::new(),
    }
}

fn row(session: &str, name: &str) -> SessionIndexRow {
    SessionIndexRow { id: id(session), thread_name: name.to_string() }
}

#[test]
fn session_ids_read_back() {
    let value = id(UUID);
    assert_eq!(value.text(), UUID);
    assert_eq!(value.compact(), "0123abcd456789ef0123456789abcdef");
    assert_eq!(id(&value.compact()), value);
    assert_eq!(id(&UUID.to_uppercase()), value);
    assert_eq!(id(&format!("{{{UUID}}}")), value);
    assert_eq!(id(&format!("urn:uuid:{UUID}")), value);
    assert_eq!(SessionId::find("nonsense"), None);
    assert!(SessionId::parse("nonsense").unwrap_err().starts_with("invalid"));
}

#[test]
fn session_comes_from_request() {
    let thread = Json::string(UUID);
    let found = Session::from_request(Some(&thread), &nothing()).unwrap();
    assert_eq!(found.id(), id(UUID));
    assert_eq!(found.title, None);
}

#[test]
fn session_request_metadata_must_be_text() {
    let error = Session::from_request(Some(&Json::Integer(1)), &nothing()).unwrap_err();
    assert_eq!(
        error.text(),
        "invalid configuration: request threadId metadata is not a string"
    );
    let error = Session::from_request(Some(&Json::string("x")), &nothing()).unwrap_err();
    assert!(
        error
            .text()
            .starts_with("invalid configuration: request threadId metadata is not a UUID: invalid")
    );
}

#[test]
fn session_comes_from_environment() {
    let mut ambient = nothing();
    assert_eq!(
        Session::from_request(None, &ambient).unwrap_err().text(),
        "invalid configuration: writes require Codex threadId request metadata, CODEX_THREAD_ID, or WIRE_SESSION_ID"
    );
    assert_eq!(Session::load(&ambient).unwrap(), None);
    ambient.codex_thread_id = Some("  ".to_string());
    ambient.wire_session_id = Some(format!(" {UUID}\n"));
    ambient.wire_session_name = Some("Forge".to_string());
    let found = Session::load(&ambient).unwrap().unwrap();
    assert_eq!(found.id(), id(UUID));
    assert_eq!(found.title, Some("Forge".to_string()));
    ambient.wire_session_id = Some("nope".to_string());
    assert!(
        Session::load(&ambient)
            .unwrap_err()
            .text()
            .starts_with("invalid configuration: session identity is not a UUID: ")
    );
}

#[test]
fn index_gives_last_name() {
    let rows = vec![row(UUID, "first"), row(OTHER, "else"), row(UUID, "last"), row(UUID, "  ")];
    assert_eq!(indexed_title(&rows, id(UUID)), Some("last".to_string()));
    assert_eq!(indexed_title(&Vec::new(), id(UUID)), None);
    assert_eq!(Session::for_id(id(OTHER), &rows).title, Some("else".to_string()));
}

#[test]
fn session_names() {
    assert_eq!(session(None).display_name(), "Codex 0123abcd");
    assert_eq!(session(None).name(), "Codex 0123abcd");
    assert_eq!(session(Some(" Forge ")).display_name(), "Forge · 0123");
    assert_eq!(session(Some(" Forge ")).name(), " Forge ");
    let long = "x".repeat(80);
    assert_eq!(session(Some(&long)).display_name(), format!("{} · 0123", "x".repeat(55)));
    assert_eq!(
        session(None).provisional_email(),
        "wire-0123abcd456789ef0123456789abcdef@localhost"
    );
    assert_eq!(session(None).legacy_username(), "codex-0123abcd456789ef");
}

#[test]
fn session_username_candidates() {
    assert_eq!(session(None).username_candidates(), vec!["codex-0123abcd456789ef".to_string()]);
    assert_eq!(
        session(Some("Codex_The Long Thread Name!")).username_candidates(),
        vec![
            "codex-the-long-thread-".to_string(),
            "codex-the-long-th-0123".to_string(),
            "codex-the-lon-0123abcd".to_string(),
            "codex-0123abcd456789ef".to_string(),
        ]
    );
    assert_eq!(session(Some("---")).username_candidates().len(), 1);
}

#[test]
fn slugs() {
    assert_eq!(session_slug(" coder-Über Work_2 "), "ber-work-2");
    assert_eq!(session_slug("CODEX_x"), "x");
    assert_eq!(session_slug("codex"), "codex");
    assert_eq!(session_slug("--a--b--"), "a-b");
    assert_eq!(session_slug("…"), "");
}

fn bot(description: Option<&str>) -> Bot {
    Bot {
        user_id: "u".to_string(),
        username: "n".to_string(),
        display_name: "d".to_string(),
        description: description.map(|text| text.to_string()),
    }
}

#[test]
fn bots_tell_their_session_or_their_life() {
    assert_eq!(bot(Some(&format!("Codex session {UUID}"))).legacy_session(), Some(id(UUID)));
    assert_eq!(bot(Some("Codex session x")).legacy_session(), None);
    assert_eq!(bot(Some(&format!("Codex session {UUID}"))).biography(), None);
    assert_eq!(bot(Some("  ")).biography(), None);
    assert_eq!(bot(None).biography(), None);
    assert_eq!(bot(Some("A life.")).biography(), Some("A life.".to_string()));
    assert!(bot(Some("A life.")).established());
    assert!(!bot(Some(" ")).established());
}

#[test]
fn properties_bind_users() {
    let props = vec![
        Property { key: "wire_session".to_string(), value: OTHER.to_string() },
        Property { key: "wire_session".to_string(), value: UUID.to_string() },
    ];
    assert_eq!(session_from_properties(&Some(props)), Some(id(UUID)));
    assert_eq!(session_from_properties(&None), None);
    let props = vec![Property { key: "wire_session".to_string(), value: "x".to_string() }];
    assert_eq!(session_from_properties(&Some(props)), None);
}

#[test]
fn subscriptions_are_preferences() {
    let preference = Preference::subscription("u", "c");
    assert_eq!(preference.user_id, "u");
    assert_eq!(preference.category, "wire_subscription");
    assert_eq!(preference.name, "c");
    assert_eq!(preference.value, "1");
    assert!(preference.in_force());
}
