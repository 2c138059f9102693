use wire::delivery::bounded_advisory;
use wire::error::AppServerError;
use wire::forge::{active_user_evidence, Brief, Completion, Forge};
use wire::handoff::{mcp_status, tool_attached, Errand, Handoff};
use wire::ident::SessionId;
use wire::json::{as_integer, as_items, as_text, is_text, member_or_whole, Json};
use wire::record::{Ask, Entry, Starter};
use wire::rpc::{initialize, notification, response_timed_out, write_timed_out, Call, Frame, Heard, Line};

const UUID: &str = "0123abcd-4567-89ef-0123-456789abcdef";

fn id() -> SessionId {
    SessionId::parse(UUID).unwrap()
}

fn json(text: &str) -> Json {
    Json::parse(text).unwrap()
}

fn control<T>(message: &str) -> Result<T, AppServerError> {
    Err(AppServerError::Control(message.to_string()))
}

fn text(text: &str) -> Frame {
    Frame::Text(text.to_string())
}

#[test]
fn json_reads_and_writes() {
    let document = json(r#"{"b": [1, "x", null, true], "a": {"c": 2}}"#);
    assert_eq!(document.render(), r#"{"a":{"c":2},"b":[1,"x",null,true]}"#);
    assert_eq!(as_integer(document.at("a", "c")), Some(2));
    assert_eq!(as_items(document.get("b")).map(|items| items.len()), Some(4));
    assert!(document.get("z").is_none());
    assert!(document.at("b", "c").is_none());
    assert!(Json::parse("{").unwrap_err().contains("EOF"));
}

#[test]
fn json_keeps_large_numbers() {
    let document = json(r#"{"n": 18446744073709551615, "m": -9223372036854775808}"#);
    assert_eq!(as_integer(document.get("n")), None);
    assert_eq!(as_integer(document.get("m")), Some(i64::MIN));
    assert_eq!(document.copy(), document);
}

#[test]
fn json_builds_objects() {
    let built = Json::object()
        .with("a", Json::string("x"))
        .with("b", Json::optional(None))
        .with("a", Json::Bool(true));
    assert_eq!(built.render(), r#"{"a":true,"b":null}"#);
    assert_eq!(Json::strings(&vec!["x".to_string()]).render(), r#"["x"]"#);
    assert!(is_text(json(r#"{"k":"v"}"#).get("k"), "v"));
    assert_eq!(as_text(json(r#"{"k":1}"#).get("k")), None);
}

#[test]
fn json_member_or_whole() {
    assert_eq!(
        member_or_whole(r#"{"error": {"code": 1.5}}"#, "error"),
        Some(r#"{"code":1.5}"#.to_string())
    );
    assert_eq!(member_or_whole(r#"{"b": 1}"#, "error"), Some(r#"{"b":1}"#.to_string()));
    assert_eq!(member_or_whole("}", "error"), None);
}

#[test]
fn line_numbers_its_calls() {
    let mut line = Line::open();
    let first = line.send(&initialize("0.1.0"));
    assert_eq!(first.id, 1);
    assert_eq!(
        first.text,
        r#"{"id":1,"method":"initialize","params":{"capabilities":{"experimentalApi":true},"clientInfo":{"name":"wire-relay","title":"Wire relay","version":"0.1.0"}}}"#
    );
    assert_eq!(line.send(&mcp_status(id())).id, 2);
}

#[test]
fn line_waits_for_its_reply() {
    let mut line = Line::open();
    assert_eq!(line.response(1, text(r#"{"method":"note"}"#)), Heard::Nothing);
    assert_eq!(line.response(1, text(r#"{"id":2,"result":5}"#)), Heard::Nothing);
    assert_eq!(line.response(1, Frame::Ping(vec![7])), Heard::Pong(vec![7]));
    assert_eq!(line.response(1, Frame::Other), Heard::Nothing);
    assert_eq!(
        line.response(1, text(r#"{"id":1,"result":{"ok":true}}"#)),
        Heard::Finished(Ok(json(r#"{"ok":true}"#)))
    );
    assert_eq!(line.recall(), Some(json(r#"{"method":"note"}"#)));
    assert_eq!(line.recall(), Some(json(r#"{"id":2,"result":5}"#)));
    assert_eq!(line.recall(), None);
}

#[test]
fn line_fails_with_its_reply() {
    let mut line = Line::open();
    assert_eq!(
        line.response(1, text(r#"{"id":1,"error":{"message":"no"}}"#)),
        Heard::Finished(control(r#"{"message":"no"}"#))
    );
    assert_eq!(line.response(1, text(r#"{"id":1}"#)), Heard::Finished(control(r#"{"id":1}"#)));
    assert_eq!(
        line.response(1, Frame::Close),
        Heard::Finished(control("connection closed before response"))
    );
    assert_eq!(
        line.response(1, Frame::Ended),
        Heard::Finished(control("connection ended before response"))
    );
    assert_eq!(
        line.response(1, Frame::Broken("reset".to_string())),
        Heard::Finished(control("reset"))
    );
    assert!(matches!(line.response(1, text("{")), Heard::Finished(Err(_))));
    assert_eq!(line.recall(), None);
}

#[test]
fn line_hears_notifications() {
    assert_eq!(notification(text(r#"{"a":1}"#)), Heard::Finished(Ok(json(r#"{"a":1}"#))));
    assert_eq!(
        notification(Frame::Close),
        Heard::Finished(control("connection closed before identity completion"))
    );
    assert_eq!(
        notification(Frame::Ended),
        Heard::Finished(control("connection ended before identity completion"))
    );
}

#[test]
fn line_times_out() {
    let call = Call::new("turn/start", Json::Null);
    assert_eq!(
        write_timed_out(&call).text(),
        "Codex app-server control failed: turn/start write timed out"
    );
    assert_eq!(
        response_timed_out(&call).text(),
        "Codex app-server control failed: turn/start response timed out"
    );
}

fn brief() -> Brief {
    Brief { session: id(), prompt: "Write.".to_string(), schema: json(r#"{"type":"object"}"#) }
}

fn call_of(forge: &Forge) -> (String, String) {
    let call = match forge {
        Forge::Read { call, .. }
        | Forge::Fork { call, .. }
        | Forge::Start { call, .. }
        | Forge::Leave { call, .. } => call,
        _ => panic!("no call"),
    };
    (call.method.clone(), call.params.render())
}

#[test]
fn forge_runs_through() {
    let forge = Forge::begin(brief());
    assert_eq!(
        call_of(&forge),
        ("thread/read".to_string(), format!(r#"{{"includeTurns":true,"threadId":"{UUID}"}}"#))
    );
    let forge = forge.replied(Ok(json(
        r#"{"thread":{"turns":[
            {"id":"t0","status":"completed"},
            {"id":"t1","status":"inProgress","items":[
                {"type":"userMessage","content":[{"type":"text","text":"Do it"},{"type":"image"},{"type":"text","text":""}]},
                {"type":"agentMessage","content":[{"type":"text","text":"no"}]}
            ]}
        ]}}"#,
    )));
    let (method, params) = call_of(&forge);
    assert_eq!(method, "thread/fork");
    let params = json(&params);
    assert!(is_text(params.get("beforeTurnId"), "t1"));
    assert!(is_text(params.get("sandbox"), "read-only"));
    assert!(is_text(params.get("approvalPolicy"), "never"));
    assert!(is_text(params.get("model"), "gpt-5.6-luna"));
    assert_eq!(params.get("ephemeral"), Some(&Json::Bool(true)));
    let forge = forge.replied(Ok(json(r#"{"thread":{"id":"fork"}}"#)));
    let (method, params) = call_of(&forge);
    assert_eq!(method, "turn/start");
    let params = json(&params);
    assert_eq!(
        params.get("input"),
        Some(&json(
            r##"[{"text":"Write.\n\n# Current In-Progress Operator Requests\n\n[\"Do it\"]","textElements":[],"type":"text"}]"##
        ))
    );
    assert_eq!(params.get("outputSchema"), Some(&json(r#"{"type":"object"}"#)));
    let forge = forge.replied(Ok(json(r#"{"turn":{"id":"turn"}}"#)));
    assert!(matches!(forge, Forge::Await(_)));
    let forge = forge.heard(Ok(json(
        r#"{"method":"item/completed","params":{"threadId":"fork","turnId":"turn","item":{"type":"agentMessage","text":"life"}}}"#,
    )));
    let forge = forge.heard(Ok(json(
        r#"{"method":"turn/completed","params":{"threadId":"fork","turn":{"status":"completed"}}}"#,
    )));
    assert_eq!(
        call_of(&forge),
        ("thread/unsubscribe".to_string(), r#"{"threadId":"fork"}"#.to_string())
    );
    assert_eq!(forge.replied(control("late")), Forge::Done(Ok("life".to_string())));
}

#[test]
fn forge_without_active_turn() {
    let forge = Forge::begin(brief()).replied(Ok(json(r#"{"thread":{"turns":[]}}"#)));
    match forge {
        Forge::Fork { call, prompt, .. } => {
            assert_eq!(prompt, "Write.");
            assert!(call.params.get("beforeTurnId").is_none());
        }
        _ => panic!("not forking"),
    }
}

#[test]
fn forge_fails_early() {
    assert_eq!(Forge::begin(brief()).replied(control("x")), Forge::Done(control("x")));
    let fork = Forge::begin(brief()).replied(Ok(Json::Null));
    assert_eq!(fork.replied(Ok(Json::Null)), Forge::Done(control("missing forked thread id")));
    let start = Forge::begin(brief())
        .replied(Ok(Json::Null))
        .replied(Ok(json(r#"{"thread":{"id":"f"}}"#)));
    assert_eq!(start.replied(Ok(Json::Null)), Forge::Done(control("missing identity turn id")));
    let waiting = Forge::Await(Completion {
        thread_id: "f".to_string(),
        turn_id: "t".to_string(),
        answer: None,
    });
    assert_eq!(waiting.expired(), Forge::Done(control("identity forge timed out")));
}

#[test]
fn forge_leaves_after_a_failure() {
    let waiting = Forge::Await(Completion {
        thread_id: "f".to_string(),
        turn_id: "t".to_string(),
        answer: None,
    });
    let leaving = waiting.heard(control("gone"));
    assert_eq!(call_of(&leaving).0, "thread/unsubscribe");
    assert_eq!(leaving.replied(Ok(Json::Null)), Forge::Done(control("gone")));
}

fn turn() -> Completion {
    Completion { thread_id: "f".to_string(), turn_id: "t".to_string(), answer: None }
}

fn says(text: &str) -> Json {
    json(&format!(
        r#"{{"method":"item/completed","params":{{"threadId":"f","item":{{"type":"agentMessage","text":"{text}"}}}}}}"#
    ))
}

#[test]
fn completion_takes_the_last_message() {
    let mut turn = turn();
    assert_eq!(turn.observe(&says("one")), None);
    assert_eq!(turn.observe(&says("two")), None);
    let other = json(
        r#"{"method":"item/completed","params":{"threadId":"f","turnId":"else","item":{"type":"agentMessage","text":"three"}}}"#,
    );
    assert_eq!(turn.observe(&other), None);
    let end = json(
        r#"{"method":"turn/completed","params":{"threadId":"f","turnId":"t","turn":{"status":"completed"}}}"#,
    );
    assert_eq!(turn.observe(&end), Some(Ok("two".to_string())));
}

#[test]
fn completion_needs_a_message() {
    let mut turn = turn();
    let end = json(
        r#"{"method":"turn/completed","params":{"threadId":"f","turn":{"status":"completed"}}}"#,
    );
    assert_eq!(
        turn.observe(&end),
        Some(control("identity turn completed without an agent message"))
    );
}

#[test]
fn completion_reports_failures() {
    let mut turn = turn();
    assert_eq!(turn.observe(&says("one")), None);
    let end = json(
        r#"{"method":"turn/completed","params":{"threadId":"f","turn":{"status":"failed","error":{"message":"quota"}}}}"#,
    );
    assert_eq!(turn.observe(&end), Some(control("quota")));
    let end = json(r#"{"method":"turn/completed","params":{"threadId":"f","turn":{}}}"#);
    assert_eq!(turn.observe(&end), Some(control("identity turn did not complete")));
}

#[test]
fn evidence_is_bounded() {
    let long = "a".repeat(15_999);
    let turn = json(&format!(
        r#"{{"items":[{{"type":"userMessage","content":[{{"type":"text","text":"{long}"}},{{"type":"text","text":"bcd"}},{{"type":"text","text":"e"}}]}}]}}"#
    ));
    let evidence = active_user_evidence(&turn);
    assert_eq!(evidence.len(), 2);
    assert_eq!(evidence[0], long);
    assert_eq!(evidence[1], "b");
}

#[test]
fn advisories_are_bounded() {
    let exact = "x".repeat(2_000);
    assert_eq!(bounded_advisory(&exact), exact);
    assert_eq!(
        bounded_advisory(&"x".repeat(2_001)),
        format!("{exact}\n\n[truncated; read the Mattermost transcript for the remainder]")
    );
}

fn errand() -> Errand {
    Errand { session: id(), message: "Go on".to_string(), version: "0.1.0".to_string() }
}

fn ask(behind: &str, words: &str) -> Ask {
    Ask { by: Starter::Handoff, behind: behind.to_string(), words: words.to_string() }
}

fn step(handoff: &Handoff) -> (String, String) {
    let call = match handoff {
        Handoff::Look { call, .. }
        | Handoff::Reload { call, .. }
        | Handoff::Inspect { call, .. }
        | Handoff::Resume { call, .. }
        | Handoff::Start { call, .. } => call,
        _ => panic!("no call"),
    };
    (call.method.clone(), call.params.render())
}

#[test]
fn handoff_runs_through() {
    let handoff = Handoff::begin(errand());
    assert_eq!(
        step(&handoff),
        ("thread/read".to_string(), format!(r#"{{"threadId":"{UUID}"}}"#))
    );
    let handoff = handoff.replied(Ok(json(r#"{"thread":{"status":{"type":"active"}}}"#)));
    assert!(matches!(handoff, Handoff::Pause { milliseconds: 250, .. }));
    let handoff = handoff.rested();
    let handoff = handoff.replied(Ok(json(r#"{"thread":{"status":{"type":"idle"}}}"#)));
    assert_eq!(step(&handoff), ("config/mcpServer/reload".to_string(), "null".to_string()));
    let handoff = handoff.replied(Ok(Json::Null));
    assert_eq!(
        step(&handoff),
        (
            "mcpServerStatus/list".to_string(),
            format!(r#"{{"detail":"toolsAndAuthOnly","threadId":"{UUID}"}}"#)
        )
    );
    let handoff = handoff.replied(Ok(json(r#"{"data":[]}"#)));
    assert!(matches!(handoff, Handoff::Linger { milliseconds: 100, .. }));
    let handoff = handoff.rested();
    let handoff = handoff.replied(Ok(json(
        r#"{"data":[{"name":"wire","serverInfo":{"version":"0.1.0"},"tools":{"identity.update":{}}}]}"#,
    )));
    assert_eq!(
        step(&handoff),
        ("thread/resume".to_string(), format!(r#"{{"excludeTurns":true,"threadId":"{UUID}"}}"#))
    );
    let handoff = handoff.replied(Ok(Json::Null));
    assert!(matches!(handoff, Handoff::Recall { .. }));
    let began = Entry::Began { ask: ask("", "x"), turn_id: "t0".to_string() };
    let handoff = handoff.recalled(Ok(vec![began]));
    assert!(matches!(&handoff, Handoff::Ask { ask: made, .. } if *made == ask("t0", "Go on")));
    let handoff = handoff.asked(Ok(()));
    assert_eq!(
        step(&handoff),
        (
            "turn/start".to_string(),
            format!(
                r#"{{"input":[{{"text":"Go on","textElements":[],"type":"text"}}],"threadId":"{UUID}"}}"#
            )
        )
    );
    let handoff = handoff.replied(Ok(json(r#"{"turn":{"id":"t"}}"#)));
    let entry = Entry::Began { ask: ask("t0", "Go on"), turn_id: "t".to_string() };
    assert_eq!(handoff, Handoff::Note { entry });
    let handoff = handoff.expired();
    assert_eq!(handoff.noted(), Handoff::Done(Ok(())));
}

#[test]
fn unnamed_turns_are_not_recorded() {
    let start = || Handoff::Start { call: mcp_status(id()), ask: ask("", "x") };
    assert_eq!(start().replied(Ok(Json::Null)), Handoff::Done(Ok(())));
    assert_eq!(start().replied(control("lost")), Handoff::Done(control("lost")));
}

#[test]
fn large_numbers_are_written_as_they_spell() {
    assert_eq!(Json::Number("18446744073709551615".to_string()).render(), "18446744073709551615");
    assert_eq!(Json::Number("1.50".to_string()).render(), "1.5");
    assert_eq!(Json::Number("many".to_string()).render(), "null");
    let mut line = Line::open();
    let params = Json::object().with("n", Json::Number("18446744073709551615".to_string()));
    assert_eq!(
        line.send(&Call::new("m", params)).text,
        r#"{"id":1,"method":"m","params":{"n":18446744073709551615}}"#
    );
}

#[test]
fn handoffs_need_the_record() {
    let recall = || Handoff::Recall { errand: errand() };
    let unreadable = recall().recalled(Err("unreadable".to_string()));
    assert_eq!(unreadable, Handoff::Done(control("unreadable")));
    let unwritten = recall().recalled(Ok(Vec::new())).asked(Err("full".to_string()));
    assert_eq!(unwritten, Handoff::Done(control("full")));
}

#[test]
fn handoff_refuses_other_states() {
    assert_eq!(
        Handoff::begin(errand()).replied(Ok(json(r#"{"thread":{"status":{"type":"dead"}}}"#))),
        Handoff::Done(control("cannot hand off a thread in dead state"))
    );
    assert_eq!(
        Handoff::begin(errand()).replied(Ok(Json::Null)),
        Handoff::Done(control("thread/read omitted thread status"))
    );
    assert_eq!(
        Handoff::begin(errand()).expired(),
        Handoff::Done(control("thread handoff timed out"))
    );
    assert_eq!(Handoff::begin(errand()).replied(control("x")), Handoff::Done(control("x")));
}

#[test]
fn tools_count_by_the_first_server_of_a_name() {
    let status = json(
        r#"{"data":[
            {"name":"wire","serverInfo":{"version":"0.0.9"},"tools":{"identity.update":{}}},
            {"name":"wire","serverInfo":{"version":"0.1.0"},"tools":{"identity.update":{}}}
        ]}"#,
    );
    assert!(!tool_attached(&status, "wire", "0.1.0", "identity.update"));
    assert!(tool_attached(&status, "wire", "0.0.9", "identity.update"));
    assert!(!tool_attached(&status, "wire", "0.0.9", "chat.dm"));
    assert!(!tool_attached(&status, "else", "0.0.9", "chat.dm"));
}
