use wire::admission::{ProcessKey, Seat};
use wire::error::{internal, CallError, IdentityError, RelayError, WireError};
use wire::ident::SessionId;
use wire::identity::{forge_prompt, output_schema, require_compaction, validate};
use wire::model::{
    AgentIdentity, BoundChannel, Channel, ChannelSubscription, CreatedDirectMessage, CreatedPost,
    Post, SubscriptionState, Team, Timeline, User,
};
use wire::relay::LocalRequest;
use wire::server::{
    channel_label, collapse, default_limit, effect, recovery, show_time, timestamp, truncate, validate_id,
    validate_limit, validate_message, validate_optional_id, validate_read, ChannelOutput,
    ChannelsOutput, DetailLevel, DirectMessageOutput, Dm, IdentityOutput, Outcome, PostOutput,
    ReadOutput, SessionsOutput, SubscriptionOutput,
};
use wire::session::{Session, SessionIndexRow};

const ID: &str = "abcdefghijklmnopqrstuv0189";

fn invalid<T>(message: &str) -> Result<T, CallError> {
    Err(CallError::InvalidParams(message.to_string()))
}

fn channel() -> BoundChannel {
    BoundChannel {
        team: Team { id: "t".to_string(), name: "ops".to_string(), display_name: "Ops".to_string() },
        channel: Channel {
            id: "c".to_string(),
            team_id: "t".to_string(),
            name: "town".to_string(),
            display_name: "Town".to_string(),
            kind: "O".to_string(),
            delete_at: 0,
            total_msg_count: u64::MAX,
        },
    }
}

fn post(id: &str, at: i64, message: &str) -> Post {
    Post {
        id: id.to_string(),
        create_at: at,
        update_at: at,
        user_id: "u".to_string(),
        channel_id: "c".to_string(),
        root_id: String::new(),
        message: message.to_string(),
    }
}

#[test]
fn limits() {
    assert_eq!(default_limit(), 20);
    assert_eq!(validate_limit(1), Ok(()));
    assert_eq!(validate_limit(100), Ok(()));
    assert_eq!(validate_limit(0), invalid("limit must be between 1 and 100"));
    assert_eq!(validate_limit(101), invalid("limit must be between 1 and 100"));
}

#[test]
fn identifiers() {
    assert_eq!(validate_id(ID, "thread"), Ok(()));
    let fault = "thread must be a 26-character Mattermost ID";
    assert_eq!(validate_id("short", "thread"), invalid(fault));
    assert_eq!(validate_id("Abcdefghijklmnopqrstuv0189", "thread"), invalid(fault));
    assert_eq!(validate_id("äbcdefghijklmnopqrstuv0189", "thread"), invalid(fault));
    assert_eq!(validate_optional_id(None, "thread"), Ok(()));
    assert_eq!(validate_optional_id(Some(""), "thread"), invalid(fault));
}

#[test]
fn messages() {
    assert_eq!(validate_message("x", None), Ok(()));
    assert_eq!(validate_message("", None), invalid("message must be present"));
    assert_eq!(validate_message(&"ä".repeat(16_383), Some(ID)), Ok(()));
    assert_eq!(
        validate_message(&"x".repeat(16_384), None),
        invalid("message exceeds 16383 characters")
    );
    assert_eq!(
        validate_message("x", Some("y")),
        invalid("reply_to must be a 26-character Mattermost ID")
    );
}

#[test]
fn reads_are_bounded() {
    assert_eq!(validate_read(20, None, None, None, DetailLevel::Concise), Ok(1_000));
    assert_eq!(validate_read(20, None, None, None, DetailLevel::Full), Ok(12_000));
    assert_eq!(validate_read(20, Some(ID), Some(ID), Some(7), DetailLevel::Full), Ok(7));
    assert_eq!(
        validate_read(20, None, None, Some(0), DetailLevel::Full),
        invalid("body_chars must be between 1 and 100000")
    );
    assert_eq!(
        validate_read(20, None, None, Some(100_001), DetailLevel::Full),
        invalid("body_chars must be between 1 and 100000")
    );
    assert_eq!(
        validate_read(0, Some("x"), None, None, DetailLevel::Full),
        invalid("limit must be between 1 and 100")
    );
    assert_eq!(
        validate_read(1, Some("x"), Some("y"), None, DetailLevel::Full),
        invalid("thread must be a 26-character Mattermost ID")
    );
    assert_eq!(
        validate_read(1, None, Some("y"), None, DetailLevel::Full),
        invalid("before must be a 26-character Mattermost ID")
    );
}

#[test]
fn bodies_are_cut() {
    assert_eq!(truncate("äbc", 2), ("äb".to_string(), true));
    assert_eq!(truncate("äbc", 3), ("äbc".to_string(), false));
    assert_eq!(truncate("äbc", usize::MAX), ("äbc".to_string(), false));
    assert_eq!(collapse("  a\n\n b\tc "), "a b c");
}

#[test]
fn moments_are_written() {
    assert_eq!(timestamp(0), "1970-01-01T00:00:00Z");
    assert_eq!(timestamp(1_700_000_000_123), "2023-11-14T22:13:20.123Z");
    assert_eq!(timestamp(i64::MAX), "9223372036854775807");
    assert_eq!(show_time(None, -5), "-5");
    assert_eq!(show_time(Some("noon".to_string()), -5), "noon");
}

#[test]
fn channels_are_listed() {
    assert_eq!(channel_label(&channel()), "ops:Town");
    let output = ChannelsOutput::of(&vec![channel()]);
    assert_eq!(output.channels, vec![ChannelOutput::of(&channel())]);
    assert_eq!(output.channels[0].team_display, "Ops");
    assert_eq!(
        output.porcelain(),
        "channel | id | messages\nops:Town | c | 18446744073709551615"
    );
}

#[test]
fn sessions_are_listed() {
    let live = SessionId { value: 1 };
    let dormant = SessionId { value: 2 };
    let seats = vec![Seat {
        session: live,
        process: ProcessKey { pid: 9, start: 1 },
        cwd: Some("/work".to_string()),
    }];
    let index = vec![SessionIndexRow { id: dormant, thread_name: "Forge".to_string() }];
    let output = SessionsOutput::of(&seats, &vec![live], &vec![live, dormant], &index);
    assert_eq!(output.sessions[0].pid, Some(9));
    assert_eq!(output.sessions[1].pid, None);
    assert_eq!(
        output.porcelain(),
        "session | name | cwd\n00000000-0000-0000-0000-000000000001 | - | /work\n00000000-0000-0000-0000-000000000002 | Forge | -"
    );
    let unloaded = SessionsOutput::of(&seats, &Vec::new(), &vec![live], &index);
    assert!(unloaded.sessions.is_empty());
}

fn timeline() -> Timeline {
    let mut second = post("p2", 1_000, "two\nlines here");
    second.update_at = 2_000;
    second.root_id = "p1".to_string();
    second.user_id = "v".to_string();
    Timeline {
        channel: channel(),
        posts: vec![post("p1", 0, "one"), second],
        users: vec![User {
            id: "u".to_string(),
            username: "main".to_string(),
            email: "main@localhost".to_string(),
            props: None,
            delete_at: 0,
        }],
    }
}

#[test]
fn histories_are_shown() {
    let output = ReadOutput::from_timeline(&timeline(), 9, DetailLevel::Concise);
    assert_eq!(output.messages[1].updated_at, None);
    assert_eq!(output.messages[1].reply_to, Some("p1".to_string()));
    assert_eq!(
        output.porcelain(DetailLevel::Concise),
        "ops:Town | 2 message(s)\n1970-01-01T00:00:00Z | p1 | @main | reply=-\n  one\n1970-01-01T00:00:01Z | p2 | @v | reply=p1\n  two lines …[truncated]"
    );
}

#[test]
fn histories_are_shown_in_full() {
    let output = ReadOutput::from_timeline(&timeline(), 100, DetailLevel::Full);
    assert_eq!(output.messages[0].updated_at, None);
    assert_eq!(output.messages[1].updated_at, Some("1970-01-01T00:00:02Z".to_string()));
    assert_eq!(
        output.porcelain(DetailLevel::Full),
        "ops:Town | 2 message(s)\n1970-01-01T00:00:00Z | p1 | @main | reply=-\n  one\n1970-01-01T00:00:01Z | p2 | @v | reply=p1\n  two\n  lines here"
    );
}

#[test]
fn posts_are_acknowledged() {
    let created =
        CreatedPost { channel: channel(), post: post("p", 0, "x"), sender: "codex".to_string() };
    let output = PostOutput::of(&created);
    assert_eq!(output.reply_to, None);
    assert_eq!(output.porcelain(), "posted p | ops:Town | @codex");
}

#[test]
fn subscriptions_are_acknowledged() {
    let output = SubscriptionOutput::of(&ChannelSubscription {
        channel: channel(),
        state: SubscriptionState::Subscribed,
    });
    assert!(output.subscribed);
    assert_eq!(output.porcelain(), "subscribed ops:Town");
    let output = SubscriptionOutput::of(&ChannelSubscription {
        channel: channel(),
        state: SubscriptionState::Unsubscribed,
    });
    assert_eq!(output.porcelain(), "unsubscribed ops:Town");
}

#[test]
fn identities_are_shown() {
    let identity = AgentIdentity {
        session: SessionId { value: 1 },
        name: "Forge".to_string(),
        biography: None,
    };
    assert_eq!(
        IdentityOutput::of(&identity).porcelain(),
        "00000000-0000-0000-0000-000000000001 | Forge\nanonymous"
    );
}

#[test]
fn tools_recover_differently() {
    assert_eq!(recovery("chat.post"), "at_most_once");
    assert_eq!(recovery("chat.dm"), "at_most_once");
    assert_eq!(recovery("chat.read"), "replay_safe");
    assert_eq!(
        effect("chat.dm").render(),
        r#"{"recovery":{"kind":"at_most_once"},"state":{"kind":"stateless"}}"#
    );
    assert_eq!(
        effect("identity.update").render(),
        r#"{"recovery":{"kind":"replay_safe"},"state":{"kind":"stateless"}}"#
    );
}

fn caller() -> Session {
    Session { id: SessionId { value: 1 }, title: None }
}

fn created() -> CreatedDirectMessage {
    CreatedDirectMessage {
        post: post("p", 0, "x"),
        sender: "codex-one".to_string(),
        recipient: "codex-two".to_string(),
    }
}

#[test]
fn direct_messages_to_the_operator() {
    let dm = Dm::begin("x", Some("abcdefghijklmnopqrstuvwxyz"), None, Ok(caller()));
    assert_eq!(
        dm,
        Dm::Operator {
            session: caller(),
            message: "x".to_string(),
            reply_to: Some("abcdefghijklmnopqrstuvwxyz".to_string()),
        }
    );
    match dm.posted(Ok(created())) {
        Dm::Done(Outcome::Success(output)) => assert_eq!(
            output.porcelain(),
            "posted p | @codex-one -> @codex-two | delivery=Mattermost only"
        ),
        _ => panic!("not done"),
    }
}

#[test]
fn direct_messages_to_a_peer() {
    let target = SessionId { value: 2 };
    let dm = Dm::begin("x", None, Some(target), Ok(caller())).reserved(Ok(()));
    let message = "x".to_string();
    assert_eq!(dm, Dm::Post { session: caller(), target, message, reply_to: None });
    let dm = dm.posted(Ok(created()));
    let request = LocalRequest::Enqueue {
        target,
        post_id: "p".to_string(),
        sender_session: SessionId { value: 1 },
        sender: "codex-one".to_string(),
        body: "x".to_string(),
    };
    assert_eq!(dm, Dm::Submit { request, output: DirectMessageOutput::peer(&created()) });
    assert_eq!(
        dm.submitted(Ok(())),
        Dm::Done(Outcome::Success(DirectMessageOutput::peer(&created())))
    );
    assert_eq!(DirectMessageOutput::peer(&created()).delivery, "volatile best effort");
}

#[test]
fn direct_messages_fail() {
    let target = SessionId { value: 2 };
    let failure = |message: &str| Dm::Done(Outcome::Failure(message.to_string()));
    assert_eq!(
        Dm::begin("x", None, None, Err(WireError::Configuration("no".to_string()))),
        failure("invalid configuration: no")
    );
    let reserve = || Dm::begin("x", None, Some(target), Ok(caller()));
    assert_eq!(
        reserve().reserved(Err(RelayError::Protocol("no".to_string()))),
        failure("direct message not posted: relay protocol failed: no")
    );
    assert_eq!(
        reserve().reserved(Ok(())).posted(Err(WireError::Decode("no".to_string()))),
        failure("Mattermost response was invalid: no")
    );
    assert_eq!(
        reserve()
            .reserved(Ok(()))
            .posted(Ok(created()))
            .submitted(Err(RelayError::Protocol("no".to_string()))),
        failure(
            "posted p but volatile delivery was not queued: relay protocol failed: no; do not retry blindly"
        )
    );
}

#[test]
fn direct_messages_may_be_at_fault() {
    let fault =
        |message: &str| Dm::Done(Outcome::Fault(CallError::InvalidParams(message.to_string())));
    assert_eq!(Dm::begin("", None, None, Ok(caller())), fault("message must be present"));
    assert_eq!(
        Dm::begin("x", None, Some(SessionId { value: 1 }), Ok(caller())),
        fault("session_id cannot name the calling session")
    );
    assert_eq!(internal("x"), CallError::Internal("wire output failed: x".to_string()));
}

fn unlawful(message: &str) -> Result<String, IdentityError> {
    Err(IdentityError::Biography(message.to_string()))
}

#[test]
fn biographies_are_paragraphs() {
    let life = "x".repeat(120);
    assert_eq!(validate(&format!(" {life}\n")), Ok(life.clone()));
    assert_eq!(validate(&"x".repeat(700)), Ok("x".repeat(700)));
    assert_eq!(validate("short"), unlawful("expected 120..=700 characters, received 5"));
    assert_eq!(
        validate(&"x".repeat(701)),
        unlawful("expected 120..=700 characters, received 701")
    );
    assert_eq!(
        validate(&format!("{life}\n{life}")),
        unlawful("the paragraph contains a line break")
    );
    assert_eq!(
        validate(&format!("{life}\u{7}{life}")),
        unlawful("the paragraph contains a control character")
    );
}

#[test]
fn briefs_tell_what_is_known() {
    let session = Session { id: SessionId { value: 1 }, title: Some("Forge".to_string()) };
    assert_eq!(
        forge_prompt("Write.", &session, None),
        "Write.\n\n# Identity Metadata\n\n{\"previous_biography\":null,\"thread_name\":\"Forge\"}"
    );
    assert_eq!(
        forge_prompt("Write.", &session, Some("Old.")),
        "Write.\n\n# Identity Metadata\n\n{\"previous_biography\":\"Old.\",\"thread_name\":\"Forge\"}"
    );
    assert_eq!(
        output_schema().render(),
        r#"{"additionalProperties":false,"properties":{"biography":{"type":"string"}},"required":["biography"],"type":"object"}"#
    );
}

#[test]
fn hooks_must_be_compactions() {
    assert_eq!(require_compaction("PostCompact"), Ok(()));
    assert_eq!(
        require_compaction("Stop").unwrap_err().text(),
        "identity forge returned an unlawful biography: identity hook received Stop instead of PostCompact"
    );
}

#[test]
fn identity_errors_speak() {
    assert_eq!(IdentityError::Io("x".to_string()).text(), "identity forge I/O failed: x");
    assert_eq!(IdentityError::Task("x".to_string()).text(), "identity lock task failed: x");
    assert_eq!(
        IdentityError::ForgeDecode("x".to_string()).text(),
        "identity forge returned invalid JSON: x"
    );
    assert_eq!(IdentityError::HookDecode("x".to_string()).text(), "invalid Codex hook event: x");
    assert_eq!(
        IdentityError::Runtime.text(),
        "CODEX_HOME must resolve to an absolute path for identity serialization"
    );
    assert_eq!(
        IdentityError::Wire(WireError::Keyring("x".to_string())).text(),
        "local credential registry failed: x"
    );
}
