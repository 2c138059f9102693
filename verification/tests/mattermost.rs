use wire::answer::{reception, rejection, Reception};
use wire::chat::{
    agent_identity, publish_biography, unsubscription, Addressee, AudienceSearch, BotList,
    ChannelList, DirectSearch, Doing, Extent, History, Note, Profile, Purpose,
};
use wire::config::{
    require_root, websocket_path, websocket_scheme, websocket_url, ChannelBroadcast, ConfigFile,
    ConfigSource, Pending, Settings, Switch, UrlParts, Variable, URL_CHARS,
};
use wire::directory::{
    author_ids, channels, established_sessions, find_bot, history_posts, known_bot, resolve_channel,
    wire_bots, KnownBot, TeamChannels,
};
use wire::error::WireError;
use wire::ident::SessionId;
use wire::json::Json;
use wire::model::{
    AccessToken, Bot, BoundChannel, Channel, ChannelMember, CreatedDirectMessage, ListedPost, Post,
    PostList, Preference, Property, ProvisionalUser, SubscriptionState, Team, User, WireBot,
};
use wire::paths::{
    codex_config, control_socket, lock_path, record_path, session_index, socket_path,
};
use wire::provision::{ensure_bot, places, Coming, Conversion, Place, ProfileSync, Provision, Relation};
use wire::request::{fresh_password, password, set_subscription, Method, Request};
use wire::secret::{
    secret_args, secret_cleared, secret_output, secret_stored, store_args, CommandOutput,
};
use wire::session::{find_addressed, Session};
use wire::token::TokenSearch;

const UUID: &str = "0123abcd-4567-89ef-0123-456789abcdef";

fn id() -> SessionId {
    SessionId::parse(UUID).unwrap()
}

fn session() -> Session {
    Session { id: id(), title: None }
}

fn said(request: &Request) -> (Method, String, Option<String>) {
    (request.method, request.path.clone(), request.body.as_ref().map(|body| body.render()))
}

fn get(path: &str) -> (Method, String, Option<String>) {
    (Method::Get, path.to_string(), None)
}

fn sends(method: Method, path: &str, body: &str) -> (Method, String, Option<String>) {
    (method, path.to_string(), Some(body.to_string()))
}

fn answered(status: u16) -> WireError {
    WireError::Response { status, label: format!("{status} Label"), body: "why".to_string() }
}

fn team(id: &str, name: &str) -> Team {
    Team { id: id.to_string(), name: name.to_string(), display_name: name.to_uppercase() }
}

fn channel(id: &str, name: &str, kind: &str) -> Channel {
    Channel {
        id: id.to_string(),
        team_id: "t".to_string(),
        name: name.to_string(),
        display_name: format!("The {name}"),
        kind: kind.to_string(),
        delete_at: 0,
        total_msg_count: 3,
    }
}

fn bound(team_name: &str, id: &str, name: &str) -> BoundChannel {
    BoundChannel { team: team("t", team_name), channel: channel(id, name, "O") }
}

fn post(id: &str, user: &str, at: i64) -> Post {
    Post {
        id: id.to_string(),
        create_at: at,
        update_at: at,
        user_id: user.to_string(),
        channel_id: "c".to_string(),
        root_id: String::new(),
        message: "hi".to_string(),
    }
}

fn bot(user: &str, name: &str, description: Option<&str>) -> Bot {
    Bot {
        user_id: user.to_string(),
        username: name.to_string(),
        display_name: "Codex 0123abcd".to_string(),
        description: description.map(|text| text.to_string()),
    }
}

fn user(id: &str, session: Option<&str>) -> User {
    User {
        id: id.to_string(),
        username: format!("name-{id}"),
        email: format!("{id}@localhost"),
        props: session.map(|session| {
            vec![Property { key: "wire_session".to_string(), value: session.to_string() }]
        }),
        delete_at: 0,
    }
}

fn bound_user(id: &str) -> User {
    User { email: EMAIL.to_string(), ..user(id, Some(UUID)) }
}

fn account(id: &str, email: &str, session: Option<&str>) -> ProvisionalUser {
    ProvisionalUser { id: id.to_string(), email: email.to_string(), props: user(id, session).props }
}

const EMAIL: &str = "wire-0123abcd456789ef0123456789abcdef@localhost";
const LEGACY: &str = "codex-0123abcd456789ef";

#[test]
fn channels_are_visible_and_ordered() {
    let mut gone = channel("x", "gone", "O");
    gone.delete_at = 5;
    let teams = vec![
        TeamChannels {
            team: team("t2", "zeta"),
            channels: vec![channel("a", "b", "O"), channel("d", "dm", "D")],
        },
        TeamChannels {
            team: team("t1", "alpha"),
            channels: vec![channel("b", "z", "P"), gone, channel("c", "a", "O")],
        },
    ];
    let listed: Vec<String> =
        channels(&teams).into_iter().map(|bound| bound.channel.id).collect();
    assert_eq!(listed, vec!["c".to_string(), "b".to_string(), "a".to_string()]);
}

#[test]
fn channels_are_resolved() {
    let all = vec![bound("ops", "c1", "town"), bound("dev", "c2", "town"), bound("dev", "c3", "x")];
    assert_eq!(resolve_channel(" c2 ", &all), Ok(bound("dev", "c2", "town")));
    assert_eq!(resolve_channel("X", &all), Ok(bound("dev", "c3", "x")));
    assert_eq!(resolve_channel("the x", &all), Ok(bound("dev", "c3", "x")));
    assert_eq!(resolve_channel("OPS:town", &all), Ok(bound("ops", "c1", "town")));
    let fault = |message: &str| Err(WireError::Input(message.to_string()));
    assert_eq!(resolve_channel("  ", &all), fault("channel is empty"));
    assert_eq!(
        resolve_channel("nope", &all),
        fault("channel `nope` is not visible to the administrator")
    );
    assert_eq!(
        resolve_channel("town", &all),
        fault("channel `town` is ambiguous; use team:channel")
    );
}

#[test]
fn channel_listing_asks_team_by_team() {
    let list = ChannelList::begin();
    match &list {
        ChannelList::Teams { request } => assert_eq!(said(request), get("/users/me/teams")),
        _ => panic!("no teams"),
    }
    let list = list.teams_read(Ok(vec![team("t1", "b"), team("t2", "a")]));
    match &list {
        ChannelList::Channels { request, .. } => {
            assert_eq!(said(request), get("/users/me/teams/t1/channels"))
        }
        _ => panic!("no channels"),
    }
    let list = list.channels_read(Ok(vec![channel("c1", "x", "O")]));
    let list = list.channels_read(Ok(vec![channel("c2", "y", "O")]));
    match list {
        ChannelList::Done(Ok(found)) => {
            assert_eq!(found[0].channel.id, "c2");
            assert_eq!(found[1].team.name, "b");
        }
        _ => panic!("not done"),
    }
    assert_eq!(
        ChannelList::begin().teams_read(Ok(Vec::new())),
        ChannelList::Done(Ok(Vec::new()))
    );
}

fn page() -> PostList {
    let listed = |key: &str, post: Post| ListedPost { key: key.to_string(), post };
    PostList {
        order: vec!["p3".to_string(), "p1".to_string(), "lost".to_string(), "p2".to_string()],
        posts: vec![
            listed("p1", post("p1", "u", 1)),
            listed("p2", post("p2", "v", 2)),
            listed("p3", post("p3", "u", 3)),
        ],
    }
}

#[test]
fn histories_run_forward() {
    let ids: Vec<String> = history_posts(&page()).into_iter().map(|post| post.id).collect();
    assert_eq!(ids, vec!["p1".to_string(), "p2".to_string(), "p3".to_string()]);
    assert_eq!(author_ids(&history_posts(&page())), vec!["u".to_string(), "v".to_string()]);
}

#[test]
fn histories_are_read() {
    let begin = |thread: Option<&str>, before: Option<&str>| {
        History::begin(Extent {
            thread: thread.map(|id| id.to_string()),
            before: before.map(|id| id.to_string()),
            limit: 20,
        })
        .resolved(Ok(bound("ops", "c1", "town")))
    };
    let path = |history: &History| match history {
        History::Page { request, .. } => said(request).1,
        _ => panic!("no page"),
    };
    assert_eq!(path(&begin(None, None)), "/channels/c1/posts?page=0&per_page=20");
    assert_eq!(path(&begin(None, Some("b"))), "/channels/c1/posts?page=0&per_page=20&before=b");
    assert_eq!(path(&begin(Some("r"), Some("b"))), "/posts/r/thread?per_page=20");
    let history = begin(None, None).page_read(Ok(page()));
    match &history {
        History::Users { request, .. } => {
            assert_eq!(said(request), sends(Method::Post, "/users/ids", r#"["u","v"]"#))
        }
        _ => panic!("no users"),
    }
    match history.users_read(Ok(vec![user("u", None)])) {
        History::Done(Ok(timeline)) => assert_eq!(timeline.posts.len(), 3),
        _ => panic!("not done"),
    }
    let empty = PostList { order: Vec::new(), posts: Vec::new() };
    match begin(None, None).page_read(Ok(empty)) {
        History::Done(Ok(timeline)) => assert!(timeline.users.is_empty()),
        _ => panic!("not done"),
    }
}

fn roster() -> (Vec<Bot>, Vec<User>) {
    let legacy = format!("Codex session {UUID}");
    (
        vec![
            bot("gone", "a", Some(&legacy)),
            bot("u1", "b", Some("A life.")),
            bot("u2", "c", Some(&legacy)),
            bot("u3", "d", None),
        ],
        vec![
            User { delete_at: 4, ..user("gone", None) },
            user("u1", Some(UUID)),
            user("u2", None),
            user("u3", None),
        ],
    )
}

#[test]
fn bots_are_found_by_binding_or_description() {
    let (bots, users) = roster();
    assert_eq!(find_bot(&bots, &users, id()).map(|bot| bot.user_id), Some("u1".to_string()));
    assert_eq!(find_bot(&bots, &users, SessionId { value: 9 }), None);
    let known = wire_bots(&bots, &users);
    assert_eq!(known_bot(&known, "u3"), None);
    assert_eq!(known_bot(&known, "gone"), None);
    assert_eq!(
        known_bot(&known, "u1"),
        Some(WireBot { session: id(), username: "b".to_string(), established: true })
    );
    assert_eq!(known_bot(&known, "u2").map(|bot| bot.established), Some(false));
    assert_eq!(established_sessions(&known), vec![id()]);
}

#[test]
fn bots_are_found_by_address() {
    let bots = vec![bot("u0", "a", None), bot("u1", "b", Some("A life."))];
    let addressed = || User { email: EMAIL.to_string(), ..user("u1", None) };
    let users = vec![user("u0", None), addressed()];
    assert_eq!(find_bot(&bots, &users, id()).map(|bot| bot.user_id), Some("u1".to_string()));
    assert_eq!(
        known_bot(&wire_bots(&bots, &users), "u1"),
        Some(WireBot { session: id(), username: "b".to_string(), established: true })
    );
    let gone = vec![User { delete_at: 3, ..addressed() }];
    assert_eq!(find_bot(&bots, &gone, id()), None);
    let other = "00000000-0000-0000-0000-000000000009";
    let both = vec![User { email: EMAIL.to_string(), ..user("u1", Some(other)) }];
    assert_eq!(known_bot(&wire_bots(&bots, &both), "u1").map(|bot| bot.session), Some(id()));
    assert_eq!(find_bot(&bots, &both, SessionId { value: 9 }), None);
    let shouted = vec![User { email: EMAIL.to_uppercase(), ..user("u1", None) }];
    assert_eq!(find_bot(&bots, &shouted, id()), None);
}

#[test]
fn addresses_name_sessions() {
    assert_eq!(find_addressed(EMAIL), Some(id()));
    assert_eq!(find_addressed("wire-0123ABCD456789ef0123456789abcdef@localhost"), None);
    assert_eq!(find_addressed("wire-0123abcd456789ef0123456789abcdef@localhos"), None);
    assert_eq!(find_addressed("wire-0123abcd"), None);
    assert_eq!(find_addressed("main@localhost"), None);
}

#[test]
fn bots_come_known_or_new() {
    let session = || Session { id: id(), title: None };
    match ensure_bot(Some(bot("u1", "n", None)), session()) {
        Coming::Known(ProfileSync::Read { request, bot, .. }) => {
            assert_eq!(said(&request), get("/users/u1"));
            assert_eq!(bot.user_id, "u1");
        }
        _ => panic!("not known"),
    }
    match ensure_bot(None, session()) {
        Coming::New(Provision::LookUp { request, .. }) => {
            assert_eq!(said(&request), get(&format!("/users/username/{LEGACY}")));
        }
        _ => panic!("not new"),
    }
}

#[test]
fn established_sessions_come_once() {
    let bots = vec![
        bot("u1", "a", Some("A life.")),
        bot("u2", "b", Some("Another.")),
        bot("u3", "c", None),
    ];
    let users = vec![user("u1", Some(UUID)), user("u2", Some(UUID)), user("u3", Some(UUID))];
    assert_eq!(established_sessions(&wire_bots(&bots, &users)), vec![id()]);
}

#[test]
fn bots_are_listed_page_by_page() {
    let full: Vec<Bot> = (0..200).map(|_| bot("u", "n", None)).collect();
    let list = BotList::begin().page_read(Ok(full));
    match &list {
        BotList::Page { request, .. } => assert_eq!(said(request), get("/bots?page=1&per_page=200")),
        _ => panic!("no second page"),
    }
    let list = list.page_read(Ok(vec![bot("v", "n", None)]));
    match &list {
        BotList::Users { request, bots } => {
            assert_eq!(request.path, "/users/ids");
            assert_eq!(bots.len(), 201);
        }
        _ => panic!("no users"),
    }
    assert!(matches!(list.users_read(Ok(Vec::new())), BotList::Done(Ok(_))));
    match BotList::begin().page_read(Ok(Vec::new())) {
        BotList::Done(Ok(roster)) => assert!(roster.users.is_empty()),
        _ => panic!("not done"),
    }
}

fn member(id: &str) -> ChannelMember {
    ChannelMember { user_id: id.to_string() }
}

#[test]
fn direct_channels_reach_their_session() {
    let begin = || DirectSearch::begin("c", "op");
    assert_eq!(
        begin().channel_read(Ok(channel("c", "x", "O"))),
        DirectSearch::Done(Ok(None))
    );
    let members = || begin().channel_read(Ok(channel("c", "x", "D")));
    assert_eq!(
        members().members_read(Ok(vec![member("op")])),
        DirectSearch::Done(Ok(None))
    );
    assert_eq!(
        members().members_read(Ok(vec![member("a"), member("op"), member("b")])),
        DirectSearch::Done(Ok(None))
    );
    let other = || members().members_read(Ok(vec![member("op"), member("u1")]));
    assert_eq!(
        other().user_read(Ok(user("u1", Some(UUID)))),
        DirectSearch::Done(Ok(Some(id())))
    );
    assert_eq!(
        other().user_read(Ok(User { delete_at: 1, ..user("u1", Some(UUID)) })),
        DirectSearch::Done(Ok(None))
    );
    assert_eq!(
        other().user_read(Ok(User { email: EMAIL.to_string(), ..user("u1", None) })),
        DirectSearch::Done(Ok(Some(id())))
    );
    let unbound = other().user_read(Ok(user("u1", None)));
    assert_eq!(
        unbound.bot_read(Ok(Some(bot("u1", "n", Some(&format!("Codex session {UUID}")))))),
        DirectSearch::Done(Ok(Some(id())))
    );
    assert_eq!(
        other().user_read(Ok(user("u1", None))).bot_read(Ok(None)),
        DirectSearch::Done(Ok(None))
    );
}

fn known(user_id: &str, session: u128) -> KnownBot {
    KnownBot {
        user_id: user_id.to_string(),
        bot: WireBot {
            session: SessionId { value: session },
            username: format!("codex-{session}"),
            established: false,
        },
    }
}

#[test]
fn audiences_are_subscribed_members() {
    let search = AudienceSearch::begin(&post("p", "author", 1));
    let search = search.channel_read(Ok(channel("c", "town", "P")));
    let search = search.bots_found(Ok(vec![known("author", 1), known("u2", 2), known("u3", 3)]));
    let search = search.members_read(Ok(vec![
        member("author"),
        member("human"),
        member("u2"),
        member("u3"),
    ]));
    match &search {
        AudienceSearch::Subscription { request, .. } => assert_eq!(
            said(request),
            get("/users/u2/preferences/wire_subscription/name/c")
        ),
        _ => panic!("no subscription"),
    }
    let search = search.subscription_read(Ok(None));
    let search = search.subscription_read(Ok(Some(Preference::subscription("u3", "c"))));
    match &search {
        AudienceSearch::Team { request, .. } => assert_eq!(said(request), get("/teams/t")),
        _ => panic!("no team"),
    }
    match search.team_read(Ok(team("t", "ops"))) {
        AudienceSearch::Done(Ok(Some(audience))) => {
            assert_eq!(audience.sender.session, SessionId { value: 1 });
            assert_eq!(audience.recipients.len(), 1);
            assert_eq!(audience.recipients[0].session, SessionId { value: 3 });
        }
        _ => panic!("no audience"),
    }
}

#[test]
fn humans_and_direct_channels_have_no_audience() {
    let begin = || AudienceSearch::begin(&post("p", "human", 1));
    assert_eq!(
        begin().channel_read(Ok(channel("c", "x", "D"))),
        AudienceSearch::Done(Ok(None))
    );
    assert_eq!(
        begin().channel_read(Ok(channel("c", "x", "O"))).bots_found(Ok(vec![known("u2", 2)])),
        AudienceSearch::Done(Ok(None))
    );
    assert_eq!(
        begin().channel_read(Err(answered(500))),
        AudienceSearch::Done(Err(answered(500)))
    );
}

#[test]
fn posting_subscribes_first() {
    let doing = Doing::begin(Purpose::Post {
        message: "hello".to_string(),
        reply_to: Some("root".to_string()),
    });
    let doing = doing
        .resolved(Ok(bound("ops", "c1", "town")))
        .identified(Ok("u1".to_string()))
        .profiled(Ok("codex-x".to_string()))
        .joined(Ok(()));
    match &doing {
        Doing::Record { request, .. } => assert_eq!(
            said(request),
            sends(
                Method::Put,
                "/users/u1/preferences",
                r#"[{"category":"wire_subscription","name":"c1","user_id":"u1","value":"1"}]"#
            )
        ),
        _ => panic!("no record"),
    }
    let doing = doing.recorded(Ok(()));
    match &doing {
        Doing::Post { request, .. } => assert_eq!(
            said(request),
            sends(
                Method::Post,
                "/posts",
                r#"{"channel_id":"c1","message":"hello","root_id":"root"}"#
            )
        ),
        _ => panic!("no post"),
    }
    match doing.posted(Ok(post("p", "u1", 1))) {
        Doing::Posted(created) => assert_eq!(created.sender, "codex-x"),
        _ => panic!("not posted"),
    }
}

#[test]
fn recorded_subscriptions_count() {
    let recorded = Preference::subscription("u1", "c1");
    assert!(recorded.in_force());
    let request = set_subscription("u1", "c1", SubscriptionState::Subscribed);
    assert_eq!(
        said(&request),
        sends(
            Method::Put,
            "/users/u1/preferences",
            &format!(
                r#"[{{"category":"{}","name":"{}","user_id":"{}","value":"{}"}}]"#,
                recorded.category, recorded.name, recorded.user_id, recorded.value
            )
        )
    );
    assert!(!Preference { value: "0".to_string(), ..recorded }.in_force());
}

#[test]
fn subscribing_posts_nothing() {
    let doing = Doing::begin(Purpose::Subscribe)
        .resolved(Ok(bound("ops", "c1", "town")))
        .identified(Ok("u1".to_string()))
        .profiled(Ok("codex-x".to_string()))
        .joined(Ok(()))
        .recorded(Ok(()));
    assert!(matches!(
        doing,
        Doing::Subscribed(subscription) if subscription.state == SubscriptionState::Subscribed
    ));
    assert_eq!(
        Doing::begin(Purpose::Subscribe).resolved(Err(answered(403))),
        Doing::Failed(answered(403))
    );
}

#[test]
fn unsubscribing_needs_a_bot() {
    let channel = bound("ops", "c1", "town");
    assert_eq!(unsubscription(&None, &channel), None);
    let request = unsubscription(&Some(bot("u1", "n", None)), &channel).unwrap();
    assert_eq!(
        said(&request),
        sends(
            Method::Post,
            "/users/u1/preferences/delete",
            r#"[{"category":"wire_subscription","name":"c1","user_id":"u1","value":"1"}]"#
        )
    );
}

#[test]
fn notes_open_a_channel() {
    let note = Note::begin("help", None)
        .identified(Ok("u1".to_string()))
        .profiled(Ok("codex-x".to_string()))
        .addressed(Ok(Addressee { user_id: "op".to_string(), username: "main".to_string() }));
    match &note {
        Note::Open { request, .. } => {
            assert_eq!(said(request), sends(Method::Post, "/channels/direct", r#"["u1","op"]"#))
        }
        _ => panic!("no channel"),
    }
    let note = note.opened(Ok(channel("dm", "x", "D")));
    match &note {
        Note::Post { request, .. } => assert_eq!(
            said(request),
            sends(Method::Post, "/posts", r#"{"channel_id":"dm","message":"help","root_id":""}"#)
        ),
        _ => panic!("no post"),
    }
    assert_eq!(
        note.posted(Ok(post("p", "u1", 1))),
        Note::Done(Ok(CreatedDirectMessage {
            post: post("p", "u1", 1),
            sender: "codex-x".to_string(),
            recipient: "main".to_string(),
        }))
    );
}

#[test]
fn profiles_follow_titles() {
    let profile = Profile::of(&session(), &bot("u", "codex-x", None));
    assert_eq!(profile.current(&session()), Some("codex-x".to_string()));
    let renamed = Session { id: id(), title: Some("New".to_string()) };
    assert_eq!(profile.current(&renamed), None);
}

#[test]
fn identities_come_from_bots() {
    let identity = agent_identity(&session(), Some(bot("u", "n", Some("A life."))));
    assert_eq!(identity.name, "Codex 0123abcd");
    assert_eq!(identity.biography, Some("A life.".to_string()));
    assert_eq!(agent_identity(&session(), None).biography, None);
    let life = wire::identity::validate(&format!("  Codex session {}  ", "x".repeat(120))).unwrap();
    let shown = agent_identity(&session(), Some(bot("u", "n", Some(&life))));
    assert_eq!(shown.biography, Some(life));
    assert_eq!(
        said(&publish_biography(&session(), "u", &bot("u", "n", Some("Old.")), "New.")),
        sends(
            Method::Put,
            "/bots/u",
            r#"{"description":"New.","display_name":"Codex 0123abcd","username":"n"}"#
        )
    );
}

#[test]
fn accounts_are_looked_up_then_created() {
    let search = Provision::begin(session());
    match &search {
        Provision::LookUp { request, .. } => {
            assert_eq!(said(request), get(&format!("/users/username/{LEGACY}")))
        }
        _ => panic!("no look"),
    }
    let search = search.found(Ok(None));
    match &search {
        Provision::Create { request, .. } => {
            assert_eq!(request.path, "/users");
            let body = request.body.as_ref().unwrap();
            assert_eq!(body.get("email"), Some(&Json::string(EMAIL)));
            assert_eq!(body.get("username"), Some(&Json::string(LEGACY)));
            assert_eq!(body.get("first_name"), Some(&Json::string("Codex 0123abcd")));
            assert_eq!(body.at("props", "wire_session"), Some(&Json::string(UUID)));
            assert_eq!(body.get("email_verified"), Some(&Json::Bool(true)));
            assert_eq!(body.get("disable_welcome_email"), Some(&Json::Bool(true)));
        }
        _ => panic!("no creation"),
    }
    let search = search.created(Ok(account("u", EMAIL, None)));
    assert!(matches!(search, Provision::Convert { .. }));
}

#[test]
fn accounts_of_others_are_left_alone() {
    let titled = Session { id: id(), title: Some("Forge".to_string()) };
    let search = Provision::begin(titled).found(Ok(Some(account("u", "me@example.org", None))));
    match &search {
        Provision::LookUp { request, trial } => {
            assert_eq!(trial.at, 1);
            assert_eq!(said(request), get("/users/username/codex-forge-0123"));
        }
        _ => panic!("no second look"),
    }
    let bound = search.found(Ok(Some(account("u", "me@example.org", Some(UUID)))));
    assert!(matches!(bound, Provision::Convert { .. }));
    let last = Provision::begin(session()).found(Ok(Some(account("u", "x", None))));
    assert_eq!(
        last,
        Provision::Failed(WireError::Configuration(
            "no available Mattermost username for this session".to_string()
        ))
    );
}

#[test]
fn races_for_accounts_are_looked_at_again() {
    let lost = || Provision::begin(session()).found(Ok(None)).created(Err(answered(400)));
    assert!(matches!(lost(), Provision::LookAgain { .. }));
    assert!(matches!(
        lost().found(Ok(Some(account("u", EMAIL, None)))),
        Provision::Convert { .. }
    ));
    assert!(matches!(lost().found(Ok(None)), Provision::Failed(WireError::Configuration(_))));
    assert_eq!(
        Provision::begin(session()).found(Ok(None)).created(Err(answered(500))),
        Provision::Failed(answered(500))
    );
    assert_eq!(
        Provision::begin(session()).found(Err(answered(500))),
        Provision::Failed(answered(500))
    );
}

#[test]
fn conversions_converge() {
    let look = || Conversion::begin("u");
    assert_eq!(
        look().looked(Ok(Some(bot("u", "n", None)))),
        Conversion::Ready(bot("u", "n", None))
    );
    match look().looked(Ok(None)) {
        Conversion::Convert { request, .. } => {
            assert_eq!(said(&request), sends(Method::Post, "/users/u/convert_to_bot", "{}"))
        }
        _ => panic!("no conversion"),
    }
    let failed = || look().looked(Ok(None)).converted(Err(answered(500)));
    assert_eq!(
        failed().looked(Ok(Some(bot("u", "n", None)))),
        Conversion::Ready(bot("u", "n", None))
    );
    assert_eq!(failed().looked(Ok(None)), Conversion::Failed(answered(500)));
    assert_eq!(
        look().looked(Ok(None)).converted(Ok(bot("u", "n", None))),
        Conversion::Ready(bot("u", "n", None))
    );
}

#[test]
fn profiles_are_bound_and_kept() {
    let right = || bot("u", LEGACY, Some("A life."));
    let sync = ProfileSync::begin(session(), right());
    assert_eq!(sync.user_read(Ok(bound_user("u"))), ProfileSync::Done(Ok(right())));
    for unbound in [user("u", Some(UUID)), User { email: EMAIL.to_string(), ..user("u", None) }] {
        let sync = ProfileSync::begin(session(), right()).user_read(Ok(unbound));
        assert!(matches!(sync, ProfileSync::Bind { .. }));
    }
    let mut other = user("u", None);
    other.props = Some(vec![Property { key: "k".to_string(), value: "v".to_string() }]);
    let sync = ProfileSync::begin(session(), right()).user_read(Ok(other));
    match &sync {
        ProfileSync::Bind { request, .. } => assert_eq!(
            said(request),
            sends(
                Method::Put,
                "/users/u/patch",
                &format!(r#"{{"email":"{EMAIL}","props":{{"k":"v","wire_session":"{UUID}"}}}}"#)
            )
        ),
        _ => panic!("no binding"),
    }
    assert_eq!(sync.bound(Ok(())), ProfileSync::Done(Ok(right())));
}

#[test]
fn profiles_take_a_free_name() {
    let wrong = || bot("u", "stranger", Some("A life."));
    let search =
        || ProfileSync::begin(session(), wrong()).user_read(Ok(bound_user("u")));
    match &search() {
        ProfileSync::Search { request, .. } => {
            assert_eq!(said(request), get(&format!("/users/username/{LEGACY}")))
        }
        _ => panic!("no search"),
    }
    let update = search().searched(Ok(None));
    match &update {
        ProfileSync::Update { request } => assert_eq!(
            said(request),
            sends(
                Method::Put,
                "/bots/u",
                &format!(
                    r#"{{"description":"A life.","display_name":"Codex 0123abcd","username":"{LEGACY}"}}"#
                )
            )
        ),
        _ => panic!("no update"),
    }
    assert_eq!(update.updated(Ok(wrong())), ProfileSync::Done(Ok(wrong())));
    assert!(matches!(search().searched(Ok(Some(user("u", None)))), ProfileSync::Update { .. }));
    assert_eq!(
        search().searched(Ok(Some(user("v", None)))),
        ProfileSync::Done(Err(WireError::Configuration(
            "no available Mattermost username for this session".to_string()
        )))
    );
}

#[test]
fn profiles_are_relabelled_under_their_name() {
    let mut stale_label = bot("u", LEGACY, None);
    stale_label.display_name = "Old".to_string();
    let sync = ProfileSync::begin(session(), stale_label).user_read(Ok(bound_user("u")));
    match sync {
        ProfileSync::Update { request } => assert_eq!(
            said(&request),
            sends(
                Method::Put,
                "/bots/u",
                &format!(
                    r#"{{"description":"","display_name":"Codex 0123abcd","username":"{LEGACY}"}}"#
                )
            )
        ),
        _ => panic!("no update"),
    }
}

#[test]
fn memberships_converge() {
    let (team_place, channel_place) = places(&bound("ops", "c1", "town"));
    assert_eq!(team_place, Place::Team { team_id: "t".to_string() });
    let relation = Relation::begin(channel_place, "u");
    match &relation {
        Relation::Probe { request, .. } => {
            assert_eq!(said(request), get("/channels/c1/members/u"))
        }
        _ => panic!("no probe"),
    }
    let relation = relation.probed(Ok(false));
    match &relation {
        Relation::Join { request, .. } => assert_eq!(
            said(request),
            sends(Method::Post, "/channels/c1/members", r#"{"channel_id":"c1","user_id":"u"}"#)
        ),
        _ => panic!("no entry"),
    }
    assert_eq!(relation.joined(Ok(())), Relation::Done(Ok(true)));
    let start = || Relation::begin(Place::Team { team_id: "t".to_string() }, "u");
    assert_eq!(start().probed(Ok(true)), Relation::Done(Ok(false)));
    let failed = || start().probed(Ok(false)).joined(Err(answered(400)));
    assert_eq!(failed().probed(Ok(true)), Relation::Done(Ok(false)));
    assert_eq!(failed().probed(Ok(false)), Relation::Done(Err(answered(400))));
}

#[test]
fn tokens_are_checked() {
    let search = || TokenSearch::begin(session(), "u").looked_up(Ok(Some("tok".to_string())));
    match &search() {
        TokenSearch::Check { request, .. } => assert_eq!(said(request), get("/users/me")),
        _ => panic!("no check"),
    }
    assert_eq!(search().checked(Ok(user("u", None))), TokenSearch::Done(Ok("tok".to_string())));
    match search().checked(Ok(user("v", None))) {
        TokenSearch::LookUp { account, .. } => assert_eq!(account, LEGACY),
        _ => panic!("no second look"),
    }
    assert!(matches!(search().checked(Err(answered(401))), TokenSearch::LookUp { .. }));
    assert_eq!(search().checked(Err(answered(500))), TokenSearch::Done(Err(answered(500))));
}

#[test]
fn tokens_of_former_accounts_move() {
    let search = TokenSearch::begin(session(), "u")
        .looked_up(Ok(None))
        .looked_up(Ok(Some("tok".to_string())))
        .checked(Ok(user("u", None)));
    assert!(matches!(&search, TokenSearch::Store { token, .. } if token == "tok"));
    let search = search.stored(Ok(()));
    assert!(matches!(&search, TokenSearch::Clear { account, .. } if account == LEGACY));
    assert_eq!(search.cleared(), TokenSearch::Done(Ok("tok".to_string())));
}

#[test]
fn tokens_are_minted_last() {
    let mint = || TokenSearch::begin(session(), "u").looked_up(Ok(None)).looked_up(Ok(None));
    match &mint() {
        TokenSearch::Mint { request, .. } => assert_eq!(
            said(request),
            sends(
                Method::Post,
                "/users/u/tokens",
                &format!(r#"{{"description":"wire {UUID}"}}"#)
            )
        ),
        _ => panic!("no mint"),
    }
    let access = || AccessToken { id: "a".to_string(), token: "new".to_string() };
    assert_eq!(
        mint().minted(Ok(access())).kept(Ok(())),
        TokenSearch::Done(Ok("new".to_string()))
    );
    let broken = WireError::Keyring("locked".to_string());
    let revoke = mint().minted(Ok(access())).kept(Err(WireError::Keyring("locked".to_string())));
    match &revoke {
        TokenSearch::Revoke { request, .. } => assert_eq!(
            said(request),
            sends(Method::Post, "/users/tokens/revoke", r#"{"token_id":"a"}"#)
        ),
        _ => panic!("not revoked"),
    }
    assert_eq!(revoke.revoked(), TokenSearch::Done(Err(broken)));
}

#[test]
fn passwords_are_fresh() {
    assert_eq!(password(1), "wire-00000000000000000000000000000001");
    let first = fresh_password();
    assert_eq!(first.len(), 37);
    assert!(first.starts_with("wire-"));
    assert_ne!(first, fresh_password());
    assert_eq!(&first[17..18], "4");
    assert!("89ab".contains(&first[21..22]));
}

#[test]
fn answers_are_received() {
    assert_eq!(reception(200, false), Reception::Accepted);
    assert_eq!(reception(299, true), Reception::Accepted);
    assert_eq!(reception(404, true), Reception::Absent);
    assert_eq!(reception(404, false), Reception::Rejected);
    assert_eq!(reception(300, false), Reception::Rejected);
    assert_eq!(reception(199, false), Reception::Rejected);
    let body = format!("{}ää", "x".repeat(1_999));
    assert_eq!(
        rejection(500, "500 Internal Server Error".to_string(), &body).text(),
        format!("Mattermost returned HTTP 500 Internal Server Error: {}", "x".repeat(1_999))
    );
}

#[test]
fn secrets_have_attributes() {
    let joined = |args: Vec<String>| args.join(" ");
    assert_eq!(
        joined(secret_args("lookup", "admin", None)),
        "lookup application wire service mattermost account admin"
    );
    assert_eq!(
        joined(secret_args("clear", "session", Some(id()))),
        format!("clear application wire service mattermost account session session {UUID}")
    );
    assert_eq!(
        joined(store_args("session", id(), "Codex 0123abcd")),
        format!(
            "store --label=Wire Codex 0123abcd application wire service mattermost account session session {UUID}"
        )
    );
}

fn ended(success: bool, code: i32, stdout: &[u8], stderr: &[u8]) -> CommandOutput {
    CommandOutput { success, code: Some(code), stdout: stdout.to_vec(), stderr: stderr.to_vec() }
}

#[test]
fn secrets_are_read() {
    assert_eq!(secret_output(ended(true, 0, b" tok\n", b"")), Ok(Some("tok".to_string())));
    assert_eq!(secret_output(ended(true, 0, b" \n", b"")), Ok(None));
    assert_eq!(secret_output(ended(false, 1, b"", b"")), Ok(None));
    let keyring = |message: &str| Err(WireError::Keyring(message.to_string()));
    assert_eq!(secret_output(ended(false, 1, b"", b" locked\n")), keyring("locked"));
    assert_eq!(
        secret_output(ended(true, 0, b"\xff", b"")),
        keyring("invalid utf-8 sequence of 1 bytes from index 0")
    );
    assert_eq!(secret_output(ended(false, 2, b"", b"\xff")), keyring("\u{fffd}"));
    assert_eq!(secret_cleared(ended(true, 0, b"", b"")), Ok(true));
    assert_eq!(secret_cleared(ended(false, 1, b"", b"")), Ok(false));
    assert!(secret_cleared(ended(false, 2, b"", b"")).is_err());
    assert_eq!(secret_stored(ended(true, 0, b"", b"x")), Ok(()));
    assert_eq!(
        secret_stored(ended(false, 1, b"", b"no")),
        Err(WireError::Keyring("no".to_string()))
    );
}

fn config(text: &str) -> Option<ConfigSource> {
    Some(ConfigSource {
        path: "/c/config.toml".to_string(),
        file: ConfigFile::Text(text.to_string()),
    })
}

#[test]
fn broadcast_switch() {
    let load = |variable: Variable, source: Option<ConfigSource>| {
        ChannelBroadcast::load(&variable, source)
    };
    let present = |value: &str| Variable::Present(value.to_string());
    assert_eq!(load(present(" true "), None), Ok(ChannelBroadcast::Enabled));
    assert_eq!(load(present("false"), None), Ok(ChannelBroadcast::Disabled));
    assert_eq!(
        load(present("yes"), None),
        Err("WIRE_CHANNEL_BROADCAST must be `true` or `false`".to_string())
    );
    assert_eq!(
        load(Variable::NotUnicode, None),
        Err("WIRE_CHANNEL_BROADCAST is not UTF-8".to_string())
    );
    assert_eq!(load(Variable::Absent, None), Ok(ChannelBroadcast::Disabled));
    let on = "[mcp_servers.wire.env]\nWIRE_CHANNEL_BROADCAST = \"true\"\n";
    assert_eq!(load(Variable::Absent, config(on)), Ok(ChannelBroadcast::Enabled));
    assert_eq!(load(present("false"), config(on)), Ok(ChannelBroadcast::Disabled));
    assert_eq!(
        load(Variable::Absent, config("[mcp_servers.wire]\nenv = 5\n")),
        Ok(ChannelBroadcast::Disabled)
    );
    assert_eq!(
        load(
            Variable::Absent,
            config("[mcp_servers.wire.env]\nWIRE_CHANNEL_BROADCAST = true\n")
        ),
        Err("mcp_servers.wire.env.WIRE_CHANNEL_BROADCAST must be a string".to_string())
    );
    let complaint = load(Variable::Absent, config("= 1")).unwrap_err();
    assert!(complaint.starts_with("cannot parse /c/config.toml: "));
    let source = |file: ConfigFile| Some(ConfigSource { path: "/c".to_string(), file });
    assert_eq!(
        load(Variable::Absent, source(ConfigFile::Missing)),
        Ok(ChannelBroadcast::Disabled)
    );
    assert_eq!(
        load(Variable::Absent, source(ConfigFile::Failed("denied".to_string()))),
        Err("cannot read /c: denied".to_string())
    );
    assert!(ChannelBroadcast::Enabled.enabled());
    assert!(!ChannelBroadcast::Disabled.enabled());
    assert_eq!(ChannelBroadcast::parse("true"), Ok(ChannelBroadcast::Enabled));
    assert_eq!(ChannelBroadcast::from_switch(Switch::Absent), Ok(ChannelBroadcast::Disabled));
}

#[test]
fn roots_are_checked() {
    let load = |url: Option<&str>| Pending::load(Ok(ChannelBroadcast::Enabled), url, None);
    assert_eq!(load(None).unwrap().base, "http://127.0.0.1:8065/api/v4");
    assert_eq!(load(Some("https://chat.example/api//")).unwrap().base, "https://chat.example/api");
    let fault = |message: &str| Err(WireError::Configuration(message.to_string()));
    let no_root = "WIRE_URL must be an HTTP(S) API root without credentials, query, or fragment";
    for url in [
        "ftp://chat.example/",
        "mailto:me@example.org",
        "http://me@chat.example/",
        "http://:pw@chat.example/",
        "http://chat.example/?q",
        "http://chat.example/#f",
    ] {
        assert_eq!(load(Some(url)), fault(no_root));
    }
    assert_eq!(load(Some("nonsense")), fault("WIRE_URL: relative URL without a base"));
    assert_eq!(Pending::load(Err("off".to_string()), None, None), fault("off"));
    let parts = UrlParts {
        scheme: "http".to_string(),
        opaque: false,
        username: String::new(),
        has_password: false,
        has_query: false,
        has_fragment: false,
        path: "/".to_string(),
    };
    assert_eq!(require_root(Ok(parts)), Ok(()));
}

#[test]
fn administrator_tokens() {
    let load = |token: Option<&str>| {
        Pending::load(Ok(ChannelBroadcast::Disabled), None, token).unwrap()
    };
    let settings = |token: &str| {
        Ok(Settings {
            base: "http://127.0.0.1:8065/api/v4".to_string(),
            admin_token: token.to_string(),
            broadcast: ChannelBroadcast::Disabled,
        })
    };
    assert_eq!(load(Some("tok")).complete(Ok(None)), settings("tok"));
    assert_eq!(load(Some("  ")).complete(Ok(Some("kept".to_string()))), settings("kept"));
    assert_eq!(
        load(None).complete(Ok(None)),
        Err(WireError::Keyring("Mattermost administrator token is absent".to_string()))
    );
    assert_eq!(load(None).complete(Err(answered(500))), Err(answered(500)));
}

#[test]
fn live_connections_have_an_address() {
    assert_eq!(
        websocket_url("http://127.0.0.1:8065/api/v4"),
        Ok("ws://127.0.0.1:8065/api/v4/websocket".to_string())
    );
    assert_eq!(
        websocket_url("https://chat.example"),
        Ok("wss://chat.example/websocket".to_string())
    );
    let fault = |message: &str| Err(WireError::Configuration(message.to_string()));
    assert_eq!(
        websocket_url("ftp://chat.example"),
        fault("WIRE_URL does not project to a WebSocket URL")
    );
    assert_eq!(websocket_url("x"), fault("WIRE_URL: relative URL without a base"));
    let long = format!("http://chat.example/{}", "a".repeat(URL_CHARS));
    assert_eq!(websocket_url(&long), fault("WIRE_URL is too long"));
    assert_eq!(websocket_scheme("https"), Some("wss"));
    assert_eq!(websocket_path("/api/"), "/api/websocket");
}

#[test]
fn paths_are_joined() {
    let bytes = |text: &str| text.as_bytes().to_vec();
    let home = bytes("/home/me");
    let codex = bytes("/codex/");
    assert_eq!(
        control_socket(Some(&codex), Some(&home)),
        bytes("/codex/app-server-control/app-server-control.sock")
    );
    assert_eq!(
        control_socket(None, Some(&home)),
        bytes("/home/me/.codex/app-server-control/app-server-control.sock")
    );
    assert_eq!(
        control_socket(None, None),
        bytes(".codex/app-server-control/app-server-control.sock")
    );
    assert_eq!(codex_config(Some(&codex), Some(&home)), Some(bytes("/codex/config.toml")));
    assert_eq!(
        codex_config(Some(&bytes("relative")), Some(&home)),
        Some(bytes("/home/me/.codex/config.toml"))
    );
    assert_eq!(codex_config(Some(&bytes("")), None), None);
    assert_eq!(session_index(None, Some(&home)), bytes("/home/me/.codex/session_index.jsonl"));
    assert_eq!(session_index(None, None), bytes("session_index.jsonl"));
    let lock = lock_path(None, Some(&home), id()).unwrap();
    assert_eq!(lock.directory, bytes("/home/me/.codex/tmp/wire/identity"));
    assert_eq!(lock.file, bytes(&format!("/home/me/.codex/tmp/wire/identity/{UUID}.lock")));
    assert!(lock_path(None, None, id()).is_err());
    let record = record_path(None, Some(&home), id());
    assert_eq!(record.directory, bytes("/home/me/.codex/tmp/wire/turns"));
    assert_eq!(record.file, bytes(&format!("/home/me/.codex/tmp/wire/turns/{UUID}")));
    assert_ne!(record.file, record_path(None, Some(&home), SessionId { value: 9 }).file);
    assert_eq!(
        socket_path(None, Some(&bytes("/run/user/1"))),
        Ok(bytes("/run/user/1/wire/relay.sock"))
    );
    assert_eq!(socket_path(Some(&bytes("/s")), None), Ok(bytes("/s")));
    assert_eq!(
        socket_path(None, None).unwrap_err().text(),
        "relay protocol failed: XDG_RUNTIME_DIR or WIRE_RELAY_SOCKET is required"
    );
}
