//! The requests that are put to Mattermost.
use vstd::prelude::*;
use crate::ident::{compact_text, hyphenated_text, lemma_compact_text, SessionId};
use crate::json::{text_array, Json, Tree};
use crate::model::{Preference, SubscriptionState, OPERATOR_USERNAME, SESSION_PROPERTY, SUBSCRIPTION_CATEGORY};
use crate::session::{display_text, Session};
use crate::text::{decimal, glue2, glue3, glue4, number, opt_str, opt_text, texts};

verus! {

#[derive(Clone, Copy, Debug, PartialEq, Eq, Structural)]
pub enum Method {
    Get,
    Post,
    Put,
}

/// A request: what to do, where under the API root, and with what document.
#[derive(Debug, PartialEq, Eq)]
pub struct Request {
    pub method: Method,
    pub path: String,
    pub body: Option<Json>,
}

/// What a request says.
pub struct RequestView {
    pub method: Method,
    pub path: Seq<char>,
    pub body: Option<Tree>,
}

impl View for Request {
    type V = RequestView;

    open spec fn view(&self) -> RequestView {
        RequestView {
            method: self.method,
            path: self.path@,
            body: match self.body {
                Some(json) => Some(json.tree()),
                None => None,
            },
        }
    }
}

pub open spec fn get_view(path: Seq<char>) -> RequestView {
    RequestView { method: Method::Get, path, body: None }
}

pub open spec fn post_view(path: Seq<char>, body: Tree) -> RequestView {
    RequestView { method: Method::Post, path, body: Some(body) }
}

pub open spec fn put_view(path: Seq<char>, body: Tree) -> RequestView {
    RequestView { method: Method::Put, path, body: Some(body) }
}

fn get(path: String) -> (r: Request)
    ensures
        r@ == get_view(path@),
{
    Request { method: Method::Get, path, body: None }
}

fn post(path: String, body: Json) -> (r: Request)
    ensures
        r@ == post_view(path@, body.tree()),
{
    Request { method: Method::Post, path, body: Some(body) }
}

fn put(path: String, body: Json) -> (r: Request)
    ensures
        r@ == put_view(path@, body.tree()),
{
    Request { method: Method::Put, path, body: Some(body) }
}

/// The teams of the caller.
pub fn my_teams() -> (r: Request)
    ensures
        r@ == get_view("/users/me/teams"@),
{
    get("/users/me/teams".to_owned())
}

/// The channels of a team that the caller sees.
pub fn team_channels(team_id: &str) -> (r: Request)
    ensures
        r@ == get_view("/users/me/teams/"@ + team_id@ + "/channels"@),
{
    get(glue3("/users/me/teams/", team_id, "/channels"))
}

/// The user of a name.
pub fn user_named(username: &str) -> (r: Request)
    ensures
        r@ == get_view("/users/username/"@ + username@),
{
    get(glue2("/users/username/", username))
}

/// A user.
pub fn user(user_id: &str) -> (r: Request)
    ensures
        r@ == get_view("/users/"@ + user_id@),
{
    get(glue2("/users/", user_id))
}

/// The user that a token belongs to.
pub fn me() -> (r: Request)
    ensures
        r@ == get_view("/users/me"@),
{
    get("/users/me".to_owned())
}

/// A bot.
pub fn bot(user_id: &str) -> (r: Request)
    ensures
        r@ == get_view("/bots/"@ + user_id@),
{
    get(glue2("/bots/", user_id))
}

/// A channel.
pub fn channel(channel_id: &str) -> (r: Request)
    ensures
        r@ == get_view("/channels/"@ + channel_id@),
{
    get(glue2("/channels/", channel_id))
}

/// The members of a channel.
pub fn channel_members(channel_id: &str) -> (r: Request)
    ensures
        r@ == get_view("/channels/"@ + channel_id@ + "/members"@),
{
    get(glue3("/channels/", channel_id, "/members"))
}

/// A team.
pub fn team(team_id: &str) -> (r: Request)
    ensures
        r@ == get_view("/teams/"@ + team_id@),
{
    get(glue2("/teams/", team_id))
}

/// Whether a user belongs to a team.
pub fn team_member(team_id: &str, user_id: &str) -> (r: Request)
    ensures
        r@ == get_view("/teams/"@ + team_id@ + "/members/"@ + user_id@),
{
    get(glue4("/teams/", team_id, "/members/", user_id))
}

/// Whether a user belongs to a channel.
pub fn channel_member(channel_id: &str, user_id: &str) -> (r: Request)
    ensures
        r@ == get_view("/channels/"@ + channel_id@ + "/members/"@ + user_id@),
{
    get(glue4("/channels/", channel_id, "/members/", user_id))
}

/// The human operator.
pub fn operator() -> (r: Request)
    ensures
        r@ == get_view("/users/username/"@ + OPERATOR_USERNAME@),
{
    user_named(OPERATOR_USERNAME)
}

/// One page of bots.
pub fn bots(page: u64) -> (r: Request)
    ensures
        r@ == get_view("/bots?page="@ + decimal(page as nat) + "&per_page=200"@),
{
    get(glue3("/bots?page=", number(page).as_str(), "&per_page=200"))
}

/// A user's subscription to a channel.
pub fn subscription(user_id: &str, channel_id: &str) -> (r: Request)
    ensures
        r@ == get_view(
            "/users/"@ + user_id@ + ("/preferences/"@ + SUBSCRIPTION_CATEGORY@ + "/name/"@) + channel_id@,
        ),
{
    let middle = glue3("/preferences/", SUBSCRIPTION_CATEGORY, "/name/");
    get(glue4("/users/", user_id, middle.as_str(), channel_id))
}

/// Where the posts of a thread are, or those of a channel before an optional post.
pub open spec fn history_path(
    channel_id: Seq<char>,
    thread: Option<Seq<char>>,
    before: Option<Seq<char>>,
    limit: nat,
) -> Seq<char> {
    match thread {
        Some(root) => "/posts/"@ + root + "/thread?per_page="@ + decimal(limit),
        None => {
            let page = "/channels/"@ + channel_id + "/posts?page=0&per_page="@ + decimal(limit);
            match before {
                Some(id) => page + ("&before="@ + id),
                None => page,
            }
        },
    }
}

/// The posts of a thread, or those of a channel before an optional post.
pub fn history(channel_id: &str, thread: Option<&str>, before: Option<&str>, limit: usize) -> (r: Request)
    ensures
        r@ == get_view(history_path(channel_id@, opt_str(thread), opt_str(before), limit as nat)),
{
    let digits = number(limit as u64);
    match thread {
        Some(root) => get(glue4("/posts/", root, "/thread?per_page=", digits.as_str())),
        None => {
            let page = glue4("/channels/", channel_id, "/posts?page=0&per_page=", digits.as_str());
            match before {
                Some(id) => {
                    let cursor = glue2("&before=", id);
                    get(glue2(page.as_str(), cursor.as_str()))
                },
                None => get(page),
            }
        },
    }
}

/// The users of the given identifiers.
pub fn users(user_ids: &Vec<String>) -> (r: Request)
    ensures
        r@ == post_view("/users/ids"@, text_array(texts(user_ids@))),
{
    post("/users/ids".to_owned(), Json::strings(user_ids))
}

/// The direct channel between two users.
pub fn direct_channel(first: &str, second: &str) -> (r: Request)
    ensures
        r@ == post_view("/channels/direct"@, text_array(seq![first@, second@])),
{
    let mut pair: Vec<String> = Vec::new();
    pair.push(first.to_owned());
    pair.push(second.to_owned());
    assert(texts(pair@) =~= seq![first@, second@]);
    post("/channels/direct".to_owned(), Json::strings(&pair))
}

/// A new post; without `reply_to` it starts a thread of its own.
pub open spec fn post_body(channel_id: Seq<char>, message: Seq<char>, reply_to: Option<Seq<char>>) -> Tree {
    Tree::Object(
        map![
            "channel_id"@ => Tree::Text(channel_id),
            "message"@ => Tree::Text(message),
            "root_id"@ => Tree::Text(match reply_to { Some(id) => id, None => ""@ }),
        ],
    )
}

/// A new post; without `reply_to` it starts a thread of its own.
pub fn create_post(channel_id: &str, message: &str, reply_to: Option<&str>) -> (r: Request)
    ensures
        r@ == post_view("/posts"@, post_body(channel_id@, message@, opt_str(reply_to))),
{
    let root = match reply_to {
        Some(id) => id,
        None => "",
    };
    let body = Json::object().with("channel_id", Json::string(channel_id)).with(
        "message",
        Json::string(message),
    ).with("root_id", Json::string(root));
    post("/posts".to_owned(), body)
}

pub open spec fn bot_body(username: Seq<char>, display_name: Seq<char>, description: Seq<char>) -> Tree {
    Tree::Object(
        map![
            "username"@ => Tree::Text(username),
            "display_name"@ => Tree::Text(display_name),
            "description"@ => Tree::Text(description),
        ],
    )
}

/// A new profile for a bot.
pub fn update_bot(user_id: &str, username: &str, display_name: &str, description: &str) -> (r: Request)
    ensures
        r@ == put_view("/bots/"@ + user_id@, bot_body(username@, display_name@, description@)),
{
    let body = Json::object().with("username", Json::string(username)).with(
        "display_name",
        Json::string(display_name),
    ).with("description", Json::string(description));
    put(glue2("/bots/", user_id), body)
}

/// The password of an account that nobody logs in to.
pub open spec fn password_text(secret: u128) -> Seq<char> {
    "wire-"@ + compact_text(secret)
}

/// Whether 128 bits are a UUID of version 4 in the variant of the standard: the four bits of the
/// version and the two of the variant are fixed, the others free.
pub open spec fn is_random_uuid(value: u128) -> bool {
    (value >> 76u128) & 0xf == 4 && (value >> 62u128) & 0x3 == 2
}

/// `uuid::Uuid::new_v4`: a UUID of version 4. Nothing is claimed of its random bits.
#[verifier::external_body]
fn random_uuid() -> (r: u128)
    ensures
        is_random_uuid(r),
{
    uuid::Uuid::new_v4().as_u128()
}

/// A password that nobody knows.
pub fn fresh_password() -> (r: String)
    ensures
        exists|secret: u128| r@ == #[trigger] password_text(secret) && is_random_uuid(secret),
{
    password(random_uuid())
}

/// The password that 128 bits make.
pub fn password(secret: u128) -> (r: String)
    ensures
        r@ == password_text(secret),
{
    let compact = SessionId { value: secret }.compact();
    glue2("wire-", compact.as_str())
}

pub open spec fn account_body(
    id: SessionId,
    title: Option<Seq<char>>,
    username: Seq<char>,
    email: Seq<char>,
    password: Seq<char>,
) -> Tree {
    Tree::Object(
        map![
            "username"@ => Tree::Text(username),
            "email"@ => Tree::Text(email),
            "password"@ => Tree::Text(password),
            "first_name"@ => Tree::Text(display_text(id, title)),
            "props"@ => Tree::Object(map![SESSION_PROPERTY@ => Tree::Text(hyphenated_text(id.value))]),
            "email_verified"@ => Tree::Bool(true),
            "disable_welcome_email"@ => Tree::Bool(true),
        ],
    )
}

/// A new account, bound to a session from the start.
pub fn create_account(session: &Session, username: &str, email: &str, password: &str) -> (r: Request)
    ensures
        r@ == post_view(
            "/users"@,
            account_body(session.id, opt_text(session.title), username@, email@, password@),
        ),
{
    let props = Json::object().with(SESSION_PROPERTY, Json::Text(session.id.text()));
    let body = Json::object().with("username", Json::string(username)).with(
        "email",
        Json::string(email),
    ).with("password", Json::string(password)).with(
        "first_name",
        Json::Text(session.display_name()),
    ).with("props", props).with("email_verified", Json::Bool(true)).with(
        "disable_welcome_email",
        Json::Bool(true),
    );
    post("/users".to_owned(), body)
}

/// Making an account into a bot. Unlike the creation of a bot, this notifies nobody.
pub fn convert_account(user_id: &str) -> (r: Request)
    ensures
        r@ == post_view("/users/"@ + user_id@ + "/convert_to_bot"@, Tree::Object(Map::empty())),
{
    post(glue3("/users/", user_id, "/convert_to_bot"), Json::object())
}

/// A new access token for a bot.
pub fn create_token(user_id: &str, session: SessionId) -> (r: Request)
    ensures
        r@ == post_view(
            "/users/"@ + user_id@ + "/tokens"@,
            Tree::Object(map!["description"@ => Tree::Text("wire "@ + hyphenated_text(session.value))]),
        ),
{
    let description = glue2("wire ", session.text().as_str());
    post(
        glue3("/users/", user_id, "/tokens"),
        Json::object().with("description", Json::Text(description)),
    )
}

/// The end of an access token.
pub fn revoke_token(token_id: &str) -> (r: Request)
    ensures
        r@ == post_view(
            "/users/tokens/revoke"@,
            Tree::Object(map!["token_id"@ => Tree::Text(token_id@)]),
        ),
{
    post(
        "/users/tokens/revoke".to_owned(),
        Json::object().with("token_id", Json::string(token_id)),
    )
}

/// Entry into a team.
pub fn join_team(team_id: &str, user_id: &str) -> (r: Request)
    ensures
        r@ == post_view(
            "/teams/"@ + team_id@ + "/members"@,
            Tree::Object(
                map!["team_id"@ => Tree::Text(team_id@), "user_id"@ => Tree::Text(user_id@)],
            ),
        ),
{
    post(
        glue3("/teams/", team_id, "/members"),
        Json::object().with("team_id", Json::string(team_id)).with("user_id", Json::string(user_id)),
    )
}

/// Entry into a channel.
pub fn join_channel(channel_id: &str, user_id: &str) -> (r: Request)
    ensures
        r@ == post_view(
            "/channels/"@ + channel_id@ + "/members"@,
            Tree::Object(
                map!["channel_id"@ => Tree::Text(channel_id@), "user_id"@ => Tree::Text(user_id@)],
            ),
        ),
{
    post(
        glue3("/channels/", channel_id, "/members"),
        Json::object().with("channel_id", Json::string(channel_id)).with(
            "user_id",
            Json::string(user_id),
        ),
    )
}

pub open spec fn preference_tree(user_id: Seq<char>, category: Seq<char>, name: Seq<char>, value: Seq<char>) -> Tree {
    Tree::Object(
        map![
            "user_id"@ => Tree::Text(user_id),
            "category"@ => Tree::Text(category),
            "name"@ => Tree::Text(name),
            "value"@ => Tree::Text(value),
        ],
    )
}

/// The preference that records a subscription, in an array of its own.
pub open spec fn subscription_body(user_id: Seq<char>, channel_id: Seq<char>) -> Tree {
    Tree::Array(seq![preference_tree(user_id, SUBSCRIPTION_CATEGORY@, channel_id, "1"@)])
}

fn preferences(preference: &Preference) -> (r: Json)
    ensures
        r.tree() == Tree::Array(
            seq![
                preference_tree(
                    preference.user_id@,
                    preference.category@,
                    preference.name@,
                    preference.value@,
                ),
            ],
        ),
{
    Json::single(
        Json::object().with("user_id", Json::string(preference.user_id.as_str())).with(
            "category",
            Json::string(preference.category.as_str()),
        ).with("name", Json::string(preference.name.as_str())).with(
            "value",
            Json::string(preference.value.as_str()),
        ),
    )
}

/// A subscription to a channel, recorded or removed.
pub fn set_subscription(user_id: &str, channel_id: &str, state: SubscriptionState) -> (r: Request)
    ensures
        r@ == set_subscription_view(user_id@, channel_id@, state),
{
    let preference = Preference::subscription(user_id, channel_id);
    let body = preferences(&preference);
    match state {
        SubscriptionState::Subscribed => put(
            glue3("/users/", user_id, "/preferences"),
            body,
        ),
        SubscriptionState::Unsubscribed => post(
            glue3("/users/", user_id, "/preferences/delete"),
            body,
        ),
    }
}

/// What is removed at the end of a subscription is what was recorded at its beginning.
pub proof fn law_subscriptions_are_undone_as_recorded(user_id: Seq<char>, channel_id: Seq<char>)
    ensures
        set_subscription_view(user_id, channel_id, SubscriptionState::Unsubscribed).body
            == set_subscription_view(user_id, channel_id, SubscriptionState::Subscribed).body,
        set_subscription_view(user_id, channel_id, SubscriptionState::Unsubscribed).path
            == set_subscription_view(user_id, channel_id, SubscriptionState::Subscribed).path
            + "/delete"@,
{
    reveal_strlit("/preferences");
    reveal_strlit("/preferences/delete");
    reveal_strlit("/delete");
    assert("/preferences/delete"@ =~= "/preferences"@ + "/delete"@);
    assert("/users/"@ + user_id + "/preferences/delete"@ =~= "/users/"@ + user_id
        + "/preferences"@ + "/delete"@);
}

/// A subscription to a channel, recorded or removed.
pub open spec fn set_subscription_view(
    user_id: Seq<char>,
    channel_id: Seq<char>,
    state: SubscriptionState,
) -> RequestView {
    match state {
        SubscriptionState::Subscribed => put_view(
            "/users/"@ + user_id + "/preferences"@,
            subscription_body(user_id, channel_id),
        ),
        SubscriptionState::Unsubscribed => post_view(
            "/users/"@ + user_id + "/preferences/delete"@,
            subscription_body(user_id, channel_id),
        ),
    }
}

proof fn lemma_post_keys()
    ensures
        "channel_id"@ != "message"@,
        "channel_id"@ != "root_id"@,
        "message"@ != "root_id"@,
{
    reveal_strlit("channel_id");
    reveal_strlit("message");
    reveal_strlit("root_id");
    assert("channel_id"@.len() == 10);
    assert("message"@.len() == 7 && "message"@[0] == 'm');
    assert("root_id"@.len() == 7 && "root_id"@[0] == 'r');
}

/// A new post goes to its channel with its message as it is, and answers the post that it is to
/// answer, or none.
pub proof fn law_posts_are_put_whole(
    channel_id: Seq<char>,
    message: Seq<char>,
    reply_to: Option<Seq<char>>,
)
    ensures
        post_body(channel_id, message, reply_to).get("channel_id"@) == Some(Tree::Text(channel_id)),
        post_body(channel_id, message, reply_to).get("message"@) == Some(Tree::Text(message)),
        reply_to matches Some(id) ==> post_body(channel_id, message, reply_to).get("root_id"@)
            == Some(Tree::Text(id)),
        reply_to is None ==> post_body(channel_id, message, reply_to).get("root_id"@) == Some(
            Tree::Text(Seq::empty()),
        ),
{
    lemma_post_keys();
    reveal_strlit("");
    assert(""@ =~= Seq::<char>::empty());
}

proof fn lemma_preference_keys()
    ensures
        "user_id"@ != "category"@,
        "user_id"@ != "name"@,
        "user_id"@ != "value"@,
        "category"@ != "name"@,
        "category"@ != "value"@,
        "name"@ != "value"@,
{
    reveal_strlit("user_id");
    reveal_strlit("category");
    reveal_strlit("name");
    reveal_strlit("value");
    assert("user_id"@.len() == 7);
    assert("category"@.len() == 8);
    assert("name"@.len() == 4);
    assert("value"@.len() == 5);
}

/// A subscription is recorded as one preference of the user, named after the channel, whose value is
/// `1`; it ends with the deletion of just that preference.
pub proof fn law_subscriptions_name_user_and_channel(
    user_id: Seq<char>,
    channel_id: Seq<char>,
    state: SubscriptionState,
    listed: Seq<Tree>,
)
    requires
        listed == set_subscription_view(user_id, channel_id, state).body->Some_0->Array_0,
    ensures
        set_subscription_view(user_id, channel_id, state).body == Some(Tree::Array(listed)),
        set_subscription_view(user_id, channel_id, SubscriptionState::Subscribed).method
            == Method::Put,
        set_subscription_view(user_id, channel_id, SubscriptionState::Subscribed).path == "/users/"@
            + user_id + "/preferences"@,
        set_subscription_view(user_id, channel_id, SubscriptionState::Unsubscribed).method
            == Method::Post,
        set_subscription_view(user_id, channel_id, SubscriptionState::Unsubscribed).path
            == "/users/"@ + user_id + "/preferences/delete"@,
        listed.len() == 1,
        listed[0].get("user_id"@) == Some(Tree::Text(user_id)),
        listed[0].get("category"@) == Some(Tree::Text("wire_subscription"@)),
        listed[0].get("name"@) == Some(Tree::Text(channel_id)),
        listed[0].get("value"@) == Some(Tree::Text("1"@)),
{
    lemma_preference_keys();
}

/// A history of a channel names the channel and how many posts are wanted, and adds the post before
/// which they are wanted, if any; that of a thread names the thread and leaves out the rest.
pub proof fn law_histories_are_asked_for(
    channel_id: Seq<char>,
    other: Seq<char>,
    root: Seq<char>,
    before: Seq<char>,
    limit: nat,
)
    ensures
        history_path(channel_id, None, None, limit) == "/channels/"@ + channel_id
            + "/posts?page=0&per_page="@ + decimal(limit),
        history_path(channel_id, None, Some(before), limit) == history_path(
            channel_id,
            None,
            None,
            limit,
        ) + ("&before="@ + before),
        history_path(channel_id, Some(root), None, limit) == "/posts/"@ + root
            + "/thread?per_page="@ + decimal(limit),
        history_path(channel_id, Some(root), Some(before), limit) == history_path(
            other,
            Some(root),
            None,
            limit,
        ),
{
}

/// A profile holds the name, the display name and the description that it is given.
pub proof fn law_profiles_hold_their_parts(
    username: Seq<char>,
    display_name: Seq<char>,
    description: Seq<char>,
)
    ensures
        bot_body(username, display_name, description).get("username"@) == Some(
            Tree::Text(username),
        ),
        bot_body(username, display_name, description).get("display_name"@) == Some(
            Tree::Text(display_name),
        ),
        bot_body(username, display_name, description).get("description"@) == Some(
            Tree::Text(description),
        ),
{
    reveal_strlit("username");
    reveal_strlit("display_name");
    reveal_strlit("description");
    assert("username"@.len() == 8);
    assert("display_name"@.len() == 12);
    assert("description"@.len() == 11);
}

/// A new account has the name, address and password that it is given and is called after its
/// session; its address counts as verified, nobody is written to, and it is bound to the session.
pub proof fn law_accounts_are_bound(
    id: SessionId,
    title: Option<Seq<char>>,
    username: Seq<char>,
    email: Seq<char>,
    password: Seq<char>,
)
    ensures
        account_body(id, title, username, email, password).get("username"@) == Some(
            Tree::Text(username),
        ),
        account_body(id, title, username, email, password).get("email"@) == Some(Tree::Text(email)),
        account_body(id, title, username, email, password).get("password"@) == Some(
            Tree::Text(password),
        ),
        account_body(id, title, username, email, password).get("first_name"@) == Some(
            Tree::Text(display_text(id, title)),
        ),
        account_body(id, title, username, email, password).get("email_verified"@) == Some(
            Tree::Bool(true),
        ),
        account_body(id, title, username, email, password).get("disable_welcome_email"@) == Some(
            Tree::Bool(true),
        ),
        account_body(id, title, username, email, password).at("props"@, "wire_session"@) == Some(
            Tree::Text(hyphenated_text(id.value)),
        ),
{
    reveal_strlit("username");
    reveal_strlit("email");
    reveal_strlit("password");
    reveal_strlit("first_name");
    reveal_strlit("props");
    reveal_strlit("email_verified");
    reveal_strlit("disable_welcome_email");
    assert("username"@.len() == 8 && "username"@[0] == 'u');
    assert("email"@.len() == 5 && "email"@[0] == 'e');
    assert("password"@.len() == 8 && "password"@[0] == 'p');
    assert("first_name"@.len() == 10);
    assert("props"@.len() == 5 && "props"@[0] == 'p');
    assert("email_verified"@.len() == 14);
    assert("disable_welcome_email"@.len() == 21);
}

/// Different secrets make different passwords.
pub proof fn law_passwords_differ(left: u128, right: u128)
    ensures
        password_text(left) == password_text(right) ==> left == right,
        "wire-"@.is_prefix_of(password_text(left)),
{
    let head = "wire-"@.len() as int;
    assert("wire-"@ =~= password_text(left).take(head));
    assert(password_text(left).skip(head) =~= compact_text(left));
    assert(password_text(right).skip(head) =~= compact_text(right));
    if password_text(left) == password_text(right) {
        lemma_compact_text(left);
        lemma_compact_text(right);
    }
}

} // verus!
