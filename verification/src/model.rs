//! What Mattermost knows: users, bots, channels and posts.
use vstd::prelude::*;
use crate::ident::{hyphenated_text, law_session_id_reads_back, named_session, SessionId};
use crate::text::{blank, is_blank, is_white, law_trimmed_text, lowered, opt_text, same, same_ignoring_case, strip_prefix};

verus! {

/// The user property that binds a bot to its session.
pub const SESSION_PROPERTY: &'static str = "wire_session";

/// The preference category of channel subscriptions.
pub const SUBSCRIPTION_CATEGORY: &'static str = "wire_subscription";

/// The account of the human operator.
pub const OPERATOR_USERNAME: &'static str = "main";

/// One entry of a user's properties. Where a key occurs twice, its last value counts.
#[derive(Debug, PartialEq, Eq)]
pub struct Property {
    pub key: String,
    pub value: String,
}

#[derive(Debug, PartialEq, Eq)]
pub struct User {
    pub id: String,
    pub username: String,
    pub email: String,
    pub props: Option<Vec<Property>>,
    pub delete_at: i64,
}

#[derive(Debug, PartialEq, Eq)]
pub struct Team {
    pub id: String,
    pub name: String,
    pub display_name: String,
}

#[derive(Debug, PartialEq, Eq)]
pub struct Channel {
    pub id: String,
    pub team_id: String,
    pub name: String,
    pub display_name: String,
    pub kind: String,
    pub delete_at: i64,
    pub total_msg_count: u64,
}

/// A channel and the team it belongs to.
#[derive(Debug, PartialEq, Eq)]
pub struct BoundChannel {
    pub team: Team,
    pub channel: Channel,
}

#[derive(Debug, PartialEq, Eq)]
pub struct Post {
    pub id: String,
    pub create_at: i64,
    pub update_at: i64,
    pub user_id: String,
    pub channel_id: String,
    pub root_id: String,
    pub message: String,
}

/// A page of posts as Mattermost lists them: an order of keys, and the posts by key.
#[derive(Debug, PartialEq, Eq)]
pub struct PostList {
    pub order: Vec<String>,
    pub posts: Vec<ListedPost>,
}

/// One entry of the posts by key. Where a key occurs twice, its last post counts.
#[derive(Debug, PartialEq, Eq)]
pub struct ListedPost {
    pub key: String,
    pub post: Post,
}

/// Posts of one channel, oldest first, with the users known to have written them.
#[derive(Debug, PartialEq, Eq)]
pub struct Timeline {
    pub channel: BoundChannel,
    pub posts: Vec<Post>,
    pub users: Vec<User>,
}

#[derive(Debug, PartialEq, Eq)]
pub struct CreatedPost {
    pub channel: BoundChannel,
    pub post: Post,
    pub sender: String,
}

#[derive(Debug, PartialEq, Eq)]
pub struct CreatedDirectMessage {
    pub post: Post,
    pub sender: String,
    pub recipient: String,
}

#[derive(Clone, Copy, Debug, PartialEq, Eq, Structural)]
pub enum SubscriptionState {
    Subscribed,
    Unsubscribed,
}

#[derive(Debug, PartialEq, Eq)]
pub struct ChannelSubscription {
    pub channel: BoundChannel,
    pub state: SubscriptionState,
}

/// A bot that speaks for a session. It is established once it has a biography.
#[derive(Debug, PartialEq, Eq)]
pub struct WireBot {
    pub session: SessionId,
    pub username: String,
    pub established: bool,
}

/// Whom an agent's channel post concerns.
#[derive(Debug, PartialEq, Eq)]
pub struct ChannelAudience {
    pub channel: BoundChannel,
    pub sender: WireBot,
    pub recipients: Vec<WireBot>,
}

#[derive(Debug, PartialEq, Eq)]
pub struct AgentIdentity {
    pub session: SessionId,
    pub name: String,
    pub biography: Option<String>,
}

#[derive(Debug, PartialEq, Eq)]
pub struct Bot {
    pub user_id: String,
    pub username: String,
    pub display_name: String,
    pub description: Option<String>,
}

/// An account that has not been made into a bot yet.
#[derive(Debug, PartialEq, Eq)]
pub struct ProvisionalUser {
    pub id: String,
    pub email: String,
    pub props: Option<Vec<Property>>,
}

#[derive(Debug, PartialEq, Eq)]
pub struct ChannelMember {
    pub user_id: String,
}

#[derive(Debug, PartialEq, Eq)]
pub struct Preference {
    pub user_id: String,
    pub category: String,
    pub name: String,
    pub value: String,
}

#[derive(Debug, PartialEq, Eq)]
pub struct AccessToken {
    pub id: String,
    pub token: String,
}

impl Team {
    pub fn copy(&self) -> (r: Team)
        ensures
            r == *self,
    {
        Team {
            id: self.id.clone(),
            name: self.name.clone(),
            display_name: self.display_name.clone(),
        }
    }
}

impl Channel {
    pub fn copy(&self) -> (r: Channel)
        ensures
            r == *self,
    {
        Channel {
            id: self.id.clone(),
            team_id: self.team_id.clone(),
            name: self.name.clone(),
            display_name: self.display_name.clone(),
            kind: self.kind.clone(),
            delete_at: self.delete_at,
            total_msg_count: self.total_msg_count,
        }
    }
}

impl BoundChannel {
    pub fn copy(&self) -> (r: BoundChannel)
        ensures
            r == *self,
    {
        BoundChannel { team: self.team.copy(), channel: self.channel.copy() }
    }
}

impl Post {
    pub fn copy(&self) -> (r: Post)
        ensures
            r == *self,
    {
        Post {
            id: self.id.clone(),
            create_at: self.create_at,
            update_at: self.update_at,
            user_id: self.user_id.clone(),
            channel_id: self.channel_id.clone(),
            root_id: self.root_id.clone(),
            message: self.message.clone(),
        }
    }
}

impl WireBot {
    pub fn copy(&self) -> (r: WireBot)
        ensures
            r == *self,
    {
        WireBot {
            session: self.session,
            username: self.username.clone(),
            established: self.established,
        }
    }
}

/// A copy of an optional text.
pub fn copy_text(value: &Option<String>) -> (r: Option<String>)
    ensures
        r == *value,
{
    match value {
        Some(text) => Some(text.clone()),
        None => None,
    }
}

/// What a list of properties says.
pub open spec fn property_map(properties: Seq<Property>) -> Map<Seq<char>, Seq<char>>
    decreases properties.len(),
{
    if properties.len() == 0 {
        Map::empty()
    } else {
        property_map(properties.drop_last()).insert(
            properties.last().key@,
            properties.last().value@,
        )
    }
}

/// What an optional list of properties says; an absent list says nothing.
pub open spec fn opt_property_map(properties: Option<Vec<Property>>) -> Map<Seq<char>, Seq<char>> {
    match properties {
        Some(properties) => property_map(properties@),
        None => Map::empty(),
    }
}

proof fn lemma_property_absent(properties: Seq<Property>, key: Seq<char>)
    requires
        forall|i: int| 0 <= i < properties.len() ==> (#[trigger] properties[i]).key@ != key,
    ensures
        !property_map(properties).dom().contains(key),
    decreases properties.len(),
{
    if properties.len() > 0 {
        let before = properties.drop_last();
        assert(forall|i: int| 0 <= i < before.len() ==> before[i] == properties[i]);
        lemma_property_absent(before, key);
    }
}

proof fn lemma_property_last(properties: Seq<Property>, at: int)
    requires
        0 <= at < properties.len(),
        forall|i: int|
            at < i < properties.len() ==> (#[trigger] properties[i]).key@ != properties[at].key@,
    ensures
        property_map(properties).dom().contains(properties[at].key@),
        property_map(properties)[properties[at].key@] == properties[at].value@,
    decreases properties.len(),
{
    if at < properties.len() - 1 {
        let before = properties.drop_last();
        assert(forall|i: int| 0 <= i < before.len() ==> before[i] == properties[i]);
        lemma_property_last(before, at);
    }
}

/// The value of a property.
pub fn property<'a>(properties: &'a Option<Vec<Property>>, key: &str) -> (r: Option<&'a String>)
    ensures
        r is Some <==> opt_property_map(*properties).dom().contains(key@),
        r matches Some(value) ==> value@ == opt_property_map(*properties)[key@],
{
    match properties {
        Some(list) => {
            let mut i: usize = list.len();
            while i > 0
                invariant
                    i <= list@.len(),
                    *properties == Some(*list),
                    forall|j: int|
                        i <= j < list@.len() ==> (#[trigger] list@[j]).key@ != key@,
                decreases i,
            {
                i -= 1;
                if same(list[i].key.as_str(), key) {
                    proof {
                        lemma_property_last(list@, i as int);
                    }
                    return Some(&list[i].value);
                }
            }
            proof {
                lemma_property_absent(list@, key@);
            }
            None
        },
        None => None,
    }
}

/// The session to which properties bind a user.
pub open spec fn bound_session(properties: Map<Seq<char>, Seq<char>>) -> Option<SessionId> {
    if properties.dom().contains(SESSION_PROPERTY@) {
        named_session(properties[SESSION_PROPERTY@])
    } else {
        None
    }
}

/// The session to which properties bind a user.
pub fn session_from_properties(properties: &Option<Vec<Property>>) -> (r: Option<SessionId>)
    ensures
        r == bound_session(opt_property_map(*properties)),
{
    match property(properties, SESSION_PROPERTY) {
        Some(text) => SessionId::find(text.as_str()),
        None => None,
    }
}

/// Properties that were bound to a session name that session, whatever they held before.
pub proof fn law_binding_reads_back(properties: Map<Seq<char>, Seq<char>>, session: SessionId)
    ensures
        bound_session(properties.insert(SESSION_PROPERTY@, hyphenated_text(session.value))) == Some(
            session,
        ),
{
    law_session_id_reads_back(session);
}

/// The session that a description of the older form names.
pub open spec fn described_session(description: Option<Seq<char>>) -> Option<SessionId> {
    match description {
        Some(text) => if "Codex session "@.is_prefix_of(text) {
            named_session(text.skip("Codex session "@.len() as int))
        } else {
            None
        },
        None => None,
    }
}

/// The biography that a description holds: prose, neither blank nor a session of the older form.
pub open spec fn biography_text(description: Option<Seq<char>>) -> Option<Seq<char>> {
    match description {
        Some(text) => if is_blank(text) || described_session(description) is Some {
            None
        } else {
            Some(text)
        },
        None => None,
    }
}

impl Bot {
    /// The session that the description names in the older form.
    pub fn legacy_session(&self) -> (r: Option<SessionId>)
        ensures
            r == described_session(opt_text(self.description)),
    {
        match &self.description {
            Some(description) => match strip_prefix(description.as_str(), "Codex session ") {
                Some(rest) => SessionId::find(rest.as_str()),
                None => None,
            },
            None => None,
        }
    }

    /// The biography that the description holds.
    pub fn biography(self) -> (r: Option<String>)
        ensures
            opt_text(r) == biography_text(opt_text(self.description)),
            r is Some ==> r == self.description,
    {
        let legacy = self.legacy_session().is_some();
        match self.description {
            Some(description) => if legacy || blank(description.as_str()) {
                None
            } else {
                Some(description)
            },
            None => None,
        }
    }

    /// Whether the description holds a biography.
    pub fn established(&self) -> (r: bool)
        ensures
            r == (biography_text(opt_text(self.description)) is Some),
    {
        let legacy = self.legacy_session().is_some();
        match &self.description {
            Some(description) => !legacy && !blank(description.as_str()),
            None => false,
        }
    }

    pub fn copy(&self) -> (r: Bot)
        ensures
            r == *self,
    {
        Bot {
            user_id: self.user_id.clone(),
            username: self.username.clone(),
            display_name: self.display_name.clone(),
            description: copy_text(&self.description),
        }
    }
}

impl Preference {
    /// The preference that records a user's subscription to a channel.
    pub fn subscription(user_id: &str, channel_id: &str) -> (r: Preference)
        ensures
            r.user_id@ == user_id@,
            r.category@ == SUBSCRIPTION_CATEGORY@,
            r.name@ == channel_id@,
            r.value@ == "1"@,
    {
        Preference {
            user_id: user_id.to_owned(),
            category: SUBSCRIPTION_CATEGORY.to_owned(),
            name: channel_id.to_owned(),
            value: "1".to_owned(),
        }
    }

    /// Whether the preference records a subscription that is in force.
    pub fn in_force(&self) -> (r: bool)
        ensures
            r == (self.value@ == "1"@),
    {
        same(self.value.as_str(), "1")
    }
}

/// Whether a selector means a name or a display name, whatever its ASCII case.
pub open spec fn selects(selector: Seq<char>, name: Seq<char>, display_name: Seq<char>) -> bool {
    lowered(selector) == lowered(name) || lowered(selector) == lowered(display_name)
}

/// Whether a selector means a name or a display name, whatever its ASCII case.
pub fn name_matches(selector: &str, name: &str, display_name: &str) -> (r: bool)
    ensures
        r == selects(selector@, name@, display_name@),
{
    same_ignoring_case(selector, name) || same_ignoring_case(selector, display_name)
}

/// The last property of a key counts, and a key without a property has no value.
pub proof fn law_last_property_counts(properties: Seq<Property>, at: int, key: Seq<char>)
    ensures
        0 <= at < properties.len() && properties[at].key@ == key && (forall|i: int|
            at < i < properties.len() ==> (#[trigger] properties[i]).key@ != key) ==> property_map(
            properties,
        ).dom().contains(key) && property_map(properties)[key] == properties[at].value@,
        (forall|i: int| 0 <= i < properties.len() ==> (#[trigger] properties[i]).key@ != key)
            ==> !property_map(properties).dom().contains(key),
{
    if 0 <= at < properties.len() && properties[at].key@ == key && (forall|i: int|
        at < i < properties.len() ==> (#[trigger] properties[i]).key@ != key) {
        lemma_property_last(properties, at);
    }
    if forall|i: int| 0 <= i < properties.len() ==> (#[trigger] properties[i]).key@ != key {
        lemma_property_absent(properties, key);
    }
}

/// A user is bound to the session that the last property `wire_session` spells; one without that
/// property, or without properties, is bound to none.
pub proof fn law_users_are_bound(properties: Vec<Property>, at: int, session: SessionId)
    ensures
        0 <= at < properties@.len() && properties@[at].key@ == "wire_session"@
            && properties@[at].value@ == hyphenated_text(session.value) && (forall|i: int|
            at < i < properties@.len() ==> (#[trigger] properties@[i]).key@ != "wire_session"@)
            ==> bound_session(opt_property_map(Some(properties))) == Some(session),
        (forall|i: int|
            0 <= i < properties@.len() ==> (#[trigger] properties@[i]).key@ != "wire_session"@)
            ==> bound_session(opt_property_map(Some(properties))) is None,
        bound_session(opt_property_map(None)) is None,
{
    law_last_property_counts(properties@, at, "wire_session"@);
    law_session_id_reads_back(session);
}

/// The older form of a description is a fixed head and a session, and is no biography; every other
/// description in which anything is visible is one, as it stands.
pub proof fn law_descriptions(text: Seq<char>, session: SessionId, at: int)
    ensures
        described_session(Some("Codex session "@ + hyphenated_text(session.value))) == Some(session),
        biography_text(Some("Codex session "@ + hyphenated_text(session.value))) is None,
        !"Codex session "@.is_prefix_of(text) ==> described_session(Some(text)) is None,
        !"Codex session "@.is_prefix_of(text) && 0 <= at < text.len() && !is_white(text[at])
            ==> biography_text(Some(text)) == Some(text),
        (forall|i: int| 0 <= i < text.len() ==> is_white(#[trigger] text[i])) ==> biography_text(
            Some(text),
        ) is None,
        described_session(None) is None,
        biography_text(None) is None,
{
    let head = "Codex session "@;
    let older = head + hyphenated_text(session.value);
    assert(head =~= older.take(head.len() as int));
    assert(older.skip(head.len() as int) =~= hyphenated_text(session.value));
    law_session_id_reads_back(session);
    law_trimmed_text(text);
}

/// A selector means a name or a display name exactly where it reads the same, capitals or not.
pub proof fn law_selectors(selector: Seq<char>, name: Seq<char>, display_name: Seq<char>)
    ensures
        selects(name, name, display_name),
        selects(display_name, name, display_name),
        selects(lowered(name), name, display_name),
        selects(lowered(display_name), name, display_name),
        selector.len() != name.len() && selector.len() != display_name.len() ==> !selects(
            selector,
            name,
            display_name,
        ),
        selects(selector, name, display_name) == selects(
            lowered(selector),
            lowered(name),
            lowered(display_name),
        ),
{
    assert(lowered(lowered(name)) =~= lowered(name));
    assert(lowered(lowered(display_name)) =~= lowered(display_name));
    assert(lowered(lowered(selector)) =~= lowered(selector));
}

} // verus!
