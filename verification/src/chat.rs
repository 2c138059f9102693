//! Conversations with Mattermost, step by step: posts, subscriptions, direct messages, and who a post
//! concerns.
use vstd::prelude::*;
use crate::directory::{asks_for_authors, channels, concerned, history_posts, history_users, law_audience_is_subscribed, law_counterparts, law_history_is_ordered, page_posts, visible_channels, TeamChannels, audience_candidates, audience_recipients, bot_user_ids, chosen, counterpart, direct, direct_target, judge_counterpart, known_bot, known_map, others, public, is_public, unbound_session, user_session, Candidate, Counterpart, KnownBot, BOT_PAGE};
use crate::error::WireError;
use crate::ident::SessionId;
use crate::json::{text_array, Tree};
use crate::model::{biography_text, copy_text, law_descriptions, AgentIdentity, Bot, BoundChannel, Channel, ChannelAudience, ChannelMember, ChannelSubscription, CreatedDirectMessage, CreatedPost, Post, PostList, Preference, SubscriptionState, Team, Timeline, User, WireBot, SUBSCRIPTION_CATEGORY};
use crate::request::{history_path, bot_body, create_post, direct_channel, get_view, law_posts_are_put_whole, law_profiles_hold_their_parts, law_subscriptions_name_user_and_channel, post_body, post_view, put_view, set_subscription, set_subscription_view, update_bot, Method, Request, RequestView};
use crate::session::{display_text, session_name, Session};
use crate::text::{decimal, is_white, opt_text, same, texts};

verus! {

/// All bots, and the users that they are.
#[derive(Debug, PartialEq, Eq)]
pub struct Roster {
    pub bots: Vec<Bot>,
    pub users: Vec<User>,
}

/// The listing of bots, by what is to be done next. Answers go to `page_read` or `users_read`.
#[derive(Debug, PartialEq, Eq)]
pub enum BotList {
    /// Read a page.
    Page { request: Request, page: u64, bots: Vec<Bot> },
    /// Read the bots' users.
    Users { request: Request, bots: Vec<Bot> },
    Done(Result<Roster, WireError>),
}

/// The listing, about to read a page.
pub open spec fn reads_page(next: BotList, page: u64, bots: Seq<Bot>) -> bool {
    &&& next is Page
    &&& next->page == page
    &&& next->Page_bots@ == bots
    &&& next->Page_request@ == crate::request::get_view(
        "/bots?page="@ + decimal(page as nat) + "&per_page=200"@,
    )
}

/// The listing, once all bots were read. Where there are none, there are no users to read.
pub open spec fn reads_users(next: BotList, bots: Seq<Bot>) -> bool {
    if bots.len() == 0 {
        next is Done && next->Done_0 is Ok && next->Done_0->Ok_0.bots@ == bots
            && next->Done_0->Ok_0.users@.len() == 0
    } else {
        &&& next is Users
        &&& next->Users_bots@ == bots
        &&& next->Users_request@ == post_view(
            "/users/ids"@,
            text_array(texts(bots.map_values(|bot: Bot| bot.user_id))),
        )
    }
}

/// What a page makes of the listing.
pub open spec fn bots_page_read(
    list: BotList,
    result: Result<Vec<Bot>, WireError>,
    next: BotList,
) -> bool {
    match (list, result) {
        (BotList::Page { page, bots, .. }, Ok(more)) => if more@.len() < BOT_PAGE || page
            == u64::MAX {
            reads_users(next, bots@ + more@)
        } else {
            reads_page(next, (page + 1) as u64, bots@ + more@)
        },
        (BotList::Page { .. }, Err(error)) => next == BotList::Done(Err(error)),
        _ => next == list,
    }
}

/// What the users make of the listing.
pub open spec fn bots_users_read(
    list: BotList,
    result: Result<Vec<User>, WireError>,
    next: BotList,
) -> bool {
    match (list, result) {
        (BotList::Users { bots, .. }, Ok(users)) => next == BotList::Done(
            Ok(Roster { bots, users }),
        ),
        (BotList::Users { .. }, Err(error)) => next == BotList::Done(Err(error)),
        _ => next == list,
    }
}

impl BotList {
    pub fn begin() -> (r: BotList)
        ensures
            reads_page(r, 0, Seq::empty()),
    {
        let bots: Vec<Bot> = Vec::new();
        BotList::Page { request: crate::request::bots(0), page: 0, bots }
    }

    /// What a page makes of the listing: a full one is followed by another, up to the last page
    /// that has a number.
    pub fn page_read(self, result: Result<Vec<Bot>, WireError>) -> (r: BotList)
        ensures
            bots_page_read(self, result, r),
    {
        match self {
            BotList::Page { request: _, page, bots } => {
                let mut more = match result {
                    Ok(more) => more,
                    Err(error) => return BotList::Done(Err(error)),
                };
                let mut bots = bots;
                let count = more.len();
                bots.append(&mut more);
                if count >= BOT_PAGE && page < u64::MAX {
                    return BotList::Page {
                        request: crate::request::bots(page + 1),
                        page: page + 1,
                        bots,
                    };
                }
                if bots.len() == 0 {
                    let users: Vec<User> = Vec::new();
                    return BotList::Done(Ok(Roster { bots, users }));
                }
                let ids = bot_user_ids(&bots);
                BotList::Users { request: crate::request::users(&ids), bots }
            },
            other => other,
        }
    }

    /// What the users make of the listing.
    pub fn users_read(self, result: Result<Vec<User>, WireError>) -> (r: BotList)
        ensures
            bots_users_read(self, result, r),
    {
        match self {
            BotList::Users { request: _, bots } => match result {
                Ok(users) => BotList::Done(Ok(Roster { bots, users })),
                Err(error) => BotList::Done(Err(error)),
            },
            other => other,
        }
    }
}

/// What is to be done in a channel.
#[derive(Debug, PartialEq, Eq)]
pub enum Purpose {
    Post { message: String, reply_to: Option<String> },
    Subscribe,
}

/// A session's doings in a channel, by what is to be done next.
#[derive(Debug, PartialEq, Eq)]
pub enum Doing {
    /// Find the channel; the answer goes to `resolved`.
    Resolve { purpose: Purpose },
    /// Find or make the session's bot; its user goes to `identified`.
    Identify { purpose: Purpose, channel: BoundChannel },
    /// Bring its profile up to date; its name goes to `profiled`.
    Profile { purpose: Purpose, channel: BoundChannel, user_id: String },
    /// Let it into the team and the channel; the answer goes to `joined`.
    Join { purpose: Purpose, channel: BoundChannel, user_id: String, sender: String },
    /// Record its subscription; the answer goes to `recorded`.
    Record { request: Request, purpose: Purpose, channel: BoundChannel, sender: String },
    /// Post, in the bot's name; the answer goes to `posted`.
    Post { request: Request, channel: BoundChannel, sender: String },
    Subscribed(ChannelSubscription),
    Posted(CreatedPost),
    Failed(WireError),
}

/// What the channel makes of a session's doings.
pub open spec fn doing_resolved(
    doing: Doing,
    result: Result<BoundChannel, WireError>,
    next: Doing,
) -> bool {
    match (doing, result) {
        (Doing::Resolve { purpose }, Ok(channel)) => next == (Doing::Identify {
            purpose,
            channel,
        }),
        (Doing::Resolve { .. }, Err(error)) => next == Doing::Failed(error),
        _ => next == doing,
    }
}

/// What the bot's user makes of a session's doings.
pub open spec fn doing_identified(
    doing: Doing,
    result: Result<String, WireError>,
    next: Doing,
) -> bool {
    match (doing, result) {
        (Doing::Identify { purpose, channel }, Ok(user_id)) => next == (Doing::Profile {
            purpose,
            channel,
            user_id,
        }),
        (Doing::Identify { .. }, Err(error)) => next == Doing::Failed(error),
        _ => next == doing,
    }
}

/// What the bot's name makes of a session's doings.
pub open spec fn doing_profiled(
    doing: Doing,
    result: Result<String, WireError>,
    next: Doing,
) -> bool {
    match (doing, result) {
        (Doing::Profile { purpose, channel, user_id }, Ok(sender)) => next == (Doing::Join {
            purpose,
            channel,
            user_id,
            sender,
        }),
        (Doing::Profile { .. }, Err(error)) => next == Doing::Failed(error),
        _ => next == doing,
    }
}

/// What the admission to the channel makes of a session's doings.
pub open spec fn doing_joined(
    doing: Doing,
    result: Result<(), WireError>,
    next: Doing,
) -> bool {
    match (doing, result) {
        (Doing::Join { purpose, channel, user_id, sender }, Ok(_)) => {
            &&& next is Record
            &&& next->Record_request@ == set_subscription_view(
                user_id@,
                channel.channel.id@,
                SubscriptionState::Subscribed,
            )
            &&& next->Record_purpose == purpose
            &&& next->Record_channel == channel
            &&& next->Record_sender == sender
        },
        (Doing::Join { .. }, Err(error)) => next == Doing::Failed(error),
        _ => next == doing,
    }
}

impl Doing {
    pub fn begin(purpose: Purpose) -> (r: Doing)
        ensures
            r == (Doing::Resolve { purpose }),
    {
        Doing::Resolve { purpose }
    }

    pub fn resolved(self, result: Result<BoundChannel, WireError>) -> (r: Doing)
        ensures
            doing_resolved(self, result, r),
    {
        match self {
            Doing::Resolve { purpose } => match result {
                Ok(channel) => Doing::Identify { purpose, channel },
                Err(error) => Doing::Failed(error),
            },
            other => other,
        }
    }

    pub fn identified(self, result: Result<String, WireError>) -> (r: Doing)
        ensures
            doing_identified(self, result, r),
    {
        match self {
            Doing::Identify { purpose, channel } => match result {
                Ok(user_id) => Doing::Profile { purpose, channel, user_id },
                Err(error) => Doing::Failed(error),
            },
            other => other,
        }
    }

    pub fn profiled(self, result: Result<String, WireError>) -> (r: Doing)
        ensures
            doing_profiled(self, result, r),
    {
        match self {
            Doing::Profile { purpose, channel, user_id } => match result {
                Ok(sender) => Doing::Join { purpose, channel, user_id, sender },
                Err(error) => Doing::Failed(error),
            },
            other => other,
        }
    }

    pub fn joined(self, result: Result<(), WireError>) -> (r: Doing)
        ensures
            doing_joined(self, result, r),
    {
        match self {
            Doing::Join { purpose, channel, user_id, sender } => match result {
                Ok(()) => Doing::Record {
                    request: set_subscription(
                        user_id.as_str(),
                        channel.channel.id.as_str(),
                        SubscriptionState::Subscribed,
                    ),
                    purpose,
                    channel,
                    sender,
                },
                Err(error) => Doing::Failed(error),
            },
            other => other,
        }
    }

    pub fn recorded(self, result: Result<(), WireError>) -> (r: Doing)
        ensures
            doing_recorded(self, result, r),
    {
        match self {
            Doing::Record { request: _, purpose, channel, sender } => {
                match result {
                    Ok(()) => {},
                    Err(error) => return Doing::Failed(error),
                }
                match purpose {
                    Purpose::Subscribe => Doing::Subscribed(
                        ChannelSubscription { channel, state: SubscriptionState::Subscribed },
                    ),
                    Purpose::Post { message, reply_to } => {
                        let root = match &reply_to {
                            Some(id) => Some(id.as_str()),
                            None => None,
                        };
                        Doing::Post {
                            request: create_post(
                                channel.channel.id.as_str(),
                                message.as_str(),
                                root,
                            ),
                            channel,
                            sender,
                        }
                    },
                }
            },
            other => other,
        }
    }

    pub fn posted(self, result: Result<Post, WireError>) -> (r: Doing)
        ensures
            doing_posted(self, result, r),
    {
        match self {
            Doing::Post { request: _, channel, sender } => match result {
                Ok(post) => Doing::Posted(CreatedPost { channel, post, sender }),
                Err(error) => Doing::Failed(error),
            },
            other => other,
        }
    }
}

/// What the record of a subscription makes of a session's doings.
pub open spec fn doing_recorded(doing: Doing, result: Result<(), WireError>, next: Doing) -> bool {
    match (doing, result) {
        (Doing::Record { .. }, Err(error)) => next == Doing::Failed(error),
        (Doing::Record { purpose, channel, sender, .. }, Ok(_)) => match purpose {
            Purpose::Subscribe => next == Doing::Subscribed(
                ChannelSubscription { channel, state: SubscriptionState::Subscribed },
            ),
            Purpose::Post { message, reply_to } => {
                &&& next is Post
                &&& next->Post_request@ == post_view(
                    "/posts"@,
                    post_body(channel.channel.id@, message@, opt_text(reply_to)),
                )
                &&& next->Post_channel == channel
                &&& next->Post_sender == sender
            },
        },
        _ => next == doing,
    }
}

/// What a post makes of a session's doings.
pub open spec fn doing_posted(doing: Doing, result: Result<Post, WireError>, next: Doing) -> bool {
    match (doing, result) {
        (Doing::Post { channel, sender, .. }, Ok(post)) => next == Doing::Posted(
            CreatedPost { channel, post, sender },
        ),
        (Doing::Post { .. }, Err(error)) => next == Doing::Failed(error),
        _ => next == doing,
    }
}

/// Nothing is posted in a channel before the session's subscription to that channel is recorded.
pub proof fn law_posting_subscribes(
    doing: Doing,
    recorded: Result<(), WireError>,
    posted: Result<Post, WireError>,
    next: Doing,
)
    requires
        doing_recorded(doing, recorded, next) || doing_posted(doing, posted, next),
    ensures
        next is Post && doing !is Post ==> doing is Record && recorded is Ok && next->Post_channel
            == doing->Record_channel,
        next is Posted && doing !is Posted ==> doing is Post,
{
}

/// The end of a session's subscription: nothing is to be done where the session has no bot.
pub open spec fn unsubscribes(bot: Option<Bot>, channel: BoundChannel, r: Option<Request>) -> bool {
    match bot {
        Some(bot) => r is Some && r->Some_0@ == set_subscription_view(
            bot.user_id@,
            channel.channel.id@,
            SubscriptionState::Unsubscribed,
        ),
        None => r is None,
    }
}

/// The end of a session's subscription: nothing is to be done where the session has no bot.
pub fn unsubscription(bot: &Option<Bot>, channel: &BoundChannel) -> (r: Option<Request>)
    ensures
        unsubscribes(*bot, *channel, r),
{
    match bot {
        Some(bot) => Some(
            set_subscription(
                bot.user_id.as_str(),
                channel.channel.id.as_str(),
                SubscriptionState::Unsubscribed,
            ),
        ),
        None => None,
    }
}

/// The one to whom a direct message goes.
#[derive(Debug, PartialEq, Eq)]
pub struct Addressee {
    pub user_id: String,
    pub username: String,
}

/// A direct message, by what is to be done next.
#[derive(Debug, PartialEq, Eq)]
pub enum Note {
    /// Find or make the sender's bot; its user goes to `identified`.
    Identify { message: String, reply_to: Option<String> },
    /// Bring its profile up to date; its name goes to `profiled`.
    Profile { message: String, reply_to: Option<String>, user_id: String },
    /// Find the addressee; the answer goes to `addressed`.
    Address { message: String, reply_to: Option<String>, user_id: String, sender: String },
    /// Open the channel between the two, in the bot's name; the answer goes to `opened`.
    Open {
        request: Request,
        message: String,
        reply_to: Option<String>,
        sender: String,
        recipient: String,
    },
    /// Post, in the bot's name; the answer goes to `posted`.
    Post { request: Request, sender: String, recipient: String },
    Done(Result<CreatedDirectMessage, WireError>),
}

/// A direct message that is not under way.
pub open spec fn note_begins(message: Seq<char>, reply_to: Option<Seq<char>>, next: Note) -> bool {
    &&& next is Identify
    &&& next->Identify_message@ == message
    &&& opt_text(next->Identify_reply_to) == reply_to
}

/// What the bot's user makes of a direct message.
pub open spec fn note_identified(
    note: Note,
    result: Result<String, WireError>,
    next: Note,
) -> bool {
    match (note, result) {
        (Note::Identify { message, reply_to }, Ok(user_id)) => next == (Note::Profile {
            message,
            reply_to,
            user_id,
        }),
        (Note::Identify { .. }, Err(error)) => next == Note::Done(Err(error)),
        _ => next == note,
    }
}

/// What the bot's name makes of a direct message.
pub open spec fn note_profiled(
    note: Note,
    result: Result<String, WireError>,
    next: Note,
) -> bool {
    match (note, result) {
        (Note::Profile { message, reply_to, user_id }, Ok(sender)) => next == (Note::Address {
            message,
            reply_to,
            user_id,
            sender,
        }),
        (Note::Profile { .. }, Err(error)) => next == Note::Done(Err(error)),
        _ => next == note,
    }
}

/// What the addressee makes of a direct message.
pub open spec fn note_addressed(
    note: Note,
    result: Result<Addressee, WireError>,
    next: Note,
) -> bool {
    match (note, result) {
        (Note::Address { message, reply_to, user_id, sender }, Ok(addressee)) => {
            &&& next is Open
            &&& next->Open_request@ == post_view(
                "/channels/direct"@,
                text_array(seq![user_id@, addressee.user_id@]),
            )
            &&& next->Open_message == message
            &&& next->Open_reply_to == reply_to
            &&& next->Open_sender == sender
            &&& next->Open_recipient == addressee.username
        },
        (Note::Address { .. }, Err(error)) => next == Note::Done(Err(error)),
        _ => next == note,
    }
}

/// What the channel between the two makes of a direct message.
pub open spec fn note_opened(
    note: Note,
    result: Result<Channel, WireError>,
    next: Note,
) -> bool {
    match (note, result) {
        (Note::Open { message, reply_to, sender, recipient, .. }, Ok(channel)) => {
            &&& next is Post
            &&& next->Post_request@ == post_view(
                "/posts"@,
                post_body(channel.id@, message@, opt_text(reply_to)),
            )
            &&& next->Post_sender == sender
            &&& next->Post_recipient == recipient
        },
        (Note::Open { .. }, Err(error)) => next == Note::Done(Err(error)),
        _ => next == note,
    }
}

/// What the post makes of a direct message.
pub open spec fn note_posted(
    note: Note,
    result: Result<Post, WireError>,
    next: Note,
) -> bool {
    match (note, result) {
        (Note::Post { sender, recipient, .. }, Ok(post)) => next == Note::Done(
            Ok(CreatedDirectMessage { post, sender, recipient }),
        ),
        (Note::Post { .. }, Err(error)) => next == Note::Done(Err(error)),
        _ => next == note,
    }
}

impl Note {
    pub fn begin(message: &str, reply_to: Option<&str>) -> (r: Note)
        ensures
            note_begins(message@, crate::text::opt_str(reply_to), r),
    {
        let reply_to = match reply_to {
            Some(id) => Some(id.to_owned()),
            None => None,
        };
        Note::Identify { message: message.to_owned(), reply_to }
    }

    pub fn identified(self, result: Result<String, WireError>) -> (r: Note)
        ensures
            note_identified(self, result, r),
    {
        match self {
            Note::Identify { message, reply_to } => match result {
                Ok(user_id) => Note::Profile { message, reply_to, user_id },
                Err(error) => Note::Done(Err(error)),
            },
            other => other,
        }
    }

    pub fn profiled(self, result: Result<String, WireError>) -> (r: Note)
        ensures
            note_profiled(self, result, r),
    {
        match self {
            Note::Profile { message, reply_to, user_id } => match result {
                Ok(sender) => Note::Address { message, reply_to, user_id, sender },
                Err(error) => Note::Done(Err(error)),
            },
            other => other,
        }
    }

    pub fn addressed(self, result: Result<Addressee, WireError>) -> (r: Note)
        ensures
            note_addressed(self, result, r),
    {
        match self {
            Note::Address { message, reply_to, user_id, sender } => match result {
                Ok(addressee) => Note::Open {
                    request: direct_channel(user_id.as_str(), addressee.user_id.as_str()),
                    message,
                    reply_to,
                    sender,
                    recipient: addressee.username,
                },
                Err(error) => Note::Done(Err(error)),
            },
            other => other,
        }
    }

    pub fn opened(self, result: Result<Channel, WireError>) -> (r: Note)
        ensures
            note_opened(self, result, r),
    {
        match self {
            Note::Open { request: _, message, reply_to, sender, recipient } => match result {
                Ok(channel) => {
                    let root = match &reply_to {
                        Some(id) => Some(id.as_str()),
                        None => None,
                    };
                    Note::Post {
                        request: create_post(channel.id.as_str(), message.as_str(), root),
                        sender,
                        recipient,
                    }
                },
                Err(error) => Note::Done(Err(error)),
            },
            other => other,
        }
    }

    pub fn posted(self, result: Result<Post, WireError>) -> (r: Note)
        ensures
            note_posted(self, result, r),
    {
        match self {
            Note::Post { request: _, sender, recipient } => match result {
                Ok(post) => Note::Done(Ok(CreatedDirectMessage { post, sender, recipient })),
                Err(error) => Note::Done(Err(error)),
            },
            other => other,
        }
    }
}

/// What was last made of a bot's profile.
#[derive(Debug, PartialEq, Eq)]
pub struct Profile {
    pub title: Option<String>,
    pub username: String,
}

/// The bot's name, where the session is still called what it was.
pub open spec fn still_called(profile: Profile, session: Session, r: Option<String>) -> bool {
    if opt_text(profile.title) == opt_text(session.title) {
        r == Some(profile.username)
    } else {
        r is None
    }
}

impl Profile {
    /// The profile of a bot that was brought up to date for a session.
    pub fn of(session: &Session, bot: &Bot) -> (r: Profile)
        ensures
            r.title == session.title,
            r.username == bot.username,
    {
        Profile { title: copy_text(&session.title), username: bot.username.clone() }
    }

    /// The bot's name, where the session is still called what it was.
    pub fn current(&self, session: &Session) -> (r: Option<String>)
        ensures
            still_called(*self, *session, r),
    {
        let same_title = match (&self.title, &session.title) {
            (Some(left), Some(right)) => same(left.as_str(), right.as_str()),
            (None, None) => true,
            _ => false,
        };
        if same_title {
            Some(self.username.clone())
        } else {
            None
        }
    }
}

/// The identity of a session, by its bot if it has one.
pub open spec fn is_identity(session: Session, bot: Option<Bot>, identity: AgentIdentity) -> bool {
    &&& identity.session == session.id
    &&& identity.name@ == session_name(session.id, opt_text(session.title))
    &&& opt_text(identity.biography) == match bot {
        Some(bot) => biography_text(opt_text(bot.description)),
        None => None,
    }
}

/// The identity of a session, by its bot if it has one.
pub fn agent_identity(session: &Session, bot: Option<Bot>) -> (r: AgentIdentity)
    ensures
        is_identity(*session, bot, r),
{
    let biography = match bot {
        Some(bot) => bot.biography(),
        None => None,
    };
    AgentIdentity { session: session.id, name: session.name(), biography }
}

/// The request that gives a session's bot a biography; its name is kept.
pub open spec fn publication(
    session: Session,
    user_id: Seq<char>,
    bot: Bot,
    biography: Seq<char>,
) -> RequestView {
    put_view(
        "/bots/"@ + user_id,
        bot_body(bot.username@, display_text(session.id, opt_text(session.title)), biography),
    )
}

/// The request that gives a session's bot a biography; its name is kept.
pub fn publish_biography(session: &Session, user_id: &str, bot: &Bot, biography: &str) -> (r: Request)
    ensures
        r@ == publication(*session, user_id@, *bot, biography@),
{
    let display_name = session.display_name();
    update_bot(user_id, bot.username.as_str(), display_name.as_str(), biography)
}

/// The search for the session that a direct channel reaches, by what is to be done next.
#[derive(Debug, PartialEq, Eq)]
pub enum DirectSearch {
    /// Read the channel; the answer goes to `channel_read`.
    Channel { request: Request, channel_id: String, operator_id: String },
    /// Read its members; the answer goes to `members_read`.
    Members { request: Request, operator_id: String },
    /// Read the other member; the answer goes to `user_read`.
    User { request: Request, user_id: String },
    /// Read it as a bot; the answer goes to `bot_read`.
    Bot { request: Request },
    Done(Result<Option<SessionId>, WireError>),
}

/// The search for whom a direct channel reaches, about to read the channel.
pub open spec fn direct_begins(
    channel_id: Seq<char>,
    operator_id: Seq<char>,
    next: DirectSearch,
) -> bool {
    &&& next is Channel
    &&& next->Channel_request@ == get_view("/channels/"@ + channel_id)
    &&& next->channel_id@ == channel_id
    &&& next->Channel_operator_id@ == operator_id
}

/// What the channel makes of the search. Only a direct one reaches anybody.
pub open spec fn direct_channel_read(
    search: DirectSearch,
    result: Result<Channel, WireError>,
    next: DirectSearch,
) -> bool {
    match (search, result) {
        (DirectSearch::Channel { channel_id, operator_id, .. }, Ok(channel)) =>
            if channel.kind@ == "D"@ {
                &&& next is Members
                &&& next->Members_request@ == get_view(
                    "/channels/"@ + channel_id@ + "/members"@,
                )
                &&& next->Members_operator_id == operator_id
            } else {
                next == DirectSearch::Done(Ok(None))
            },
        (DirectSearch::Channel { .. }, Err(error)) => next == DirectSearch::Done(Err(error)),
        _ => next == search,
    }
}

/// What the members make of the search. There must be exactly one besides the operator.
pub open spec fn direct_members_read(
    search: DirectSearch,
    result: Result<Vec<ChannelMember>, WireError>,
    next: DirectSearch,
) -> bool {
    match (search, result) {
        (DirectSearch::Members { operator_id, .. }, Ok(members)) => {
            let rest = others(members@, operator_id@);
            if rest.len() == 1 {
                &&& next is User
                &&& next->User_request@ == get_view("/users/"@ + rest[0].user_id@)
                &&& next->User_user_id@ == rest[0].user_id@
            } else {
                next == DirectSearch::Done(Ok(None))
            }
        },
        (DirectSearch::Members { .. }, Err(error)) => next == DirectSearch::Done(Err(error)),
        _ => next == search,
    }
}

/// What the other member makes of the search.
pub open spec fn direct_user_read(
    search: DirectSearch,
    result: Result<User, WireError>,
    next: DirectSearch,
) -> bool {
    match (search, result) {
        (DirectSearch::User { user_id, .. }, Ok(user)) => if user.delete_at != 0 {
            next == DirectSearch::Done(Ok(None))
        } else {
            match user_session(user) {
                Some(session) => next == DirectSearch::Done(Ok(Some(session))),
                None => next is Bot && next->Bot_request@ == get_view("/bots/"@ + user_id@),
            }
        },
        (DirectSearch::User { .. }, Err(error)) => next == DirectSearch::Done(Err(error)),
        _ => next == search,
    }
}

/// What the bot makes of the search.
pub open spec fn direct_bot_read(
    search: DirectSearch,
    result: Result<Option<Bot>, WireError>,
    next: DirectSearch,
) -> bool {
    match (search, result) {
        (DirectSearch::Bot { .. }, Ok(bot)) => next == DirectSearch::Done(
            Ok(
                match bot {
                    Some(bot) => crate::model::described_session(opt_text(bot.description)),
                    None => None,
                },
            ),
        ),
        (DirectSearch::Bot { .. }, Err(error)) => next == DirectSearch::Done(Err(error)),
        _ => next == search,
    }
}

impl DirectSearch {
    pub fn begin(channel_id: &str, operator_id: &str) -> (r: DirectSearch)
        ensures
            direct_begins(channel_id@, operator_id@, r),
    {
        DirectSearch::Channel {
            request: crate::request::channel(channel_id),
            channel_id: channel_id.to_owned(),
            operator_id: operator_id.to_owned(),
        }
    }

    pub fn channel_read(self, result: Result<Channel, WireError>) -> (r: DirectSearch)
        ensures
            direct_channel_read(self, result, r),
    {
        match self {
            DirectSearch::Channel { request: _, channel_id, operator_id } => match result {
                Ok(channel) => if direct(&channel) {
                    DirectSearch::Members {
                        request: crate::request::channel_members(channel_id.as_str()),
                        operator_id,
                    }
                } else {
                    DirectSearch::Done(Ok(None))
                },
                Err(error) => DirectSearch::Done(Err(error)),
            },
            other => other,
        }
    }

    pub fn members_read(self, result: Result<Vec<ChannelMember>, WireError>) -> (r: DirectSearch)
        ensures
            direct_members_read(self, result, r),
    {
        match self {
            DirectSearch::Members { request: _, operator_id } => match result {
                Ok(members) => match counterpart(&members, operator_id.as_str()) {
                    Some(user_id) => DirectSearch::User {
                        request: crate::request::user(user_id.as_str()),
                        user_id,
                    },
                    None => DirectSearch::Done(Ok(None)),
                },
                Err(error) => DirectSearch::Done(Err(error)),
            },
            other => other,
        }
    }

    pub fn user_read(self, result: Result<User, WireError>) -> (r: DirectSearch)
        ensures
            direct_user_read(self, result, r),
    {
        match self {
            DirectSearch::User { request: _, user_id } => match result {
                Ok(user) => match judge_counterpart(&user) {
                    Counterpart::Gone => DirectSearch::Done(Ok(None)),
                    Counterpart::Bound(session) => DirectSearch::Done(Ok(Some(session))),
                    Counterpart::Unbound => DirectSearch::Bot {
                        request: crate::request::bot(user_id.as_str()),
                    },
                },
                Err(error) => DirectSearch::Done(Err(error)),
            },
            other => other,
        }
    }

    pub fn bot_read(self, result: Result<Option<Bot>, WireError>) -> (r: DirectSearch)
        ensures
            direct_bot_read(self, result, r),
    {
        match self {
            DirectSearch::Bot { request: _ } => match result {
                Ok(bot) => DirectSearch::Done(Ok(unbound_session(&bot))),
                Err(error) => DirectSearch::Done(Err(error)),
            },
            other => other,
        }
    }
}

/// A search that is answered throughout finds exactly the session that the direct channel reaches.
pub proof fn law_direct_search(
    search: DirectSearch,
    channel: Channel,
    members: Vec<ChannelMember>,
    user: User,
    bot: Option<Bot>,
    after_channel: DirectSearch,
    after_members: DirectSearch,
    after_user: DirectSearch,
    end: DirectSearch,
)
    requires
        search is Channel,
        direct_channel_read(search, Ok(channel), after_channel),
        direct_members_read(after_channel, Ok(members), after_members),
        direct_user_read(after_members, Ok(user), after_user),
        direct_bot_read(after_user, Ok(bot), end),
    ensures
        end == DirectSearch::Done(
            Ok(direct_target(channel, members@, search->Channel_operator_id@, user, bot)),
        ),
{
}

/// What a post's channel, author and members make of its audience, while subscriptions are read.
#[derive(Debug, PartialEq, Eq)]
pub struct Survey {
    pub channel: Channel,
    pub sender: WireBot,
    pub candidates: Vec<Candidate>,
    pub preferences: Vec<Option<Preference>>,
}

/// The search for whom an agent's channel post concerns, by what is to be done next.
#[derive(Debug, PartialEq, Eq)]
pub enum AudienceSearch {
    /// Read the channel; the answer goes to `channel_read`.
    Channel { request: Request, author: String },
    /// Find the bots of Wire; they go to `bots_found`.
    Bots { channel: Channel, author: String },
    /// Read the channel's members; the answer goes to `members_read`.
    Members {
        request: Request,
        channel: Channel,
        author: String,
        sender: WireBot,
        known: Vec<KnownBot>,
    },
    /// Read a candidate's subscription; the answer goes to `subscription_read`.
    Subscription { request: Request, survey: Survey },
    /// Read the channel's team; the answer goes to `team_read`.
    Team { request: Request, survey: Survey },
    Done(Result<Option<ChannelAudience>, WireError>),
}

/// The search, once as many subscriptions were read as there are preferences.
pub open spec fn surveys(next: AudienceSearch, survey: Survey) -> bool {
    let at = survey.preferences@.len();
    if at < survey.candidates@.len() {
        &&& next is Subscription
        &&& next->Subscription_survey == survey
        &&& next->Subscription_request@ == get_view(
            "/users/"@ + survey.candidates@[at as int].user_id@ + ("/preferences/"@
                + SUBSCRIPTION_CATEGORY@ + "/name/"@) + survey.channel.id@,
        )
    } else {
        &&& next is Team
        &&& next->Team_survey == survey
        &&& next->Team_request@ == get_view("/teams/"@ + survey.channel.team_id@)
    }
}

/// There are no more preferences than candidates, and all of them once the team is read.
pub open spec fn audience_sound(search: AudienceSearch) -> bool {
    match search {
        AudienceSearch::Subscription { survey, .. } => survey.preferences@.len()
            < survey.candidates@.len(),
        AudienceSearch::Team { survey, .. } => survey.preferences@.len()
            == survey.candidates@.len(),
        _ => true,
    }
}

/// The search for whom a post concerns, about to read its channel.
pub open spec fn audience_begins(post: Post, next: AudienceSearch) -> bool {
    &&& next is Channel
    &&& next->Channel_request@ == get_view("/channels/"@ + post.channel_id@)
    &&& next->Channel_author == post.user_id
}

/// What the channel makes of the search. Only posts in open and private channels concern anyone.
pub open spec fn audience_channel_read(
    search: AudienceSearch,
    result: Result<Channel, WireError>,
    next: AudienceSearch,
) -> bool {
    match (search, result) {
        (AudienceSearch::Channel { author, .. }, Ok(channel)) => if is_public(channel) {
            next == (AudienceSearch::Bots { channel, author })
        } else {
            next == AudienceSearch::Done(Ok(None))
        },
        (AudienceSearch::Channel { .. }, Err(error)) => next == AudienceSearch::Done(
            Err(error),
        ),
        _ => next == search,
    }
}

/// What the bots of Wire make of the search. Only their own posts concern anyone.
pub open spec fn audience_bots_found(
    search: AudienceSearch,
    result: Result<Vec<KnownBot>, WireError>,
    next: AudienceSearch,
) -> bool {
    match (search, result) {
        (AudienceSearch::Bots { channel, author }, Ok(known)) =>
            if known_map(known@).dom().contains(author@) {
                &&& next is Members
                &&& next->Members_request@ == get_view(
                    "/channels/"@ + channel.id@ + "/members"@,
                )
                &&& next->Members_channel == channel
                &&& next->Members_author == author
                &&& next->sender@ == known_map(known@)[author@]
                &&& next->known == known
            } else {
                next == AudienceSearch::Done(Ok(None))
            },
        (AudienceSearch::Bots { .. }, Err(error)) => next == AudienceSearch::Done(Err(error)),
        _ => next == search,
    }
}

/// What the members make of the search.
pub open spec fn audience_members_read(
    search: AudienceSearch,
    result: Result<Vec<ChannelMember>, WireError>,
    next: AudienceSearch,
) -> bool {
    match (search, result) {
        (AudienceSearch::Members { channel, author, sender, known, .. }, Ok(members)) => {
            exists|survey: Survey| #[trigger]
                surveys(next, survey) && survey.channel == channel && survey.sender == sender
                    && survey.preferences@.len() == 0 && concerned(
                    members@,
                    author@,
                    known_map(known@),
                    survey.candidates@,
                )
        },
        (AudienceSearch::Members { .. }, Err(error)) => next == AudienceSearch::Done(
            Err(error),
        ),
        _ => next == search,
    }
}

/// What a subscription makes of the search.
pub open spec fn audience_subscription_read(
    search: AudienceSearch,
    result: Result<Option<Preference>, WireError>,
    next: AudienceSearch,
) -> bool {
    match (search, result) {
        (AudienceSearch::Subscription { survey, .. }, Ok(preference)) => exists|
            later: Survey,
        | #[trigger]
            surveys(next, later) && later.channel == survey.channel && later.sender
                == survey.sender && later.candidates == survey.candidates
                && later.preferences@ == survey.preferences@.push(preference),
        (AudienceSearch::Subscription { .. }, Err(error)) => next == AudienceSearch::Done(
            Err(error),
        ),
        _ => next == search,
    }
}

/// What the team makes of the search.
pub open spec fn audience_team_read(
    search: AudienceSearch,
    result: Result<Team, WireError>,
    next: AudienceSearch,
) -> bool {
    match (search, result) {
        (AudienceSearch::Team { survey, .. }, Ok(team)) => {
            &&& next is Done
            &&& next->Done_0 is Ok
            &&& next->Done_0->Ok_0 is Some
            &&& next->Done_0->Ok_0->Some_0.channel == (BoundChannel {
                team,
                channel: survey.channel,
            })
            &&& next->Done_0->Ok_0->Some_0.sender == survey.sender
            &&& next->Done_0->Ok_0->Some_0.recipients@ == chosen(
                survey.candidates@,
                survey.preferences@,
            )
        },
        (AudienceSearch::Team { .. }, Err(error)) => next == AudienceSearch::Done(Err(error)),
        _ => next == search,
    }
}

impl AudienceSearch {
    pub fn begin(post: &Post) -> (r: AudienceSearch)
        ensures
            audience_sound(r),
            audience_begins(*post, r),
    {
        AudienceSearch::Channel {
            request: crate::request::channel(post.channel_id.as_str()),
            author: post.user_id.clone(),
        }
    }

    /// Only posts in open and private channels concern anyone.
    pub fn channel_read(self, result: Result<Channel, WireError>) -> (r: AudienceSearch)
        requires
            audience_sound(self),
        ensures
            audience_sound(r),
            audience_channel_read(self, result, r),
    {
        match self {
            AudienceSearch::Channel { request: _, author } => match result {
                Ok(channel) => if public(&channel) {
                    AudienceSearch::Bots { channel, author }
                } else {
                    AudienceSearch::Done(Ok(None))
                },
                Err(error) => AudienceSearch::Done(Err(error)),
            },
            other => other,
        }
    }

    /// Only posts of Wire's own bots concern anyone: those of humans and of other bots are inert.
    pub fn bots_found(self, result: Result<Vec<KnownBot>, WireError>) -> (r: AudienceSearch)
        requires
            audience_sound(self),
        ensures
            audience_sound(r),
            audience_bots_found(self, result, r),
    {
        match self {
            AudienceSearch::Bots { channel, author } => match result {
                Ok(known) => match known_bot(&known, author.as_str()) {
                    Some(sender) => AudienceSearch::Members {
                        request: crate::request::channel_members(channel.id.as_str()),
                        channel,
                        author,
                        sender,
                        known,
                    },
                    None => AudienceSearch::Done(Ok(None)),
                },
                Err(error) => AudienceSearch::Done(Err(error)),
            },
            other => other,
        }
    }

    fn survey(survey: Survey) -> (r: AudienceSearch)
        requires
            survey.preferences@.len() <= survey.candidates@.len(),
        ensures
            audience_sound(r),
            surveys(r, survey),
    {
        let at = survey.preferences.len();
        if at < survey.candidates.len() {
            AudienceSearch::Subscription {
                request: crate::request::subscription(
                    survey.candidates[at].user_id.as_str(),
                    survey.channel.id.as_str(),
                ),
                survey,
            }
        } else {
            AudienceSearch::Team {
                request: crate::request::team(survey.channel.team_id.as_str()),
                survey,
            }
        }
    }

    pub fn members_read(self, result: Result<Vec<ChannelMember>, WireError>) -> (r: AudienceSearch)
        requires
            audience_sound(self),
        ensures
            audience_sound(r),
            audience_members_read(self, result, r),
    {
        match self {
            AudienceSearch::Members { request: _, channel, author, sender, known } => {
                let members = match result {
                    Ok(members) => members,
                    Err(error) => return AudienceSearch::Done(Err(error)),
                };
                let candidates = audience_candidates(&members, author.as_str(), &known);
                let preferences: Vec<Option<Preference>> = Vec::new();
                let survey = Survey { channel, sender, candidates, preferences };
                let r = AudienceSearch::survey(survey);
                assert(surveys(r, survey));
                r
            },
            other => other,
        }
    }

    pub fn subscription_read(self, result: Result<Option<Preference>, WireError>) -> (r: AudienceSearch)
        requires
            audience_sound(self),
        ensures
            audience_sound(r),
            audience_subscription_read(self, result, r),
    {
        match self {
            AudienceSearch::Subscription { request: _, survey } => match result {
                Ok(preference) => {
                    let Survey { channel, sender, candidates, preferences } = survey;
                    let mut preferences = preferences;
                    preferences.push(preference);
                    let later = Survey { channel, sender, candidates, preferences };
                    let r = AudienceSearch::survey(later);
                    assert(surveys(r, later));
                    r
                },
                Err(error) => AudienceSearch::Done(Err(error)),
            },
            other => other,
        }
    }

    pub fn team_read(self, result: Result<Team, WireError>) -> (r: AudienceSearch)
        requires
            audience_sound(self),
        ensures
            audience_sound(r),
            audience_team_read(self, result, r),
    {
        match self {
            AudienceSearch::Team { request: _, survey } => match result {
                Ok(team) => {
                    let recipients = audience_recipients(&survey.candidates, &survey.preferences);
                    AudienceSearch::Done(
                        Ok(
                            Some(
                                ChannelAudience {
                                    channel: BoundChannel { team, channel: survey.channel },
                                    sender: survey.sender,
                                    recipients,
                                },
                            ),
                        ),
                    )
                },
                Err(error) => AudienceSearch::Done(Err(error)),
            },
            other => other,
        }
    }
}

/// The listing of channels, by what is to be done next. Answers go to `teams_read` or `channels_read`.
#[derive(Debug, PartialEq, Eq)]
pub enum ChannelList {
    /// Read the teams.
    Teams { request: Request },
    /// Read the channels of the first team that is left.
    Channels { request: Request, teams: Vec<Team>, listed: Vec<TeamChannels> },
    Done(Result<Vec<BoundChannel>, WireError>),
}

/// There is a team left whose channels are read.
pub open spec fn list_sound(list: ChannelList) -> bool {
    list is Channels ==> list->teams@.len() > 0
}

/// The listing, with teams left and the channels of others read.
pub open spec fn lists(next: ChannelList, teams: Seq<Team>, listed: Seq<TeamChannels>) -> bool {
    if teams.len() == 0 {
        next is Done && next->Done_0 is Ok && next->Done_0->Ok_0@ == visible_channels(
            listed,
        )
    } else {
        &&& next is Channels
        &&& next->teams@ == teams
        &&& next->listed@ == listed
        &&& next->Channels_request@ == get_view(
            "/users/me/teams/"@ + teams[0].id@ + "/channels"@,
        )
    }
}

/// The listing of channels, about to read the teams.
pub open spec fn list_begins(next: ChannelList) -> bool {
    next is Teams && next->Teams_request@ == get_view("/users/me/teams"@)
}

/// What the teams make of the listing.
pub open spec fn list_teams_read(
    list: ChannelList,
    result: Result<Vec<Team>, WireError>,
    next: ChannelList,
) -> bool {
    match (list, result) {
        (ChannelList::Teams { .. }, Ok(teams)) => lists(next, teams@, Seq::empty()),
        (ChannelList::Teams { .. }, Err(error)) => next == ChannelList::Done(Err(error)),
        _ => next == list,
    }
}

/// What a team's channels make of the listing.
pub open spec fn list_channels_read(
    list: ChannelList,
    result: Result<Vec<Channel>, WireError>,
    next: ChannelList,
) -> bool {
    match (list, result) {
        (ChannelList::Channels { teams, listed, .. }, Ok(channels)) => lists(
            next,
            teams@.drop_first(),
            listed@.push(TeamChannels { team: teams@[0], channels }),
        ),
        (ChannelList::Channels { .. }, Err(error)) => next == ChannelList::Done(Err(error)),
        _ => next == list,
    }
}

impl ChannelList {
    pub fn begin() -> (r: ChannelList)
        ensures
            list_sound(r),
            list_begins(r),
    {
        ChannelList::Teams { request: crate::request::my_teams() }
    }

    fn proceed(teams: Vec<Team>, listed: Vec<TeamChannels>) -> (r: ChannelList)
        ensures
            list_sound(r),
            lists(r, teams@, listed@),
    {
        if teams.len() == 0 {
            ChannelList::Done(Ok(channels(&listed)))
        } else {
            ChannelList::Channels {
                request: crate::request::team_channels(teams[0].id.as_str()),
                teams,
                listed,
            }
        }
    }

    /// What the teams make of the listing.
    pub fn teams_read(self, result: Result<Vec<Team>, WireError>) -> (r: ChannelList)
        requires
            list_sound(self),
        ensures
            list_sound(r),
            list_teams_read(self, result, r),
    {
        match self {
            ChannelList::Teams { request: _ } => match result {
                Ok(teams) => {
                    let none: Vec<TeamChannels> = Vec::new();
                    ChannelList::proceed(teams, none)
                },
                Err(error) => ChannelList::Done(Err(error)),
            },
            other => other,
        }
    }

    /// What a team's channels make of the listing.
    pub fn channels_read(self, result: Result<Vec<Channel>, WireError>) -> (r: ChannelList)
        requires
            list_sound(self),
        ensures
            list_sound(r),
            list_channels_read(self, result, r),
    {
        match self {
            ChannelList::Channels { request: _, teams, listed } => match result {
                Ok(channels) => {
                    let mut teams = teams;
                    let mut listed = listed;
                    let ghost before = teams@;
                    let team = teams.remove(0);
                    assert(teams@ =~= before.drop_first());
                    listed.push(TeamChannels { team, channels });
                    ChannelList::proceed(teams, listed)
                },
                Err(error) => ChannelList::Done(Err(error)),
            },
            other => other,
        }
    }
}

/// What is to be read of a channel: one of its threads, or its history before a post.
#[derive(Debug, PartialEq, Eq)]
pub struct Extent {
    pub thread: Option<String>,
    pub before: Option<String>,
    pub limit: usize,
}

/// The reading of a history, by what is to be done next.
#[derive(Debug, PartialEq, Eq)]
pub enum History {
    /// Find the channel; the answer goes to `resolved`.
    Resolve { extent: Extent },
    /// Read a page of posts; the answer goes to `page_read`.
    Page { request: Request, channel: BoundChannel },
    /// Read the authors; the answer goes to `users_read`.
    Users { request: Request, channel: BoundChannel, posts: Vec<Post> },
    Done(Result<Timeline, WireError>),
}

/// The posts of a page, oldest first.
pub open spec fn by_age(list: PostList) -> Seq<Post> {
    crate::directory::history(list)
}

/// What the channel makes of the reading.
pub open spec fn history_resolved(
    history: History,
    result: Result<BoundChannel, WireError>,
    next: History,
) -> bool {
    match (history, result) {
        (History::Resolve { extent }, Ok(channel)) => {
            &&& next is Page
            &&& next->Page_channel == channel
            &&& next->Page_request@ == get_view(
                history_path(
                    channel.channel.id@,
                    opt_text(extent.thread),
                    opt_text(extent.before),
                    extent.limit as nat,
                ),
            )
        },
        (History::Resolve { .. }, Err(error)) => next == History::Done(Err(error)),
        _ => next == history,
    }
}

/// What a page makes of the reading.
pub open spec fn history_page_read(
    history: History,
    result: Result<PostList, WireError>,
    next: History,
) -> bool {
    match (history, result) {
        (History::Page { channel, .. }, Ok(list)) => if page_posts(list).len() == 0 {
            &&& next is Done
            &&& next->Done_0 is Ok
            &&& next->Done_0->Ok_0.channel == channel
            &&& next->Done_0->Ok_0.posts@.len() == 0
            &&& next->Done_0->Ok_0.users@.len() == 0
        } else {
            &&& next is Users
            &&& next->Users_channel == channel
            &&& next->posts@ == by_age(list)
            &&& asks_for_authors(next->Users_request@, by_age(list))
        },
        (History::Page { .. }, Err(error)) => next == History::Done(Err(error)),
        _ => next == history,
    }
}

/// What the authors make of the reading.
pub open spec fn history_users_read(
    history: History,
    result: Result<Vec<User>, WireError>,
    next: History,
) -> bool {
    match (history, result) {
        (History::Users { channel, posts, .. }, Ok(users)) => next == History::Done(
            Ok(Timeline { channel, posts, users }),
        ),
        (History::Users { .. }, Err(error)) => next == History::Done(Err(error)),
        _ => next == history,
    }
}

impl History {
    pub fn begin(extent: Extent) -> (r: History)
        ensures
            r == (History::Resolve { extent }),
    {
        History::Resolve { extent }
    }

    pub fn resolved(self, result: Result<BoundChannel, WireError>) -> (r: History)
        ensures
            history_resolved(self, result, r),
    {
        match self {
            History::Resolve { extent } => match result {
                Ok(channel) => {
                    let thread = match &extent.thread {
                        Some(id) => Some(id.as_str()),
                        None => None,
                    };
                    let before = match &extent.before {
                        Some(id) => Some(id.as_str()),
                        None => None,
                    };
                    History::Page {
                        request: crate::request::history(
                            channel.channel.id.as_str(),
                            thread,
                            before,
                            extent.limit,
                        ),
                        channel,
                    }
                },
                Err(error) => History::Done(Err(error)),
            },
            other => other,
        }
    }

    /// What a page makes of the reading. A page without posts needs no authors.
    pub fn page_read(self, result: Result<PostList, WireError>) -> (r: History)
        ensures
            history_page_read(self, result, r),
    {
        match self {
            History::Page { request: _, channel } => {
                let list = match result {
                    Ok(list) => list,
                    Err(error) => return History::Done(Err(error)),
                };
                let posts = history_posts(&list);
                proof {
                    law_history_is_ordered(list);
                    page_posts(list).to_multiset_ensures();
                    by_age(list).to_multiset_ensures();
                }
                assert(by_age(list).to_multiset().len() == by_age(list).len());
                assert(page_posts(list).to_multiset().len() == page_posts(list).len());
                match history_users(&posts) {
                    Some(request) => History::Users { request, channel, posts },
                    None => {
                        let users: Vec<User> = Vec::new();
                        History::Done(Ok(Timeline { channel, posts, users }))
                    },
                }
            },
            other => other,
        }
    }

    pub fn users_read(self, result: Result<Vec<User>, WireError>) -> (r: History)
        ensures
            history_users_read(self, result, r),
    {
        match self {
            History::Users { request: _, channel, posts } => match result {
                Ok(users) => History::Done(Ok(Timeline { channel, posts, users })),
                Err(error) => History::Done(Err(error)),
            },
            other => other,
        }
    }
}

/// A session that posts in a channel is found, brought up to date and let in first; its subscription
/// to that channel is recorded; and then its message is posted there, as it is, in answer to what it
/// answers. Its post, under its name, is what comes of it.
pub proof fn law_posting(
    message: String,
    reply_to: Option<String>,
    channel: BoundChannel,
    user_id: String,
    sender: String,
    post: Post,
    identifying: Doing,
    profiling: Doing,
    joining: Doing,
    recording: Doing,
    posting: Doing,
    end: Doing,
    listed: Seq<Tree>,
)
    requires
        doing_resolved(
            Doing::Resolve { purpose: Purpose::Post { message, reply_to } },
            Ok(channel),
            identifying,
        ),
        doing_identified(identifying, Ok(user_id), profiling),
        doing_profiled(profiling, Ok(sender), joining),
        doing_joined(joining, Ok(()), recording),
        doing_recorded(recording, Ok(()), posting),
        doing_posted(posting, Ok(post), end),
        listed == recording->Record_request@.body->Some_0->Array_0,
    ensures
        recording->Record_request@.body == Some(Tree::Array(listed)),
        joining is Join && joining->Join_channel == channel && joining->Join_user_id == user_id,
        recording is Record,
        recording->Record_request@.method == Method::Put,
        recording->Record_request@.path == "/users/"@ + user_id@ + "/preferences"@,
        listed.len() == 1 && listed[0].get("name"@) == Some(Tree::Text(channel.channel.id@)),
        posting is Post,
        posting->Post_request@.method == Method::Post,
        posting->Post_request@.path == "/posts"@,
        posting->Post_request@.body is Some,
        posting->Post_request@.body->Some_0.get("channel_id"@) == Some(
            Tree::Text(channel.channel.id@),
        ),
        posting->Post_request@.body->Some_0.get("message"@) == Some(Tree::Text(message@)),
        reply_to matches Some(id) ==> posting->Post_request@.body->Some_0.get("root_id"@) == Some(
            Tree::Text(id@),
        ),
        end is Posted,
        end->Posted_0.channel == channel,
        end->Posted_0.post == post,
        end->Posted_0.sender == sender,
{
    law_posts_are_put_whole(channel.channel.id@, message@, opt_text(reply_to));
    law_subscriptions_name_user_and_channel(
        user_id@,
        channel.channel.id@,
        SubscriptionState::Subscribed,
        listed,
    );
}

/// A session that subscribes to a channel goes the same way, and is subscribed to that channel once
/// this is recorded; nothing is posted.
pub proof fn law_subscribing(
    channel: BoundChannel,
    user_id: String,
    sender: String,
    identifying: Doing,
    profiling: Doing,
    joining: Doing,
    recording: Doing,
    end: Doing,
)
    requires
        doing_resolved(Doing::Resolve { purpose: Purpose::Subscribe }, Ok(channel), identifying),
        doing_identified(identifying, Ok(user_id), profiling),
        doing_profiled(profiling, Ok(sender), joining),
        doing_joined(joining, Ok(()), recording),
        doing_recorded(recording, Ok(()), end),
    ensures
        recording is Record,
        recording->Record_request@.path == "/users/"@ + user_id@ + "/preferences"@,
        end is Subscribed,
        end->Subscribed_0.channel == channel,
        end->Subscribed_0.state == SubscriptionState::Subscribed,
{
}

/// Whatever fails, a session's doings fail with just that.
pub proof fn law_doings_fail_aloud(
    doing: Doing,
    error: WireError,
    unresolved: Doing,
    unidentified: Doing,
    unprofiled: Doing,
    unjoined: Doing,
    unrecorded: Doing,
    unposted: Doing,
)
    requires
        doing_resolved(doing, Err(error), unresolved),
        doing_identified(doing, Err(error), unidentified),
        doing_profiled(doing, Err(error), unprofiled),
        doing_joined(doing, Err(error), unjoined),
        doing_recorded(doing, Err(error), unrecorded),
        doing_posted(doing, Err(error), unposted),
    ensures
        doing is Resolve ==> unresolved == Doing::Failed(error),
        doing is Identify ==> unidentified == Doing::Failed(error),
        doing is Profile ==> unprofiled == Doing::Failed(error),
        doing is Join ==> unjoined == Doing::Failed(error),
        doing is Record ==> unrecorded == Doing::Failed(error),
        doing is Post ==> unposted == Doing::Failed(error),
{
}

/// A direct message goes, as it is, into the channel that is opened between the sender's bot and the
/// addressee, in answer to what it answers; its post, the sender's name and the addressee's are what
/// comes of it.
pub proof fn law_direct_messages(
    message: Seq<char>,
    reply_to: Option<Seq<char>>,
    begun: Note,
    user_id: String,
    sender: String,
    addressee: Addressee,
    channel: Channel,
    post: Post,
    profiling: Note,
    addressing: Note,
    opening: Note,
    posting: Note,
    end: Note,
    pair: Seq<Tree>,
)
    requires
        note_begins(message, reply_to, begun),
        note_identified(begun, Ok(user_id), profiling),
        note_profiled(profiling, Ok(sender), addressing),
        note_addressed(addressing, Ok(addressee), opening),
        note_opened(opening, Ok(channel), posting),
        note_posted(posting, Ok(post), end),
        pair == opening->Open_request@.body->Some_0->Array_0,
    ensures
        opening->Open_request@.body == Some(Tree::Array(pair)),
        opening is Open,
        opening->Open_request@.method == Method::Post,
        opening->Open_request@.path == "/channels/direct"@,
        pair == seq![Tree::Text(user_id@), Tree::Text(addressee.user_id@)],
        posting is Post,
        posting->Post_request@.method == Method::Post,
        posting->Post_request@.path == "/posts"@,
        posting->Post_request@.body is Some,
        posting->Post_request@.body->Some_0.get("channel_id"@) == Some(Tree::Text(channel.id@)),
        posting->Post_request@.body->Some_0.get("message"@) == Some(Tree::Text(message)),
        reply_to matches Some(id) ==> posting->Post_request@.body->Some_0.get("root_id"@) == Some(
            Tree::Text(id),
        ),
        end is Done,
        end->Done_0 is Ok,
        end->Done_0->Ok_0.post == post,
        end->Done_0->Ok_0.sender == sender,
        end->Done_0->Ok_0.recipient == addressee.username,
{
    law_posts_are_put_whole(channel.id@, message, reply_to);
    assert(pair =~= seq![Tree::Text(user_id@), Tree::Text(addressee.user_id@)]);
}

/// Whatever fails, a direct message fails with just that.
pub proof fn law_direct_messages_fail_aloud(
    note: Note,
    error: WireError,
    unidentified: Note,
    unprofiled: Note,
    unaddressed: Note,
    unopened: Note,
    unposted: Note,
)
    requires
        note_identified(note, Err(error), unidentified),
        note_profiled(note, Err(error), unprofiled),
        note_addressed(note, Err(error), unaddressed),
        note_opened(note, Err(error), unopened),
        note_posted(note, Err(error), unposted),
    ensures
        note is Identify ==> unidentified == Note::Done(Err(error)),
        note is Profile ==> unprofiled == Note::Done(Err(error)),
        note is Address ==> unaddressed == Note::Done(Err(error)),
        note is Open ==> unopened == Note::Done(Err(error)),
        note is Post ==> unposted == Note::Done(Err(error)),
{
}

/// A history is read in the channel that was found, with the extent that was asked for, and holds
/// the posts of its page with the users that were read for them; a page without posts ends it.
pub proof fn law_reading_a_history(
    extent: Extent,
    channel: BoundChannel,
    list: PostList,
    users: Vec<User>,
    paging: History,
    asking: History,
    end: History,
)
    requires
        history_resolved(History::Resolve { extent }, Ok(channel), paging),
        history_page_read(paging, Ok(list), asking),
        history_users_read(asking, Ok(users), end),
    ensures
        paging is Page,
        paging->Page_request@.method == Method::Get,
        extent.thread matches Some(root) ==> paging->Page_request@.path == "/posts/"@ + root@
            + "/thread?per_page="@ + decimal(extent.limit as nat),
        extent.thread is None && extent.before is None ==> paging->Page_request@.path
            == "/channels/"@ + channel.channel.id@ + "/posts?page=0&per_page="@ + decimal(
            extent.limit as nat,
        ),
        extent.thread is None ==> (extent.before matches Some(id) ==> paging->Page_request@.path
            == "/channels/"@ + channel.channel.id@ + "/posts?page=0&per_page="@ + decimal(
            extent.limit as nat,
        ) + ("&before="@ + id@)),
        end is Done,
        end->Done_0 is Ok,
        end->Done_0->Ok_0.channel == channel,
        end->Done_0->Ok_0.posts@ == crate::directory::history(list),
        crate::directory::history(list).len() > 0 ==> end->Done_0->Ok_0.users == users,
        crate::directory::history(list).len() == 0 ==> end->Done_0->Ok_0.users@.len() == 0,
        crate::directory::history(list).len() > 0 ==> asking is Users && asks_for_authors(
            asking->Users_request@,
            crate::directory::history(list),
        ),
{
    law_history_is_ordered(list);
    page_posts(list).to_multiset_ensures();
    by_age(list).to_multiset_ensures();
    assert(by_age(list).to_multiset().len() == by_age(list).len());
    assert(page_posts(list).to_multiset().len() == page_posts(list).len());
    assert(crate::directory::history(list) == by_age(list));
    if page_posts(list).len() == 0 {
        assert(end->Done_0->Ok_0.posts@ =~= by_age(list));
    }
}

/// The request for the authors of posts names every author once and nobody else.
pub proof fn law_authors_are_asked_for(request: RequestView, posts: Seq<Post>, ids: Seq<Tree>, at: int)
    requires
        asks_for_authors(request, posts),
        ids == request.body->Some_0->Array_0,
    ensures
        request.body == Some(Tree::Array(ids)),
        request.method == Method::Post,
        request.path == "/users/ids"@,
        ids.no_duplicates(),
        0 <= at < posts.len() ==> ids.contains(Tree::Text(posts[at].user_id@)),
        0 <= at < ids.len() ==> exists|i: int|
            0 <= i < posts.len() && Tree::Text((#[trigger] posts[i]).user_id@) == ids[at],
{
    let texts = choose|texts: Seq<Seq<char>>|
        request == post_view("/users/ids"@, #[trigger] text_array(texts)) && texts.no_duplicates()
            && forall|id: Seq<char>|
            texts.contains(id) <==> exists|i: int|
                0 <= i < posts.len() && (#[trigger] posts[i]).user_id@ == id;
    assert(ids.len() == texts.len());
    assert(forall|i: int| 0 <= i < ids.len() ==> ids[i] == Tree::Text(texts[i]));
    if 0 <= at < posts.len() {
        assert(texts.contains(posts[at].user_id@));
        let k = choose|k: int| 0 <= k < texts.len() && texts[k] == posts[at].user_id@;
        assert(ids[k] == Tree::Text(posts[at].user_id@));
    }
    if 0 <= at < ids.len() {
        assert(texts.contains(texts[at]));
        let i = choose|i: int| 0 <= i < posts.len() && (#[trigger] posts[i]).user_id@ == texts[at];
        assert(Tree::Text(posts[i].user_id@) == ids[at]);
    }
}

/// A post concerns somebody only in an open or private channel and where its author is a bot of Wire;
/// then the members of just that channel are read.
pub proof fn law_whose_posts_concern(
    author: String,
    request: Request,
    channel: Channel,
    known: Vec<KnownBot>,
    finding: AudienceSearch,
    reading: AudienceSearch,
)
    requires
        audience_channel_read(AudienceSearch::Channel { request, author }, Ok(channel), finding),
        audience_bots_found(finding, Ok(known), reading),
    ensures
        channel.kind@ != "O"@ && channel.kind@ != "P"@ ==> finding == AudienceSearch::Done(
            Ok(None),
        ) && reading == finding,
        !known_map(known@).dom().contains(author@) ==> reading == AudienceSearch::Done(Ok(None)),
        (channel.kind@ == "O"@ || channel.kind@ == "P"@) && known_map(known@).dom().contains(
            author@,
        ) ==> {
            &&& reading is Members
            &&& reading->Members_request@.method == Method::Get
            &&& reading->Members_request@.path == "/channels/"@ + channel.id@ + "/members"@
            &&& reading->Members_channel == channel
            &&& reading->Members_author == author
            &&& reading->sender.session == known_map(known@)[author@].session
            &&& reading->sender.username@ == known_map(known@)[author@].username
            &&& reading->known == known
        },
{
}

/// The subscription of each candidate to the channel is read, one behind the other; then the team of
/// the channel.
pub proof fn law_every_candidate_is_asked(search: AudienceSearch, survey: Survey)
    requires
        surveys(search, survey),
    ensures
        survey.preferences@.len() < survey.candidates@.len() ==> {
            &&& search is Subscription
            &&& search->Subscription_survey == survey
            &&& search->Subscription_request@.method == Method::Get
            &&& search->Subscription_request@.path == "/users/"@
                + survey.candidates@[survey.preferences@.len() as int].user_id@
                + "/preferences/wire_subscription/name/"@ + survey.channel.id@
        },
        survey.preferences@.len() >= survey.candidates@.len() ==> {
            &&& search is Team
            &&& search->Team_survey == survey
            &&& search->Team_request@.method == Method::Get
            &&& search->Team_request@.path == "/teams/"@ + survey.channel.team_id@
        },
{
    reveal_strlit("/preferences/");
    reveal_strlit("wire_subscription");
    reveal_strlit("/name/");
    reveal_strlit("/preferences/wire_subscription/name/");
    assert("/preferences/"@ + "wire_subscription"@ + "/name/"@
        =~= "/preferences/wire_subscription/name/"@);
}

/// What is read of a candidate is kept in its place, and nothing else of a survey changes.
pub proof fn law_surveys_grow(
    survey: Survey,
    request: Request,
    preference: Option<Preference>,
    next: AudienceSearch,
)
    requires
        audience_subscription_read(
            AudienceSearch::Subscription { request, survey },
            Ok(preference),
            next,
        ),
    ensures
        next is Subscription || next is Team,
        ({
            let later = if next is Subscription {
                next->Subscription_survey
            } else {
                next->Team_survey
            };
            &&& later.channel == survey.channel
            &&& later.sender == survey.sender
            &&& later.candidates == survey.candidates
            &&& later.preferences@ == survey.preferences@.push(preference)
        }),
{
}

/// At the end a post concerns exactly the candidates whose subscription is in force, in the channel
/// and its team, and comes from its author.
pub proof fn law_audience_of_a_survey(
    survey: Survey,
    request: Request,
    team: Team,
    end: AudienceSearch,
    at: int,
)
    requires
        survey.candidates@.len() == survey.preferences@.len(),
        audience_team_read(AudienceSearch::Team { request, survey }, Ok(team), end),
    ensures
        end is Done,
        end->Done_0 is Ok,
        end->Done_0->Ok_0 is Some,
        end->Done_0->Ok_0->Some_0.channel.team == team,
        end->Done_0->Ok_0->Some_0.channel.channel == survey.channel,
        end->Done_0->Ok_0->Some_0.sender == survey.sender,
        0 <= at < survey.candidates@.len() && survey.preferences@[at] is Some
            && survey.preferences@[at]->Some_0.value@ == "1"@
            ==> end->Done_0->Ok_0->Some_0.recipients@.contains(survey.candidates@[at].bot),
        0 <= at < end->Done_0->Ok_0->Some_0.recipients@.len() ==> exists|i: int|
            0 <= i < survey.candidates@.len() && (#[trigger] survey.candidates@[i]).bot
                == end->Done_0->Ok_0->Some_0.recipients@[at] && survey.preferences@[i] is Some
                && survey.preferences@[i]->Some_0.value@ == "1"@,
{
    let recipients = end->Done_0->Ok_0->Some_0.recipients@;
    if 0 <= at < survey.candidates@.len() {
        law_audience_is_subscribed(
            survey.candidates@,
            survey.preferences@,
            survey.candidates@[at].bot,
        );
    }
    if 0 <= at < recipients.len() {
        assert(recipients.contains(recipients[at]));
        law_audience_is_subscribed(survey.candidates@, survey.preferences@, recipients[at]);
    }
}

/// Bots are read page by page, two hundred at a time, from the first page on; each page is added
/// behind those before it; a page that is not full is the last. Then the users of all of them are
/// read, and the roster holds all bots and those users.
pub proof fn law_all_bots_are_read(
    request: Request,
    page: u64,
    bots: Vec<Bot>,
    more: Vec<Bot>,
    next: BotList,
    users: Vec<User>,
    end: BotList,
)
    requires
        bots_page_read(BotList::Page { request, page, bots }, Ok(more), next),
        bots_users_read(next, Ok(users), end),
    ensures
        more@.len() >= 200 && page < u64::MAX ==> {
            &&& next is Page
            &&& next->page == page + 1
            &&& next->Page_bots@ == bots@ + more@
            &&& next->Page_request@.method == Method::Get
            &&& next->Page_request@.path == "/bots?page="@ + decimal((page + 1) as nat)
                + "&per_page=200"@
        },
        more@.len() < 200 ==> {
            &&& end is Done
            &&& end->Done_0 is Ok
            &&& end->Done_0->Ok_0.bots@ == bots@ + more@
        },
        more@.len() < 200 && bots@.len() + more@.len() > 0 ==> {
            &&& next is Users
            &&& next->Users_request@.method == Method::Post
            &&& next->Users_request@.path == "/users/ids"@
            &&& end->Done_0->Ok_0.users == users
        },
{
}

/// The users that are read for bots are those of every bot, in order.
pub proof fn law_bots_users_are_asked_for(next: BotList, bots: Seq<Bot>, ids: Seq<Tree>)
    requires
        reads_users(next, bots),
        bots.len() > 0,
        ids == next->Users_request@.body->Some_0->Array_0,
    ensures
        next->Users_request@.body == Some(Tree::Array(ids)),
        ids.len() == bots.len(),
        forall|i: int|
            0 <= i < bots.len() ==> #[trigger] ids[i] == Tree::Text(bots[i].user_id@),
{
}

/// The channels of each team are read in turn, and kept with their team; none is passed over, and at
/// the end the visible channels of all of them are listed.
pub proof fn law_every_team_is_read(
    request: Request,
    teams: Vec<Team>,
    listed: Vec<TeamChannels>,
    channels: Vec<Channel>,
    next: ChannelList,
)
    requires
        teams@.len() > 0,
        list_channels_read(ChannelList::Channels { request, teams, listed }, Ok(channels), next),
    ensures
        teams@.len() > 1 ==> {
            &&& next is Channels
            &&& next->Channels_request@.method == Method::Get
            &&& next->Channels_request@.path == "/users/me/teams/"@ + teams@[1].id@ + "/channels"@
            &&& next->teams@ == teams@.drop_first()
            &&& next->listed@.len() == listed@.len() + 1
            &&& next->listed@.drop_last() == listed@
            &&& next->listed@.last().team == teams@[0]
            &&& next->listed@.last().channels == channels
        },
        teams@.len() == 1 ==> {
            &&& next is Done
            &&& next->Done_0 is Ok
            &&& next->Done_0->Ok_0@ == visible_channels(
                listed@.push(TeamChannels { team: teams@[0], channels }),
            )
        },
{
    if teams@.len() > 1 {
        assert(next->listed@.drop_last() =~= listed@);
    }
}

/// The listing begins with the first team, and lists nothing where there is none.
pub proof fn law_listing_begins(request: Request, teams: Vec<Team>, next: ChannelList)
    requires
        list_teams_read(ChannelList::Teams { request }, Ok(teams), next),
    ensures
        teams@.len() > 0 ==> {
            &&& next is Channels
            &&& next->Channels_request@.path == "/users/me/teams/"@ + teams@[0].id@ + "/channels"@
            &&& next->teams@ == teams@
            &&& next->listed@.len() == 0
        },
        teams@.len() == 0 ==> next is Done && next->Done_0 is Ok && next->Done_0->Ok_0@.len() == 0,
{
}

/// The search for whom a direct channel reaches reads the channel's members, then the one member who
/// is not the operator, and then, where that one has no binding, the bot of the same user.
pub proof fn law_direct_search_asks(
    channel_id: String,
    operator_id: String,
    request: Request,
    channel: Channel,
    members: Vec<ChannelMember>,
    at: int,
    user: User,
    reading: DirectSearch,
    looking: DirectSearch,
    asking: DirectSearch,
)
    requires
        channel.kind@ == "D"@,
        direct_channel_read(
            DirectSearch::Channel { request, channel_id, operator_id },
            Ok(channel),
            reading,
        ),
        0 <= at < members@.len(),
        members@[at].user_id@ != operator_id@,
        forall|i: int|
            0 <= i < members@.len() && i != at ==> (#[trigger] members@[i]).user_id@
                == operator_id@,
        direct_members_read(reading, Ok(members), looking),
        user.delete_at == 0,
        user_session(user) is None,
        direct_user_read(looking, Ok(user), asking),
    ensures
        reading is Members,
        reading->Members_request@.path == "/channels/"@ + channel_id@ + "/members"@,
        looking is User,
        looking->User_request@.path == "/users/"@ + members@[at].user_id@,
        asking is Bot,
        asking->Bot_request@.path == "/bots/"@ + members@[at].user_id@,
{
    law_counterparts(members@, operator_id@, at, at);
}

/// A survey begins with every member that is a bot of Wire and not the author, in the channel of the
/// post and from its author, before any subscription is read.
pub proof fn law_surveys_begin(
    request: Request,
    channel: Channel,
    author: String,
    sender: WireBot,
    known: Vec<KnownBot>,
    members: Vec<ChannelMember>,
    next: AudienceSearch,
)
    requires
        audience_members_read(
            AudienceSearch::Members { request, channel, author, sender, known },
            Ok(members),
            next,
        ),
    ensures
        next is Subscription || next is Team,
        ({
            let survey = if next is Subscription {
                next->Subscription_survey
            } else {
                next->Team_survey
            };
            &&& survey.channel == channel
            &&& survey.sender == sender
            &&& survey.preferences@.len() == 0
            &&& concerned(members@, author@, known_map(known@), survey.candidates@)
        }),
{
}

/// The end of a subscription deletes just what its beginning recorded; without a bot there is nothing
/// to delete.
pub proof fn law_unsubscribing(
    bot: Bot,
    channel: BoundChannel,
    ended: Option<Request>,
    nothing: Option<Request>,
    listed: Seq<Tree>,
)
    requires
        unsubscribes(Some(bot), channel, ended),
        unsubscribes(None, channel, nothing),
        listed == ended->Some_0@.body->Some_0->Array_0,
    ensures
        ended is Some,
        ended->Some_0@.body == Some(Tree::Array(listed)),
        ended->Some_0@.method == Method::Post,
        ended->Some_0@.path == "/users/"@ + bot.user_id@ + "/preferences/delete"@,
        listed.len() == 1 && listed[0].get("name"@) == Some(Tree::Text(channel.channel.id@))
            && listed[0].get("user_id"@) == Some(Tree::Text(bot.user_id@)),
        nothing is None,
{
    law_subscriptions_name_user_and_channel(
        bot.user_id@,
        channel.channel.id@,
        SubscriptionState::Unsubscribed,
        listed,
    );
}

/// A profile that was brought up to date holds as long as the session's title is the same, present or
/// not.
pub proof fn law_profiles_hold(
    profile: Profile,
    session: Session,
    r: Option<String>,
    title: String,
    other: String,
)
    requires
        still_called(profile, session, r),
    ensures
        profile.title is None && session.title is None ==> r == Some(profile.username),
        profile.title == Some(title) && session.title == Some(title) ==> r == Some(profile.username),
        profile.title == Some(title) && session.title == Some(other) && title@ != other@ ==> r
            is None,
        (profile.title is None) != (session.title is None) ==> r is None,
{
}

/// A session's identity is its name and the biography of its bot; a bot whose description is blank or
/// of the older form has none, and neither has a session without a bot.
pub proof fn law_identities(
    session: Session,
    bot: Bot,
    description: Seq<char>,
    at: int,
    known: AgentIdentity,
    unknown: AgentIdentity,
)
    requires
        is_identity(session, Some(bot), known),
        is_identity(session, None, unknown),
        opt_text(bot.description) == Some(description),
    ensures
        known.session == session.id && unknown.session == session.id,
        session.title matches Some(title) ==> known.name@ == title@ && unknown.name@ == title@,
        unknown.biography is None,
        0 <= at < description.len() && !is_white(description[at]) && !"Codex session "@.is_prefix_of(
            description,
        ) ==> opt_text(known.biography) == Some(description),
        (forall|i: int| 0 <= i < description.len() ==> is_white(#[trigger] description[i]))
            ==> known.biography is None,
{
    law_descriptions(description, session.id, at);
}

/// A biography is published as the description of the session's bot, which keeps its name.
pub proof fn law_publishing(session: Session, user_id: Seq<char>, bot: Bot, biography: Seq<char>)
    ensures
        publication(session, user_id, bot, biography).method == Method::Put,
        publication(session, user_id, bot, biography).path == "/bots/"@ + user_id,
        publication(session, user_id, bot, biography).body is Some,
        publication(session, user_id, bot, biography).body->Some_0.get("description"@) == Some(
            Tree::Text(biography),
        ),
        publication(session, user_id, bot, biography).body->Some_0.get("username"@) == Some(
            Tree::Text(bot.username@),
        ),
{
    law_profiles_hold_their_parts(
        bot.username@,
        display_text(session.id, opt_text(session.title)),
        biography,
    );
}

/// Searches begin at the channel that they are about, and listings at the caller's teams and the first
/// page of bots.
pub proof fn law_beginnings(
    channel_id: Seq<char>,
    operator_id: Seq<char>,
    direct: DirectSearch,
    post: Post,
    audience: AudienceSearch,
    list: ChannelList,
    bots: BotList,
)
    requires
        direct_begins(channel_id, operator_id, direct),
        audience_begins(post, audience),
        list_begins(list),
        reads_page(bots, 0, Seq::empty()),
    ensures
        direct is Channel && direct->Channel_request@.path == "/channels/"@ + channel_id
            && direct->channel_id@ == channel_id && direct->Channel_operator_id@ == operator_id,
        audience is Channel && audience->Channel_request@.path == "/channels/"@ + post.channel_id@
            && audience->Channel_author@ == post.user_id@,
        list is Teams && list->Teams_request@.path == "/users/me/teams"@,
        bots is Page && bots->page == 0 && bots->Page_bots@.len() == 0 && bots->Page_request@.path
            == "/bots?page="@ + decimal(0) + "&per_page=200"@,
{
}

} // verus!
