//! Channels, histories and bots, as they are found and selected.
use vstd::prelude::*;
use crate::admission::names;
use crate::error::WireError;
use crate::ident::{hyphenated_text, SessionId};
use crate::json::text_array;
use crate::model::{biography_text, bound_session, described_session, law_descriptions, law_users_are_bound, name_matches, opt_property_map, selects, session_from_properties, Bot, BoundChannel, Channel, ChannelMember, ListedPost, Post, PostList, Preference, Property, Team, User, WireBot};
use crate::order::{in_order, law_equal_ranks_stay, law_ordering_keeps_items, lemma_inserted, lemma_ordered, ordered, ranks};
use crate::request::{post_view, users, Request, RequestView};
use crate::session::{addressed_session, email_text, find_addressed, law_addresses_name_their_session};
use crate::text::{after, comes_before, glue3, is_white, law_split_text, law_trimmed_text, lemma_text_order, lowered, opt_text, same, split_once, text_less, texts, trim, trimmed, until};

verus! {

/// A live channel that is open or private, as opposed to direct.
pub open spec fn is_visible(channel: Channel) -> bool {
    channel.delete_at == 0 && is_public(channel)
}

/// An open or private channel, as opposed to a direct one.
pub open spec fn is_public(channel: Channel) -> bool {
    channel.kind@ == "O"@ || channel.kind@ == "P"@
}

/// An open or private channel, as opposed to a direct one.
pub fn public(channel: &Channel) -> (r: bool)
    ensures
        r == is_public(*channel),
{
    same(channel.kind.as_str(), "O") || same(channel.kind.as_str(), "P")
}

/// Channels come by the name of their team, then by their own.
pub open spec fn channel_less(left: BoundChannel, right: BoundChannel) -> bool {
    text_less(left.team.name@, right.team.name@) || (left.team.name@ == right.team.name@
        && text_less(left.channel.name@, right.channel.name@))
}

/// The visible ones among the channels of a team.
pub open spec fn bound(team: Team, channels: Seq<Channel>) -> Seq<BoundChannel>
    decreases channels.len(),
{
    if channels.len() == 0 {
        Seq::empty()
    } else if is_visible(channels.last()) {
        bound(team, channels.drop_last()).push(BoundChannel { team, channel: channels.last() })
    } else {
        bound(team, channels.drop_last())
    }
}

/// A team and the channels that it lists.
#[derive(Debug, PartialEq, Eq)]
pub struct TeamChannels {
    pub team: Team,
    pub channels: Vec<Channel>,
}

/// The visible channels of several teams, team by team.
pub open spec fn all_bound(teams: Seq<TeamChannels>) -> Seq<BoundChannel>
    decreases teams.len(),
{
    if teams.len() == 0 {
        Seq::empty()
    } else {
        all_bound(teams.drop_last()) + bound(teams.last().team, teams.last().channels@)
    }
}

fn channel_before(left: &BoundChannel, right: &BoundChannel) -> (r: bool)
    ensures
        r == channel_less(*left, *right),
{
    comes_before(left.team.name.as_str(), right.team.name.as_str()) || (same(
        left.team.name.as_str(),
        right.team.name.as_str(),
    ) && comes_before(left.channel.name.as_str(), right.channel.name.as_str()))
}

fn order_channels(items: Vec<BoundChannel>) -> (r: Vec<BoundChannel>)
    ensures
        r@ == ordered(items@, |a: BoundChannel, b: BoundChannel| channel_less(a, b)),
{
    let ghost less = |a: BoundChannel, b: BoundChannel| channel_less(a, b);
    let mut out: Vec<BoundChannel> = Vec::new();
    let mut i: usize = 0;
    while i < items.len()
        invariant
            i <= items@.len(),
            less == |a: BoundChannel, b: BoundChannel| channel_less(a, b),
            out@ == ordered(items@.take(i as int), less),
        decreases items@.len() - i,
    {
        let mut at: usize = out.len();
        while at > 0 && channel_before(&items[i], &out[at - 1])
            invariant
                i < items@.len(),
                at <= out@.len(),
                less == |a: BoundChannel, b: BoundChannel| channel_less(a, b),
                forall|j: int| at <= j < out@.len() ==> less(items@[i as int], #[trigger] out@[j]),
            decreases at,
        {
            at -= 1;
        }
        proof {
            lemma_inserted(out@, items@[i as int], less, at as int);
            assert(items@.take(i + 1).drop_last() == items@.take(i as int));
        }
        out.insert(at, items[i].copy());
        i += 1;
    }
    assert(items@.take(i as int) == items@);
    out
}

/// The visible channels of all teams, in order.
pub open spec fn visible_channels(teams: Seq<TeamChannels>) -> Seq<BoundChannel> {
    ordered(all_bound(teams), |a: BoundChannel, b: BoundChannel| channel_less(a, b))
}

/// The visible channels of all teams, in order.
pub fn channels(teams: &Vec<TeamChannels>) -> (r: Vec<BoundChannel>)
    ensures
        r@ == visible_channels(teams@),
{
    let mut found: Vec<BoundChannel> = Vec::new();
    let mut i: usize = 0;
    while i < teams.len()
        invariant
            i <= teams@.len(),
            found@ == all_bound(teams@.take(i as int)),
        decreases teams@.len() - i,
    {
        let ghost before = found@;
        let listed = &teams[i].channels;
        let team = &teams[i].team;
        let mut j: usize = 0;
        while j < listed.len()
            invariant
                j <= listed@.len(),
                found@ == before + bound(*team, listed@.take(j as int)),
            decreases listed@.len() - j,
        {
            assert(listed@.take(j + 1).drop_last() == listed@.take(j as int));
            if listed[j].delete_at == 0 && public(&listed[j]) {
                found.push(BoundChannel { team: team.copy(), channel: listed[j].copy() });
            }
            j += 1;
            assert(found@ =~= before + bound(*team, listed@.take(j as int)));
        }
        assert(listed@.take(j as int) == listed@);
        assert(teams@.take(i + 1).drop_last() == teams@.take(i as int));
        i += 1;
    }
    assert(teams@.take(i as int) == teams@);
    order_channels(found)
}

/// Listed channels are in order of team and name, and they are exactly the visible ones.
pub proof fn law_channels_are_ordered(teams: Seq<TeamChannels>)
    ensures
        ({
            let less = |a: BoundChannel, b: BoundChannel| channel_less(a, b);
            let listed = ordered(all_bound(teams), less);
            &&& in_order(listed, less)
            &&& listed.to_multiset() == all_bound(teams).to_multiset()
        }),
{
    lemma_channel_ranks();
    lemma_ordered(
        all_bound(teams),
        |a: BoundChannel, b: BoundChannel| channel_less(a, b),
    );
}

proof fn lemma_channel_ranks()
    ensures
        ranks(|a: BoundChannel, b: BoundChannel| channel_less(a, b)),
{
    let less = |a: BoundChannel, b: BoundChannel| channel_less(a, b);
    assert forall|a: BoundChannel, b: BoundChannel| #[trigger] less(a, b) implies !less(b, a) by {
        lemma_text_order(a.team.name@, b.team.name@, a.team.name@);
        lemma_text_order(b.team.name@, a.team.name@, b.team.name@);
        lemma_text_order(a.channel.name@, b.channel.name@, a.channel.name@);
    }
    assert forall|a: BoundChannel, b: BoundChannel, c: BoundChannel|
        #![trigger less(b, a), less(c, b)]
        !less(b, a) && !less(c, b) implies !less(c, a) by {
        lemma_text_order(a.team.name@, b.team.name@, c.team.name@);
        lemma_text_order(b.team.name@, c.team.name@, a.team.name@);
        lemma_text_order(c.team.name@, a.team.name@, b.team.name@);
        lemma_text_order(c.team.name@, b.team.name@, a.team.name@);
        lemma_text_order(a.channel.name@, b.channel.name@, c.channel.name@);
        lemma_text_order(b.channel.name@, c.channel.name@, a.channel.name@);
        lemma_text_order(c.channel.name@, a.channel.name@, b.channel.name@);
        lemma_text_order(c.channel.name@, b.channel.name@, a.channel.name@);
    }
}

/// Whether a selector means a channel by name: its own name, or that of its team, a colon and
/// its own name.
pub open spec fn denotes(selector: Seq<char>, bound: BoundChannel) -> bool {
    if selector.contains(':') {
        selects(after(selector, ':'), bound.channel.name@, bound.channel.display_name@) && selects(
            until(selector, ':'),
            bound.team.name@,
            bound.team.display_name@,
        )
    } else {
        selects(selector, bound.channel.name@, bound.channel.display_name@)
    }
}

/// The channels that a selector means by name.
pub open spec fn denoted(selector: Seq<char>, channels: Seq<BoundChannel>) -> Seq<BoundChannel> {
    channels.filter(|bound: BoundChannel| denotes(selector, bound))
}

/// An input error with the given message.
pub open spec fn input_error<T>(r: Result<T, WireError>, message: Seq<char>) -> bool {
    r is Err && r->Err_0 is Input && r->Err_0->Input_0@ == message
}

/// The selector without white space at its ends; it must not be empty.
pub fn require_selector(selector: &str) -> (r: Result<String, WireError>)
    ensures
        trimmed(selector@).len() == 0 ==> input_error(r, "channel is empty"@),
        trimmed(selector@).len() > 0 ==> r is Ok && r->Ok_0@ == trimmed(selector@),
{
    let selector = trim(selector);
    if selector.as_str().is_empty() {
        return Err(WireError::Input("channel is empty".to_owned()));
    }
    Ok(selector)
}

/// What a selector means among some channels: the first one of that identifier, or else the only one
/// of that name.
pub open spec fn resolves(
    selector: Seq<char>,
    channels: Seq<BoundChannel>,
    r: Result<BoundChannel, WireError>,
) -> bool {
    let wanted = trimmed(selector);
    let named = denoted(wanted, channels);
    if wanted.len() == 0 {
        input_error(r, "channel is empty"@)
    } else if exists|i: int| 0 <= i < channels.len() && (#[trigger] channels[i]).channel.id@ == wanted {
        r is Ok && exists|i: int|
            0 <= i < channels.len() && #[trigger] channels[i] == r->Ok_0 && r->Ok_0.channel.id@
                == wanted && forall|j: int|
                0 <= j < i ==> (#[trigger] channels[j]).channel.id@ != wanted
    } else if named.len() == 0 {
        input_error(r, "channel `"@ + wanted + "` is not visible to the administrator"@)
    } else if named.len() == 1 {
        r == Ok::<BoundChannel, WireError>(named[0])
    } else {
        input_error(r, "channel `"@ + wanted + "` is ambiguous; use team:channel"@)
    }
}

/// The channel that a selector means: the one of that identifier, or else the only one of that
/// name.
pub fn resolve_channel(selector: &str, channels: &Vec<BoundChannel>) -> (r: Result<BoundChannel, WireError>)
    ensures
        resolves(selector@, channels@, r),
{
    let wanted = match require_selector(selector) {
        Ok(wanted) => wanted,
        Err(error) => return Err(error),
    };
    let mut i: usize = 0;
    while i < channels.len()
        invariant
            i <= channels@.len(),
            wanted@ == trimmed(selector@),
            wanted@.len() > 0,
            forall|j: int| 0 <= j < i ==> (#[trigger] channels@[j]).channel.id@ != wanted@,
        decreases channels@.len() - i,
    {
        if same(channels[i].channel.id.as_str(), wanted.as_str()) {
            assert(channels@[i as int].channel.id@ == wanted@);
            return Ok(channels[i].copy());
        }
        i += 1;
    }
    let parts = split_once(wanted.as_str(), ':');
    let mut named: Vec<usize> = Vec::new();
    let ghost pred = |bound: BoundChannel| denotes(wanted@, bound);
    let mut k: usize = 0;
    while k < channels.len()
        invariant
            k <= channels@.len(),
            pred == |bound: BoundChannel| denotes(wanted@, bound),
            parts is Some <==> wanted@.contains(':'),
            parts matches Some(pair) ==> pair.0@ == until(wanted@, ':') && pair.1@ == after(
                wanted@,
                ':',
            ),
            named@.len() == channels@.take(k as int).filter(pred).len(),
            forall|j: int|
                0 <= j < named@.len() ==> (#[trigger] named@[j]) < channels@.len()
                    && channels@[named@[j] as int] == channels@.take(k as int).filter(pred)[j],
        decreases channels@.len() - k,
    {
        let bound = &channels[k];
        let chosen = match &parts {
            Some(pair) => name_matches(
                pair.1.as_str(),
                bound.channel.name.as_str(),
                bound.channel.display_name.as_str(),
            ) && name_matches(
                pair.0.as_str(),
                bound.team.name.as_str(),
                bound.team.display_name.as_str(),
            ),
            None => name_matches(
                wanted.as_str(),
                bound.channel.name.as_str(),
                bound.channel.display_name.as_str(),
            ),
        };
        assert(chosen == pred(channels@[k as int]));
        proof {
            lemma_filter_step(channels@, k as int, pred);
        }
        if chosen {
            named.push(k);
        }
        k += 1;
    }
    assert(channels@.take(k as int) == channels@);
    if named.len() == 0 {
        return Err(
            WireError::Input(
                glue3("channel `", wanted.as_str(), "` is not visible to the administrator"),
            ),
        );
    }
    if named.len() > 1 {
        return Err(
            WireError::Input(
                glue3("channel `", wanted.as_str(), "` is ambiguous; use team:channel"),
            ),
        );
    }
    let only: usize = named[0];
    Ok(channels[only].copy())
}

/// Filtering one more item appends it where it satisfies the predicate.
pub proof fn lemma_filter_step<T>(items: Seq<T>, at: int, pred: spec_fn(T) -> bool)
    requires
        0 <= at < items.len(),
    ensures
        items.take(at + 1).filter(pred) == if pred(items[at]) {
            items.take(at).filter(pred).push(items[at])
        } else {
            items.take(at).filter(pred)
        },
{
    reveal(Seq::filter);
    assert(items.take(at + 1).drop_last() == items.take(at));
}

/// The posts of a page by key.
pub open spec fn post_map(posts: Seq<ListedPost>) -> Map<Seq<char>, Post>
    decreases posts.len(),
{
    if posts.len() == 0 {
        Map::empty()
    } else {
        post_map(posts.drop_last()).insert(posts.last().key@, posts.last().post)
    }
}

/// The posts of the given keys, without the keys that have none.
pub open spec fn picked(order: Seq<Seq<char>>, posts: Map<Seq<char>, Post>) -> Seq<Post>
    decreases order.len(),
{
    if order.len() == 0 {
        Seq::empty()
    } else if posts.dom().contains(order.last()) {
        picked(order.drop_last(), posts).push(posts[order.last()])
    } else {
        picked(order.drop_last(), posts)
    }
}

/// The posts of a page.
pub open spec fn page_posts(list: PostList) -> Seq<Post> {
    picked(texts(list.order@), post_map(list.posts@))
}

/// Posts come by the time of their creation.
pub open spec fn post_less(left: Post, right: Post) -> bool {
    left.create_at < right.create_at
}

proof fn lemma_post_map(posts: Seq<ListedPost>, key: Seq<char>, at: int)
    requires
        0 <= at <= posts.len(),
        at < posts.len() ==> posts[at].key@ == key,
        forall|i: int| at < i < posts.len() ==> (#[trigger] posts[i]).key@ != key,
        at == posts.len() ==> forall|i: int| 0 <= i < posts.len() ==> (#[trigger] posts[i]).key@ != key,
    ensures
        post_map(posts).dom().contains(key) <==> at < posts.len(),
        at < posts.len() ==> post_map(posts)[key] == posts[at].post,
    decreases posts.len(),
{
    if posts.len() > 0 {
        let before = posts.drop_last();
        assert(forall|i: int| 0 <= i < before.len() ==> before[i] == posts[i]);
        if at == posts.len() {
            assert(posts[posts.len() - 1].key@ != key);
            lemma_post_map(before, key, before.len() as int);
        } else if at < posts.len() - 1 {
            assert(posts[posts.len() - 1].key@ != key);
            lemma_post_map(before, key, at);
        }
    }
}

fn find_post(posts: &Vec<ListedPost>, key: &str) -> (r: Option<usize>)
    ensures
        r is Some <==> post_map(posts@).dom().contains(key@),
        r matches Some(at) ==> at < posts@.len() && post_map(posts@)[key@] == posts@[at as int].post,
{
    let mut i: usize = posts.len();
    while i > 0
        invariant
            i <= posts@.len(),
            forall|j: int| i <= j < posts@.len() ==> (#[trigger] posts@[j]).key@ != key@,
        decreases i,
    {
        i -= 1;
        if same(posts[i].key.as_str(), key) {
            proof {
                lemma_post_map(posts@, key@, i as int);
            }
            return Some(i);
        }
    }
    proof {
        lemma_post_map(posts@, key@, posts@.len() as int);
    }
    None
}

fn order_posts(items: Vec<Post>) -> (r: Vec<Post>)
    ensures
        r@ == ordered(items@, |a: Post, b: Post| post_less(a, b)),
{
    let ghost less = |a: Post, b: Post| post_less(a, b);
    let mut out: Vec<Post> = Vec::new();
    let mut i: usize = 0;
    while i < items.len()
        invariant
            i <= items@.len(),
            less == |a: Post, b: Post| post_less(a, b),
            out@ == ordered(items@.take(i as int), less),
        decreases items@.len() - i,
    {
        let mut at: usize = out.len();
        while at > 0 && items[i].create_at < out[at - 1].create_at
            invariant
                i < items@.len(),
                at <= out@.len(),
                less == |a: Post, b: Post| post_less(a, b),
                forall|j: int| at <= j < out@.len() ==> less(items@[i as int], #[trigger] out@[j]),
            decreases at,
        {
            at -= 1;
        }
        proof {
            lemma_inserted(out@, items@[i as int], less, at as int);
            assert(items@.take(i + 1).drop_last() == items@.take(i as int));
        }
        out.insert(at, items[i].copy());
        i += 1;
    }
    assert(items@.take(i as int) == items@);
    out
}

/// The posts of a page, oldest first.
pub open spec fn history(list: PostList) -> Seq<Post> {
    ordered(page_posts(list), |a: Post, b: Post| post_less(a, b))
}

/// The posts of a page, oldest first.
pub fn history_posts(list: &PostList) -> (r: Vec<Post>)
    ensures
        r@ == history(*list),
{
    let mut found: Vec<Post> = Vec::new();
    let mut i: usize = 0;
    while i < list.order.len()
        invariant
            i <= list.order@.len(),
            found@ == picked(texts(list.order@).take(i as int), post_map(list.posts@)),
        decreases list.order@.len() - i,
    {
        let ghost keys = texts(list.order@);
        assert(keys.take(i + 1).drop_last() == keys.take(i as int));
        assert(keys.take(i + 1).last() == list.order@[i as int]@);
        if let Some(at) = find_post(&list.posts, list.order[i].as_str()) {
            found.push(list.posts[at].post.copy());
        }
        i += 1;
    }
    assert(texts(list.order@).take(i as int) == texts(list.order@));
    order_posts(found)
}

/// A history runs from the oldest post to the newest, and it holds exactly the posts of its page.
pub proof fn law_history_is_ordered(list: PostList)
    ensures
        ({
            let shown = ordered(page_posts(list), |a: Post, b: Post| post_less(a, b));
            &&& forall|i: int, j: int|
                0 <= i < j < shown.len() ==> #[trigger] shown[i].create_at <= #[trigger] shown[j].create_at
            &&& shown.to_multiset() == page_posts(list).to_multiset()
        }),
{
    let less = |a: Post, b: Post| post_less(a, b);
    lemma_ordered(page_posts(list), less);
    let shown = ordered(page_posts(list), less);
    assert forall|i: int, j: int| 0 <= i < j < shown.len() implies #[trigger] shown[i].create_at
        <= #[trigger] shown[j].create_at by {
        assert(!less(shown[j], shown[i]));
    }
}

/// The users who wrote the given posts, each once.
pub fn author_ids(posts: &Vec<Post>) -> (r: Vec<String>)
    ensures
        texts(r@).no_duplicates(),
        forall|id: Seq<char>|
            texts(r@).contains(id) <==> exists|i: int|
                0 <= i < posts@.len() && (#[trigger] posts@[i]).user_id@ == id,
{
    let mut out: Vec<String> = Vec::new();
    let mut i: usize = 0;
    while i < posts.len()
        invariant
            i <= posts@.len(),
            texts(out@).no_duplicates(),
            forall|id: Seq<char>|
                texts(out@).contains(id) <==> exists|j: int|
                    0 <= j < i && (#[trigger] posts@[j]).user_id@ == id,
        decreases posts@.len() - i,
    {
        let ghost before = out@;
        let ghost author = posts@[i as int].user_id@;
        if !crate::text::listed(&out, posts[i].user_id.as_str()) {
            out.push(posts[i].user_id.clone());
            assert(texts(out@) =~= texts(before).push(author));
            assert(texts(out@)[before.len() as int] == author);
        }
        assert(texts(out@).contains(author));
        assert forall|id: Seq<char>| texts(out@).contains(id) <==> exists|j: int|
            0 <= j < i + 1 && (#[trigger] posts@[j]).user_id@ == id by {
            if texts(out@).contains(id) {
                let k = choose|k: int| 0 <= k < texts(out@).len() && texts(out@)[k] == id;
                if k < before.len() {
                    assert(texts(before)[k] == id);
                    assert(texts(before).contains(id));
                } else {
                    assert(posts@[i as int].user_id@ == id);
                }
            }
            if exists|j: int| 0 <= j < i + 1 && (#[trigger] posts@[j]).user_id@ == id {
                let j = choose|j: int| 0 <= j < i + 1 && (#[trigger] posts@[j]).user_id@ == id;
                if j < i {
                    assert(texts(before).contains(id));
                    let k = choose|k: int| 0 <= k < texts(before).len() && texts(before)[k] == id;
                    assert(texts(out@)[k] == id);
                }
            }
        }
        i += 1;
    }
    out
}

/// The session of a user: the one whose synthetic address it has, or else the one that its
/// properties name.
pub open spec fn user_session(user: User) -> Option<SessionId> {
    match addressed_session(user.email@) {
        Some(session) => Some(session),
        None => bound_session(opt_property_map(user.props)),
    }
}

/// The session of a user.
pub fn session_of_user(user: &User) -> (r: Option<SessionId>)
    ensures
        r == user_session(*user),
{
    match find_addressed(user.email.as_str()) {
        Some(session) => Some(session),
        None => session_from_properties(&user.props),
    }
}

/// The last live user of an identifier.
pub open spec fn live_user(users: Seq<User>, id: Seq<char>) -> Option<User>
    decreases users.len(),
{
    if users.len() == 0 {
        None
    } else if users.last().delete_at == 0 && users.last().id@ == id {
        Some(users.last())
    } else {
        live_user(users.drop_last(), id)
    }
}

fn find_user<'a>(users: &'a Vec<User>, id: &str) -> (r: Option<&'a User>)
    ensures
        match r {
            Some(user) => live_user(users@, id@) == Some(*user),
            None => live_user(users@, id@) is None,
        },
{
    let mut i: usize = users.len();
    assert(users@.take(i as int) == users@);
    while i > 0
        invariant
            i <= users@.len(),
            live_user(users@.take(i as int), id@) == live_user(users@, id@),
        decreases i,
    {
        let ghost before = users@.take(i as int);
        i -= 1;
        assert(before.drop_last() == users@.take(i as int));
        if users[i].delete_at == 0 && same(users[i].id.as_str(), id) {
            return Some(&users[i]);
        }
    }
    None
}

/// The session of a bot: that of its live user, or else the one that its description names in the
/// older form.
pub open spec fn bot_session(bot: Bot, users: Seq<User>) -> Option<SessionId> {
    match live_user(users, bot.user_id@) {
        Some(user) => match user_session(user) {
            Some(session) => Some(session),
            None => described_session(opt_text(bot.description)),
        },
        None => None,
    }
}

/// Whether a bot of a live user speaks for a session: by its user's address where that is a
/// session's, or else by its user's properties or by its description.
pub open spec fn speaks_for(bot: Bot, users: Seq<User>, session: SessionId) -> bool {
    match live_user(users, bot.user_id@) {
        Some(user) => match addressed_session(user.email@) {
            Some(owner) => owner == session,
            None => bound_session(opt_property_map(user.props)) == Some(session)
                || described_session(opt_text(bot.description)) == Some(session),
        },
        None => false,
    }
}

/// The bot of a session speaks for it, and a bot whose live user has a session's address is that
/// session's and speaks for no other, whatever its properties and its description say.
pub proof fn law_addresses_bind_bots(
    bot: Bot,
    users: Seq<User>,
    session: SessionId,
    other: SessionId,
)
    ensures
        bot_session(bot, users) == Some(session) ==> speaks_for(bot, users, session),
        live_user(users, bot.user_id@) is Some && live_user(users, bot.user_id@)->Some_0.email@
            == email_text(session) ==> bot_session(bot, users) == Some(session) && (speaks_for(
            bot,
            users,
            other,
        ) <==> other == session),
{
    law_addresses_name_their_session(session);
}

/// The identifiers of the bots' users.
pub fn bot_user_ids(bots: &Vec<Bot>) -> (r: Vec<String>)
    ensures
        r@ == bots@.map_values(|bot: Bot| bot.user_id),
{
    let mut out: Vec<String> = Vec::new();
    let mut i: usize = 0;
    while i < bots.len()
        invariant
            i <= bots@.len(),
            out@ == bots@.take(i as int).map_values(|bot: Bot| bot.user_id),
        decreases bots@.len() - i,
    {
        out.push(bots[i].user_id.clone());
        i += 1;
        assert(out@ =~= bots@.take(i as int).map_values(|bot: Bot| bot.user_id));
    }
    assert(bots@.take(i as int) == bots@);
    out
}

/// The first bot that speaks for a session; none where none does.
pub open spec fn is_first_bot(
    bots: Seq<Bot>,
    users: Seq<User>,
    session: SessionId,
    found: Option<Bot>,
) -> bool {
    match found {
        Some(bot) => exists|i: int|
            0 <= i < bots.len() && #[trigger] bots[i] == bot && speaks_for(bot, users, session)
                && forall|j: int| 0 <= j < i ==> !speaks_for(#[trigger] bots[j], users, session),
        None => forall|i: int|
            0 <= i < bots.len() ==> !speaks_for(#[trigger] bots[i], users, session),
    }
}

/// The first bot that speaks for a session.
pub fn find_bot(bots: &Vec<Bot>, users: &Vec<User>, session: SessionId) -> (r: Option<Bot>)
    ensures
        is_first_bot(bots@, users@, session, r),
{
    let mut i: usize = 0;
    while i < bots.len()
        invariant
            i <= bots@.len(),
            forall|j: int| 0 <= j < i ==> !speaks_for(#[trigger] bots@[j], users@, session),
        decreases bots@.len() - i,
    {
        let speaks = match find_user(users, bots[i].user_id.as_str()) {
            Some(user) => {
                let by_properties = match session_from_properties(&user.props) {
                    Some(id) => id == session,
                    None => false,
                };
                let by_description = match bots[i].legacy_session() {
                    Some(id) => id == session,
                    None => false,
                };
                match find_addressed(user.email.as_str()) {
                    Some(owner) => owner == session,
                    None => by_properties || by_description,
                }
            },
            None => false,
        };
        if speaks {
            return Some(bots[i].copy());
        }
        i += 1;
    }
    None
}

/// A bot of Wire and the user that it is.
#[derive(Debug, PartialEq, Eq)]
pub struct KnownBot {
    pub user_id: String,
    pub bot: WireBot,
}

/// What is known of a bot of Wire.
pub struct WireBotView {
    pub session: SessionId,
    pub username: Seq<char>,
    pub established: bool,
}

impl View for WireBot {
    type V = WireBotView;

    open spec fn view(&self) -> WireBotView {
        WireBotView {
            session: self.session,
            username: self.username@,
            established: self.established,
        }
    }
}

/// The bots of Wire among all bots, by user.
pub open spec fn bot_map(bots: Seq<Bot>, users: Seq<User>) -> Map<Seq<char>, WireBotView>
    decreases bots.len(),
{
    if bots.len() == 0 {
        Map::empty()
    } else {
        let before = bot_map(bots.drop_last(), users);
        let bot = bots.last();
        match bot_session(bot, users) {
            Some(session) => before.insert(
                bot.user_id@,
                WireBotView {
                    session,
                    username: bot.username@,
                    established: biography_text(opt_text(bot.description)) is Some,
                },
            ),
            None => before,
        }
    }
}

/// What a list of known bots says.
pub open spec fn known_map(known: Seq<KnownBot>) -> Map<Seq<char>, WireBotView>
    decreases known.len(),
{
    if known.len() == 0 {
        Map::empty()
    } else {
        known_map(known.drop_last()).insert(known.last().user_id@, known.last().bot@)
    }
}

/// The bots of Wire among all bots.
pub fn wire_bots(bots: &Vec<Bot>, users: &Vec<User>) -> (r: Vec<KnownBot>)
    ensures
        known_map(r@) == bot_map(bots@, users@),
{
    let mut out: Vec<KnownBot> = Vec::new();
    let mut i: usize = 0;
    while i < bots.len()
        invariant
            i <= bots@.len(),
            known_map(out@) == bot_map(bots@.take(i as int), users@),
        decreases bots@.len() - i,
    {
        assert(bots@.take(i + 1).drop_last() == bots@.take(i as int));
        let session = match find_user(users, bots[i].user_id.as_str()) {
            Some(user) => match session_of_user(user) {
                Some(session) => Some(session),
                None => bots[i].legacy_session(),
            },
            None => None,
        };
        assert(session == bot_session(bots@[i as int], users@));
        if let Some(session) = session {
            let ghost before = out@;
            out.push(
                KnownBot {
                    user_id: bots[i].user_id.clone(),
                    bot: WireBot {
                        session,
                        username: bots[i].username.clone(),
                        established: bots[i].established(),
                    },
                },
            );
            assert(out@.drop_last() == before);
        }
        i += 1;
    }
    assert(bots@.take(i as int) == bots@);
    out
}

proof fn lemma_known(known: Seq<KnownBot>, id: Seq<char>, at: int)
    requires
        0 <= at <= known.len(),
        at < known.len() ==> known[at].user_id@ == id,
        forall|i: int| at < i < known.len() ==> (#[trigger] known[i]).user_id@ != id,
        at == known.len() ==> forall|i: int|
            0 <= i < known.len() ==> (#[trigger] known[i]).user_id@ != id,
    ensures
        known_map(known).dom().contains(id) <==> at < known.len(),
        at < known.len() ==> known_map(known)[id] == known[at].bot@,
    decreases known.len(),
{
    if known.len() > 0 {
        let before = known.drop_last();
        assert(forall|i: int| 0 <= i < before.len() ==> before[i] == known[i]);
        if at == known.len() {
            assert(known[known.len() - 1].user_id@ != id);
            lemma_known(before, id, before.len() as int);
        } else if at < known.len() - 1 {
            assert(known[known.len() - 1].user_id@ != id);
            lemma_known(before, id, at);
        }
    }
}

/// The bot of Wire that a user is.
pub fn known_bot(known: &Vec<KnownBot>, user_id: &str) -> (r: Option<WireBot>)
    ensures
        r is Some <==> known_map(known@).dom().contains(user_id@),
        r matches Some(bot) ==> bot@ == known_map(known@)[user_id@],
{
    let mut i: usize = known.len();
    while i > 0
        invariant
            i <= known@.len(),
            forall|j: int| i <= j < known@.len() ==> (#[trigger] known@[j]).user_id@ != user_id@,
        decreases i,
    {
        i -= 1;
        if same(known[i].user_id.as_str(), user_id) {
            proof {
                lemma_known(known@, user_id@, i as int);
            }
            return Some(known[i].bot.copy());
        }
    }
    proof {
        lemma_known(known@, user_id@, known@.len() as int);
    }
    None
}

/// Whether some bot of Wire speaks for a session and has a biography.
pub open spec fn is_established(bots: Map<Seq<char>, WireBotView>, session: SessionId) -> bool {
    exists|id: Seq<char>|
        bots.dom().contains(id) && (#[trigger] bots[id]).session == session && bots[id].established
}

/// Whether some bot of Wire speaks for a session and has a biography.
pub fn session_established(known: &Vec<KnownBot>, session: SessionId) -> (r: bool)
    ensures
        r == is_established(known_map(known@), session),
{
    let ghost map = known_map(known@);
    let mut i: usize = 0;
    while i < known.len()
        invariant
            i <= known@.len(),
            map == known_map(known@),
            forall|j: int|
                0 <= j < i && map.dom().contains((#[trigger] known@[j]).user_id@)
                    && map[known@[j].user_id@] == known@[j].bot@ ==> !(known@[j].bot.session
                    == session && known@[j].bot.established),
        decreases known@.len() - i,
    {
        if known[i].bot.session == session && known[i].bot.established {
            if let Some(bot) = known_bot(known, known[i].user_id.as_str()) {
                if bot.session == session && bot.established {
                    assert(map[known@[i as int].user_id@].session == session);
                    return true;
                }
            }
        }
        i += 1;
    }
    proof {
        if is_established(map, session) {
            let id = choose|id: Seq<char>|
                map.dom().contains(id) && (#[trigger] map[id]).session == session
                    && map[id].established;
            let at = lemma_known_witness(known@, id);
            assert(known@[at].bot@ == map[id]);
            assert(map[known@[at].user_id@] == known@[at].bot@);
        }
    }
    false
}

proof fn lemma_known_witness(known: Seq<KnownBot>, id: Seq<char>) -> (at: int)
    requires
        known_map(known).dom().contains(id),
    ensures
        0 <= at < known.len(),
        known[at].user_id@ == id,
        known[at].bot@ == known_map(known)[id],
    decreases known.len(),
{
    if known.last().user_id@ == id {
        known.len() - 1
    } else {
        lemma_known_witness(known.drop_last(), id)
    }
}

/// How many bots a page holds.
pub const BOT_PAGE: usize = 200;

/// The request for all who wrote a post, each once.
pub open spec fn asks_for_authors(request: RequestView, posts: Seq<Post>) -> bool {
    exists|ids: Seq<Seq<char>>|
        request == post_view("/users/ids"@, #[trigger] text_array(ids)) && ids.no_duplicates()
            && forall|id: Seq<char>|
            ids.contains(id) <==> exists|i: int|
                0 <= i < posts.len() && (#[trigger] posts[i]).user_id@ == id
}

/// The users of a history, asked for in one request; none where nobody wrote in it.
pub fn history_users(posts: &Vec<Post>) -> (r: Option<Request>)
    ensures
        r is None <==> posts@.len() == 0,
        r matches Some(request) ==> asks_for_authors(request@, posts@),
{
    let ids = author_ids(posts);
    if posts.len() == 0 {
        return None;
    }
    let request = users(&ids);
    assert(request@ == post_view("/users/ids"@, text_array(texts(ids@))));
    Some(request)
}

/// Whether a channel is a direct one.
pub fn direct(channel: &Channel) -> (r: bool)
    ensures
        r == (channel.kind@ == "D"@),
{
    same(channel.kind.as_str(), "D")
}

/// Whether a member is another user than the given.
pub open spec fn is_other(member: ChannelMember, user_id: Seq<char>) -> bool {
    member.user_id@ != user_id
}

/// The members other than one.
pub open spec fn others(members: Seq<ChannelMember>, user_id: Seq<char>) -> Seq<ChannelMember> {
    members.filter(|member: ChannelMember| is_other(member, user_id))
}

/// The only member other than the operator.
pub open spec fn opposite(members: Seq<ChannelMember>, operator_id: Seq<char>) -> Option<Seq<char>> {
    if others(members, operator_id).len() == 1 {
        Some(others(members, operator_id)[0].user_id@)
    } else {
        None
    }
}

/// The only member other than the operator.
pub fn counterpart(members: &Vec<ChannelMember>, operator_id: &str) -> (r: Option<String>)
    ensures
        opt_text(r) == opposite(members@, operator_id@),
{
    let ghost pred = |member: ChannelMember| is_other(member, operator_id@);
    let mut found: Vec<usize> = Vec::new();
    let mut i: usize = 0;
    while i < members.len()
        invariant
            i <= members@.len(),
            pred == |member: ChannelMember| is_other(member, operator_id@),
            found@.len() == members@.take(i as int).filter(pred).len(),
            forall|j: int|
                0 <= j < found@.len() ==> (#[trigger] found@[j]) < members@.len()
                    && members@[found@[j] as int] == members@.take(i as int).filter(pred)[j],
        decreases members@.len() - i,
    {
        proof {
            lemma_filter_step(members@, i as int, pred);
        }
        if !same(members[i].user_id.as_str(), operator_id) {
            found.push(i);
        }
        i += 1;
    }
    assert(members@.take(i as int) == members@);
    if found.len() == 1 {
        let only: usize = found[0];
        Some(members[only].user_id.clone())
    } else {
        None
    }
}

/// What a direct channel's other member is to the relay.
#[derive(Clone, Copy, Debug, PartialEq, Eq, Structural)]
pub enum Counterpart {
    /// Nobody any more.
    Gone,
    /// The bot of this session.
    Bound(SessionId),
    /// Perhaps a bot whose description names its session.
    Unbound,
}

/// What a direct channel's other member is to the relay.
pub open spec fn judged(user: User) -> Counterpart {
    if user.delete_at != 0 {
        Counterpart::Gone
    } else {
        match user_session(user) {
            Some(session) => Counterpart::Bound(session),
            None => Counterpart::Unbound,
        }
    }
}

/// What a direct channel's other member is to the relay.
pub fn judge_counterpart(user: &User) -> (r: Counterpart)
    ensures
        r == judged(*user),
{
    if user.delete_at != 0 {
        return Counterpart::Gone;
    }
    match session_of_user(user) {
        Some(session) => Counterpart::Bound(session),
        None => Counterpart::Unbound,
    }
}

/// The session that a direct channel reaches.
pub open spec fn direct_target(
    channel: Channel,
    members: Seq<ChannelMember>,
    operator_id: Seq<char>,
    user: User,
    bot: Option<Bot>,
) -> Option<SessionId> {
    if channel.kind@ != "D"@ || others(members, operator_id).len() != 1 || user.delete_at != 0 {
        None
    } else {
        match user_session(user) {
            Some(session) => Some(session),
            None => match bot {
                Some(bot) => described_session(opt_text(bot.description)),
                None => None,
            },
        }
    }
}

/// The session of a bot that has no binding.
pub fn unbound_session(bot: &Option<Bot>) -> (r: Option<SessionId>)
    ensures
        r == match *bot {
            Some(bot) => described_session(opt_text(bot.description)),
            None => None,
        },
{
    match bot {
        Some(bot) => bot.legacy_session(),
        None => None,
    }
}

/// The operator's posts reach a session only in a direct channel between the operator and exactly
/// one other, live member.
pub proof fn law_human_channel_posts_are_inert(
    channel: Channel,
    members: Seq<ChannelMember>,
    operator_id: Seq<char>,
    user: User,
    bot: Option<Bot>,
)
    ensures
        direct_target(channel, members, operator_id, user, bot) is Some ==> channel.kind@ == "D"@
            && others(members, operator_id).len() == 1 && user.delete_at == 0,
        is_public(channel) ==> direct_target(channel, members, operator_id, user, bot) is None,
{
    reveal_strlit("D");
    reveal_strlit("O");
    reveal_strlit("P");
    assert("D"@[0] == 'D' && "O"@[0] == 'O' && "P"@[0] == 'P');
}

/// A member of a channel that may be concerned by a post there.
#[derive(Debug, PartialEq, Eq)]
pub struct Candidate {
    pub user_id: String,
    pub bot: WireBot,
}

/// Whether a member may be concerned by a post: a bot of Wire other than the author.
pub open spec fn eligible(
    member: ChannelMember,
    author: Seq<char>,
    known: Map<Seq<char>, WireBotView>,
) -> bool {
    member.user_id@ != author && known.dom().contains(member.user_id@)
}

/// The members that may be concerned by a post, each with what is known of it.
pub open spec fn concerned(
    members: Seq<ChannelMember>,
    author: Seq<char>,
    known: Map<Seq<char>, WireBotView>,
    candidates: Seq<Candidate>,
) -> bool {
    let chosen = members.filter(|member: ChannelMember| eligible(member, author, known));
    &&& candidates.len() == chosen.len()
    &&& forall|i: int|
        0 <= i < candidates.len() ==> (#[trigger] candidates[i]).user_id == chosen[i].user_id
            && candidates[i].bot@ == known[chosen[i].user_id@]
}

/// The members that may be concerned by a post.
pub fn audience_candidates(
    members: &Vec<ChannelMember>,
    author: &str,
    known: &Vec<KnownBot>,
) -> (r: Vec<Candidate>)
    ensures
        concerned(members@, author@, known_map(known@), r@),
{
    let ghost map = known_map(known@);
    let ghost pred = |member: ChannelMember| eligible(member, author@, map);
    let mut out: Vec<Candidate> = Vec::new();
    let mut i: usize = 0;
    while i < members.len()
        invariant
            i <= members@.len(),
            map == known_map(known@),
            pred == |member: ChannelMember| eligible(member, author@, map),
            out@.len() == members@.take(i as int).filter(pred).len(),
            forall|j: int|
                0 <= j < out@.len() ==> (#[trigger] out@[j]).user_id == members@.take(
                    i as int,
                ).filter(pred)[j].user_id && out@[j].bot@ == map[members@.take(i as int).filter(
                    pred,
                )[j].user_id@],
        decreases members@.len() - i,
    {
        proof {
            lemma_filter_step(members@, i as int, pred);
        }
        if !same(members[i].user_id.as_str(), author) {
            if let Some(bot) = known_bot(known, members[i].user_id.as_str()) {
                out.push(Candidate { user_id: members[i].user_id.clone(), bot });
            }
        }
        i += 1;
    }
    assert(members@.take(i as int) == members@);
    out
}

/// Whoever may be concerned by a post is a member of its channel and a bot of Wire, and never the
/// author.
pub proof fn law_authors_are_left_out(
    members: Seq<ChannelMember>,
    author: Seq<char>,
    known: Map<Seq<char>, WireBotView>,
    at: int,
)
    requires
        0 <= at < members.filter(|member: ChannelMember| eligible(member, author, known)).len(),
    ensures
        ({
            let member = members.filter(
                |member: ChannelMember| eligible(member, author, known),
            )[at];
            &&& members.contains(member)
            &&& known.dom().contains(member.user_id@)
            &&& member.user_id@ != author
        }),
{
    members.lemma_filter_pred(|member: ChannelMember| eligible(member, author, known), at);
    members.lemma_filter_contains_rev(
        |member: ChannelMember| eligible(member, author, known),
        members.filter(|member: ChannelMember| eligible(member, author, known))[at],
    );
}

/// Whether a preference that may be absent records a subscription in force.
pub open spec fn subscribed(preference: Option<Preference>) -> bool {
    preference is Some && preference->Some_0.value@ == "1"@
}

/// The candidates that are subscribed, given the preference of each.
pub open spec fn chosen(candidates: Seq<Candidate>, preferences: Seq<Option<Preference>>) -> Seq<WireBot>
    decreases candidates.len(),
{
    if candidates.len() == 0 {
        Seq::empty()
    } else {
        let before = chosen(candidates.drop_last(), preferences);
        if subscribed(preferences[candidates.len() - 1]) {
            before.push(candidates.last().bot)
        } else {
            before
        }
    }
}

/// The candidates that are subscribed, given the preference of each.
pub fn audience_recipients(
    candidates: &Vec<Candidate>,
    preferences: &Vec<Option<Preference>>,
) -> (r: Vec<WireBot>)
    requires
        candidates@.len() == preferences@.len(),
    ensures
        r@ == chosen(candidates@, preferences@),
{
    let mut out: Vec<WireBot> = Vec::new();
    let mut i: usize = 0;
    while i < candidates.len()
        invariant
            i <= candidates@.len(),
            candidates@.len() == preferences@.len(),
            out@ == chosen(candidates@.take(i as int), preferences@),
        decreases candidates@.len() - i,
    {
        assert(candidates@.take(i + 1).drop_last() == candidates@.take(i as int));
        let wanted = match &preferences[i] {
            Some(preference) => preference.in_force(),
            None => false,
        };
        if wanted {
            out.push(candidates[i].bot.copy());
        }
        i += 1;
    }
    assert(candidates@.take(i as int) == candidates@);
    out
}

/// Whoever a channel post concerns is a subscribed candidate, and every subscribed candidate is
/// concerned.
pub proof fn law_audience_is_subscribed(
    candidates: Seq<Candidate>,
    preferences: Seq<Option<Preference>>,
    bot: WireBot,
)
    requires
        candidates.len() == preferences.len(),
    ensures
        chosen(candidates, preferences).contains(bot) <==> exists|i: int|
            0 <= i < candidates.len() && (#[trigger] candidates[i]).bot == bot && subscribed(
                preferences[i],
            ),
    decreases candidates.len(),
{
    if candidates.len() > 0 {
        let before = candidates.drop_last();
        let last = candidates.last();
        let shorter = preferences.drop_last();
        lemma_chosen_prefix(before, preferences, shorter);
        law_audience_is_subscribed(before, shorter, bot);
        let kept = chosen(before, shorter);
        assert(forall|i: int| 0 <= i < before.len() ==> before[i] == candidates[i]);
        if subscribed(preferences[candidates.len() - 1]) {
            assert(kept.push(last.bot).contains(bot) <==> kept.contains(bot) || last.bot == bot) by {
                if kept.contains(bot) {
                    let k = choose|k: int| 0 <= k < kept.len() && kept[k] == bot;
                    assert(kept.push(last.bot)[k] == bot);
                }
                if last.bot == bot {
                    assert(kept.push(last.bot)[kept.len() as int] == bot);
                }
            }
        }
        if exists|i: int|
            0 <= i < before.len() && (#[trigger] before[i]).bot == bot && subscribed(shorter[i]) {
            let i = choose|i: int|
                0 <= i < before.len() && (#[trigger] before[i]).bot == bot && subscribed(
                    shorter[i],
                );
            assert(candidates[i].bot == bot && subscribed(preferences[i]));
        }
        if exists|i: int|
            0 <= i < candidates.len() && (#[trigger] candidates[i]).bot == bot && subscribed(
                preferences[i],
            ) {
            let i = choose|i: int|
                0 <= i < candidates.len() && (#[trigger] candidates[i]).bot == bot && subscribed(
                    preferences[i],
                );
            if i < before.len() {
                assert(before[i].bot == bot && subscribed(shorter[i]));
            }
        }
        if last.bot == bot && subscribed(preferences[candidates.len() - 1]) {
            assert(candidates[candidates.len() - 1].bot == bot);
        }
    }
}

proof fn lemma_chosen_prefix(
    candidates: Seq<Candidate>,
    left: Seq<Option<Preference>>,
    right: Seq<Option<Preference>>,
)
    requires
        forall|i: int| 0 <= i < candidates.len() ==> left[i] == right[i],
    ensures
        chosen(candidates, left) == chosen(candidates, right),
    decreases candidates.len(),
{
    if candidates.len() > 0 {
        lemma_chosen_prefix(candidates.drop_last(), left, right);
    }
}

/// The sessions of known bots that have a biography, each once.
pub fn established_sessions(known: &Vec<KnownBot>) -> (r: Vec<SessionId>)
    ensures
        r@.no_duplicates(),
        forall|session: SessionId|
            r@.contains(session) <==> is_established(known_map(known@), session),
{
    let ghost map = known_map(known@);
    let mut out: Vec<SessionId> = Vec::new();
    let mut i: usize = 0;
    while i < known.len()
        invariant
            i <= known@.len(),
            map == known_map(known@),
            out@.no_duplicates(),
            forall|session: SessionId|
                #![trigger out@.contains(session)]
                out@.contains(session) ==> is_established(map, session),
            forall|j: int|
                0 <= j < i && is_established(map, (#[trigger] known@[j]).bot.session)
                    ==> out@.contains(known@[j].bot.session),
        decreases known@.len() - i,
    {
        let session = known[i].bot.session;
        let ghost before = out@;
        if !names(&out, session) && session_established(known, session) {
            out.push(session);
            assert(out@[before.len() as int] == session);
        }
        assert forall|other: SessionId| #[trigger] out@.contains(other) implies is_established(
            map,
            other,
        ) by {
            let k = choose|k: int| 0 <= k < out@.len() && out@[k] == other;
            if k < before.len() {
                assert(before[k] == other);
                assert(before.contains(other));
            }
        }
        assert forall|j: int|
            0 <= j < i + 1 && is_established(
                map,
                (#[trigger] known@[j]).bot.session,
            ) implies out@.contains(known@[j].bot.session) by {
            if j < i {
                assert(before.contains(known@[j].bot.session));
                let k = choose|k: int| 0 <= k < before.len() && before[k] == known@[j].bot.session;
                assert(out@[k] == known@[j].bot.session);
            }
        }
        i += 1;
    }
    assert forall|session: SessionId| out@.contains(session) <==> is_established(map, session) by {
        if is_established(map, session) {
            let id = choose|id: Seq<char>|
                map.dom().contains(id) && (#[trigger] map[id]).session == session
                    && map[id].established;
            let at = lemma_known_witness(known@, id);
            assert(known@[at].bot@ == map[id]);
            assert(known@[at].bot.session == session);
        }
    }
    out
}

proof fn lemma_only_one<T>(items: Seq<T>, pred: spec_fn(T) -> bool, at: int)
    requires
        0 <= at < items.len(),
        pred(items[at]),
        forall|i: int| 0 <= i < items.len() && i != at ==> !pred(#[trigger] items[i]),
    ensures
        items.filter(pred) == seq![items[at]],
    decreases items.len(),
{
    reveal(Seq::filter);
    let before = items.drop_last();
    assert(forall|i: int| 0 <= i < before.len() ==> before[i] == items[i]);
    if at == items.len() - 1 {
        lemma_none(before, pred);
        assert(before.filter(pred).push(items[at]) =~= seq![items[at]]);
    } else {
        assert(!pred(items[items.len() - 1]));
        lemma_only_one(before, pred, at);
    }
}

proof fn lemma_none<T>(items: Seq<T>, pred: spec_fn(T) -> bool)
    requires
        forall|i: int| 0 <= i < items.len() ==> !pred(#[trigger] items[i]),
    ensures
        items.filter(pred).len() == 0,
    decreases items.len(),
{
    reveal(Seq::filter);
    if items.len() > 0 {
        let before = items.drop_last();
        assert(forall|i: int| 0 <= i < before.len() ==> before[i] == items[i]);
        lemma_none(before, pred);
        assert(!pred(items[items.len() - 1]));
    }
}

proof fn lemma_more_than_one<T>(items: Seq<T>, pred: spec_fn(T) -> bool, left: int, right: int)
    requires
        0 <= left < right < items.len(),
        pred(items[left]),
        pred(items[right]),
    ensures
        items.filter(pred).len() >= 2,
    decreases items.len(),
{
    broadcast use vstd::seq_lib::group_filter_ensures;

    reveal(Seq::filter);
    let before = items.drop_last();
    if right == items.len() - 1 {
        assert(before[left] == items[left]);
        assert(before.contains(items[left]));
        assert(before.filter(pred).contains(items[left]));
    } else {
        lemma_more_than_one(before, pred, left, right);
    }
}

/// A text of a team, a colon and a text of a channel, as people write it.
pub open spec fn label(team: Seq<char>, channel: Seq<char>) -> Seq<char> {
    team + ":"@ + channel
}

/// Whether two names read the same, capitals or not.
pub open spec fn reads_as(left: Seq<char>, right: Seq<char>) -> bool {
    lowered(left) == lowered(right)
}

proof fn lemma_labelled(team: Seq<char>, channel: Seq<char>, bound: BoundChannel)
    requires
        !team.contains(':'),
    ensures
        denotes(label(team, channel), bound) <==> (reads_as(team, bound.team.name@) || reads_as(
            team,
            bound.team.display_name@,
        )) && (reads_as(channel, bound.channel.name@) || reads_as(
            channel,
            bound.channel.display_name@,
        )),
{
    reveal_strlit(":");
    assert(label(team, channel) =~= team.push(':') + channel);
    law_split_text(team, ':', channel);
    assert(label(team, channel)[team.len() as int] == ':');
}

/// A label of a channel resolves to that channel: the name or display name of its team, a colon, and
/// its own name or display name, in any case, as long as no channel has the label as its identifier
/// and no other channel answers to the same team and name.
pub proof fn law_labels_resolve(
    channels: Seq<BoundChannel>,
    at: int,
    team: Seq<char>,
    name: Seq<char>,
    r: Result<BoundChannel, WireError>,
)
    requires
        0 <= at < channels.len(),
        !team.contains(':'),
        reads_as(team, channels[at].team.name@) || reads_as(team, channels[at].team.display_name@),
        reads_as(name, channels[at].channel.name@) || reads_as(
            name,
            channels[at].channel.display_name@,
        ),
        !is_white(label(team, name)[0]),
        !is_white(label(team, name).last()),
        forall|i: int|
            0 <= i < channels.len() ==> (#[trigger] channels[i]).channel.id@ != label(team, name),
        forall|i: int|
            0 <= i < channels.len() && i != at && (reads_as(
                team,
                (#[trigger] channels[i]).team.name@,
            ) || reads_as(team, channels[i].team.display_name@)) ==> !reads_as(
                name,
                channels[i].channel.name@,
            ) && !reads_as(name, channels[i].channel.display_name@),
        resolves(label(team, name), channels, r),
    ensures
        r == Ok::<BoundChannel, WireError>(channels[at]),
{
    let wanted = label(team, name);
    assert(wanted.len() > 0) by {
        reveal_strlit(":");
    }
    lemma_untrimmed(wanted);
    assert(denoted(wanted, channels) == seq![channels[at]]) by {
        lemma_only_labelled(channels, at, team, name);
    }
    lemma_resolved(wanted, channels, r);
}

proof fn lemma_untrimmed(text: Seq<char>)
    requires
        text.len() > 0,
        !is_white(text[0]),
        !is_white(text.last()),
    ensures
        trimmed(text) == text,
{
    law_trimmed_text(text);
}

proof fn lemma_resolved(
    wanted: Seq<char>,
    channels: Seq<BoundChannel>,
    r: Result<BoundChannel, WireError>,
)
    requires
        trimmed(wanted) == wanted,
        wanted.len() > 0,
        forall|i: int| 0 <= i < channels.len() ==> (#[trigger] channels[i]).channel.id@ != wanted,
        resolves(wanted, channels, r),
    ensures
        denoted(wanted, channels).len() == 1 ==> r == Ok::<BoundChannel, WireError>(
            denoted(wanted, channels)[0],
        ),
        denoted(wanted, channels).len() == 0 ==> input_error(
            r,
            "channel `"@ + wanted + "` is not visible to the administrator"@,
        ),
        denoted(wanted, channels).len() > 1 ==> input_error(
            r,
            "channel `"@ + wanted + "` is ambiguous; use team:channel"@,
        ),
{
}

proof fn lemma_only_labelled(
    channels: Seq<BoundChannel>,
    at: int,
    team: Seq<char>,
    name: Seq<char>,
)
    requires
        0 <= at < channels.len(),
        !team.contains(':'),
        reads_as(team, channels[at].team.name@) || reads_as(team, channels[at].team.display_name@),
        reads_as(name, channels[at].channel.name@) || reads_as(
            name,
            channels[at].channel.display_name@,
        ),
        forall|i: int|
            0 <= i < channels.len() && i != at && (reads_as(
                team,
                (#[trigger] channels[i]).team.name@,
            ) || reads_as(team, channels[i].team.display_name@)) ==> !reads_as(
                name,
                channels[i].channel.name@,
            ) && !reads_as(name, channels[i].channel.display_name@),
    ensures
        denoted(label(team, name), channels) == seq![channels[at]],
{
    let wanted = label(team, name);
    lemma_labelled(team, name, channels[at]);
    assert forall|i: int| 0 <= i < channels.len() && i != at implies !denotes(
        wanted,
        #[trigger] channels[i],
    ) by {
        lemma_labelled(team, name, channels[i]);
    }
    lemma_denoted(wanted, channels, at, at);
}

proof fn lemma_denoted(selector: Seq<char>, channels: Seq<BoundChannel>, at: int, other: int)
    ensures
        0 <= at < channels.len() && denotes(selector, channels[at]) && (forall|i: int|
            0 <= i < channels.len() && i != at ==> !denotes(selector, #[trigger] channels[i]))
            ==> denoted(selector, channels) == seq![channels[at]],
        0 <= at < other < channels.len() && denotes(selector, channels[at]) && denotes(
            selector,
            channels[other],
        ) ==> denoted(selector, channels).len() >= 2,
        (forall|i: int| 0 <= i < channels.len() ==> !denotes(selector, #[trigger] channels[i]))
            ==> denoted(selector, channels).len() == 0,
{
    let pred = |bound: BoundChannel| denotes(selector, bound);
    if 0 <= at < channels.len() && denotes(selector, channels[at]) {
        if forall|i: int|
            0 <= i < channels.len() && i != at ==> !denotes(selector, #[trigger] channels[i]) {
            lemma_only_one(channels, pred, at);
        }
        if at < other < channels.len() && denotes(selector, channels[other]) {
            lemma_more_than_one(channels, pred, at, other);
        }
    }
    if forall|i: int| 0 <= i < channels.len() ==> !denotes(selector, #[trigger] channels[i]) {
        lemma_none(channels, pred);
    }
}

/// The label of a channel, of its team's name, a colon and its display name, resolves to it, and so
/// does the one with its name, as long as the team's name holds no colon, there is no white space at
/// the ends, nothing has the label as its identifier, and no other channel answers to it.
pub proof fn law_own_labels_resolve(
    channels: Seq<BoundChannel>,
    at: int,
    name: Seq<char>,
    r: Result<BoundChannel, WireError>,
)
    requires
        0 <= at < channels.len(),
        !channels[at].team.name@.contains(':'),
        name == channels[at].channel.name@ || name == channels[at].channel.display_name@,
        name.len() > 0,
        !is_white((channels[at].team.name@ + ":"@ + name)[0]),
        !is_white(name.last()),
        forall|i: int|
            0 <= i < channels.len() ==> (#[trigger] channels[i]).channel.id@
                != channels[at].team.name@ + ":"@ + name,
        forall|i: int|
            0 <= i < channels.len() && i != at && (reads_as(
                channels[at].team.name@,
                (#[trigger] channels[i]).team.name@,
            ) || reads_as(channels[at].team.name@, channels[i].team.display_name@)) ==> !reads_as(
                name,
                channels[i].channel.name@,
            ) && !reads_as(name, channels[i].channel.display_name@),
        resolves(channels[at].team.name@ + ":"@ + name, channels, r),
    ensures
        r == Ok::<BoundChannel, WireError>(channels[at]),
{
    assert(label(channels[at].team.name@, name).last() == name.last());
    law_labels_resolve(channels, at, channels[at].team.name@, name, r);
}

/// An identifier resolves to the first channel that has it, whatever other channels are called.
pub proof fn law_identifiers_resolve(
    selector: Seq<char>,
    channels: Seq<BoundChannel>,
    at: int,
    r: Result<BoundChannel, WireError>,
)
    requires
        0 <= at < channels.len(),
        channels[at].channel.id@ == trimmed(selector),
        trimmed(selector).len() > 0,
        forall|i: int| 0 <= i < at ==> (#[trigger] channels[i]).channel.id@ != trimmed(selector),
        resolves(selector, channels, r),
    ensures
        r == Ok::<BoundChannel, WireError>(channels[at]),
{
    let k = choose|i: int|
        0 <= i < channels.len() && #[trigger] channels[i] == r->Ok_0 && r->Ok_0.channel.id@
            == trimmed(selector) && forall|j: int|
            0 <= j < i ==> (#[trigger] channels[j]).channel.id@ != trimmed(selector);
    if k < at {
        assert(channels[k].channel.id@ != trimmed(selector));
    }
    if at < k {
        assert(channels[at].channel.id@ != trimmed(selector));
    }
}

/// A bare name or display name resolves to the only channel that answers to it, in whatever team it
/// is; where two answer it is ambiguous, and where none does it is not visible. Nothing resolves to
/// nothing.
pub proof fn law_names_resolve(
    name: Seq<char>,
    channels: Seq<BoundChannel>,
    at: int,
    other: int,
    r: Result<BoundChannel, WireError>,
)
    requires
        !name.contains(':'),
        forall|i: int| 0 <= i < channels.len() ==> (#[trigger] channels[i]).channel.id@ != name,
        name.len() > 0 ==> !is_white(name[0]) && !is_white(name.last()),
        resolves(name, channels, r),
    ensures
        name.len() > 0 && 0 <= at < channels.len() && (reads_as(name, channels[at].channel.name@)
            || reads_as(name, channels[at].channel.display_name@)) && (forall|i: int|
            0 <= i < channels.len() && i != at ==> !reads_as(
                name,
                (#[trigger] channels[i]).channel.name@,
            ) && !reads_as(name, channels[i].channel.display_name@)) ==> r == Ok::<
            BoundChannel,
            WireError,
        >(channels[at]),
        name.len() > 0 && 0 <= at < other < channels.len() && (reads_as(
            name,
            channels[at].channel.name@,
        ) || reads_as(name, channels[at].channel.display_name@)) && (reads_as(
            name,
            channels[other].channel.name@,
        ) || reads_as(name, channels[other].channel.display_name@)) ==> input_error(
            r,
            "channel `"@ + name + "` is ambiguous; use team:channel"@,
        ),
        name.len() > 0 && (forall|i: int|
            0 <= i < channels.len() ==> !reads_as(name, (#[trigger] channels[i]).channel.name@)
                && !reads_as(name, channels[i].channel.display_name@)) ==> input_error(
            r,
            "channel `"@ + name + "` is not visible to the administrator"@,
        ),
        name.len() == 0 ==> input_error(r, "channel is empty"@),
{
    if name.len() > 0 {
        lemma_untrimmed(name);
        lemma_resolved(name, channels, r);
        assert(forall|i: int|
            0 <= i < channels.len() ==> (denotes(name, #[trigger] channels[i]) <==> reads_as(
                name,
                channels[i].channel.name@,
            ) || reads_as(name, channels[i].channel.display_name@)));
        lemma_denoted(name, channels, at, other);
    } else {
        assert(trimmed(name) =~= name);
    }
}

/// The channels of a team that are shown are those that are not deleted and are open or private,
/// each with its team, in the order in which the team lists them.
pub proof fn law_visible_channels(team: Team, channels: Seq<Channel>)
    ensures
        ({
            let shown = channels.filter(
                |channel: Channel|
                    channel.delete_at == 0 && (channel.kind@ == "O"@ || channel.kind@ == "P"@),
            );
            &&& bound(team, channels).len() == shown.len()
            &&& forall|i: int|
                0 <= i < shown.len() ==> (#[trigger] bound(team, channels)[i]).channel == shown[i]
                    && bound(team, channels)[i].team == team
        }),
    decreases channels.len(),
{
    reveal(Seq::filter);
    if channels.len() > 0 {
        let before = channels.drop_last();
        law_visible_channels(team, before);
        let pred = |channel: Channel|
            channel.delete_at == 0 && (channel.kind@ == "O"@ || channel.kind@ == "P"@);
        let shown = channels.filter(pred);
        assert forall|i: int| 0 <= i < shown.len() implies (#[trigger] bound(
            team,
            channels,
        )[i]).channel == shown[i] && bound(team, channels)[i].team == team by {
            if i < before.filter(pred).len() {
                assert(bound(team, channels)[i] == bound(team, before)[i]);
                assert(shown[i] == before.filter(pred)[i]);
            }
        }
    }
}

/// The channels of several teams are those of each, one team behind the other.
pub proof fn law_teams_add_up(left: Seq<TeamChannels>, right: Seq<TeamChannels>)
    ensures
        all_bound(left + right) == all_bound(left) + all_bound(right),
        left.len() == 1 ==> all_bound(left) == bound(left[0].team, left[0].channels@),
    decreases right.len(),
{
    if left.len() == 1 {
        assert(left.drop_last() =~= Seq::<TeamChannels>::empty());
        assert(all_bound(left.drop_last()) =~= Seq::<BoundChannel>::empty());
        assert(all_bound(left) =~= bound(left[0].team, left[0].channels@));
    }
    if right.len() == 0 {
        assert(left + right =~= left);
        assert(all_bound(left) + all_bound(right) =~= all_bound(left));
    } else {
        law_teams_add_up(left, right.drop_last());
        assert((left + right).drop_last() =~= left + right.drop_last());
        assert((left + right).last() == right.last());
        assert(all_bound(left + right) =~= all_bound(left) + all_bound(right));
    }
}

/// A listing shows every channel that is not deleted and is open or private, of every team, and no
/// other; by the name of the team, and within a team by the name of the channel.
pub proof fn law_every_channel_is_listed(teams: Seq<TeamChannels>, team: int, channel: int)
    ensures
        0 <= team < teams.len() && 0 <= channel < teams[team].channels@.len()
            && teams[team].channels@[channel].delete_at == 0 && (
        teams[team].channels@[channel].kind@ == "O"@ || teams[team].channels@[channel].kind@
            == "P"@) ==> visible_channels(teams).contains(
            (BoundChannel { team: teams[team].team, channel: teams[team].channels@[channel] }),
        ),
        forall|i: int|
            0 <= i < visible_channels(teams).len() ==> (#[trigger] visible_channels(
                teams,
            )[i]).channel.delete_at == 0 && (visible_channels(teams)[i].channel.kind@ == "O"@
                || visible_channels(teams)[i].channel.kind@ == "P"@),
        forall|i: int, j: int|
            #![trigger visible_channels(teams)[i], visible_channels(teams)[j]]
            0 <= i < j < visible_channels(teams).len() ==> {
                let first = visible_channels(teams)[i];
                let second = visible_channels(teams)[j];
                &&& !text_less(second.team.name@, first.team.name@)
                &&& first.team.name@ == second.team.name@ ==> !text_less(
                    second.channel.name@,
                    first.channel.name@,
                )
            },
{
    let less = |a: BoundChannel, b: BoundChannel| channel_less(a, b);
    let shown = visible_channels(teams);
    law_channels_are_ordered(teams);
    lemma_channel_ranks();
    if 0 <= team < teams.len() && 0 <= channel < teams[team].channels@.len() && is_visible(
        teams[team].channels@[channel],
    ) {
        let item = BoundChannel {
            team: teams[team].team,
            channel: teams[team].channels@[channel],
        };
        lemma_bound_contains(teams[team].team, teams[team].channels@, channel);
        let before = teams.take(team);
        let here = seq![teams[team]];
        let behind = teams.skip(team + 1);
        assert(teams =~= before + (here + behind));
        law_teams_add_up(before, here + behind);
        law_teams_add_up(here, behind);
        let own = bound(teams[team].team, teams[team].channels@);
        let k = choose|k: int| 0 <= k < own.len() && own[k] == item;
        assert(all_bound(teams)[all_bound(before).len() + k] == item);
        law_ordering_keeps_items(all_bound(teams), less, item);
    }
    assert forall|i: int| 0 <= i < shown.len() implies (#[trigger] shown[i]).channel.delete_at == 0
        && (shown[i].channel.kind@ == "O"@ || shown[i].channel.kind@ == "P"@) by {
        assert(shown.contains(shown[i]));
        law_ordering_keeps_items(all_bound(teams), less, shown[i]);
        lemma_all_visible(teams, shown[i]);
    }
    assert forall|i: int, j: int| 0 <= i < j < shown.len() implies ({
        let first = #[trigger] shown[i];
        let second = #[trigger] shown[j];
        &&& !text_less(second.team.name@, first.team.name@)
        &&& first.team.name@ == second.team.name@ ==> !text_less(
            second.channel.name@,
            first.channel.name@,
        )
    }) by {
        assert(!less(shown[j], shown[i]));
    }
}

proof fn lemma_bound_contains(team: Team, channels: Seq<Channel>, at: int)
    requires
        0 <= at < channels.len(),
        is_visible(channels[at]),
    ensures
        bound(team, channels).contains((BoundChannel { team, channel: channels[at] })),
    decreases channels.len(),
{
    let before = channels.drop_last();
    let item = BoundChannel { team, channel: channels[at] };
    let whole = bound(team, channels);
    if at == channels.len() - 1 {
        assert(whole[whole.len() - 1] == item);
    } else {
        lemma_bound_contains(team, before, at);
        let k = choose|k: int| 0 <= k < bound(team, before).len() && bound(team, before)[k] == item;
        assert(whole[k] == item);
    }
}

proof fn lemma_all_visible(teams: Seq<TeamChannels>, item: BoundChannel)
    requires
        all_bound(teams).contains(item),
    ensures
        is_visible(item.channel),
    decreases teams.len(),
{
    let before = all_bound(teams.drop_last());
    let own = bound(teams.last().team, teams.last().channels@);
    let k = choose|k: int| 0 <= k < all_bound(teams).len() && all_bound(teams)[k] == item;
    if k < before.len() {
        assert(before[k] == item);
        lemma_all_visible(teams.drop_last(), item);
    } else {
        assert(own[k - before.len()] == item);
        lemma_bound_visible(teams.last().team, teams.last().channels@, k - before.len());
    }
}

proof fn lemma_bound_visible(team: Team, channels: Seq<Channel>, at: int)
    requires
        0 <= at < bound(team, channels).len(),
    ensures
        is_visible(bound(team, channels)[at].channel),
    decreases channels.len(),
{
    let before = bound(team, channels.drop_last());
    if at < before.len() {
        lemma_bound_visible(team, channels.drop_last(), at);
    }
}

/// A history shows, for every key of its order that a post has, the last post of that key, whatever
/// its fields hold; nothing else; and as many posts as there are such keys in the order.
pub proof fn law_histories_show_their_posts(list: PostList, post: Post)
    ensures
        forall|i: int, k: int|
            #![trigger list.order@[i], list.posts@[k]]
            0 <= i < list.order@.len() && 0 <= k < list.posts@.len() && list.posts@[k].key@
                == list.order@[i]@ && (forall|j: int|
                k < j < list.posts@.len() ==> (#[trigger] list.posts@[j]).key@
                    != list.order@[i]@) ==> history(list).contains(list.posts@[k].post),
        history(list).contains(post) ==> exists|i: int, k: int|
            0 <= i < list.order@.len() && 0 <= k < list.posts@.len() && (
            #[trigger] list.posts@[k]).key@ == (#[trigger] list.order@[i])@ && list.posts@[k].post
                == post,
        history(list).len() == list.order@.filter(
            |key: String|
                exists|k: int| 0 <= k < list.posts@.len() && (#[trigger] list.posts@[k]).key@ == key@,
        ).len(),
        forall|i: int, j: int|
            0 <= i < j < history(list).len() ==> #[trigger] history(list)[i].create_at
                <= #[trigger] history(list)[j].create_at,
{
    let less = |a: Post, b: Post| post_less(a, b);
    let posts = post_map(list.posts@);
    let order = texts(list.order@);
    law_history_is_ordered(list);
    assert forall|i: int, k: int|
        #![trigger list.order@[i], list.posts@[k]]
        0 <= i < list.order@.len() && 0 <= k < list.posts@.len() && list.posts@[k].key@
            == list.order@[i]@ && (forall|j: int|
            k < j < list.posts@.len() ==> (#[trigger] list.posts@[j]).key@ != list.order@[i]@)
        implies history(list).contains(list.posts@[k].post) by {
        lemma_post_map(list.posts@, list.order@[i]@, k);
        assert(order[i] == list.order@[i]@);
        lemma_picked(order, posts, i);
        law_ordering_keeps_items(page_posts(list), less, list.posts@[k].post);
    }
    if history(list).contains(post) {
        law_ordering_keeps_items(page_posts(list), less, post);
        let at = choose|at: int| 0 <= at < page_posts(list).len() && page_posts(list)[at] == post;
        let i = lemma_picked_back(order, posts, at);
        let k = lemma_post_witness(list.posts@, order[i]);
        assert(list.posts@[k].key@ == list.order@[i]@);
    }
    law_ordering_keeps_items(page_posts(list), less, post);
    lemma_picked_count(list.order@, list.posts@);
}

proof fn lemma_picked(order: Seq<Seq<char>>, posts: Map<Seq<char>, Post>, at: int)
    requires
        0 <= at < order.len(),
        posts.dom().contains(order[at]),
    ensures
        picked(order, posts).contains(posts[order[at]]),
    decreases order.len(),
{
    let before = order.drop_last();
    let all = picked(order, posts);
    if at == order.len() - 1 {
        assert(all[all.len() - 1] == posts[order[at]]);
    } else {
        lemma_picked(before, posts, at);
        let fewer = picked(before, posts);
        let k = choose|k: int| 0 <= k < fewer.len() && fewer[k] == posts[order[at]];
        assert(all[k] == fewer[k]);
    }
}

proof fn lemma_picked_back(order: Seq<Seq<char>>, posts: Map<Seq<char>, Post>, at: int) -> (i: int)
    requires
        0 <= at < picked(order, posts).len(),
    ensures
        0 <= i < order.len(),
        posts.dom().contains(order[i]),
        picked(order, posts)[at] == posts[order[i]],
    decreases order.len(),
{
    let fewer = picked(order.drop_last(), posts);
    if at < fewer.len() {
        lemma_picked_back(order.drop_last(), posts, at)
    } else {
        order.len() - 1
    }
}

proof fn lemma_post_witness(posts: Seq<ListedPost>, key: Seq<char>) -> (at: int)
    requires
        post_map(posts).dom().contains(key),
    ensures
        0 <= at < posts.len(),
        posts[at].key@ == key,
        posts[at].post == post_map(posts)[key],
    decreases posts.len(),
{
    if posts.last().key@ == key {
        posts.len() - 1
    } else {
        lemma_post_witness(posts.drop_last(), key)
    }
}

proof fn lemma_post_listed(posts: Seq<ListedPost>, at: int)
    requires
        0 <= at < posts.len(),
    ensures
        post_map(posts).dom().contains(posts[at].key@),
    decreases posts.len(),
{
    if at < posts.len() - 1 {
        lemma_post_listed(posts.drop_last(), at);
    }
}

proof fn lemma_picked_count(order: Seq<String>, posts: Seq<ListedPost>)
    ensures
        picked(texts(order), post_map(posts)).len() == order.filter(
            |key: String|
                exists|k: int| 0 <= k < posts.len() && (#[trigger] posts[k]).key@ == key@,
        ).len(),
    decreases order.len(),
{
    reveal(Seq::filter);
    if order.len() > 0 {
        let before = order.drop_last();
        lemma_picked_count(before, posts);
        assert(texts(order).drop_last() =~= texts(before));
        let key = order.last()@;
        assert(texts(order).last() == key);
        if post_map(posts).dom().contains(key) {
            let k = lemma_post_witness(posts, key);
            assert(posts[k].key@ == key);
        }
        if exists|k: int| 0 <= k < posts.len() && (#[trigger] posts[k]).key@ == key {
            let k = choose|k: int| 0 <= k < posts.len() && (#[trigger] posts[k]).key@ == key;
            lemma_post_listed(posts, k);
        }
    }
}

/// Posts of one time stand in a history as they stand in the order of the page.
pub proof fn law_histories_are_stable(list: PostList, time: i64)
    ensures
        history(list).filter(|post: Post| post.create_at == time) == page_posts(list).filter(
            |post: Post| post.create_at == time,
        ),
{
    law_equal_ranks_stay(
        page_posts(list),
        |a: Post, b: Post| post_less(a, b),
        |post: Post| post.create_at == time,
    );
}

/// The last live user of an identifier counts, and one that is deleted does not.
pub proof fn law_last_live_user(users: Seq<User>, id: Seq<char>, at: int)
    ensures
        0 <= at < users.len() && users[at].delete_at == 0 && users[at].id@ == id && (forall|i: int|
            at < i < users.len() && (#[trigger] users[i]).id@ == id ==> users[i].delete_at != 0)
            ==> live_user(users, id) == Some(users[at]),
        (forall|i: int|
            0 <= i < users.len() && (#[trigger] users[i]).id@ == id ==> users[i].delete_at != 0)
            ==> live_user(users, id) is None,
    decreases users.len(),
{
    if users.len() > 0 {
        let before = users.drop_last();
        assert(forall|i: int| 0 <= i < before.len() ==> before[i] == users[i]);
        assert(users[users.len() - 1] == users.last());
        law_last_live_user(before, id, at);
    }
}

/// A user with the synthetic address of a session is that session's; one with another address is the
/// session's that the last of its properties `wire_session` spells, and nobody's without that
/// property.
pub proof fn law_whose_user(user: User, properties: Vec<Property>, at: int, session: SessionId)
    ensures
        user.email@ == email_text(session) ==> user_session(user) == Some(session),
        addressed_session(user.email@) is None && user.props == Some(properties) && 0 <= at
            < properties@.len() && properties@[at].key@ == "wire_session"@ && properties@[at].value@
            == hyphenated_text(session.value) && (forall|i: int|
            at < i < properties@.len() ==> (#[trigger] properties@[i]).key@ != "wire_session"@)
            ==> user_session(user) == Some(session),
        addressed_session(user.email@) is None && user.props is None ==> user_session(user) is None,
        addressed_session(user.email@) is None && user.props == Some(properties) && (forall|i: int|
            0 <= i < properties@.len() ==> (#[trigger] properties@[i]).key@ != "wire_session"@)
            ==> user_session(user) is None,
{
    law_addresses_name_their_session(session);
    law_users_are_bound(properties, at, session);
}

/// A bot is that of its live user's session; without one it is that of the session that its
/// description names in the older form; and without a live user it is nobody's. It speaks for a
/// session that its user's properties or its description names, as long as its user has no session's
/// address.
pub proof fn law_whose_bot(bot: Bot, users: Seq<User>, user: User, session: SessionId)
    ensures
        live_user(users, bot.user_id@) == Some(user) && user_session(user) == Some(session)
            ==> bot_session(bot, users) == Some(session) && speaks_for(bot, users, session),
        live_user(users, bot.user_id@) == Some(user) && user_session(user) is None && opt_text(
            bot.description,
        ) == Some("Codex session "@ + hyphenated_text(session.value)) ==> bot_session(bot, users)
            == Some(session),
        live_user(users, bot.user_id@) == Some(user) && addressed_session(user.email@) is None
            && opt_text(bot.description) == Some("Codex session "@ + hyphenated_text(session.value))
            ==> speaks_for(bot, users, session),
        live_user(users, bot.user_id@) is None ==> bot_session(bot, users) is None && !speaks_for(
            bot,
            users,
            session,
        ),
{
    law_descriptions(Seq::empty(), session, 0);
}

/// The bot that is found for a session is the first that speaks for it; none is found exactly where
/// none does.
pub proof fn law_first_bot(
    bots: Seq<Bot>,
    users: Seq<User>,
    session: SessionId,
    found: Option<Bot>,
    at: int,
)
    requires
        is_first_bot(bots, users, session, found),
    ensures
        0 <= at < bots.len() && speaks_for(bots[at], users, session) && (forall|i: int|
            0 <= i < at ==> !speaks_for(#[trigger] bots[i], users, session)) ==> found == Some(
            bots[at],
        ),
        (forall|i: int| 0 <= i < bots.len() ==> !speaks_for(#[trigger] bots[i], users, session))
            ==> found is None,
{
}

/// Of the bots of one user the last that has a session counts: with that session, its name, and
/// whether it has a biography. A bot without a session is none of Wire's.
pub proof fn law_bots_of_wire(bots: Seq<Bot>, users: Seq<User>, at: int, id: Seq<char>)
    ensures
        0 <= at < bots.len() && bots[at].user_id@ == id && bot_session(bots[at], users) is Some && (
        forall|i: int|
            at < i < bots.len() && (#[trigger] bots[i]).user_id@ == id ==> bot_session(
                bots[i],
                users,
            ) is None) ==> {
            &&& bot_map(bots, users).dom().contains(id)
            &&& bot_map(bots, users)[id].session == bot_session(bots[at], users)->Some_0
            &&& bot_map(bots, users)[id].username == bots[at].username@
            &&& bot_map(bots, users)[id].established <==> biography_text(
                opt_text(bots[at].description),
            ) is Some
        },
        (forall|i: int|
            0 <= i < bots.len() && (#[trigger] bots[i]).user_id@ == id ==> bot_session(
                bots[i],
                users,
            ) is None) ==> !bot_map(bots, users).dom().contains(id),
    decreases bots.len(),
{
    if bots.len() > 0 {
        let before = bots.drop_last();
        assert(forall|i: int| 0 <= i < before.len() ==> before[i] == bots[i]);
        assert(bots[bots.len() - 1] == bots.last());
        law_bots_of_wire(before, users, at, id);
    }
}

/// Of what is known of a user the last counts.
pub proof fn law_last_known_bot(known: Seq<KnownBot>, at: int, id: Seq<char>)
    ensures
        0 <= at < known.len() && known[at].user_id@ == id && (forall|i: int|
            at < i < known.len() ==> (#[trigger] known[i]).user_id@ != id) ==> known_map(
            known,
        ).dom().contains(id) && known_map(known)[id] == known[at].bot@,
        (forall|i: int| 0 <= i < known.len() ==> (#[trigger] known[i]).user_id@ != id)
            ==> !known_map(known).dom().contains(id),
{
    if 0 <= at < known.len() && known[at].user_id@ == id && (forall|i: int|
        at < i < known.len() ==> (#[trigger] known[i]).user_id@ != id) {
        lemma_known(known, id, at);
    }
    if forall|i: int| 0 <= i < known.len() ==> (#[trigger] known[i]).user_id@ != id {
        lemma_known(known, id, known.len() as int);
    }
}

/// The operator's counterpart is the only member who is not the operator, wherever it stands; there
/// is none where all are, or where two are not.
pub proof fn law_counterparts(
    members: Seq<ChannelMember>,
    operator_id: Seq<char>,
    at: int,
    other: int,
)
    ensures
        0 <= at < members.len() && members[at].user_id@ != operator_id && (forall|i: int|
            0 <= i < members.len() && i != at ==> (#[trigger] members[i]).user_id@ == operator_id)
            ==> opposite(members, operator_id) == Some(members[at].user_id@) && others(
            members,
            operator_id,
        ) == seq![members[at]],
        0 <= at < other < members.len() && members[at].user_id@ != operator_id
            && members[other].user_id@ != operator_id ==> opposite(members, operator_id) is None
            && others(members, operator_id).len() != 1,
        (forall|i: int| 0 <= i < members.len() ==> (#[trigger] members[i]).user_id@ == operator_id)
            ==> opposite(members, operator_id) is None && others(members, operator_id).len() == 0,
{
    let pred = |member: ChannelMember| is_other(member, operator_id);
    if 0 <= at < members.len() && members[at].user_id@ != operator_id {
        if forall|i: int|
            0 <= i < members.len() && i != at ==> (#[trigger] members[i]).user_id@ == operator_id {
            lemma_only_one(members, pred, at);
        }
        if at < other < members.len() && members[other].user_id@ != operator_id {
            lemma_more_than_one(members, pred, at, other);
        }
    }
    if forall|i: int| 0 <= i < members.len() ==> (#[trigger] members[i]).user_id@ == operator_id {
        lemma_none(members, pred);
    }
}

/// What a counterpart is: nobody once it is deleted, the bot of its session where it has one, and
/// perhaps a bot of the older form where it has none.
pub proof fn law_judgement(user: User, session: SessionId)
    ensures
        user.delete_at != 0 ==> judged(user) == Counterpart::Gone,
        user.delete_at == 0 && user.email@ == email_text(session) ==> judged(user)
            == Counterpart::Bound(session),
        user.delete_at == 0 && addressed_session(user.email@) is None && user.props is None
            ==> judged(user) == Counterpart::Unbound,
{
    law_addresses_name_their_session(session);
}

/// A direct channel between the operator and a live user of a session's address reaches that
/// session; where the user has no binding, the one that the description of its bot names in the
/// older form.
pub proof fn law_direct_channels_reach(
    channel: Channel,
    members: Seq<ChannelMember>,
    operator_id: Seq<char>,
    at: int,
    user: User,
    bot: Option<Bot>,
    session: SessionId,
)
    requires
        channel.kind@ == "D"@,
        0 <= at < members.len(),
        members[at].user_id@ != operator_id,
        forall|i: int|
            0 <= i < members.len() && i != at ==> (#[trigger] members[i]).user_id@ == operator_id,
        user.delete_at == 0,
    ensures
        user.email@ == email_text(session) ==> direct_target(
            channel,
            members,
            operator_id,
            user,
            bot,
        ) == Some(session),
        user_session(user) is None && bot is Some && opt_text(bot->Some_0.description) == Some(
            "Codex session "@ + hyphenated_text(session.value),
        ) ==> direct_target(channel, members, operator_id, user, bot) == Some(session),
        user_session(user) is None && bot is None ==> direct_target(
            channel,
            members,
            operator_id,
            user,
            bot,
        ) is None,
{
    law_counterparts(members, operator_id, at, at);
    law_addresses_name_their_session(session);
    law_descriptions(Seq::empty(), session, 0);
}

/// Every member that is a bot of Wire and not the author may be concerned by a post, with what is
/// known of it, and nobody else.
pub proof fn law_candidates_are_members(
    members: Seq<ChannelMember>,
    author: Seq<char>,
    known: Map<Seq<char>, WireBotView>,
    candidates: Seq<Candidate>,
)
    requires
        concerned(members, author, known, candidates),
    ensures
        forall|i: int|
            0 <= i < members.len() && (#[trigger] members[i]).user_id@ != author
                && known.dom().contains(members[i].user_id@) ==> exists|k: int|
                0 <= k < candidates.len() && (#[trigger] candidates[k]).user_id@
                    == members[i].user_id@ && candidates[k].bot.session
                    == known[members[i].user_id@].session && candidates[k].bot.username@
                    == known[members[i].user_id@].username && candidates[k].bot.established
                    == known[members[i].user_id@].established,
        forall|k: int|
            0 <= k < candidates.len() ==> (#[trigger] candidates[k]).user_id@ != author
                && known.dom().contains(candidates[k].user_id@),
{
    broadcast use vstd::seq_lib::group_filter_ensures;

    let pred = |member: ChannelMember| eligible(member, author, known);
    let chosen = members.filter(pred);
    assert forall|i: int|
        0 <= i < members.len() && (#[trigger] members[i]).user_id@ != author
            && known.dom().contains(members[i].user_id@) implies exists|k: int|
        0 <= k < candidates.len() && (#[trigger] candidates[k]).user_id@ == members[i].user_id@
            && candidates[k].bot.session == known[members[i].user_id@].session
            && candidates[k].bot.username@ == known[members[i].user_id@].username
            && candidates[k].bot.established == known[members[i].user_id@].established by {
        assert(pred(members[i]));
        assert(members.contains(members[i]));
        assert(chosen.contains(members[i]));
        let k = choose|k: int| 0 <= k < chosen.len() && chosen[k] == members[i];
        assert(candidates[k].user_id == chosen[k].user_id);
        assert(candidates[k].bot@ == known[members[i].user_id@]);
    }
    assert forall|k: int| 0 <= k < candidates.len() implies (#[trigger] candidates[k]).user_id@
        != author && known.dom().contains(candidates[k].user_id@) by {
        assert(pred(chosen[k]));
    }
}

/// A subscription is in force exactly where the preference is there and its value is `1`; and as many
/// candidates are chosen as have one.
pub proof fn law_subscriptions_in_force(
    candidates: Seq<Candidate>,
    preferences: Seq<Option<Preference>>,
)
    requires
        candidates.len() == preferences.len(),
    ensures
        chosen(candidates, preferences).len() == preferences.filter(
            |preference: Option<Preference>|
                preference is Some && preference->Some_0.value@ == "1"@,
        ).len(),
    decreases candidates.len(),
{
    reveal(Seq::filter);
    if candidates.len() > 0 {
        let before = candidates.drop_last();
        let fewer = preferences.drop_last();
        lemma_chosen_prefix(before, preferences, fewer);
        law_subscriptions_in_force(before, fewer);
    }
}

/// A session is established exactly where some user that is known as its bot has a biography.
pub proof fn law_established_sessions(known: Seq<KnownBot>, session: SessionId, at: int)
    ensures
        0 <= at < known.len() && known[at].bot.session == session && known[at].bot.established && (
        forall|i: int|
            at < i < known.len() ==> (#[trigger] known[i]).user_id@ != known[at].user_id@)
            ==> is_established(known_map(known), session),
        (forall|i: int|
            0 <= i < known.len() && (#[trigger] known[i]).bot.session == session
                ==> !known[i].bot.established) ==> !is_established(known_map(known), session),
{
    if 0 <= at < known.len() && (forall|i: int|
        at < i < known.len() ==> (#[trigger] known[i]).user_id@ != known[at].user_id@) {
        lemma_known(known, known[at].user_id@, at);
        assert(known_map(known)[known[at].user_id@] == known[at].bot@);
    }
    if is_established(known_map(known), session) {
        let map = known_map(known);
        let id = choose|id: Seq<char>|
            map.dom().contains(id) && (#[trigger] map[id]).session == session
                && map[id].established;
        let k = lemma_known_witness(known, id);
        assert(known[k].bot@ == map[id]);
    }
}

} // verus!
