//! The intake: which of Mattermost's live events become deliveries.
use std::collections::VecDeque;
use vstd::prelude::*;
use crate::error::RelayError;
use crate::json::{as_text, is_text, json_parse, text_of, Json, Tree};
use crate::model::Post;
use crate::rpc::Frame;
use crate::text::{same, texts};

verus! {

/// How many posts are remembered.
pub const RECENT_POSTS: usize = 1_024;

/// The longest pause between two connections, in seconds.
pub const MAX_DELAY_SECONDS: u64 = 30;

/// The posts that were let in of late, oldest first.
#[derive(Debug, PartialEq, Eq)]
pub struct SeenPosts {
    pub order: VecDeque<String>,
}

/// Recent posts with one more; the oldest is forgotten where they would be too many.
pub open spec fn remembered(posts: Seq<Seq<char>>, post: Seq<char>) -> Seq<Seq<char>> {
    let longer = posts.push(post);
    if longer.len() > RECENT_POSTS {
        longer.drop_first()
    } else {
        longer
    }
}

/// Recent posts after one more was seen.
pub open spec fn after_seeing(posts: Seq<Seq<char>>, post: Seq<char>) -> Seq<Seq<char>> {
    if posts.contains(post) {
        posts
    } else {
        remembered(posts, post)
    }
}

impl View for SeenPosts {
    type V = Seq<Seq<char>>;

    open spec fn view(&self) -> Seq<Seq<char>> {
        texts(self.order@)
    }
}

impl SeenPosts {
    /// No post is remembered twice, and there are not too many.
    pub open spec fn wf(self) -> bool {
        self@.len() <= RECENT_POSTS && self@.no_duplicates()
    }

    pub fn new() -> (r: SeenPosts)
        ensures
            r.wf(),
            r@ == Seq::<Seq<char>>::empty(),
    {
        let r = SeenPosts { order: VecDeque::new() };
        assert(r@ =~= Seq::<Seq<char>>::empty());
        r
    }

    fn holds(&self, post: &str) -> (r: bool)
        ensures
            r == self@.contains(post@),
    {
        let mut i: usize = 0;
        while i < self.order.len()
            invariant
                i <= self.order@.len(),
                forall|j: int| 0 <= j < i ==> self@[j] != post@,
            decreases self.order@.len() - i,
        {
            assert(self@[i as int] == self.order@[i as int]@);
            if same(self.order[i].as_str(), post) {
                return true;
            }
            i += 1;
        }
        false
    }

    /// Whether a post is new; it is remembered from now on.
    pub fn admits(&mut self, post: &str) -> (r: bool)
        requires
            old(self).wf(),
        ensures
            final(self).wf(),
            r == !old(self)@.contains(post@),
            final(self)@ == after_seeing(old(self)@, post@),
    {
        if self.holds(post) {
            return false;
        }
        let ghost before = self@;
        self.order.push_back(post.to_owned());
        assert(self@ =~= before.push(post@));
        if self.order.len() > RECENT_POSTS {
            let _evicted = self.order.pop_front();
            assert(self@ =~= before.push(post@).drop_first());
        }
        true
    }
}

/// Recent posts after a row of others was seen.
pub open spec fn after_seeing_all(posts: Seq<Seq<char>>, more: Seq<Seq<char>>) -> Seq<Seq<char>>
    decreases more.len(),
{
    if more.len() == 0 {
        posts
    } else {
        after_seeing(after_seeing_all(posts, more.drop_last()), more.last())
    }
}

proof fn lemma_still_seen(posts: Seq<Seq<char>>, post: Seq<char>, more: Seq<Seq<char>>) -> (at: int)
    requires
        posts.len() <= RECENT_POSTS,
        posts.len() > 0,
        posts.last() == post,
        more.len() < RECENT_POSTS,
    ensures
        after_seeing_all(posts, more).len() <= RECENT_POSTS,
        0 <= at < after_seeing_all(posts, more).len(),
        after_seeing_all(posts, more)[at] == post,
        after_seeing_all(posts, more).len() - 1 - at <= more.len(),
    decreases more.len(),
{
    if more.len() == 0 {
        posts.len() - 1
    } else {
        let before = after_seeing_all(posts, more.drop_last());
        let at = lemma_still_seen(posts, post, more.drop_last());
        if before.contains(more.last()) {
            at
        } else if before.len() + 1 > RECENT_POSTS {
            assert(before.push(more.last()).drop_first()[at - 1] == post);
            at - 1
        } else {
            at
        }
    }
}

/// A post that was let in is not let in again while fewer than 1,024 others are seen after it.
pub proof fn law_recent_posts_stay_out(
    posts: Seq<Seq<char>>,
    post: Seq<char>,
    more: Seq<Seq<char>>,
)
    requires
        posts.len() <= RECENT_POSTS,
        !posts.contains(post),
        more.len() < RECENT_POSTS,
    ensures
        after_seeing_all(after_seeing(posts, post), more).contains(post),
{
    let start = after_seeing(posts, post);
    assert(start.last() == post);
    let at = lemma_still_seen(start, post, more);
    assert(after_seeing_all(start, more)[at] == post);
}

/// What to do about a frame of the live connection.
#[derive(Debug, PartialEq, Eq)]
pub enum Sighting {
    /// Listen on.
    Nothing,
    /// Answer a ping with its own payload, and listen on.
    Pong(Vec<u8>),
    /// A post, as text.
    Post(String),
    /// The connection is over.
    Over(RelayError),
}

/// A live connection; it is armed once Mattermost said hello on it.
#[derive(Debug, PartialEq, Eq)]
pub struct Intake {
    pub armed: bool,
}

/// The text of the post that an event brings.
pub open spec fn posted(event: Tree) -> Option<Seq<char>> {
    if text_of(event.get("event"@)) == Some("posted"@) {
        text_of(event.at("data"@, "post"@))
    } else {
        None
    }
}

/// Whether an event is Mattermost's hello.
pub open spec fn is_hello(event: Tree) -> bool {
    text_of(event.get("event"@)) == Some("hello"@)
}

/// A failure of the relay with the given message.
pub open spec fn ended(sighting: Sighting, message: Seq<char>) -> bool {
    sighting is Over && sighting->Over_0 is Protocol && sighting->Over_0->Protocol_0@ == message
}

/// What a frame brings to a connection, and whether that is armed then. Posts count only once
/// Mattermost said hello.
pub open spec fn observed(armed: bool, frame: Frame, r: Sighting, now: bool) -> bool {
    match frame {
        Frame::Text(text) => match json_parse(text@) {
            Err(complaint) => r is Over && r->Over_0 is Json && r->Over_0->Json_0@
                == complaint && now == armed,
            Ok(event) => if is_hello(event) {
                r is Nothing && now
            } else {
                now == armed && match posted(event) {
                    Some(post) => if armed {
                        r is Post && r->Post_0@ == post
                    } else {
                        r is Nothing
                    },
                    None => r is Nothing,
                }
            },
        },
        Frame::Ping(payload) => r == Sighting::Pong(payload) && now == armed,
        Frame::Other => r is Nothing && now == armed,
        Frame::Broken(complaint) => ended(r, complaint@) && now == armed,
        _ => ended(r, "Mattermost WebSocket ended"@) && now == armed,
    }
}

impl Intake {
    pub fn new() -> (r: Intake)
        ensures
            !r.armed,
    {
        Intake { armed: false }
    }

    /// What a frame brings. Posts count only once Mattermost said hello.
    pub fn observe(&mut self, frame: Frame) -> (r: Sighting)
        ensures
            observed(old(self).armed, frame, r, final(self).armed),
    {
        match frame {
            Frame::Text(text) => {
                let event = match Json::parse(text.as_str()) {
                    Ok(event) => event,
                    Err(complaint) => return Sighting::Over(RelayError::Json(complaint)),
                };
                if is_text(event.get("event"), "hello") {
                    self.armed = true;
                    return Sighting::Nothing;
                }
                if !self.armed || !is_text(event.get("event"), "posted") {
                    return Sighting::Nothing;
                }
                match as_text(event.at("data", "post")) {
                    Some(post) => Sighting::Post(post.clone()),
                    None => Sighting::Nothing,
                }
            },
            Frame::Ping(payload) => Sighting::Pong(payload),
            Frame::Other => Sighting::Nothing,
            Frame::Broken(complaint) => Sighting::Over(RelayError::Protocol(complaint)),
            Frame::Close | Frame::Ended => Sighting::Over(
                RelayError::Protocol("Mattermost WebSocket ended".to_owned()),
            ),
        }
    }
}

/// Whether a connection is armed after a row of events.
pub open spec fn armed_after(events: Seq<Tree>) -> bool {
    exists|i: int| 0 <= i < events.len() && is_hello(#[trigger] events[i])
}

/// The posts that come through from a row of events on one connection.
pub open spec fn let_through(events: Seq<Tree>) -> Seq<Seq<char>>
    decreases events.len(),
{
    if events.len() == 0 {
        Seq::empty()
    } else {
        let before = let_through(events.drop_last());
        match posted(events.last()) {
            Some(post) => if armed_after(events.drop_last()) && !is_hello(events.last()) {
                before.push(post)
            } else {
                before
            },
            None => before,
        }
    }
}

/// Nothing that a connection brings before its hello comes through.
pub proof fn law_nothing_before_hello(events: Seq<Tree>)
    requires
        !armed_after(events),
    ensures
        let_through(events).len() == 0,
    decreases events.len(),
{
    if events.len() > 0 {
        let before = events.drop_last();
        assert forall|i: int| 0 <= i < before.len() implies !is_hello(#[trigger] before[i]) by {
            assert(before[i] == events[i]);
        }
        law_nothing_before_hello(before);
    }
}

/// What a post is to the relay.
#[derive(Clone, Copy, Debug, PartialEq, Eq, Structural)]
pub enum Regard {
    /// Nothing.
    Ignore,
    /// The operator's words; they count where they were said directly.
    Human,
    /// Another's words; they count where an agent said them in a channel.
    Channel,
}

/// What a post that was not seen before is to the relay.
pub open spec fn regard_of(post: Post, operator_id: Seq<char>, broadcast: bool) -> Regard {
    if post.user_id@ == operator_id {
        Regard::Human
    } else if broadcast {
        Regard::Channel
    } else {
        Regard::Ignore
    }
}

/// What a post is to the relay. An empty post is nothing, and so is one that was seen before.
pub open spec fn regarded(
    post: Post,
    operator_id: Seq<char>,
    broadcast: bool,
    seen: Seq<Seq<char>>,
) -> Regard {
    if post.message@.len() == 0 || seen.contains(post.id@) {
        Regard::Ignore
    } else {
        regard_of(post, operator_id, broadcast)
    }
}

/// The posts that are remembered once a post was regarded: it is, too, unless it is empty.
pub open spec fn seen_after(post: Post, seen: Seq<Seq<char>>) -> Seq<Seq<char>> {
    if post.message@.len() == 0 {
        seen
    } else {
        after_seeing(seen, post.id@)
    }
}

/// What a post is to the relay. It is remembered unless it is empty.
pub fn regard(post: &Post, operator_id: &str, broadcast: bool, seen: &mut SeenPosts) -> (r: Regard)
    requires
        old(seen).wf(),
    ensures
        final(seen).wf(),
        final(seen)@ == seen_after(*post, old(seen)@),
        r == regarded(*post, operator_id@, broadcast, old(seen)@),
{
    if post.message.as_str().is_empty() || !seen.admits(post.id.as_str()) {
        return Regard::Ignore;
    }
    if same(post.user_id.as_str(), operator_id) {
        Regard::Human
    } else if broadcast {
        Regard::Channel
    } else {
        Regard::Ignore
    }
}

/// With channel broadcasting off, only the operator is heard; the operator's own posts are never
/// taken for an agent's.
pub proof fn law_regard(post: Post, operator_id: Seq<char>, broadcast: bool)
    ensures
        !broadcast ==> regard_of(post, operator_id, broadcast) != Regard::Channel,
        post.user_id@ == operator_id ==> regard_of(post, operator_id, broadcast) == Regard::Human,
        regard_of(post, operator_id, broadcast) == Regard::Human ==> post.user_id@ == operator_id,
{
}

/// The pause that follows a pause: twice as long, up to the limit.
pub open spec fn lengthened(seconds: int) -> int {
    if 2 * seconds < MAX_DELAY_SECONDS {
        2 * seconds
    } else {
        MAX_DELAY_SECONDS as int
    }
}

/// The pause before the connection after next: twice as long, up to the limit.
pub fn next_delay(seconds: u64) -> (r: u64)
    ensures
        r == lengthened(seconds as int),
{
    if seconds < MAX_DELAY_SECONDS / 2 {
        2 * seconds
    } else {
        MAX_DELAY_SECONDS
    }
}

/// A post that is seen is remembered behind the others, of which none is forgotten while there are
/// fewer than 1,024, and only the oldest once there are; one that was seen before changes nothing.
pub proof fn law_seen_posts_are_remembered(posts: Seq<Seq<char>>, post: Seq<char>)
    requires
        posts.len() <= 1_024,
    ensures
        after_seeing(posts, post).contains(post),
        posts.contains(post) ==> after_seeing(posts, post) == posts,
        !posts.contains(post) && posts.len() < 1_024 ==> after_seeing(posts, post) == posts.push(
            post,
        ),
        !posts.contains(post) && posts.len() == 1_024 ==> after_seeing(posts, post)
            == posts.drop_first().push(post),
{
    let after = after_seeing(posts, post);
    if !posts.contains(post) {
        assert(after[after.len() - 1] == post);
        if posts.len() == 1_024 {
            assert(posts.push(post).drop_first() =~= posts.drop_first().push(post));
        }
    }
}

/// Once Mattermost said hello on a connection, every posted event brings its post, in order; before
/// that none does, and other events never do.
pub proof fn law_posts_come_through(events: Seq<Tree>, event: Tree, post: Seq<char>, hello: int)
    ensures
        0 <= hello < events.len() && events[hello].get("event"@) == Some(Tree::Text("hello"@))
            && event.get("event"@) == Some(Tree::Text("posted"@)) && event.at("data"@, "post"@)
            == Some(Tree::Text(post)) ==> let_through(events.push(event)) == let_through(
            events,
        ).push(post),
        event.get("event"@) != Some(Tree::Text("posted"@)) ==> let_through(events.push(event))
            == let_through(events),
        (forall|i: int|
            0 <= i < events.len() ==> (#[trigger] events[i]).get("event"@) != Some(
                Tree::Text("hello"@),
            )) ==> let_through(events.push(event)) == let_through(events),
{
    reveal_strlit("hello");
    reveal_strlit("posted");
    assert("hello"@.len() == 5 && "posted"@.len() == 6);
    assert(events.push(event).drop_last() =~= events);
    if 0 <= hello < events.len() && events[hello].get("event"@) == Some(Tree::Text("hello"@)) {
        assert(is_hello(events[hello]));
    }
    if forall|i: int|
        0 <= i < events.len() ==> (#[trigger] events[i]).get("event"@) != Some(
            Tree::Text("hello"@),
        ) {
        assert(!armed_after(events)) by {
            assert forall|i: int| 0 <= i < events.len() implies !is_hello(#[trigger] events[i]) by {
                assert(events[i].get("event"@) != Some(Tree::Text("hello"@)));
            }
        }
    }
}

/// A connection is armed by a hello and stays so; an armed one brings the post of a posted event, as
/// it is; pings are answered with their own payload, and whatever ends the connection is told.
pub proof fn law_frames(
    armed: bool,
    text: String,
    event: Tree,
    post: Seq<char>,
    payload: Vec<u8>,
    read: Sighting,
    now: bool,
    pinged: Sighting,
    same: bool,
)
    requires
        json_parse(text@) == Ok::<Tree, Seq<char>>(event),
        observed(armed, Frame::Text(text), read, now),
        observed(armed, Frame::Ping(payload), pinged, same),
    ensures
        event.get("event"@) == Some(Tree::Text("hello"@)) ==> read is Nothing && now,
        event.get("event"@) != Some(Tree::Text("hello"@)) ==> now == armed,
        armed && event.get("event"@) == Some(Tree::Text("posted"@)) && event.at("data"@, "post"@)
            == Some(Tree::Text(post)) ==> read is Post && read->Post_0@ == post,
        !armed ==> read is Nothing,
        event.get("event"@) != Some(Tree::Text("posted"@)) ==> read is Nothing,
        pinged == Sighting::Pong(payload) && same == armed,
{
    reveal_strlit("hello");
    reveal_strlit("posted");
    assert("hello"@.len() == 5 && "posted"@.len() == 6);
}

/// The operator's words are heard as the operator's, those of others only while broadcasting is on,
/// and nothing that is empty or was seen before.
pub proof fn law_who_is_heard(
    post: Post,
    operator_id: Seq<char>,
    broadcast: bool,
    seen: Seq<Seq<char>>,
)
    ensures
        post.message@.len() > 0 && !seen.contains(post.id@) && post.user_id@ == operator_id
            ==> regarded(post, operator_id, broadcast, seen) == Regard::Human,
        post.message@.len() > 0 && !seen.contains(post.id@) && post.user_id@ != operator_id
            && broadcast ==> regarded(post, operator_id, broadcast, seen) == Regard::Channel,
        post.message@.len() == 0 || seen.contains(post.id@) || (post.user_id@ != operator_id
            && !broadcast) ==> regarded(post, operator_id, broadcast, seen) == Regard::Ignore,
{
}

/// Pauses double up to thirty seconds, and are never longer.
pub proof fn law_pauses(seconds: int)
    ensures
        lengthened(seconds) <= 30,
        2 * seconds <= 30 ==> lengthened(seconds) == 2 * seconds,
        2 * seconds > 30 ==> lengthened(seconds) == 30,
{
}

/// Whatever is heard is heard once: a post that was regarded is nothing when it comes again, whoever
/// wrote it, even with another text; and regarding one post makes no other known.
pub proof fn law_posts_are_heard_once(
    post: Post,
    again: Post,
    other: Post,
    operator_id: Seq<char>,
    broadcast: bool,
    seen: Seq<Seq<char>>,
)
    requires
        seen.len() <= 1_024,
        post.message@.len() > 0,
        again.id@ == post.id@,
    ensures
        regarded(again, operator_id, broadcast, seen_after(post, seen)) == Regard::Ignore,
        other.id@ != post.id@ && !seen.contains(other.id@) ==> regarded(
            other,
            operator_id,
            broadcast,
            seen_after(post, seen),
        ) == regarded(other, operator_id, broadcast, seen),
{
    law_seen_posts_are_remembered(seen, post.id@);
    let after = seen_after(post, seen);
    if other.id@ != post.id@ && after.contains(other.id@) {
        let k = choose|k: int| 0 <= k < after.len() && after[k] == other.id@;
        if seen.contains(post.id@) {
            assert(seen[k] == other.id@);
        } else if seen.len() < 1_024 {
            assert(seen[k] == other.id@);
        } else {
            assert(seen[k + 1] == other.id@);
        }
    }
}

/// A frame that is no document ends the connection with what is wrong with it, a broken one with what
/// broke it; neither arms it.
pub proof fn law_frames_that_end_it(
    armed: bool,
    text: String,
    complaint: Seq<char>,
    broken: String,
    r: Sighting,
    now: bool,
    end: Sighting,
    still: bool,
)
    requires
        json_parse(text@) == Err::<Tree, Seq<char>>(complaint),
        observed(armed, Frame::Text(text), r, now),
        observed(armed, Frame::Broken(broken), end, still),
    ensures
        r is Over && r->Over_0 is Json && r->Over_0->Json_0@ == complaint,
        end is Over && end->Over_0 is Protocol && end->Over_0->Protocol_0@ == broken@,
        now == armed && still == armed,
{
}

} // verus!
