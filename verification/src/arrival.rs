//! A post that arrives on the live connection, and what becomes of it.
use vstd::prelude::*;
use crate::admission::{law_targets_are_live_and_loaded, names, ready_targets, seat_process, target_process, DeliveryPermit, Kind, Plea, Seat, Target};
use crate::delivery::HumanMessage;
use crate::error::{app_server_error_text, AppServerError, RelayError, WireError};
use crate::ident::{hyphenated_text, SessionId};
use crate::intake::{law_who_is_heard, regard, regarded, seen_after, Regard, SeenPosts};
use crate::model::{ChannelAudience, Post, WireBot};
use crate::relay::{broadcasts, channel_deliveries, human_delivery, kind_of, law_channel_posts_reach_their_audience, reached, Delivery, Payload};
use crate::text::glue4;

verus! {

/// A post on its way, by what is to be done next.
#[derive(Debug, PartialEq, Eq)]
pub enum Arrival {
    /// Find the session that the post's channel reaches directly; the answer goes to `directed`.
    Direct { post: Post },
    /// Find the sessions that have a biography; they go to `discovered`.
    Discover { post: Post, target: SessionId },
    /// Find the terms of admission; they go to `permitted`.
    Plead { post: Post, plea: Plea },
    /// Find whom the post concerns; the answer goes to `surveyed`.
    Survey { post: Post },
    /// Find which sessions are live and loaded; they go to `targeted`.
    Aim { post: Post, audience: ChannelAudience },
    /// Pass the delivery on, as soon as there is room.
    Send(Delivery),
    /// Pass the deliveries on as far as there is room; the others are lost.
    Offer(Vec<Delivery>),
    /// The post goes no further, and this is to be told.
    Dropped(String),
    /// The post goes no further.
    Nothing,
    /// The connection is given up.
    Failed(RelayError),
}

/// A post that goes no further, with the given words.
pub open spec fn dropped(arrival: Arrival, message: Seq<char>) -> bool {
    arrival is Dropped && arrival->Dropped_0@ == message
}

/// What becomes of a post by what it is to the relay.
pub open spec fn starts(post: Post, what: Regard) -> Arrival {
    match what {
        Regard::Ignore => Arrival::Nothing,
        Regard::Human => Arrival::Direct { post },
        Regard::Channel => Arrival::Survey { post },
    }
}

/// What the session that a direct channel reaches makes of a post.
pub open spec fn arrival_directed(
    arrival: Arrival,
    result: Result<Option<SessionId>, WireError>,
    next: Arrival,
) -> bool {
    match (arrival, result) {
        (Arrival::Direct { post }, Ok(Some(target))) => next == (Arrival::Discover { post, target }),
        (Arrival::Direct { .. }, Ok(None)) => next is Nothing,
        (Arrival::Direct { .. }, Err(error)) => next == Arrival::Failed(
            RelayError::Mattermost(error),
        ),
        _ => next == arrival,
    }
}

/// What the sessions that have a biography make of a post.
pub open spec fn arrival_discovered(
    arrival: Arrival,
    result: Result<Vec<SessionId>, WireError>,
    next: Arrival,
) -> bool {
    match (arrival, result) {
        (Arrival::Discover { post, target }, Ok(sessions)) => next == (Arrival::Plead {
            post,
            plea: Plea { target, established: sessions@.contains(target), kind: Kind::Human },
        }),
        (Arrival::Discover { .. }, Err(error)) => next == Arrival::Failed(
            RelayError::Mattermost(error),
        ),
        _ => next == arrival,
    }
}

/// What the terms of admission make of a post.
pub open spec fn arrival_permitted(
    arrival: Arrival,
    result: Result<Option<DeliveryPermit>, AppServerError>,
    next: Arrival,
) -> bool {
    match (arrival, result) {
        (Arrival::Plead { post, plea }, Ok(Some(permit))) => next == Arrival::Send(
            Delivery {
                target: plea.target,
                permit,
                payload: Payload::Human(HumanMessage { post_id: post.id, body: post.message }),
            },
        ),
        (Arrival::Plead { .. }, Ok(None)) => next is Nothing,
        (Arrival::Plead { plea, .. }, Err(error)) => dropped(
            next,
            "dropped human delivery to "@ + hyphenated_text(plea.target.value) + ": "@
                + app_server_error_text(error),
        ),
        _ => next == arrival,
    }
}

/// What the audience makes of a post.
pub open spec fn arrival_surveyed(
    arrival: Arrival,
    result: Result<Option<ChannelAudience>, WireError>,
    next: Arrival,
) -> bool {
    match (arrival, result) {
        (Arrival::Survey { post }, Ok(Some(audience))) => next == (Arrival::Aim { post, audience }),
        (Arrival::Survey { .. }, Ok(None)) => next is Nothing,
        (Arrival::Survey { .. }, Err(error)) => next == Arrival::Failed(
            RelayError::Mattermost(error),
        ),
        _ => next == arrival,
    }
}

/// Whether deliveries are those of a channel post: one for each recipient that is live and
/// loaded, to be made in the process in which it is live.
pub open spec fn are_broadcasts(
    deliveries: Seq<Delivery>,
    audience: ChannelAudience,
    post: Post,
    targets: Seq<Target>,
) -> bool {
    broadcasts(audience, post, targets, deliveries)
}

/// What the sessions that are live and loaded make of a post.
pub open spec fn arrival_targeted(
    arrival: Arrival,
    result: Result<Vec<Target>, AppServerError>,
    next: Arrival,
) -> bool {
    match (arrival, result) {
        (Arrival::Aim { post, audience }, Ok(targets)) => next is Offer && are_broadcasts(
            next->Offer_0@,
            audience,
            post,
            targets@,
        ),
        (Arrival::Aim { post, .. }, Err(error)) => dropped(
            next,
            "dropped channel post "@ + post.id@ + ": "@ + app_server_error_text(error),
        ),
        _ => next == arrival,
    }
}

impl Arrival {
    /// A post that just arrived. One that is empty or was seen before goes no further; the others
    /// are remembered.
    pub fn begin(post: Post, operator_id: &str, broadcast: bool, seen: &mut SeenPosts) -> (r: Arrival)
        requires
            old(seen).wf(),
        ensures
            final(seen).wf(),
            final(seen)@ == seen_after(post, old(seen)@),
            r == starts(post, regarded(post, operator_id@, broadcast, old(seen)@)),
    {
        match regard(&post, operator_id, broadcast, seen) {
            Regard::Ignore => Arrival::Nothing,
            Regard::Human => Arrival::Direct { post },
            Regard::Channel => Arrival::Survey { post },
        }
    }

    /// What the session that the direct channel reaches makes of the post. One that awaits none
    /// stays as it is.
    pub fn directed(self, result: Result<Option<SessionId>, WireError>) -> (r: Arrival)
        ensures
            arrival_directed(self, result, r),
    {
        match self {
            Arrival::Direct { post } => match result {
                Ok(Some(target)) => Arrival::Discover { post, target },
                Ok(None) => Arrival::Nothing,
                Err(error) => Arrival::Failed(RelayError::Mattermost(error)),
            },
            other => other,
        }
    }

    /// What the sessions that have a biography make of the post. One that awaits none stays as it
    /// is.
    pub fn discovered(self, result: Result<Vec<SessionId>, WireError>) -> (r: Arrival)
        ensures
            arrival_discovered(self, result, r),
    {
        match self {
            Arrival::Discover { post, target } => match result {
                Ok(sessions) => Arrival::Plead {
                    post,
                    plea: Plea { target, established: names(&sessions, target), kind: Kind::Human },
                },
                Err(error) => Arrival::Failed(RelayError::Mattermost(error)),
            },
            other => other,
        }
    }

    /// What the terms of admission make of the post. One that awaits none stays as it is.
    pub fn permitted(self, result: Result<Option<DeliveryPermit>, AppServerError>) -> (r: Arrival)
        ensures
            arrival_permitted(self, result, r),
    {
        match self {
            Arrival::Plead { post, plea } => match result {
                Ok(Some(permit)) => Arrival::Send(human_delivery(plea.target, permit, post)),
                Ok(None) => Arrival::Nothing,
                Err(error) => Arrival::Dropped(
                    glue4(
                        "dropped human delivery to ",
                        plea.target.text().as_str(),
                        ": ",
                        error.text().as_str(),
                    ),
                ),
            },
            other => other,
        }
    }

    /// What the audience makes of the post. One that awaits none stays as it is.
    pub fn surveyed(self, result: Result<Option<ChannelAudience>, WireError>) -> (r: Arrival)
        ensures
            arrival_surveyed(self, result, r),
    {
        match self {
            Arrival::Survey { post } => match result {
                Ok(Some(audience)) => Arrival::Aim { post, audience },
                Ok(None) => Arrival::Nothing,
                Err(error) => Arrival::Failed(RelayError::Mattermost(error)),
            },
            other => other,
        }
    }

    /// What the sessions that are live and loaded make of the post. One that awaits none stays as
    /// it is.
    pub fn targeted(self, result: Result<Vec<Target>, AppServerError>) -> (r: Arrival)
        ensures
            arrival_targeted(self, result, r),
    {
        match self {
            Arrival::Aim { post, audience } => match result {
                Ok(targets) => Arrival::Offer(channel_deliveries(&audience, &post, &targets)),
                Err(error) => Arrival::Dropped(
                    glue4(
                        "dropped channel post ",
                        post.id.as_str(),
                        ": ",
                        error.text().as_str(),
                    ),
                ),
            },
            other => other,
        }
    }
}

/// One step of a post.
pub open spec fn arrival_step(arrival: Arrival, next: Arrival) -> bool {
    ||| exists|result: Result<Option<SessionId>, WireError>| arrival_directed(arrival, result, next)
    ||| exists|result: Result<Vec<SessionId>, WireError>| arrival_discovered(arrival, result, next)
    ||| exists|result: Result<Option<DeliveryPermit>, AppServerError>|
        arrival_permitted(arrival, result, next)
    ||| exists|result: Result<Option<ChannelAudience>, WireError>|
        arrival_surveyed(arrival, result, next)
    ||| exists|result: Result<Vec<Target>, AppServerError>| arrival_targeted(arrival, result, next)
}

/// The operator's words enter a session as the operator's, and only that session which the direct
/// channel reaches; whatever others say in a channel enters as an advisory.
pub proof fn law_words_keep_their_kind(arrival: Arrival, next: Arrival)
    requires
        arrival_step(arrival, next),
    ensures
        next is Send && arrival !is Send ==> arrival is Plead && next->Send_0.target
            == arrival->plea.target && kind_of(next->Send_0) == Kind::Human
            && next->Send_0.payload->Human_0.body == arrival->Plead_post.message,
        next is Plead && arrival !is Plead ==> arrival is Discover && next->plea.target
            == arrival->target && next->plea.kind == Kind::Human,
        next is Discover && arrival !is Discover ==> arrival is Direct,
        next is Offer && arrival !is Offer ==> arrival is Aim && forall|i: int|
            0 <= i < next->Offer_0@.len() ==> kind_of(#[trigger] next->Offer_0@[i]) == Kind::Peer,
        next is Aim && arrival !is Aim ==> arrival is Survey,
        next !is Direct || arrival is Direct,
        next !is Survey || arrival is Survey,
{
}

/// A channel post reaches only recipients that are both live and loaded, each in the process in
/// which it is live: no dormant session is resumed for it.
pub proof fn law_channel_posts_reach_live_sessions(
    arrival: Arrival,
    seats: Seq<Seat>,
    loaded: Seq<SessionId>,
    targets: Vec<Target>,
    next: Arrival,
    at: int,
)
    requires
        arrival is Aim,
        targets@ == ready_targets(seats, loaded),
        arrival_targeted(arrival, Ok(targets), next),
        next is Offer,
        0 <= at < next->Offer_0@.len(),
    ensures
        ({
            let delivery = next->Offer_0@[at];
            &&& loaded.contains(delivery.target)
            &&& seat_process(seats, delivery.target) is Some
            &&& delivery.permit == DeliveryPermit::Seat(
                seat_process(seats, delivery.target)->Some_0,
            )
            &&& exists|i: int|
                0 <= i < arrival->audience.recipients@.len()
                    && (#[trigger] arrival->audience.recipients@[i]).session == delivery.target
        }),
{
    let recipients = arrival->audience.recipients@;
    let delivery = next->Offer_0@[at];
    let i = lemma_reached(recipients, targets@, at);
    assert(recipients[i].session == delivery.target);
    law_targets_are_live_and_loaded(seats, loaded, delivery.target);
}

proof fn lemma_reached(recipients: Seq<WireBot>, targets: Seq<Target>, at: int) -> (i: int)
    requires
        0 <= at < reached(recipients, targets).len(),
    ensures
        0 <= i < recipients.len(),
        recipients[i].session == reached(recipients, targets)[at].0,
        target_process(targets, recipients[i].session) == Some(reached(recipients, targets)[at].1),
    decreases recipients.len(),
{
    let fewer = recipients.drop_last();
    if at < reached(fewer, targets).len() {
        lemma_reached(fewer, targets, at)
    } else {
        recipients.len() - 1
    }
}

/// While channel broadcasting is off, a post of anybody but the operator goes no further.
pub proof fn law_broadcasting_off_is_silent(
    post: Post,
    operator_id: Seq<char>,
    seen: Seq<Seq<char>>,
)
    requires
        post.user_id@ != operator_id,
    ensures
        starts(post, regarded(post, operator_id, false, seen)) is Nothing,
{
}

/// A post of the operator that was not seen before goes, as it is, into the session that its channel
/// reaches directly, on the terms that were found for the operator there.
pub proof fn law_operators_posts_arrive(
    post: Post,
    operator_id: Seq<char>,
    broadcast: bool,
    seen: Seq<Seq<char>>,
    target: SessionId,
    known: Vec<SessionId>,
    permit: DeliveryPermit,
    discovering: Arrival,
    pleading: Arrival,
    end: Arrival,
)
    requires
        post.user_id@ == operator_id,
        post.message@.len() > 0,
        !seen.contains(post.id@),
        arrival_directed(
            starts(post, regarded(post, operator_id, broadcast, seen)),
            Ok(Some(target)),
            discovering,
        ),
        arrival_discovered(discovering, Ok(known), pleading),
        arrival_permitted(pleading, Ok(Some(permit)), end),
    ensures
        pleading is Plead,
        pleading->plea.target == target,
        pleading->plea.established <==> known@.contains(target),
        pleading->plea.kind == Kind::Human,
        end is Send,
        end->Send_0.target == target,
        end->Send_0.permit == permit,
        end->Send_0.payload is Human,
        end->Send_0.payload->Human_0.post_id@ == post.id@,
        end->Send_0.payload->Human_0.body@ == post.message@,
{
    law_who_is_heard(post, operator_id, broadcast, seen);
}

/// A post of somebody else that was not seen before goes, while broadcasting is on, to every
/// recipient of its audience that is live and loaded, as it is.
pub proof fn law_channel_posts_arrive(
    post: Post,
    operator_id: Seq<char>,
    seen: Seq<Seq<char>>,
    audience: ChannelAudience,
    targets: Vec<Target>,
    aiming: Arrival,
    end: Arrival,
    at: int,
)
    requires
        post.user_id@ != operator_id,
        post.message@.len() > 0,
        !seen.contains(post.id@),
        arrival_surveyed(
            starts(post, regarded(post, operator_id, true, seen)),
            Ok(Some(audience)),
            aiming,
        ),
        arrival_targeted(aiming, Ok(targets), end),
    ensures
        end is Offer,
        0 <= at < audience.recipients@.len() && target_process(
            targets@,
            audience.recipients@[at].session,
        ) is Some ==> exists|k: int|
            0 <= k < end->Offer_0@.len() && (#[trigger] end->Offer_0@[k]).target
                == audience.recipients@[at].session,
        0 <= at < end->Offer_0@.len() ==> end->Offer_0@[at].payload is Peer
            && end->Offer_0@[at].payload->Peer_0.body@ == post.message@
            && end->Offer_0@[at].payload->Peer_0.sender@ == audience.sender.username@,
{
    law_who_is_heard(post, operator_id, true, seen);
    law_channel_posts_reach_their_audience(audience, post, targets@, end->Offer_0@);
    if 0 <= at < audience.recipients@.len() && target_process(
        targets@,
        audience.recipients@[at].session,
    ) is Some {
        let k = choose|k: int|
            0 <= k < end->Offer_0@.len() && (#[trigger] end->Offer_0@[k]).target
                == audience.recipients@[at].session && end->Offer_0@[k].permit
                == DeliveryPermit::Seat(
                target_process(targets@, audience.recipients@[at].session)->Some_0,
            );
        assert(end->Offer_0@[k].target == audience.recipients@[at].session);
    }
}

/// A post goes no further where its channel reaches nobody, nobody is let in or nobody is concerned;
/// a failure of Mattermost ends the connection, one of the app server only drops the post.
pub proof fn law_posts_that_go_no_further(
    post: Post,
    plea: Plea,
    error: WireError,
    fault: AppServerError,
    unaddressed: Arrival,
    unwelcome: Arrival,
    unconcerned: Arrival,
    lost: Arrival,
    refused: Arrival,
)
    requires
        arrival_directed(Arrival::Direct { post }, Ok(None), unaddressed),
        arrival_permitted(Arrival::Plead { post, plea }, Ok(None), unwelcome),
        arrival_surveyed(Arrival::Survey { post }, Ok(None), unconcerned),
        arrival_directed(Arrival::Direct { post }, Err(error), lost),
        arrival_permitted(Arrival::Plead { post, plea }, Err(fault), refused),
    ensures
        unaddressed is Nothing,
        unwelcome is Nothing,
        unconcerned is Nothing,
        lost is Failed,
        refused is Dropped,
        refused->Dropped_0@ == "dropped human delivery to "@ + hyphenated_text(plea.target.value)
            + ": "@ + app_server_error_text(fault),
{
}

/// A channel post that the app server cannot take is dropped, and told by its identifier; one whose
/// audience Mattermost cannot tell ends the connection.
pub proof fn law_lost_channel_posts(
    post: Post,
    audience: ChannelAudience,
    error: WireError,
    fault: AppServerError,
    lost: Arrival,
    unheard: Arrival,
)
    requires
        arrival_surveyed(Arrival::Survey { post }, Err(error), lost),
        arrival_targeted(Arrival::Aim { post, audience }, Err(fault), unheard),
    ensures
        lost == Arrival::Failed(RelayError::Mattermost(error)),
        unheard is Dropped,
        unheard->Dropped_0@ == "dropped channel post "@ + post.id@ + ": "@ + app_server_error_text(
            fault,
        ),
{
}

} // verus!
