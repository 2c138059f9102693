//! The relay: reservations on its local socket, and batches of deliveries.
use std::collections::VecDeque;
use vstd::multiset::Multiset;
use vstd::prelude::*;
use crate::admission::{admit_read, find_target, law_allowance_counts_since_the_last_human, names, origin, peers_among, target_process, thread_turns, without_humans, Admit, DeliveryPermit, Kind, Parcel, Plea, ProcessKey, Target, TurnOrigin, PEER_TURN_LIMIT};
use crate::delivery::{law_operators_turns, turn_tree, AdvisorySource, HumanMessage, Injection, PeerMessage};
use crate::error::{app_server_error_text, wire_error_text, AppServerError, RelayError, WireError};
use crate::frame::protocol_error;
use crate::ident::SessionId;
use crate::json::{Json, Tree};
use crate::model::{ChannelAudience, Post, WireBot};
use crate::record::{all_starts, EntryView, StartView};
use crate::server::{channel_label, label_text};
use crate::text::glue2;

verus! {

/// How many messages a batch holds at most.
pub const MAX_BATCH_MESSAGES: usize = 8;

/// What a client asks of the relay.
#[derive(Debug, PartialEq, Eq)]
pub enum LocalRequest {
    Reserve { target: SessionId },
    Enqueue {
        target: SessionId,
        post_id: String,
        sender_session: SessionId,
        sender: String,
        body: String,
    },
}

/// What the relay answers.
#[derive(Debug, PartialEq, Eq)]
pub enum LocalResponse {
    Ready,
    Queued,
    Error { message: String },
}

/// What the answer to a reservation means.
pub open spec fn opens(response: LocalResponse, r: Result<(), RelayError>) -> bool {
    match response {
        LocalResponse::Ready => r is Ok,
        LocalResponse::Error { message } => protocol_error(r, message@),
        LocalResponse::Queued => protocol_error(
            r,
            "relay returned an impossible preflight response"@,
        ),
    }
}

/// What the answer to a reservation means.
pub fn reservation_opened(response: LocalResponse) -> (r: Result<(), RelayError>)
    ensures
        opens(response, r),
{
    match response {
        LocalResponse::Ready => Ok(()),
        LocalResponse::Error { message } => Err(RelayError::Protocol(message)),
        LocalResponse::Queued => Err(
            RelayError::Protocol("relay returned an impossible preflight response".to_owned()),
        ),
    }
}

/// What the answer to a submission means.
pub open spec fn queues(response: LocalResponse, r: Result<(), RelayError>) -> bool {
    match response {
        LocalResponse::Queued => r is Ok,
        LocalResponse::Error { message } => protocol_error(r, message@),
        LocalResponse::Ready => protocol_error(
            r,
            "relay returned an impossible enqueue response"@,
        ),
    }
}

/// What the answer to a submission means.
pub fn submission_queued(response: LocalResponse) -> (r: Result<(), RelayError>)
    ensures
        queues(response, r),
{
    match response {
        LocalResponse::Queued => Ok(()),
        LocalResponse::Error { message } => Err(RelayError::Protocol(message)),
        LocalResponse::Ready => Err(
            RelayError::Protocol("relay returned an impossible enqueue response".to_owned()),
        ),
    }
}

/// One message on its way.
#[derive(Debug, PartialEq, Eq)]
pub enum Payload {
    Human(HumanMessage),
    Peer(PeerMessage),
}

/// One message on its way into a session.
#[derive(Debug, PartialEq, Eq)]
pub struct Delivery {
    pub target: SessionId,
    pub permit: DeliveryPermit,
    pub payload: Payload,
}

/// Who speaks in a delivery.
pub open spec fn kind_of(delivery: Delivery) -> Kind {
    match delivery.payload {
        Payload::Human(_) => Kind::Human,
        Payload::Peer(_) => Kind::Peer,
    }
}

/// Whether two deliveries may enter a session together.
pub open spec fn alike(left: Delivery, right: Delivery) -> bool {
    left.target == right.target && left.permit == right.permit && kind_of(left) == kind_of(right)
}

impl Delivery {
    /// Who speaks.
    pub fn kind(&self) -> (r: Kind)
        ensures
            r == kind_of(*self),
    {
        match self.payload {
            Payload::Human(_) => Kind::Human,
            Payload::Peer(_) => Kind::Peer,
        }
    }

    /// Whether two deliveries may enter a session together.
    pub fn shares_batch(&self, other: &Delivery) -> (r: bool)
        ensures
            r == alike(*self, *other),
    {
        self.target == other.target && self.permit == other.permit && self.kind() == other.kind()
    }
}

/// A client's conversation with the relay, by what is to be done next.
#[derive(Debug, PartialEq, Eq)]
pub enum Local {
    /// Read a request and hand it to `requested`.
    Listen,
    /// Find the sessions that have a biography and hand them to `discovered`.
    Discover { target: SessionId },
    /// Find the terms of admission and hand them to `permitted`.
    Plead { plea: Plea },
    /// Answer that the relay is ready, then call `offered`.
    Offer { target: SessionId, permit: DeliveryPermit },
    /// Read a request and hand it to `requested`, or call `expired`.
    Hold { target: SessionId, permit: DeliveryPermit },
    /// Pass the delivery on, and tell `queued` whether it was taken.
    Deliver(Delivery),
    /// Give this answer; the conversation is over.
    Answer(LocalResponse),
    /// The conversation failed.
    Failed(RelayError),
}

/// A conversation that ends with an error in the given words.
pub open spec fn refused(local: Local, message: Seq<char>) -> bool {
    local is Answer && local->Answer_0 is Error && local->Answer_0->message@ == message
}

/// A direct advisory as it goes into a session.
pub open spec fn is_submission(
    delivery: Delivery,
    target: SessionId,
    permit: DeliveryPermit,
    request: LocalRequest,
) -> bool {
    match request {
        LocalRequest::Enqueue { post_id, sender_session, sender, body, .. } => {
            &&& delivery.target == target
            &&& delivery.permit == permit
            &&& delivery.payload == Payload::Peer(
                PeerMessage { post_id, sender_session, sender, source: AdvisorySource::Direct, body },
            )
        },
        LocalRequest::Reserve { .. } => false,
    }
}

/// What a request makes of a conversation.
pub open spec fn local_requested(local: Local, request: LocalRequest, next: Local) -> bool {
    match (local, request) {
        (Local::Listen, LocalRequest::Reserve { target }) => next == (Local::Discover { target }),
        (Local::Listen, LocalRequest::Enqueue { .. }) => refused(next, "reservation required"@),
        (Local::Hold { .. }, LocalRequest::Reserve { .. }) => refused(
            next,
            "reservation already exists"@,
        ),
        (Local::Hold { target, permit }, LocalRequest::Enqueue { target: submitted, .. }) =>
            if submitted == target {
                next is Deliver && is_submission(next->Deliver_0, target, permit, request)
            } else {
                refused(next, "reservation identity changed"@)
            },
        _ => next == local,
    }
}

/// What the sessions that have a biography make of a conversation.
pub open spec fn local_discovered(
    local: Local,
    established: Result<Vec<SessionId>, WireError>,
    next: Local,
) -> bool {
    match (local, established) {
        (Local::Discover { target }, Ok(sessions)) => next == (Local::Plead {
            plea: Plea { target, established: sessions@.contains(target), kind: Kind::Peer },
        }),
        (Local::Discover { .. }, Err(error)) => refused(
            next,
            "Wire identity discovery failed: "@ + wire_error_text(error),
        ),
        _ => next == local,
    }
}

/// What the terms of admission make of a conversation.
pub open spec fn local_permitted(
    local: Local,
    found: Result<Option<DeliveryPermit>, AppServerError>,
    next: Local,
) -> bool {
    match (local, found) {
        (Local::Plead { plea }, Ok(Some(permit))) => next == (Local::Offer {
            target: plea.target,
            permit,
        }),
        (Local::Plead { .. }, Ok(None)) => refused(
            next,
            "that Codex session cannot accept Wire"@,
        ),
        (Local::Plead { .. }, Err(error)) => refused(
            next,
            "shared Codex app server is unavailable: "@ + app_server_error_text(error),
        ),
        _ => next == local,
    }
}

/// What becomes of a conversation in which the client was told that the relay is ready.
pub open spec fn local_offered(local: Local, next: Local) -> bool {
    match local {
        Local::Offer { target, permit } => next == (Local::Hold { target, permit }),
        _ => next == local,
    }
}

/// What becomes of a conversation whose client took too long to submit.
pub open spec fn local_expired(local: Local, next: Local) -> bool {
    if local is Hold {
        next is Failed && protocol_error(Err::<(), RelayError>(next->Failed_0), "reservation expired"@)
    } else {
        next == local
    }
}

/// The end of a conversation whose delivery was passed on.
pub open spec fn local_queued(taken: bool, next: Local) -> bool {
    if taken {
        next == Local::Answer(LocalResponse::Queued)
    } else {
        next is Failed && protocol_error(
            Err::<(), RelayError>(next->Failed_0),
            "delivery dispatcher is unavailable"@,
        )
    }
}

fn refuse(message: String) -> (r: Local)
    ensures
        refused(r, message@),
{
    Local::Answer(LocalResponse::Error { message })
}

impl Local {
    /// What a request makes of the conversation. One that awaits none stays as it is.
    pub fn requested(self, request: LocalRequest) -> (r: Local)
        ensures
            local_requested(self, request, r),
    {
        match self {
            Local::Listen => match request {
                LocalRequest::Reserve { target } => Local::Discover { target },
                LocalRequest::Enqueue { .. } => refuse("reservation required".to_owned()),
            },
            Local::Hold { target, permit } => match request {
                LocalRequest::Reserve { .. } => refuse("reservation already exists".to_owned()),
                LocalRequest::Enqueue { target: submitted, post_id, sender_session, sender, body } => {
                    if submitted != target {
                        return refuse("reservation identity changed".to_owned());
                    }
                    Local::Deliver(
                        Delivery {
                            target,
                            permit,
                            payload: Payload::Peer(
                                PeerMessage {
                                    post_id,
                                    sender_session,
                                    sender,
                                    source: AdvisorySource::Direct,
                                    body,
                                },
                            ),
                        },
                    )
                },
            },
            other => other,
        }
    }

    /// What the sessions that have a biography make of the conversation. One that awaits none
    /// stays as it is.
    pub fn discovered(self, established: Result<Vec<SessionId>, WireError>) -> (r: Local)
        ensures
            local_discovered(self, established, r),
    {
        match self {
            Local::Discover { target } => match established {
                Ok(sessions) => Local::Plead {
                    plea: Plea { target, established: names(&sessions, target), kind: Kind::Peer },
                },
                Err(error) => refuse(
                    glue2("Wire identity discovery failed: ", error.text().as_str()),
                ),
            },
            other => other,
        }
    }

    /// What the terms of admission make of the conversation. One that awaits none stays as it is.
    pub fn permitted(self, found: Result<Option<DeliveryPermit>, AppServerError>) -> (r: Local)
        ensures
            local_permitted(self, found, r),
    {
        match self {
            Local::Plead { plea } => match found {
                Ok(Some(permit)) => Local::Offer { target: plea.target, permit },
                Ok(None) => refuse("that Codex session cannot accept Wire".to_owned()),
                Err(error) => refuse(
                    glue2("shared Codex app server is unavailable: ", error.text().as_str()),
                ),
            },
            other => other,
        }
    }

    /// The client was told that the relay is ready.
    pub fn offered(self) -> (r: Local)
        ensures
            local_offered(self, r),
    {
        match self {
            Local::Offer { target, permit } => Local::Hold { target, permit },
            other => other,
        }
    }

    /// The client took too long to submit.
    pub fn expired(self) -> (r: Local)
        ensures
            local_expired(self, r),
    {
        match self {
            Local::Hold { .. } => Local::Failed(
                RelayError::Protocol("reservation expired".to_owned()),
            ),
            other => other,
        }
    }

    /// The end of a conversation whose delivery was passed on.
    pub fn queued(taken: bool) -> (r: Local)
        ensures
            local_queued(taken, r),
    {
        if taken {
            Local::Answer(LocalResponse::Queued)
        } else {
            Local::Failed(RelayError::Protocol("delivery dispatcher is unavailable".to_owned()))
        }
    }
}

/// One step of a conversation.
pub open spec fn local_step(local: Local, next: Local) -> bool {
    ||| exists|request: LocalRequest| local_requested(local, request, next)
    ||| exists|established: Result<Vec<SessionId>, WireError>|
        local_discovered(local, established, next)
    ||| exists|found: Result<Option<DeliveryPermit>, AppServerError>|
        local_permitted(local, found, next)
    ||| local matches Local::Offer { target, permit } && next == (Local::Hold { target, permit })
}

/// A conversation delivers only to the session that was reserved, on the terms that were found for
/// it: a delivery follows a hold, a hold an offer, an offer the finding of a permit.
pub proof fn law_no_delivery_without_reservation(local: Local, next: Local)
    requires
        local_step(local, next),
    ensures
        next is Deliver && local !is Deliver ==> local is Hold && next->Deliver_0.target
            == local->Hold_target && next->Deliver_0.permit == local->Hold_permit,
        next is Hold && local !is Hold ==> local is Offer && next->Hold_target
            == local->Offer_target && next->Hold_permit == local->Offer_permit,
        next is Offer && local !is Offer ==> local is Plead && next->Offer_target
            == local->plea.target,
        next is Plead && local !is Plead ==> local is Discover && next->plea.target
            == local->Discover_target,
{
}

/// A reservation is refused once peers made three turns in the session since the last turn of a
/// human, and nothing is delivered then; once a human speaks again, it is not refused on that
/// account.
pub proof fn law_allowance_governs_reservations(
    local: Local,
    search: Admit,
    thread: Json,
    entries: Seq<EntryView>,
    starts: Seq<StartView>,
    found: Admit,
    next: Local,
    before: Seq<Tree>,
    since: Seq<Tree>,
)
    requires
        local is Plead,
        search is Read,
        admit_read(search, Ok(thread), entries, found),
        starts == all_starts(thread_turns(thread.tree()), entries),
        found is Done,
        local_permitted(local, found->Done_0, next),
        thread_turns(thread.tree()) == before + since,
        before.len() > 0 ==> origin(before.last(), starts) == TurnOrigin::Human,
        without_humans(since, starts),
    ensures
        peers_among(since, starts) >= PEER_TURN_LIMIT ==> refused(
            next,
            "that Codex session cannot accept Wire"@,
        ),
        peers_among(since, starts) < PEER_TURN_LIMIT ==> next == (Local::Offer {
            target: local->plea.target,
            permit: search->permit,
        }),
{
    law_allowance_counts_since_the_last_human(before, since, starts);
}

/// Which recipients are reached, and in which process.
pub open spec fn reached(recipients: Seq<WireBot>, targets: Seq<Target>) -> Seq<
    (SessionId, ProcessKey),
>
    decreases recipients.len(),
{
    if recipients.len() == 0 {
        Seq::empty()
    } else {
        let before = reached(recipients.drop_last(), targets);
        match target_process(targets, recipients.last().session) {
            Some(process) => before.push((recipients.last().session, process)),
            None => before,
        }
    }
}

/// A channel advisory as it goes into a session.
pub open spec fn is_broadcast(delivery: Delivery, audience: ChannelAudience, post: Post) -> bool {
    &&& delivery.payload is Peer
    &&& delivery.payload->Peer_0.post_id == post.id
    &&& delivery.payload->Peer_0.sender_session == audience.sender.session
    &&& delivery.payload->Peer_0.sender == audience.sender.username
    &&& delivery.payload->Peer_0.source is Channel
    &&& delivery.payload->Peer_0.source->channel@ == label_text(audience.channel)
    &&& delivery.payload->Peer_0.body == post.message
}

/// The deliveries that a channel post makes.
pub open spec fn broadcasts(
    audience: ChannelAudience,
    post: Post,
    targets: Seq<Target>,
    deliveries: Seq<Delivery>,
) -> bool {
    &&& deliveries.len() == reached(audience.recipients@, targets).len()
    &&& forall|i: int|
        0 <= i < deliveries.len() ==> {
            &&& (#[trigger] deliveries[i]).target == reached(audience.recipients@, targets)[i].0
            &&& deliveries[i].permit == DeliveryPermit::Seat(
                reached(audience.recipients@, targets)[i].1,
            )
            &&& is_broadcast(deliveries[i], audience, post)
        }
}

/// The deliveries that a channel post makes: one for each recipient that is live and loaded, to be
/// made in the process in which it is live.
pub fn channel_deliveries(audience: &ChannelAudience, post: &Post, targets: &Vec<Target>) -> (r: Vec<
    Delivery,
>)
    ensures
        broadcasts(*audience, *post, targets@, r@),
{
    let mut out: Vec<Delivery> = Vec::new();
    let mut i: usize = 0;
    while i < audience.recipients.len()
        invariant
            i <= audience.recipients@.len(),
            out@.len() == reached(audience.recipients@.take(i as int), targets@).len(),
            forall|j: int|
                0 <= j < out@.len() ==> {
                    &&& (#[trigger] out@[j]).target == reached(
                        audience.recipients@.take(i as int),
                        targets@,
                    )[j].0
                    &&& out@[j].permit == DeliveryPermit::Seat(
                        reached(audience.recipients@.take(i as int), targets@)[j].1,
                    )
                    &&& is_broadcast(out@[j], *audience, *post)
                },
        decreases audience.recipients@.len() - i,
    {
        assert(audience.recipients@.take(i + 1).drop_last() == audience.recipients@.take(i as int));
        let session = audience.recipients[i].session;
        if let Some(process) = find_target(targets, session) {
            out.push(
                Delivery {
                    target: session,
                    permit: DeliveryPermit::Seat(process),
                    payload: Payload::Peer(
                        PeerMessage {
                            post_id: post.id.clone(),
                            sender_session: audience.sender.session,
                            sender: audience.sender.username.clone(),
                            source: AdvisorySource::Channel {
                                channel: channel_label(&audience.channel),
                            },
                            body: post.message.clone(),
                        },
                    ),
                },
            );
        }
        i += 1;
    }
    assert(audience.recipients@.take(i as int) == audience.recipients@);
    out
}

/// The operator's direct post as it goes into a session.
pub open spec fn is_operators(
    delivery: Delivery,
    target: SessionId,
    permit: DeliveryPermit,
    post: Post,
) -> bool {
    &&& delivery.target == target
    &&& delivery.permit == permit
    &&& delivery.payload == Payload::Human(HumanMessage { post_id: post.id, body: post.message })
}

/// The delivery that the operator's direct post makes.
pub fn human_delivery(target: SessionId, permit: DeliveryPermit, post: Post) -> (r: Delivery)
    ensures
        is_operators(r, target, permit, post),
{
    Delivery {
        target,
        permit,
        payload: Payload::Human(HumanMessage { post_id: post.id, body: post.message }),
    }
}

/// Deliveries that are gathered into batches: the batch that is open, and what waits behind it.
#[derive(Debug, PartialEq, Eq)]
pub struct Coalescer {
    pub batch: Vec<Delivery>,
    pub waiting: VecDeque<Delivery>,
}

/// A batch holds at most eight deliveries, all of which may enter a session together.
pub open spec fn is_batch(batch: Seq<Delivery>) -> bool {
    batch.len() <= MAX_BATCH_MESSAGES && forall|i: int|
        0 <= i < batch.len() ==> alike(batch[0], #[trigger] batch[i])
}

/// How a delivery is taken in: into the batch where none is open or where it fits and there is room,
/// or else to wait.
pub open spec fn gathers(
    batch: Seq<Delivery>,
    waiting: Seq<Delivery>,
    delivery: Delivery,
    more: Seq<Delivery>,
    later: Seq<Delivery>,
) -> bool {
    if batch.len() == 0 || (batch.len() < MAX_BATCH_MESSAGES && alike(batch[0], delivery)) {
        more == batch.push(delivery) && later == waiting
    } else {
        more == batch && later == waiting.push(delivery)
    }
}

/// How a batch is opened: with what has waited longest, if anything has.
pub open spec fn reopens(
    waiting: Seq<Delivery>,
    opened: bool,
    batch: Seq<Delivery>,
    later: Seq<Delivery>,
) -> bool {
    &&& opened == (waiting.len() > 0)
    &&& opened ==> batch == seq![waiting[0]] && later == waiting.drop_first()
    &&& !opened ==> batch.len() == 0 && later == waiting
}

impl Coalescer {
    pub open spec fn wf(self) -> bool {
        is_batch(self.batch@)
    }

    /// All deliveries at hand.
    pub open spec fn content(self) -> Multiset<Delivery> {
        self.batch@.to_multiset().add(self.waiting@.to_multiset())
    }

    pub fn new() -> (r: Coalescer)
        ensures
            r.wf(),
            r.batch@.len() == 0,
            r.waiting@.len() == 0,
    {
        Coalescer { batch: Vec::new(), waiting: VecDeque::new() }
    }

    /// Opens a batch with what has waited longest, if anything has.
    pub fn reopen(&mut self) -> (r: bool)
        requires
            old(self).batch@.len() == 0,
        ensures
            final(self).wf(),
            reopens(old(self).waiting@, r, final(self).batch@, final(self).waiting@),
            final(self).content() == old(self).content(),
    {
        proof {
            lemma_opening(self.batch@, self.waiting@);
        }
        match self.waiting.pop_front() {
            Some(first) => {
                self.batch.push(first);
                assert(self.batch@ =~= seq![first]);
                true
            },
            None => false,
        }
    }

    /// Takes in a delivery: into the batch where it fits and there is room, or else to wait. With
    /// no batch open, it opens one.
    pub fn receive(&mut self, delivery: Delivery)
        requires
            old(self).wf(),
        ensures
            final(self).wf(),
            gathers(
                old(self).batch@,
                old(self).waiting@,
                delivery,
                final(self).batch@,
                final(self).waiting@,
            ),
            final(self).content() == old(self).content().insert(delivery),
    {
        proof {
            law_nothing_is_lost(self.batch@, self.waiting@, delivery);
        }
        let fits = self.batch.len() == 0 || (self.batch.len() < MAX_BATCH_MESSAGES
            && self.batch[0].shares_batch(&delivery));
        if fits {
            self.batch.push(delivery);
        } else {
            self.waiting.push_back(delivery);
        }
    }

    /// Closes the batch.
    pub fn close(&mut self) -> (r: Vec<Delivery>)
        requires
            old(self).wf(),
        ensures
            is_batch(r@),
            r@ == old(self).batch@,
            final(self).batch@.len() == 0,
            final(self).waiting@ == old(self).waiting@,
            r@.to_multiset().add(final(self).content()) == old(self).content(),
    {
        let mut batch: Vec<Delivery> = Vec::new();
        std::mem::swap(&mut batch, &mut self.batch);
        proof {
            assert(self.batch@ =~= Seq::<Delivery>::empty());
            lemma_empty(batch@, self.waiting@);
        }
        batch
    }
}

proof fn lemma_empty(batch: Seq<Delivery>, waiting: Seq<Delivery>)
    ensures
        Seq::<Delivery>::empty().to_multiset().add(waiting.to_multiset()) == waiting.to_multiset(),
        batch.to_multiset().add(
            Seq::<Delivery>::empty().to_multiset().add(waiting.to_multiset()),
        ) == batch.to_multiset().add(waiting.to_multiset()),
{
    broadcast use vstd::seq_lib::group_to_multiset_ensures;

    let none = Seq::<Delivery>::empty();
    none.to_multiset_ensures();
    assert(none.to_multiset().len() == 0);
    assert(none.to_multiset().add(waiting.to_multiset()) =~= waiting.to_multiset());
}

proof fn lemma_opening(batch: Seq<Delivery>, waiting: Seq<Delivery>)
    requires
        batch.len() == 0,
    ensures
        batch =~= Seq::<Delivery>::empty(),
        waiting.len() > 0 ==> seq![waiting[0]].to_multiset().add(
            waiting.drop_first().to_multiset(),
        ) == batch.to_multiset().add(waiting.to_multiset()),
{
    assert(batch =~= Seq::<Delivery>::empty());
    lemma_empty(batch, waiting);
    if waiting.len() > 0 {
        law_nothing_is_lost(batch, waiting, waiting[0]);
    }
}

/// Taking a delivery in loses none and repeats none, whether it joins the batch or waits.
pub proof fn law_nothing_is_lost(batch: Seq<Delivery>, waiting: Seq<Delivery>, delivery: Delivery)
    ensures
        batch.push(delivery).to_multiset().add(waiting.to_multiset())
            == batch.to_multiset().add(waiting.to_multiset()).insert(delivery),
        batch.to_multiset().add(waiting.push(delivery).to_multiset())
            == batch.to_multiset().add(waiting.to_multiset()).insert(delivery),
        waiting.len() > 0 ==> seq![waiting[0]].to_multiset().add(
            waiting.drop_first().to_multiset(),
        ) == waiting.to_multiset(),
{
    broadcast use vstd::seq_lib::group_to_multiset_ensures;

    assert(batch.push(delivery).to_multiset().add(waiting.to_multiset()) =~= batch.to_multiset().add(
        waiting.to_multiset(),
    ).insert(delivery));
    assert(batch.to_multiset().add(waiting.push(delivery).to_multiset())
        =~= batch.to_multiset().add(waiting.to_multiset()).insert(delivery));
    if waiting.len() > 0 {
        let first = seq![waiting[0]];
        assert(waiting =~= first + waiting.drop_first());
        vstd::seq_lib::lemma_multiset_commutative(first, waiting.drop_first());
    }
}

/// The messages of the operator in a batch.
pub open spec fn human_messages(batch: Seq<Delivery>) -> Seq<HumanMessage>
    decreases batch.len(),
{
    if batch.len() == 0 {
        Seq::empty()
    } else {
        match batch.last().payload {
            Payload::Human(message) => human_messages(batch.drop_last()).push(message),
            Payload::Peer(_) => human_messages(batch.drop_last()),
        }
    }
}

/// The messages of peers in a batch.
pub open spec fn peer_messages(batch: Seq<Delivery>) -> Seq<PeerMessage>
    decreases batch.len(),
{
    if batch.len() == 0 {
        Seq::empty()
    } else {
        match batch.last().payload {
            Payload::Peer(message) => peer_messages(batch.drop_last()).push(message),
            Payload::Human(_) => peer_messages(batch.drop_last()),
        }
    }
}

/// What a batch puts into its session.
pub open spec fn packs(batch: Seq<Delivery>, parcel: Parcel) -> bool {
    &&& parcel.target == batch[0].target
    &&& parcel.permit == batch[0].permit
    &&& match kind_of(batch[0]) {
        Kind::Human => parcel.injection is Human && parcel.injection->Human_0@ == human_messages(
            batch,
        ),
        Kind::Peer => parcel.injection is Peer && parcel.injection->Peer_0@ == peer_messages(batch),
    }
}

/// What a batch puts into its session.
pub fn parcel(batch: Vec<Delivery>) -> (r: Parcel)
    requires
        batch@.len() > 0,
    ensures
        packs(batch@, r),
{
    let target = batch[0].target;
    let permit = batch[0].permit;
    let kind = batch[0].kind();
    let ghost whole = batch@;
    let mut humans: Vec<HumanMessage> = Vec::new();
    let mut peers: Vec<PeerMessage> = Vec::new();
    let mut rest = batch;
    let ghost mut done: Seq<Delivery> = Seq::empty();
    assert(done + rest@ =~= whole);
    while rest.len() > 0
        invariant
            whole == done + rest@,
            humans@ == human_messages(done),
            peers@ == peer_messages(done),
        decreases rest@.len(),
    {
        let ghost before = rest@;
        let delivery = rest.remove(0);
        proof {
            assert(done.push(delivery).drop_last() =~= done);
            assert(done + before =~= done.push(delivery) + rest@);
            done = done.push(delivery);
        }
        match delivery.payload {
            Payload::Human(message) => humans.push(message),
            Payload::Peer(message) => peers.push(message),
        }
    }
    assert(done =~= whole);
    match kind {
        Kind::Human => Parcel { target, permit, injection: Injection::Human(humans) },
        Kind::Peer => Parcel { target, permit, injection: Injection::Peer(peers) },
    }
}

/// A batch goes into its session whole: as many messages as it holds, all of one kind.
pub proof fn law_batches_are_whole(batch: Seq<Delivery>)
    requires
        batch.len() > 0,
        is_batch(batch),
    ensures
        kind_of(batch[0]) == Kind::Human ==> human_messages(batch).len() == batch.len(),
        kind_of(batch[0]) == Kind::Peer ==> peer_messages(batch).len() == batch.len(),
{
    lemma_whole(batch[0], batch);
}

proof fn lemma_whole(first: Delivery, batch: Seq<Delivery>)
    requires
        forall|i: int| 0 <= i < batch.len() ==> alike(first, #[trigger] batch[i]),
    ensures
        kind_of(first) == Kind::Human ==> human_messages(batch).len() == batch.len(),
        kind_of(first) == Kind::Peer ==> peer_messages(batch).len() == batch.len(),
    decreases batch.len(),
{
    if batch.len() > 0 {
        let before = batch.drop_last();
        assert(forall|i: int| 0 <= i < before.len() ==> before[i] == batch[i]);
        assert(alike(first, batch[batch.len() - 1]));
        lemma_whole(first, before);
    }
}

/// What was found where the relay's socket is to be.
#[derive(Debug, PartialEq, Eq)]
pub enum Probe {
    /// Nothing.
    Absent,
    /// Something that answers.
    Answered,
    /// Something that refuses connections, or that is gone by now.
    Refused,
    /// Something that cannot be probed.
    Failed(String),
}

/// Whether what stands in the way of the relay's socket is to be removed first.
pub open spec fn is_stale(probe: Probe, r: Result<bool, RelayError>) -> bool {
    match probe {
        Probe::Absent => r == Ok::<bool, RelayError>(false),
        Probe::Refused => r == Ok::<bool, RelayError>(true),
        Probe::Answered => protocol_error(r, "another Wire relay is already listening"@),
        Probe::Failed(complaint) => r == Err::<bool, RelayError>(RelayError::Io(complaint)),
    }
}

/// Whether what stands in the way of the relay's socket is to be removed first.
pub fn stale(probe: Probe) -> (r: Result<bool, RelayError>)
    ensures
        is_stale(probe, r),
{
    match probe {
        Probe::Absent => Ok(false),
        Probe::Refused => Ok(true),
        Probe::Answered => Err(
            RelayError::Protocol("another Wire relay is already listening".to_owned()),
        ),
        Probe::Failed(complaint) => Err(RelayError::Io(complaint)),
    }
}

/// A file, by its device and its number there.
#[derive(Clone, Copy, Debug, PartialEq, Eq, Structural)]
pub struct FileId {
    pub device: u64,
    pub inode: u64,
}

/// Whether the relay's socket is still its own, and so to be removed at the end.
pub fn own_socket(bound: FileId, found: Option<FileId>) -> (r: bool)
    ensures
        r == (found == Some(bound)),
{
    match found {
        Some(id) => id == bound,
        None => false,
    }
}

/// Every message of a batch arrives as it was sent, in its place: what the parcel of a batch of one
/// kind holds at a place is just what the delivery at that place carried.
pub proof fn law_messages_arrive_as_sent(batch: Seq<Delivery>, parcel: Parcel)
    requires
        batch.len() > 0,
        packs(batch, parcel),
    ensures
        parcel.target == batch[0].target,
        parcel.permit == batch[0].permit,
        (forall|i: int| 0 <= i < batch.len() ==> (#[trigger] batch[i]).payload is Human) ==> {
            &&& parcel.injection is Human
            &&& parcel.injection->Human_0@.len() == batch.len()
            &&& forall|i: int|
                0 <= i < batch.len() ==> (#[trigger] batch[i]).payload == Payload::Human(
                    parcel.injection->Human_0@[i],
                )
        },
        (forall|i: int| 0 <= i < batch.len() ==> (#[trigger] batch[i]).payload is Peer) ==> {
            &&& parcel.injection is Peer
            &&& parcel.injection->Peer_0@.len() == batch.len()
            &&& forall|i: int|
                0 <= i < batch.len() ==> (#[trigger] batch[i]).payload == Payload::Peer(
                    parcel.injection->Peer_0@[i],
                )
        },
{
    if forall|i: int| 0 <= i < batch.len() ==> (#[trigger] batch[i]).payload is Human {
        assert(batch[0].payload is Human);
        lemma_humans_kept(batch);
    }
    if forall|i: int| 0 <= i < batch.len() ==> (#[trigger] batch[i]).payload is Peer {
        assert(batch[0].payload is Peer);
        lemma_peers_kept(batch);
    }
}

proof fn lemma_humans_kept(batch: Seq<Delivery>)
    requires
        forall|i: int| 0 <= i < batch.len() ==> (#[trigger] batch[i]).payload is Human,
    ensures
        human_messages(batch).len() == batch.len(),
        forall|i: int|
            0 <= i < batch.len() ==> (#[trigger] batch[i]).payload == Payload::Human(
                human_messages(batch)[i],
            ),
    decreases batch.len(),
{
    if batch.len() > 0 {
        let before = batch.drop_last();
        assert(forall|i: int| 0 <= i < before.len() ==> before[i] == batch[i]);
        lemma_humans_kept(before);
        assert(batch[batch.len() - 1].payload is Human);
        assert forall|i: int| 0 <= i < batch.len() implies (#[trigger] batch[i]).payload
            == Payload::Human(human_messages(batch)[i]) by {
            if i < before.len() {
                assert(before[i] == batch[i]);
            }
        }
    }
}

proof fn lemma_peers_kept(batch: Seq<Delivery>)
    requires
        forall|i: int| 0 <= i < batch.len() ==> (#[trigger] batch[i]).payload is Peer,
    ensures
        peer_messages(batch).len() == batch.len(),
        forall|i: int|
            0 <= i < batch.len() ==> (#[trigger] batch[i]).payload == Payload::Peer(
                peer_messages(batch)[i],
            ),
    decreases batch.len(),
{
    if batch.len() > 0 {
        let before = batch.drop_last();
        assert(forall|i: int| 0 <= i < before.len() ==> before[i] == batch[i]);
        lemma_peers_kept(before);
        assert(batch[batch.len() - 1].payload is Peer);
        assert forall|i: int| 0 <= i < batch.len() implies (#[trigger] batch[i]).payload
            == Payload::Peer(peer_messages(batch)[i]) by {
            if i < before.len() {
                assert(before[i] == batch[i]);
            }
        }
    }
}

/// What the operator posts is what the session reads: the turn of a batch of the operator's posts
/// holds, at the place of each post, its message as it was posted, in the session it was posted to.
pub proof fn law_operators_posts_are_read(
    target: SessionId,
    permit: DeliveryPermit,
    posts: Seq<Post>,
    batch: Seq<Delivery>,
    parcel: Parcel,
    inputs: Seq<Tree>,
)
    requires
        posts.len() > 0,
        batch.len() == posts.len(),
        forall|i: int|
            0 <= i < posts.len() ==> is_operators(#[trigger] batch[i], target, permit, posts[i]),
        packs(batch, parcel),
        inputs == turn_tree(parcel.target, parcel.injection).get("input"@)->Some_0->Array_0,
    ensures
        turn_tree(parcel.target, parcel.injection).get("input"@) == Some(Tree::Array(inputs)),
        parcel.target == target,
        parcel.permit == permit,
        inputs.len() == posts.len(),
        forall|i: int|
            0 <= i < posts.len() ==> (#[trigger] inputs[i]).get("text"@) == Some(
                Tree::Text(posts[i].message@),
            ),
        turn_tree(parcel.target, parcel.injection).get("clientUserMessageId"@) == Some(
            Tree::Text(posts[posts.len() - 1].id@),
        ),
{
    assert(is_operators(batch[0], target, permit, posts[0]));
    assert forall|i: int| 0 <= i < batch.len() implies (#[trigger] batch[i]).payload is Human by {
        assert(is_operators(batch[i], target, permit, posts[i]));
    }
    law_messages_arrive_as_sent(batch, parcel);
    law_operators_turns(target, parcel.injection->Human_0, inputs);
    assert forall|i: int| 0 <= i < posts.len() implies (#[trigger] inputs[i]).get("text"@) == Some(
        Tree::Text(posts[i].message@),
    ) by {
        assert(is_operators(batch[i], target, permit, posts[i]));
    }
    assert(is_operators(batch[posts.len() - 1], target, permit, posts[posts.len() - 1]));
}

/// Deliveries share a batch exactly where they go to one session on the same terms and either both
/// come from the operator or both from peers; and a batch has room for eight.
pub proof fn law_what_shares_a_batch(left: Delivery, right: Delivery, batch: Seq<Delivery>)
    ensures
        alike(left, right) <==> left.target == right.target && left.permit == right.permit && (
        left.payload is Human <==> right.payload is Human),
        is_batch(batch) <==> batch.len() <= 8 && forall|i: int, j: int|
            0 <= i < batch.len() && 0 <= j < batch.len() ==> (#[trigger] batch[i]).target == (
            #[trigger] batch[j]).target && batch[i].permit == batch[j].permit && (
            batch[i].payload is Human <==> batch[j].payload is Human),
{
    if is_batch(batch) {
        assert forall|i: int, j: int| 0 <= i < batch.len() && 0 <= j < batch.len() implies (
        #[trigger] batch[i]).target == (#[trigger] batch[j]).target && batch[i].permit
            == batch[j].permit && (batch[i].payload is Human <==> batch[j].payload is Human) by {
            assert(alike(batch[0], batch[i]) && alike(batch[0], batch[j]));
        }
    }
    if batch.len() <= 8 && forall|i: int, j: int|
        0 <= i < batch.len() && 0 <= j < batch.len() ==> (#[trigger] batch[i]).target == (
        #[trigger] batch[j]).target && batch[i].permit == batch[j].permit && (
        batch[i].payload is Human <==> batch[j].payload is Human) {
        assert forall|i: int| 0 <= i < batch.len() implies alike(batch[0], #[trigger] batch[i]) by {
            assert(batch[0].target == batch[i].target);
        }
    }
}

/// A delivery joins the open batch where there is none yet, or where there is room and it goes
/// together with all that is in it; else it waits behind what waits already. Nothing else moves.
pub proof fn law_gathering(
    batch: Seq<Delivery>,
    waiting: Seq<Delivery>,
    delivery: Delivery,
    more: Seq<Delivery>,
    later: Seq<Delivery>,
)
    requires
        is_batch(batch),
        gathers(batch, waiting, delivery, more, later),
    ensures
        is_batch(more),
        batch.len() == 0 ==> more == seq![delivery] && later == waiting,
        0 < batch.len() < 8 && delivery.target == batch[0].target && delivery.permit
            == batch[0].permit && (delivery.payload is Human <==> batch[0].payload is Human)
            ==> more == batch.push(delivery) && later == waiting,
        batch.len() >= 8 || (batch.len() > 0 && (delivery.target != batch[0].target
            || delivery.permit != batch[0].permit || (delivery.payload is Human <==>
            batch[0].payload is Peer))) ==> more == batch && later == waiting.push(delivery),
{
    assert forall|i: int| 0 <= i < more.len() implies alike(more[0], #[trigger] more[i]) by {
        if i < batch.len() {
            assert(alike(batch[0], batch[i]));
        }
    }
    if batch.len() == 0 {
        assert(batch.push(delivery) =~= seq![delivery]);
    }
}

/// The recipients of a channel post are reached one by one: each that is a target, in its process,
/// and no other.
pub proof fn law_reached_one_by_one(
    left: Seq<WireBot>,
    right: Seq<WireBot>,
    targets: Seq<Target>,
)
    ensures
        reached(left + right, targets) == reached(left, targets) + reached(right, targets),
        left.len() == 1 ==> reached(left, targets) == match target_process(
            targets,
            left[0].session,
        ) {
            Some(process) => seq![(left[0].session, process)],
            None => Seq::empty(),
        },
    decreases right.len(),
{
    if left.len() == 1 {
        assert(left.drop_last() =~= Seq::<WireBot>::empty());
        assert(reached(left.drop_last(), targets) =~= Seq::<(SessionId, ProcessKey)>::empty());
        assert(reached(left, targets) =~= match target_process(targets, left[0].session) {
            Some(process) => seq![(left[0].session, process)],
            None => Seq::empty(),
        });
    }
    if right.len() == 0 {
        assert(left + right =~= left);
        assert(reached(left, targets) + reached(right, targets) =~= reached(left, targets));
    } else {
        law_reached_one_by_one(left, right.drop_last(), targets);
        assert((left + right).drop_last() =~= left + right.drop_last());
        assert((left + right).last() == right.last());
        assert(reached(left + right, targets) =~= reached(left, targets) + reached(
            right,
            targets,
        ));
    }
}

/// A channel post goes to every recipient that is live and loaded, in its process, with the message
/// as it was posted, by the name of its author and with the label of its channel; and it goes to
/// recipients only.
pub proof fn law_channel_posts_reach_their_audience(
    audience: ChannelAudience,
    post: Post,
    targets: Seq<Target>,
    deliveries: Seq<Delivery>,
)
    requires
        broadcasts(audience, post, targets, deliveries),
    ensures
        forall|i: int|
            0 <= i < audience.recipients@.len() && target_process(
                targets,
                (#[trigger] audience.recipients@[i]).session,
            ) is Some ==> exists|k: int|
                0 <= k < deliveries.len() && (#[trigger] deliveries[k]).target
                    == audience.recipients@[i].session && deliveries[k].permit
                    == DeliveryPermit::Seat(
                    target_process(targets, audience.recipients@[i].session)->Some_0,
                ),
        forall|k: int|
            0 <= k < deliveries.len() ==> (#[trigger] deliveries[k]).payload is Peer
                && deliveries[k].payload->Peer_0.body@ == post.message@
                && deliveries[k].payload->Peer_0.post_id@ == post.id@
                && deliveries[k].payload->Peer_0.sender@ == audience.sender.username@
                && deliveries[k].payload->Peer_0.sender_session == audience.sender.session
                && deliveries[k].payload->Peer_0.source is Channel
                && deliveries[k].payload->Peer_0.source->channel@ == audience.channel.team.name@
                + ":"@ + audience.channel.channel.display_name@,
        forall|k: int|
            0 <= k < deliveries.len() ==> exists|i: int|
                0 <= i < audience.recipients@.len() && (
                #[trigger] audience.recipients@[i]).session == (#[trigger] deliveries[k]).target,
        deliveries.len() <= audience.recipients@.len(),
{
    let recipients = audience.recipients@;
    assert forall|i: int|
        0 <= i < recipients.len() && target_process(targets, (#[trigger] recipients[i]).session)
            is Some implies exists|k: int|
        0 <= k < deliveries.len() && (#[trigger] deliveries[k]).target == recipients[i].session
            && deliveries[k].permit == DeliveryPermit::Seat(
            target_process(targets, recipients[i].session)->Some_0,
        ) by {
        let k = lemma_reached(recipients, targets, i);
        assert(deliveries[k].target == recipients[i].session);
    }
    assert forall|k: int| 0 <= k < deliveries.len() implies exists|i: int|
        0 <= i < recipients.len() && (#[trigger] recipients[i]).session == (
        #[trigger] deliveries[k]).target by {
        let i = lemma_reached_back(recipients, targets, k);
        assert(recipients[i].session == deliveries[k].target);
    }
    lemma_reached_bounded(recipients, targets);
}

proof fn lemma_reached(recipients: Seq<WireBot>, targets: Seq<Target>, at: int) -> (k: int)
    requires
        0 <= at < recipients.len(),
        target_process(targets, recipients[at].session) is Some,
    ensures
        0 <= k < reached(recipients, targets).len(),
        reached(recipients, targets)[k].0 == recipients[at].session,
        reached(recipients, targets)[k].1 == target_process(
            targets,
            recipients[at].session,
        )->Some_0,
    decreases recipients.len(),
{
    if at == recipients.len() - 1 {
        reached(recipients, targets).len() - 1
    } else {
        lemma_reached(recipients.drop_last(), targets, at)
    }
}

proof fn lemma_reached_back(recipients: Seq<WireBot>, targets: Seq<Target>, k: int) -> (at: int)
    requires
        0 <= k < reached(recipients, targets).len(),
    ensures
        0 <= at < recipients.len(),
        reached(recipients, targets)[k].0 == recipients[at].session,
    decreases recipients.len(),
{
    let before = recipients.drop_last();
    if k < reached(before, targets).len() {
        lemma_reached_back(before, targets, k)
    } else {
        recipients.len() - 1
    }
}

proof fn lemma_reached_bounded(recipients: Seq<WireBot>, targets: Seq<Target>)
    ensures
        reached(recipients, targets).len() <= recipients.len(),
    decreases recipients.len(),
{
    if recipients.len() > 0 {
        lemma_reached_bounded(recipients.drop_last(), targets);
    }
}

/// A client that reserves a session, is let in and submits to the same session has its message
/// delivered there on the terms that were found: the same words, under its own name and session, as
/// a direct one.
pub proof fn law_submissions_are_delivered(
    target: SessionId,
    known: Vec<SessionId>,
    permit: DeliveryPermit,
    post_id: String,
    sender_session: SessionId,
    sender: String,
    body: String,
    found: Local,
    pleading: Local,
    offering: Local,
    holding: Local,
    end: Local,
)
    requires
        local_requested(Local::Listen, LocalRequest::Reserve { target }, found),
        local_discovered(found, Ok(known), pleading),
        local_permitted(pleading, Ok(Some(permit)), offering),
        local_offered(offering, holding),
        local_requested(
            holding,
            LocalRequest::Enqueue { target, post_id, sender_session, sender, body },
            end,
        ),
    ensures
        pleading is Plead,
        pleading->plea.target == target,
        pleading->plea.established <==> known@.contains(target),
        pleading->plea.kind == Kind::Peer,
        end is Deliver,
        end->Deliver_0.target == target,
        end->Deliver_0.permit == permit,
        end->Deliver_0.payload is Peer,
        end->Deliver_0.payload->Peer_0.post_id@ == post_id@,
        end->Deliver_0.payload->Peer_0.sender_session == sender_session,
        end->Deliver_0.payload->Peer_0.sender@ == sender@,
        end->Deliver_0.payload->Peer_0.body@ == body@,
        end->Deliver_0.payload->Peer_0.source == AdvisorySource::Direct,
{
}

/// A conversation that is turned away is told why: where nothing was reserved, where something was
/// already, where another session is submitted to, where nobody may be reached, and where the look
/// for them failed.
pub proof fn law_refusals_say_why(
    target: SessionId,
    other: SessionId,
    permit: DeliveryPermit,
    submission: LocalRequest,
    plea: Plea,
    unreserved: Local,
    repeated: Local,
    changed: Local,
    unreachable: Local,
)
    requires
        submission is Enqueue,
        submission->Enqueue_target == other,
        other != target,
        local_requested(Local::Listen, submission, unreserved),
        local_requested(
            Local::Hold { target, permit },
            LocalRequest::Reserve { target: other },
            repeated,
        ),
        local_requested(Local::Hold { target, permit }, submission, changed),
        local_permitted(Local::Plead { plea }, Ok(None), unreachable),
    ensures
        unreserved is Answer && unreserved->Answer_0 is Error && unreserved->Answer_0->message@
            == "reservation required"@,
        repeated is Answer && repeated->Answer_0 is Error && repeated->Answer_0->message@
            == "reservation already exists"@,
        changed is Answer && changed->Answer_0 is Error && changed->Answer_0->message@
            == "reservation identity changed"@,
        unreachable is Answer && unreachable->Answer_0 is Error && unreachable->Answer_0->message@
            == "that Codex session cannot accept Wire"@,
{
}

/// A reservation stands exactly where the relay answered that it is ready, and a submission exactly
/// where it answered that it is queued; an error is told in the relay's own words.
pub proof fn law_answers_of_the_relay(
    response: LocalResponse,
    opened: Result<(), RelayError>,
    queued: Result<(), RelayError>,
)
    requires
        opens(response, opened),
        queues(response, queued),
    ensures
        opened is Ok <==> response is Ready,
        queued is Ok <==> response is Queued,
        response is Error ==> protocol_error(opened, response->message@) && protocol_error(
            queued,
            response->message@,
        ),
        response is Queued ==> protocol_error(
            opened,
            "relay returned an impossible preflight response"@,
        ),
        response is Ready ==> protocol_error(
            queued,
            "relay returned an impossible enqueue response"@,
        ),
{
}

/// What a delivery that was taken answers, and how a conversation ends without one.
pub proof fn law_ends_of_conversations(local: Local, late: Local, taken: Local, lost: Local)
    requires
        local_expired(local, late),
        local_queued(true, taken),
        local_queued(false, lost),
    ensures
        local is Hold ==> late is Failed && protocol_error(
            Err::<(), RelayError>(late->Failed_0),
            "reservation expired"@,
        ),
        local !is Hold ==> late == local,
        taken == Local::Answer(LocalResponse::Queued),
        lost is Failed,
{
}

/// Only what refuses connections is removed before the relay listens; what answers is another relay,
/// and keeps this one from listening.
pub proof fn law_sockets_in_the_way(probe: Probe, r: Result<bool, RelayError>)
    requires
        is_stale(probe, r),
    ensures
        r == Ok::<bool, RelayError>(true) <==> probe is Refused,
        r == Ok::<bool, RelayError>(false) <==> probe is Absent,
        probe is Answered ==> r is Err && r->Err_0 is Protocol && r->Err_0->Protocol_0@
            == "another Wire relay is already listening"@,
        probe matches Probe::Failed(complaint) ==> r is Err && r->Err_0 is Io && r->Err_0->Io_0
            == complaint,
{
}

/// What has waited longest opens the next batch, whatever it is; nothing is lost on the way, and what
/// waits behind it stays in its order.
pub proof fn law_first_come_first_served(
    waiting: Seq<Delivery>,
    opened: bool,
    batch: Seq<Delivery>,
    later: Seq<Delivery>,
)
    requires
        reopens(waiting, opened, batch, later),
    ensures
        batch + later == waiting,
        waiting.len() > 0 ==> batch.len() == 1,
        waiting.len() == 0 ==> batch.len() == 0,
{
    assert(batch + later =~= waiting);
}

/// A session that lets a plea in is offered to the client; one that does not, and an app server that
/// cannot say, are told to it, with what the app server complained of.
pub proof fn law_pleas_are_answered(
    plea: Plea,
    permit: DeliveryPermit,
    fault: AppServerError,
    granted: Local,
    denied: Local,
    failed: Local,
)
    requires
        local_permitted(Local::Plead { plea }, Ok(Some(permit)), granted),
        local_permitted(Local::Plead { plea }, Ok(None), denied),
        local_permitted(Local::Plead { plea }, Err(fault), failed),
    ensures
        granted == (Local::Offer { target: plea.target, permit }),
        denied is Answer && denied->Answer_0 is Error && denied->Answer_0->message@
            == "that Codex session cannot accept Wire"@,
        failed is Answer && failed->Answer_0 is Error && failed->Answer_0->message@
            == "shared Codex app server is unavailable: "@ + app_server_error_text(fault),
{
}

} // verus!
