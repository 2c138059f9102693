//! Who may be reached, on what terms, and the way into a session.
use vstd::prelude::*;
use crate::delivery::{start_turn, turn_tree, Injection, ADVISORY_INPUT};
use crate::error::AppServerError;
use crate::forge::{read_thread, read_tree};
use crate::handoff::{handoff_replied, resume_thread, resume_tree, Handoff};
use crate::ident::{hyphenated_text, named_session, SessionId};
use crate::json::{as_items, as_text, items_of, lemma_trees, text_of, trees, Json, Tree};
use crate::record::{account, accounted, all_starts, answers, begun, count_messages, count_starts, first_answer, id_of, known_starts, law_messages_are_counted, law_single_lines_stay, law_starts_are_counted, on_one_line, one_line, open_asks, peers_started, place_behind, said, says_just, started_for_peers, started_turn, times_started, told, user_messages, Ask, AskView, Entry, EntryView, Start, StartView, Starter};
use crate::rpc::{control_error, Call};

verus! {

/// How many turns peers may make in a session after the last turn of a human.
pub const PEER_TURN_LIMIT: usize = 3;

/// Why a peer's delivery is rejected once the allowance is spent.
pub const ALLOWANCE_SPENT: &'static str =
    "the peer allowance of this session is spent until a human speaks in it";

/// A process, by its number and the time at which the kernel started it.
#[derive(Clone, Copy, Debug, PartialEq, Eq, Structural)]
pub struct ProcessKey {
    pub pid: u32,
    pub start: u64,
}

/// The one live process that asserts a session, and where it works.
#[derive(Debug, PartialEq, Eq)]
pub struct Seat {
    pub session: SessionId,
    pub process: ProcessKey,
    pub cwd: Option<String>,
}

/// On what terms a session may be reached.
#[derive(Clone, Copy, Debug, PartialEq, Eq, Structural)]
pub enum DeliveryPermit {
    /// The session is live in this process and loaded.
    Seat(ProcessKey),
    /// The session is dormant and is to be resumed.
    Resume,
}

/// Who speaks.
#[derive(Clone, Copy, Debug, PartialEq, Eq, Structural)]
pub enum Kind {
    Human,
    Peer,
}

/// On what terms a session may be reached: a live one where it is loaded, a dormant one where it
/// has a biography, and no other.
pub open spec fn terms(process: Option<ProcessKey>, loaded: bool, established: bool) -> Option<
    DeliveryPermit,
> {
    match process {
        Some(process) => if loaded {
            Some(DeliveryPermit::Seat(process))
        } else {
            None
        },
        None => if established {
            Some(DeliveryPermit::Resume)
        } else {
            None
        },
    }
}

/// On what terms a session may be reached.
pub fn permit(process: Option<ProcessKey>, loaded: bool, established: bool) -> (r: Option<
    DeliveryPermit,
>)
    ensures
        r == terms(process, loaded, established),
{
    match process {
        Some(process) => if loaded {
            Some(DeliveryPermit::Seat(process))
        } else {
            None
        },
        None => if established {
            Some(DeliveryPermit::Resume)
        } else {
            None
        },
    }
}

/// A dormant session without a biography is never reached, and neither is a live one that is not
/// loaded.
pub proof fn law_anonymous_dormant_sessions_stay_inert(
    process: Option<ProcessKey>,
    loaded: bool,
    established: bool,
)
    ensures
        process is None && !established ==> terms(process, loaded, established) is None,
        process is Some && !loaded ==> terms(process, loaded, established) is None,
        terms(process, loaded, established) == Some(DeliveryPermit::Resume) ==> established
            && process is None,
{
}

/// The sessions that a list of loaded threads names.
pub open spec fn loaded_ids(items: Seq<Tree>) -> Seq<SessionId>
    decreases items.len(),
{
    if items.len() == 0 {
        Seq::empty()
    } else {
        let before = loaded_ids(items.drop_last());
        match text_of(Some(items.last())) {
            Some(text) => match named_session(text) {
                Some(id) => before.push(id),
                None => before,
            },
            None => before,
        }
    }
}

/// The sessions that a reply names as loaded.
pub open spec fn loaded_of(reply: Tree) -> Seq<SessionId> {
    loaded_ids(items_of(reply.get("data"@)))
}

/// The sessions that a reply names as loaded.
pub fn loaded_sessions(reply: &Json) -> (r: Vec<SessionId>)
    ensures
        r@ == loaded_of(reply.tree()),
{
    let mut out: Vec<SessionId> = Vec::new();
    if let Some(items) = as_items(reply.get("data")) {
        let ghost all = trees(items@);
        proof {
            lemma_trees(items@);
        }
        let mut i: usize = 0;
        while i < items.len()
            invariant
                i <= items@.len(),
                all == trees(items@),
                all == items_of(reply.tree().get("data"@)),
                all.len() == items@.len(),
                forall|j: int| 0 <= j < items@.len() ==> all[j] == (#[trigger] items@[j]).tree(),
                out@ == loaded_ids(all.take(i as int)),
            decreases items@.len() - i,
        {
            assert(all.take(i + 1).drop_last() == all.take(i as int));
            assert(all.take(i + 1).last() == items@[i as int].tree());
            if let Json::Text(text) = &items[i] {
                if let Some(id) = SessionId::find(text.as_str()) {
                    out.push(id);
                }
            }
            i += 1;
        }
        assert(all.take(i as int) == all);
    }
    out
}

/// Whether a session is among others.
pub fn names(sessions: &Vec<SessionId>, session: SessionId) -> (r: bool)
    ensures
        r == sessions@.contains(session),
{
    let mut i: usize = 0;
    while i < sessions.len()
        invariant
            i <= sessions@.len(),
            forall|j: int| 0 <= j < i ==> sessions@[j] != session,
        decreases sessions@.len() - i,
    {
        if sessions[i] == session {
            return true;
        }
        i += 1;
    }
    false
}

/// The call that lists the loaded threads.
pub fn list_loaded() -> (r: Call)
    ensures
        r.says("thread/loaded/list"@, Tree::Object(Map::empty())),
{
    Call::new("thread/loaded/list", Json::object())
}

/// A session that is live and loaded, and the process in which it is live.
#[derive(Debug, PartialEq, Eq)]
pub struct Target {
    pub id: SessionId,
    pub process: ProcessKey,
}

/// The process in which a session is live.
pub open spec fn seat_process(seats: Seq<Seat>, session: SessionId) -> Option<ProcessKey>
    decreases seats.len(),
{
    if seats.len() == 0 {
        None
    } else if seats[0].session == session {
        Some(seats[0].process)
    } else {
        seat_process(seats.drop_first(), session)
    }
}

/// The process in which a session is live.
pub fn find_seat(seats: &Vec<Seat>, session: SessionId) -> (r: Option<ProcessKey>)
    ensures
        r == seat_process(seats@, session),
{
    let mut i: usize = 0;
    assert(seats@.skip(0) == seats@);
    while i < seats.len()
        invariant
            i <= seats@.len(),
            seat_process(seats@.skip(i as int), session) == seat_process(seats@, session),
        decreases seats@.len() - i,
    {
        assert(seats@.skip(i as int).drop_first() == seats@.skip(i + 1));
        if seats[i].session == session {
            return Some(seats[i].process);
        }
        i += 1;
    }
    None
}

/// A session is live exactly where it has a seat.
pub proof fn lemma_seated(seats: Seq<Seat>, session: SessionId)
    ensures
        seat_process(seats, session) is Some <==> exists|i: int|
            0 <= i < seats.len() && (#[trigger] seats[i]).session == session,
    decreases seats.len(),
{
    if seats.len() > 0 {
        let rest = seats.drop_first();
        lemma_seated(rest, session);
        assert(forall|i: int| 0 <= i < rest.len() ==> rest[i] == seats[i + 1]);
        if seats[0].session != session && exists|i: int|
            0 <= i < seats.len() && (#[trigger] seats[i]).session == session {
            let i = choose|i: int| 0 <= i < seats.len() && (#[trigger] seats[i]).session == session;
            assert(rest[i - 1].session == session);
        }
        if exists|i: int| 0 <= i < rest.len() && (#[trigger] rest[i]).session == session {
            let i = choose|i: int| 0 <= i < rest.len() && (#[trigger] rest[i]).session == session;
            assert(seats[i + 1].session == session);
        }
    }
}

/// The loaded sessions among the live ones.
pub open spec fn ready_targets(seats: Seq<Seat>, loaded: Seq<SessionId>) -> Seq<Target>
    decreases seats.len(),
{
    if seats.len() == 0 {
        Seq::empty()
    } else {
        let before = ready_targets(seats.drop_last(), loaded);
        let seat = seats.last();
        if loaded.contains(seat.session) {
            before.push(Target { id: seat.session, process: seat.process })
        } else {
            before
        }
    }
}

/// The sessions that a channel post may reach: those that are both live and loaded.
pub fn delivery_targets(seats: &Vec<Seat>, loaded: &Vec<SessionId>) -> (r: Vec<Target>)
    ensures
        r@ == ready_targets(seats@, loaded@),
{
    let mut out: Vec<Target> = Vec::new();
    let mut i: usize = 0;
    while i < seats.len()
        invariant
            i <= seats@.len(),
            out@ == ready_targets(seats@.take(i as int), loaded@),
        decreases seats@.len() - i,
    {
        assert(seats@.take(i + 1).drop_last() == seats@.take(i as int));
        if names(loaded, seats[i].session) {
            out.push(Target { id: seats[i].session, process: seats[i].process });
        }
        i += 1;
    }
    assert(seats@.take(i as int) == seats@);
    out
}

/// The process in which the first target of a session is live.
pub open spec fn target_process(targets: Seq<Target>, session: SessionId) -> Option<ProcessKey>
    decreases targets.len(),
{
    if targets.len() == 0 {
        None
    } else if targets[0].id == session {
        Some(targets[0].process)
    } else {
        target_process(targets.drop_first(), session)
    }
}

/// The process in which a target is live.
pub fn find_target(targets: &Vec<Target>, session: SessionId) -> (r: Option<ProcessKey>)
    ensures
        r == target_process(targets@, session),
{
    let mut i: usize = 0;
    assert(targets@.skip(0) == targets@);
    while i < targets.len()
        invariant
            i <= targets@.len(),
            target_process(targets@.skip(i as int), session) == target_process(targets@, session),
        decreases targets@.len() - i,
    {
        assert(targets@.skip(i as int).drop_first() == targets@.skip(i + 1));
        if targets[i].id == session {
            return Some(targets[i].process);
        }
        i += 1;
    }
    None
}

proof fn lemma_target_push(targets: Seq<Target>, last: Target, session: SessionId)
    ensures
        target_process(targets.push(last), session) == match target_process(targets, session) {
            Some(process) => Some(process),
            None => if last.id == session {
                Some(last.process)
            } else {
                None
            },
        },
    decreases targets.len(),
{
    if targets.len() > 0 {
        assert(targets.push(last).drop_first() =~= targets.drop_first().push(last));
        lemma_target_push(targets.drop_first(), last, session);
    } else {
        assert(targets.push(last).drop_first() =~= Seq::<Target>::empty());
        reveal_with_fuel(target_process, 2);
    }
}

proof fn lemma_seat_push(seats: Seq<Seat>, session: SessionId)
    requires
        seats.len() > 0,
    ensures
        seat_process(seats, session) == match seat_process(seats.drop_last(), session) {
            Some(process) => Some(process),
            None => if seats.last().session == session {
                Some(seats.last().process)
            } else {
                None
            },
        },
    decreases seats.len(),
{
    if seats.len() > 1 {
        assert(seats.drop_first().drop_last() =~= seats.drop_last().drop_first());
        lemma_seat_push(seats.drop_first(), session);
    } else {
        assert(seats.drop_first() =~= Seq::<Seat>::empty());
        assert(seats.drop_last() =~= Seq::<Seat>::empty());
    }
}

/// The targets are exactly the sessions that are both live and loaded, each in its process. A
/// dormant session is none of them, whether it has a biography or not.
pub proof fn law_targets_are_live_and_loaded(
    seats: Seq<Seat>,
    loaded: Seq<SessionId>,
    session: SessionId,
)
    ensures
        target_process(ready_targets(seats, loaded), session) == if loaded.contains(session) {
            seat_process(seats, session)
        } else {
            None
        },
    decreases seats.len(),
{
    if seats.len() > 0 {
        law_targets_are_live_and_loaded(seats.drop_last(), loaded, session);
        lemma_seat_push(seats, session);
        lemma_target_push(
            ready_targets(seats.drop_last(), loaded),
            Target { id: seats.last().session, process: seats.last().process },
            session,
        );
    }
}

/// Who made a turn.
#[derive(Clone, Copy, Debug, PartialEq, Eq, Structural)]
pub enum TurnOrigin {
    Human,
    Peer,
    System,
}

/// How many of a turn's messages were put there for peers or by handoffs.
pub open spec fn own_messages(turn: Tree, starts: Seq<StartView>) -> nat {
    match id_of(turn) {
        Some(turn_id) => times_started(starts, turn_id),
        None => 0,
    }
}

/// Whether a turn was started for peers.
pub open spec fn for_peers(turn: Tree, starts: Seq<StartView>) -> bool {
    match id_of(turn) {
        Some(turn_id) => started_for_peers(starts, turn_id),
        None => false,
    }
}

/// Who made a turn, by the record of the turns that were started for peers and by handoffs. It is
/// a human's where it holds a message of the user that none of those put there; what the messages
/// say plays no part.
pub open spec fn origin(turn: Tree, starts: Seq<StartView>) -> TurnOrigin {
    if user_messages(turn) > own_messages(turn, starts) {
        TurnOrigin::Human
    } else if for_peers(turn, starts) {
        TurnOrigin::Peer
    } else {
        TurnOrigin::System
    }
}

/// Who made a turn.
pub fn turn_origin(turn: &Json, starts: &Vec<Start>) -> (r: TurnOrigin)
    ensures
        r == origin(turn.tree(), said(starts@)),
{
    let messages: usize = count_messages(turn);
    match as_text(turn.get("id")) {
        Some(turn_id) => if messages > count_starts(starts, turn_id.as_str()) {
            TurnOrigin::Human
        } else if peers_started(starts, turn_id.as_str()) {
            TurnOrigin::Peer
        } else {
            TurnOrigin::System
        },
        None => if messages > 0 {
            TurnOrigin::Human
        } else {
            TurnOrigin::System
        },
    }
}

/// How many turns peers made after the last turn of a human.
pub open spec fn peer_turns(turns: Seq<Tree>, starts: Seq<StartView>) -> nat
    decreases turns.len(),
{
    if turns.len() == 0 {
        0
    } else {
        match origin(turns.last(), starts) {
            TurnOrigin::Human => 0,
            TurnOrigin::Peer => peer_turns(turns.drop_last(), starts) + 1,
            TurnOrigin::System => peer_turns(turns.drop_last(), starts),
        }
    }
}

/// The turns of a thread.
pub open spec fn thread_turns(thread: Tree) -> Seq<Tree> {
    items_of(thread.at("thread"@, "turns"@))
}

/// Whether peers may make another turn in a thread, by the record of the turns started in it.
pub open spec fn peers_welcome(thread: Tree, entries: Seq<EntryView>) -> bool {
    let turns = thread_turns(thread);
    peer_turns(turns, all_starts(turns, entries)) < PEER_TURN_LIMIT
}

/// Whether peers may make another turn in a thread, by the record of the turns started in it.
pub fn peer_allowed(thread: &Json, entries: &Vec<Entry>) -> (r: bool)
    ensures
        r == peers_welcome(thread.tree(), told(entries@)),
{
    let mut count: usize = 0;
    if let Some(turns) = as_items(thread.at("thread", "turns")) {
        let starts = account(turns, entries);
        let ghost all = trees(turns@);
        let ghost known = said(starts@);
        proof {
            lemma_trees(turns@);
        }
        let mut i: usize = 0;
        while i < turns.len()
            invariant
                i <= turns@.len(),
                all == trees(turns@),
                known == said(starts@),
                all.len() == turns@.len(),
                forall|j: int| 0 <= j < turns@.len() ==> all[j] == (#[trigger] turns@[j]).tree(),
                count <= i,
                count == peer_turns(all.take(i as int), known),
            decreases turns@.len() - i,
        {
            assert(all.take(i + 1).drop_last() == all.take(i as int));
            assert(all.take(i + 1).last() == turns@[i as int].tree());
            match turn_origin(&turns[i], &starts) {
                TurnOrigin::Human => {
                    count = 0;
                },
                TurnOrigin::Peer => {
                    count += 1;
                },
                TurnOrigin::System => {},
            }
            i += 1;
        }
        assert(all.take(i as int) == all);
    }
    count < PEER_TURN_LIMIT
}

/// How many of some turns peers made.
pub open spec fn peers_among(turns: Seq<Tree>, starts: Seq<StartView>) -> nat
    decreases turns.len(),
{
    if turns.len() == 0 {
        0
    } else {
        peers_among(turns.drop_last(), starts) + if origin(turns.last(), starts)
            == TurnOrigin::Peer {
            1nat
        } else {
            0nat
        }
    }
}

/// Turns of which none is a human's.
pub open spec fn without_humans(turns: Seq<Tree>, starts: Seq<StartView>) -> bool {
    forall|i: int| 0 <= i < turns.len() ==> origin(#[trigger] turns[i], starts) != TurnOrigin::Human
}

/// What counts against the allowance is exactly the turns of peers since the last turn of a human,
/// or since the beginning where no human spoke yet.
pub proof fn law_allowance_counts_since_the_last_human(
    before: Seq<Tree>,
    since: Seq<Tree>,
    starts: Seq<StartView>,
)
    requires
        before.len() > 0 ==> origin(before.last(), starts) == TurnOrigin::Human,
        without_humans(since, starts),
    ensures
        peer_turns(before + since, starts) == peers_among(since, starts),
    decreases since.len(),
{
    if since.len() > 0 {
        let fewer = since.drop_last();
        assert(forall|i: int| 0 <= i < fewer.len() ==> fewer[i] == since[i]);
        law_allowance_counts_since_the_last_human(before, fewer, starts);
        assert((before + since).drop_last() =~= before + fewer);
        assert(origin(since[since.len() - 1], starts) != TurnOrigin::Human);
    } else {
        assert(before + since =~= before);
    }
}

/// A history in which every turn of a peer was made while peers were welcome.
pub open spec fn lawful(turns: Seq<Tree>, starts: Seq<StartView>) -> bool {
    forall|i: int|
        #![trigger turns[i]]
        0 <= i < turns.len() && origin(turns[i], starts) == TurnOrigin::Peer ==> peer_turns(
            turns.take(i),
            starts,
        ) < PEER_TURN_LIMIT
}

/// Where peers speak only when they are welcome, they never make more than three turns after the
/// last turn of a human; a human's turn restores the allowance, and a turn of the system does not.
pub proof fn law_peer_allowance(turns: Seq<Tree>, next: Tree, starts: Seq<StartView>)
    requires
        lawful(turns, starts),
    ensures
        peer_turns(turns, starts) <= PEER_TURN_LIMIT,
        origin(next, starts) == TurnOrigin::Human ==> peer_turns(turns.push(next), starts) == 0,
        origin(next, starts) == TurnOrigin::System ==> peer_turns(turns.push(next), starts)
            == peer_turns(turns, starts),
        origin(next, starts) == TurnOrigin::Peer ==> peer_turns(turns.push(next), starts)
            == peer_turns(turns, starts) + 1,
    decreases turns.len(),
{
    assert(turns.push(next).drop_last() =~= turns);
    if turns.len() > 0 {
        let before = turns.drop_last();
        assert forall|i: int|
            #![trigger before[i]]
            0 <= i < before.len() && origin(before[i], starts) == TurnOrigin::Peer implies peer_turns(
            before.take(i),
            starts,
        ) < PEER_TURN_LIMIT by {
            assert(before[i] == turns[i]);
            assert(before.take(i) =~= turns.take(i));
        }
        law_peer_allowance(before, turns.last(), starts);
        assert(turns.take(turns.len() - 1) =~= before);
        assert(turns[turns.len() - 1] == turns.last());
    }
}

/// Two accounts of starts that differ in one turn at most.
pub open spec fn agree_but_for(
    left: Seq<StartView>,
    right: Seq<StartView>,
    turn_id: Seq<char>,
) -> bool {
    forall|id: Seq<char>|
        id != turn_id ==> #[trigger] times_started(left, id) == times_started(right, id)
            && started_for_peers(left, id) == started_for_peers(right, id)
}

proof fn lemma_pushed(starts: Seq<StartView>, start: StartView, id: Seq<char>)
    ensures
        times_started(starts.push(start), id) == times_started(starts, id) + if start.turn_id == id {
            1nat
        } else {
            0nat
        },
        started_for_peers(starts.push(start), id) <==> started_for_peers(starts, id) || (start.by
            == Starter::Peer && start.turn_id == id),
{
    let more = starts.push(start);
    assert(more.drop_last() =~= starts);
    if started_for_peers(starts, id) {
        let i = choose|i: int|
            0 <= i < starts.len() && (#[trigger] starts[i]).by == Starter::Peer && starts[i].turn_id
                == id;
        assert(more[i] == starts[i]);
    }
    if started_for_peers(more, id) {
        let i = choose|i: int|
            0 <= i < more.len() && (#[trigger] more[i]).by == Starter::Peer && more[i].turn_id
                == id;
        if i < starts.len() {
            assert(starts[i] == more[i]);
        }
    }
    assert(more[starts.len() as int] == start);
}

proof fn lemma_not_started(starts: Seq<StartView>, turn_id: Seq<char>)
    requires
        forall|i: int| 0 <= i < starts.len() ==> (#[trigger] starts[i]).turn_id != turn_id,
    ensures
        times_started(starts, turn_id) == 0,
        !started_for_peers(starts, turn_id),
    decreases starts.len(),
{
    if starts.len() > 0 {
        let before = starts.drop_last();
        assert(forall|i: int| 0 <= i < before.len() ==> before[i] == starts[i]);
        lemma_not_started(before, turn_id);
        assert(starts[starts.len() - 1].turn_id != turn_id);
    }
}

proof fn lemma_answer(turns: Seq<Tree>, from: int, ask: AskView, starts: Seq<StartView>)
    ensures
        first_answer(turns, from, ask, starts) matches Some(id) ==> exists|i: int|
            0 <= i < turns.len() && id_of(#[trigger] turns[i]) == Some(id) && answers(
                turns[i],
                ask,
                starts,
            ),
    decreases turns.len() - from,
{
    if 0 <= from < turns.len() {
        if answers(turns[from], ask, starts) {
            assert(id_of(turns[from]) is Some);
        } else {
            lemma_answer(turns, from + 1, ask, starts);
        }
    }
}

proof fn lemma_answer_agrees(
    turns: Seq<Tree>,
    from: int,
    ask: AskView,
    left: Seq<StartView>,
    right: Seq<StartView>,
    turn_id: Seq<char>,
)
    requires
        agree_but_for(left, right, turn_id),
        forall|i: int| 0 <= i < turns.len() ==> id_of(#[trigger] turns[i]) != Some(turn_id),
    ensures
        first_answer(turns, from, ask, left) == first_answer(turns, from, ask, right),
    decreases turns.len() - from,
{
    if 0 <= from < turns.len() {
        let id = id_of(turns[from]);
        if id is Some {
            assert(times_started(left, id->Some_0) == times_started(right, id->Some_0));
        }
        lemma_answer_agrees(turns, from + 1, ask, left, right, turn_id);
    }
}

proof fn lemma_answer_push(
    turns: Seq<Tree>,
    turn: Tree,
    from: int,
    ask: AskView,
    starts: Seq<StartView>,
)
    requires
        0 <= from <= turns.len(),
    ensures
        first_answer(turns.push(turn), from, ask, starts) == match first_answer(
            turns,
            from,
            ask,
            starts,
        ) {
            Some(id) => Some(id),
            None => if answers(turn, ask, starts) {
                id_of(turn)
            } else {
                None
            },
        },
    decreases turns.len() - from,
{
    let more = turns.push(turn);
    if from < turns.len() {
        assert(more[from] == turns[from]);
        lemma_answer_push(turns, turn, from + 1, ask, starts);
    } else {
        assert(more[from] == turn);
        reveal_with_fuel(first_answer, 2);
    }
}

proof fn lemma_place_push(turns: Seq<Tree>, turn: Tree, behind: Seq<char>)
    requires
        id_of(turn) != Some(behind),
    ensures
        place_behind(turns.push(turn), behind) == place_behind(turns, behind),
        place_behind(turns, behind) <= turns.len(),
    decreases turns.len(),
{
    assert(turns.push(turn).drop_last() =~= turns);
    assert(turns.push(turn).last() == turn);
    if turns.len() > 0 {
        lemma_place(turns, behind);
    }
}

proof fn lemma_place(turns: Seq<Tree>, behind: Seq<char>)
    ensures
        place_behind(turns, behind) <= turns.len(),
    decreases turns.len(),
{
    if turns.len() > 0 {
        lemma_place(turns.drop_last(), behind);
    }
}

/// The starts once one more intention was accounted for.
pub open spec fn with_ask(turns: Seq<Tree>, starts: Seq<StartView>, ask: AskView) -> Seq<StartView> {
    match first_answer(turns, place_behind(turns, ask.behind) as int, ask, starts) {
        Some(turn_id) => starts.push(StartView { by: ask.by, turn_id }),
        None => starts,
    }
}

proof fn lemma_accounted_push(
    turns: Seq<Tree>,
    starts: Seq<StartView>,
    asks: Seq<AskView>,
    ask: AskView,
)
    ensures
        accounted(turns, starts, asks.push(ask)) == with_ask(
            turns,
            accounted(turns, starts, asks),
            ask,
        ),
    decreases asks.len(),
{
    let more = asks.push(ask);
    if asks.len() == 0 {
        assert(more.drop_first() =~= Seq::<AskView>::empty());
        assert(more[0] == ask);
        reveal_with_fuel(accounted, 2);
    } else {
        assert(more[0] == asks[0]);
        assert(more.drop_first() =~= asks.drop_first().push(ask));
        lemma_accounted_push(
            turns,
            with_ask(turns, starts, asks[0]),
            asks.drop_first(),
            ask,
        );
    }
}

/// How a turn that was just added stands in an account: at most once, and then for whom it should.
pub open spec fn stands(starts: Seq<StartView>, turn_id: Seq<char>, by: Starter) -> bool {
    &&& times_started(starts, turn_id) <= 1
    &&& started_for_peers(starts, turn_id) <==> times_started(starts, turn_id) == 1 && by
        == Starter::Peer
}

proof fn lemma_agree_on_both(
    left: Seq<StartView>,
    right: Seq<StartView>,
    start: StartView,
    turn_id: Seq<char>,
)
    requires
        agree_but_for(left, right, turn_id),
    ensures
        agree_but_for(left.push(start), right.push(start), turn_id),
{
    assert forall|id: Seq<char>| id != turn_id implies #[trigger] times_started(left.push(start), id)
        == times_started(right.push(start), id) && started_for_peers(left.push(start), id)
        == started_for_peers(right.push(start), id) by {
        lemma_pushed(left, start, id);
        lemma_pushed(right, start, id);
        assert(times_started(left, id) == times_started(right, id));
    }
}

proof fn lemma_agree_on_one(left: Seq<StartView>, right: Seq<StartView>, start: StartView)
    requires
        agree_but_for(left, right, start.turn_id),
    ensures
        agree_but_for(left.push(start), right, start.turn_id),
{
    assert forall|id: Seq<char>| id != start.turn_id implies #[trigger] times_started(
        left.push(start),
        id,
    ) == times_started(right, id) && started_for_peers(left.push(start), id) == started_for_peers(
        right,
        id,
    ) by {
        lemma_pushed(left, start, id);
        assert(times_started(left, id) == times_started(right, id));
    }
}

proof fn lemma_ask_step(
    turns: Seq<Tree>,
    turn: Tree,
    turn_id: Seq<char>,
    by: Starter,
    left: Seq<StartView>,
    right: Seq<StartView>,
    ask: AskView,
)
    requires
        id_of(turn) == Some(turn_id),
        forall|i: int| 0 <= i < turns.len() ==> id_of(#[trigger] turns[i]) != Some(turn_id),
        agree_but_for(left, right, turn_id),
        stands(left, turn_id, by),
        ask.behind != turn_id,
        times_started(left, turn_id) == 1 || (says_just(turn, ask.words) ==> ask.by == by),
    ensures
        agree_but_for(
            with_ask(turns.push(turn), left, ask),
            with_ask(turns, right, ask),
            turn_id,
        ),
        stands(with_ask(turns.push(turn), left, ask), turn_id, by),
        times_started(with_ask(turns.push(turn), left, ask), turn_id) >= times_started(
            left,
            turn_id,
        ),
        first_answer(turns, place_behind(turns, ask.behind) as int, ask, right) is None
            && says_just(turn, ask.words) ==> times_started(
            with_ask(turns.push(turn), left, ask),
            turn_id,
        ) == 1,
{
    let from = place_behind(turns, ask.behind) as int;
    lemma_place_push(turns, turn, ask.behind);
    lemma_answer_push(turns, turn, from, ask, left);
    lemma_answer_agrees(turns, from, ask, left, right, turn_id);
    lemma_answer(turns, from, ask, right);
    match first_answer(turns, from, ask, right) {
        Some(id) => {
            let start = StartView { by: ask.by, turn_id: id };
            assert(id != turn_id);
            lemma_agree_on_both(left, right, start, turn_id);
            lemma_pushed(left, start, turn_id);
            assert(with_ask(turns.push(turn), left, ask) == left.push(start));
            assert(with_ask(turns, right, ask) == right.push(start));
        },
        None => {
            assert(with_ask(turns, right, ask) == right);
            if answers(turn, ask, left) {
                let start = StartView { by: ask.by, turn_id };
                lemma_agree_on_one(left, right, start);
                lemma_pushed(left, start, turn_id);
                assert(with_ask(turns.push(turn), left, ask) == left.push(start));
            } else {
                assert(with_ask(turns.push(turn), left, ask) == left);
            }
        },
    }
}

proof fn lemma_asks(
    turns: Seq<Tree>,
    turn: Tree,
    turn_id: Seq<char>,
    by: Starter,
    left: Seq<StartView>,
    right: Seq<StartView>,
    asks: Seq<AskView>,
)
    requires
        id_of(turn) == Some(turn_id),
        forall|i: int| 0 <= i < turns.len() ==> id_of(#[trigger] turns[i]) != Some(turn_id),
        agree_but_for(left, right, turn_id),
        stands(left, turn_id, by),
        forall|i: int|
            0 <= i < asks.len() ==> (#[trigger] asks[i]).behind != turn_id && (times_started(
                left,
                turn_id,
            ) == 1 || (says_just(turn, asks[i].words) ==> asks[i].by == by)),
    ensures
        agree_but_for(
            accounted(turns.push(turn), left, asks),
            accounted(turns, right, asks),
            turn_id,
        ),
        stands(accounted(turns.push(turn), left, asks), turn_id, by),
        times_started(accounted(turns.push(turn), left, asks), turn_id) >= times_started(
            left,
            turn_id,
        ),
    decreases asks.len(),
{
    if asks.len() > 0 {
        let rest = asks.drop_first();
        assert(forall|i: int| 0 <= i < rest.len() ==> rest[i] == asks[i + 1]);
        lemma_ask_step(turns, turn, turn_id, by, left, right, asks[0]);
        lemma_asks(
            turns,
            turn,
            turn_id,
            by,
            with_ask(turns.push(turn), left, asks[0]),
            with_ask(turns, right, asks[0]),
            rest,
        );
    }
}

proof fn lemma_same_count(
    turns: Seq<Tree>,
    left: Seq<StartView>,
    right: Seq<StartView>,
    turn_id: Seq<char>,
)
    requires
        agree_but_for(left, right, turn_id),
        forall|i: int| 0 <= i < turns.len() ==> id_of(#[trigger] turns[i]) != Some(turn_id),
    ensures
        peer_turns(turns, left) == peer_turns(turns, right),
    decreases turns.len(),
{
    if turns.len() > 0 {
        let before = turns.drop_last();
        assert(forall|i: int| 0 <= i < before.len() ==> before[i] == turns[i]);
        lemma_same_count(before, left, right, turn_id);
        let id = id_of(turns[turns.len() - 1]);
        if id is Some {
            assert(times_started(left, id->Some_0) == times_started(right, id->Some_0));
        }
    }
}

/// The record of a start, as far as it got: the intention, and the turn where the reply named it.
pub open spec fn with_start(
    entries: Seq<EntryView>,
    ask: AskView,
    turn_id: Option<Seq<char>>,
) -> Seq<EntryView> {
    match turn_id {
        Some(turn_id) => entries.push(EntryView::Asked(ask)).push(
            EntryView::Began { ask, turn_id },
        ),
        None => entries.push(EntryView::Asked(ask)),
    }
}

/// A turn that neither the history nor the record knows yet.
pub open spec fn is_new(turn_id: Seq<char>, turns: Seq<Tree>, entries: Seq<EntryView>) -> bool {
    &&& forall|i: int| 0 <= i < turns.len() ==> id_of(#[trigger] turns[i]) != Some(turn_id)
    &&& forall|i: int|
        0 <= i < known_starts(entries).len() ==> (#[trigger] known_starts(entries)[i]).turn_id
            != turn_id
    &&& forall|i: int|
        0 <= i < open_asks(entries).len() ==> (#[trigger] open_asks(entries)[i]).behind != turn_id
}

/// Whether a turn is the one that an intention started, as far as can be told: it is new, and holds
/// one message of the user at most. Where its name was not recorded, it is told by its words: they
/// are those of no other turn behind the place, and of no open intention of another kind.
pub open spec fn is_its_turn(
    turn: Tree,
    ask: AskView,
    named: Option<Seq<char>>,
    turns: Seq<Tree>,
    entries: Seq<EntryView>,
) -> bool {
    &&& id_of(turn) is Some
    &&& is_new(id_of(turn)->Some_0, turns, entries)
    &&& ask.behind != id_of(turn)->Some_0
    &&& user_messages(turn) <= 1
    &&& match named {
        Some(turn_id) => id_of(turn) == Some(turn_id),
        None => {
            &&& says_just(turn, ask.words)
            &&& first_answer(
                turns,
                place_behind(turns, ask.behind) as int,
                ask,
                all_starts(turns, entries),
            ) is None
            &&& forall|i: int|
                0 <= i < open_asks(entries).len() && (#[trigger] open_asks(entries)[i]).words
                    == ask.words ==> open_asks(entries)[i].by == ask.by
        },
    }
}

proof fn lemma_start(
    turns: Seq<Tree>,
    entries: Seq<EntryView>,
    ask: AskView,
    named: Option<Seq<char>>,
    turn: Tree,
)
    requires
        is_its_turn(turn, ask, named, turns, entries),
    ensures
        ({
            let starts = all_starts(turns.push(turn), with_start(entries, ask, named));
            &&& origin(turn, starts) == match ask.by {
                Starter::Peer => TurnOrigin::Peer,
                Starter::Handoff => TurnOrigin::System,
            }
            &&& peer_turns(turns, starts) == peer_turns(turns, all_starts(turns, entries))
        }),
{
    let turn_id = id_of(turn)->Some_0;
    let known = known_starts(entries);
    let asks = open_asks(entries);
    let more = turns.push(turn);
    let asked = entries.push(EntryView::Asked(ask));
    assert(asked.drop_last() =~= entries);
    assert(known_starts(asked) == known);
    assert(open_asks(asked) == asks.push(ask));
    lemma_not_started(known, turn_id);
    let starts = all_starts(more, with_start(entries, ask, named));
    match named {
        Some(id) => {
            let start = StartView { by: ask.by, turn_id };
            let began = asked.push(EntryView::Began { ask, turn_id });
            assert(began.drop_last() =~= asked);
            assert(known_starts(began) == known.push(start));
            assert(asks.push(ask).drop_last() =~= asks);
            assert(open_asks(began) == asks);
            assert forall|other: Seq<char>| other != turn_id implies #[trigger] times_started(
                known.push(start),
                other,
            ) == times_started(known, other) && started_for_peers(known.push(start), other)
                == started_for_peers(known, other) by {
                lemma_pushed(known, start, other);
            }
            lemma_pushed(known, start, turn_id);
            lemma_asks(turns, turn, turn_id, ask.by, known.push(start), known, asks);
        },
        None => {
            lemma_asks(turns, turn, turn_id, ask.by, known, known, asks);
            let left = accounted(more, known, asks);
            let right = accounted(turns, known, asks);
            lemma_accounted_push(more, known, asks, ask);
            lemma_ask_step(turns, turn, turn_id, ask.by, left, right, ask);
            assert(with_ask(turns, right, ask) == right);
        },
    }
    lemma_same_count(turns, starts, all_starts(turns, entries), turn_id);
}

/// The turn that a handoff started is the system's as long as nobody else speaks in it, whatever was
/// answered to its start and whether the answer could be recorded, and leaves the allowance of peers
/// as it was.
pub proof fn law_handoffs_keep_the_allowance(
    handoff: Handoff,
    reply: Result<Json, AppServerError>,
    next: Handoff,
    named: Option<Seq<char>>,
    turns: Seq<Tree>,
    entries: Seq<EntryView>,
    turn: Tree,
)
    requires
        handoff is Start,
        handoff->Start_ask.by == Starter::Handoff,
        handoff_replied(handoff, reply, next),
        named is None || named == named_turn(reply),
        is_its_turn(turn, handoff->Start_ask@, named, turns, entries),
    ensures
        next is Note <==> named_turn(reply) is Some,
        next is Note ==> entries.push(EntryView::Asked(handoff->Start_ask@)).push(next->entry@)
            == with_start(entries, handoff->Start_ask@, named_turn(reply)),
        ({
            let starts = all_starts(
                turns.push(turn),
                with_start(entries, handoff->Start_ask@, named),
            );
            &&& origin(turn, starts) == TurnOrigin::System
            &&& peer_turns(turns.push(turn), starts) == peer_turns(
                turns,
                all_starts(turns, entries),
            )
        }),
{
    lemma_start(turns, entries, handoff->Start_ask@, named, turn);
    assert(turns.push(turn).drop_last() =~= turns);
}

/// The turn that a reply names as started; none where there is no such reply.
pub open spec fn named_turn(reply: Result<Json, AppServerError>) -> Option<Seq<char>> {
    match reply {
        Ok(reply) => started_turn(reply.tree()),
        Err(_) => None,
    }
}

/// A turn that holds a message of the user which was put there neither for peers nor by a handoff
/// is a human's, whatever the message says or shows, and restores the allowance of peers.
pub proof fn law_humans_restore_the_allowance(
    turns: Seq<Tree>,
    starts: Seq<StartView>,
    turn: Tree,
)
    requires
        user_messages(turn) > own_messages(turn, starts),
    ensures
        origin(turn, starts) == TurnOrigin::Human,
        peer_turns(turns.push(turn), starts) == 0,
{
}

proof fn lemma_unclaimed(
    turns: Seq<Tree>,
    starts: Seq<StartView>,
    asks: Seq<AskView>,
    turn_id: Seq<char>,
)
    requires
        forall|i: int, j: int|
            0 <= i < turns.len() && 0 <= j < asks.len() && id_of(#[trigger] turns[i]) == Some(
                turn_id,
            ) ==> !says_just(turns[i], (#[trigger] asks[j]).words),
    ensures
        times_started(accounted(turns, starts, asks), turn_id) == times_started(starts, turn_id),
    decreases asks.len(),
{
    if asks.len() > 0 {
        let rest = asks.drop_first();
        assert(forall|j: int| 0 <= j < rest.len() ==> rest[j] == asks[j + 1]);
        let from = place_behind(turns, asks[0].behind) as int;
        lemma_answer(turns, from, asks[0], starts);
        if let Some(id) = first_answer(turns, from, asks[0], starts) {
            let i = choose|i: int|
                0 <= i < turns.len() && id_of(#[trigger] turns[i]) == Some(id) && answers(
                    turns[i],
                    asks[0],
                    starts,
                );
            assert(says_just(turns[i], asks[0].words));
            lemma_pushed(starts, StartView { by: asks[0].by, turn_id: id }, turn_id);
        }
        lemma_unclaimed(turns, with_ask(turns, starts, asks[0]), rest, turn_id);
    }
}

/// Every turn in which somebody speaks and of which the record knows no start restores the allowance
/// of peers, unless it says just what was to be said in a start that was never answered.
pub proof fn law_unrecorded_turns_are_humans(
    turns: Seq<Tree>,
    entries: Seq<EntryView>,
    turn: Tree,
)
    requires
        user_messages(turn) > 0,
        id_of(turn) matches Some(turn_id) ==> {
            &&& forall|i: int| 0 <= i < turns.len() ==> id_of(#[trigger] turns[i]) != Some(turn_id)
            &&& forall|i: int|
                0 <= i < known_starts(entries).len() ==> (#[trigger] known_starts(
                    entries,
                )[i]).turn_id != turn_id
            &&& forall|i: int|
                0 <= i < open_asks(entries).len() ==> !says_just(
                    turn,
                    (#[trigger] open_asks(entries)[i]).words,
                )
        },
    ensures
        origin(turn, all_starts(turns.push(turn), entries)) == TurnOrigin::Human,
        peer_turns(turns.push(turn), all_starts(turns.push(turn), entries)) == 0,
{
    let more = turns.push(turn);
    if let Some(turn_id) = id_of(turn) {
        lemma_not_started(known_starts(entries), turn_id);
        assert forall|i: int, j: int|
            0 <= i < more.len() && 0 <= j < open_asks(entries).len() && id_of(#[trigger] more[i])
                == Some(turn_id) implies !says_just(
            more[i],
            (#[trigger] open_asks(entries)[j]).words,
        ) by {
            if i < turns.len() {
                assert(more[i] == turns[i]);
            }
        }
        lemma_unclaimed(more, known_starts(entries), open_asks(entries), turn_id);
    }
    assert(more.last() == turn);
}

/// What is to be put into a session, and on what terms.
#[derive(Debug, PartialEq, Eq)]
pub struct Parcel {
    pub target: SessionId,
    pub permit: DeliveryPermit,
    pub injection: Injection,
}

/// A delivery, by what is to be done next. Each call is to be made, and its reply handed to
/// `replied`; each look at the seat is to be answered by `seated`.
#[derive(Debug, PartialEq, Eq)]
pub enum Inject {
    /// See in which process the session is live; `loaded` says that its thread is known to be
    /// loaded, and `ask` what was recorded of the turn that is to be started.
    Seat { loaded: bool, parcel: Parcel, ask: Option<Ask> },
    /// List the loaded threads.
    List { call: Call, parcel: Parcel },
    /// Read the thread and the record of the turns started in it, to count the turns of peers;
    /// both go to `read`.
    Read { call: Call, parcel: Parcel },
    /// Record that the turn is about to be started, and tell `asked` whether that was done.
    Ask { plan: Ask, parcel: Parcel },
    /// Resume the thread.
    Resume { call: Call, parcel: Parcel, ask: Option<Ask> },
    /// Start the turn.
    Start { call: Call, ask: Option<Ask> },
    /// Record that the turn was started, come what may; then call `noted`.
    Note { entry: Entry },
    Done(Result<(), AppServerError>),
}

/// A delivery, about to start its turn.
pub open spec fn starts_turn(parcel: Parcel, ask: Option<Ask>, next: Inject) -> bool {
    &&& next is Start
    &&& next->Start_call.says("turn/start"@, turn_tree(parcel.target, parcel.injection))
    &&& next->Start_ask == ask
}

/// The identifier of the last turn; empty where there is none.
pub open spec fn last_id(turns: Seq<Tree>) -> Seq<char> {
    if turns.len() == 0 {
        Seq::empty()
    } else {
        match id_of(turns.last()) {
            Some(turn_id) => turn_id,
            None => Seq::empty(),
        }
    }
}

/// The intention to start a turn of peers: behind the last turn of the thread, in the words that
/// stand for all they write.
pub open spec fn peer_ask(turns: Seq<Tree>) -> AskView {
    AskView { by: Starter::Peer, behind: last_id(turns), words: on_one_line(ADVISORY_INPUT@) }
}

fn ask_for_peers(thread: &Json) -> (r: Ask)
    ensures
        r@ == peer_ask(thread_turns(thread.tree())),
{
    let mut behind = String::new();
    if let Some(turns) = as_items(thread.at("thread", "turns")) {
        proof {
            lemma_trees(turns@);
        }
        if turns.len() > 0 {
            let last: usize = turns.len() - 1;
            assert(trees(turns@).last() == turns@[last as int].tree());
            if let Some(turn_id) = as_text(turns[last].get("id")) {
                behind = turn_id.clone();
            }
        }
    }
    assert(behind@ =~= last_id(thread_turns(thread.tree())));
    Ask { by: Starter::Peer, behind, words: one_line(ADVISORY_INPUT) }
}

/// The next step of a delivery whose allowance needs no further look.
pub open spec fn goes_in(parcel: Parcel, ask: Option<Ask>, next: Inject) -> bool {
    match parcel.permit {
        DeliveryPermit::Seat(_) => next == (Inject::Seat { loaded: true, parcel, ask }),
        DeliveryPermit::Resume => {
            &&& next is Resume
            &&& next->Resume_call.says("thread/resume"@, resume_tree(parcel.target))
            &&& next->Resume_parcel == parcel
            &&& next->Resume_ask == ask
        },
    }
}

/// The next step of a delivery to a thread that may be reached.
pub open spec fn looks_in(parcel: Parcel, next: Inject) -> bool {
    match parcel.injection {
        Injection::Human(_) => goes_in(parcel, None, next),
        Injection::Peer(_) => {
            &&& next is Read
            &&& next->Read_call.says("thread/read"@, read_tree(parcel.target))
            &&& next->Read_parcel == parcel
        },
    }
}

/// The first step of a delivery. Where the session is to be live, that is looked at first.
pub open spec fn inject_begins(parcel: Parcel, next: Inject) -> bool {
    match parcel.permit {
        DeliveryPermit::Seat(_) => next == (Inject::Seat { loaded: false, parcel, ask: None }),
        DeliveryPermit::Resume => looks_in(parcel, next),
    }
}

/// What the census makes of a delivery.
pub open spec fn inject_seated(
    inject: Inject,
    found: Result<Option<ProcessKey>, String>,
    next: Inject,
) -> bool {
    match (inject, found) {
        (Inject::Seat { .. }, Err(complaint)) => next is Done && control_error(
            next->Done_0,
            complaint@,
        ),
        (Inject::Seat { loaded, parcel, ask }, Ok(process)) => if process is None || parcel.permit
            != DeliveryPermit::Seat(process->Some_0) {
            next == Inject::Done(Err(AppServerError::SeatChanged))
        } else if loaded {
            starts_turn(parcel, ask, next)
        } else {
            &&& next is List
            &&& next->List_call.says("thread/loaded/list"@, Tree::Object(Map::empty()))
            &&& next->List_parcel == parcel
        },
        _ => next == inject,
    }
}

/// What a reply makes of a delivery.
pub open spec fn inject_replied(
    inject: Inject,
    reply: Result<Json, AppServerError>,
    next: Inject,
) -> bool {
    match (inject, reply) {
        (Inject::Seat { .. }, _) => next == inject,
        (Inject::Read { .. }, _) => next == inject,
        (Inject::Ask { .. }, _) => next == inject,
        (Inject::Note { .. }, _) => next == inject,
        (Inject::Done(_), _) => next == inject,
        (_, Err(error)) => next == Inject::Done(Err(error)),
        (Inject::List { parcel, .. }, Ok(reply)) => if loaded_of(reply.tree()).contains(
            parcel.target,
        ) {
            looks_in(parcel, next)
        } else {
            next == Inject::Done(Err(AppServerError::NotLoaded))
        },
        (Inject::Resume { parcel, ask, .. }, Ok(_)) => starts_turn(parcel, ask, next),
        (Inject::Start { ask, .. }, Ok(reply)) => match (ask, started_turn(reply.tree())) {
            (Some(ask), Some(turn_id)) => next is Note && next->entry@ == (EntryView::Began {
                ask: ask@,
                turn_id,
            }),
            _ => next == Inject::Done(Ok(())),
        },
    }
}

/// What the thread, with the record of the turns started in it, makes of a delivery.
pub open spec fn inject_read(
    inject: Inject,
    reply: Result<Json, AppServerError>,
    entries: Seq<EntryView>,
    next: Inject,
) -> bool {
    match (inject, reply) {
        (Inject::Read { .. }, Err(error)) => next == Inject::Done(Err(error)),
        (Inject::Read { parcel, .. }, Ok(thread)) => if peers_welcome(thread.tree(), entries) {
            &&& next is Ask
            &&& next->plan@ == peer_ask(thread_turns(thread.tree()))
            &&& next->Ask_parcel == parcel
        } else {
            next is Done && control_error(next->Done_0, ALLOWANCE_SPENT@)
        },
        _ => next == inject,
    }
}

/// What the recorded intention makes of a delivery: without it no turn is started.
pub open spec fn inject_asked(inject: Inject, result: Result<(), String>, next: Inject) -> bool {
    match (inject, result) {
        (Inject::Ask { plan, parcel }, Ok(_)) => goes_in(parcel, Some(plan), next),
        (Inject::Ask { .. }, Err(complaint)) => next is Done && control_error(
            next->Done_0,
            complaint@,
        ),
        _ => next == inject,
    }
}

/// What the record of its turn makes of a delivery.
pub open spec fn inject_noted(inject: Inject, next: Inject) -> bool {
    if inject is Note {
        next == Inject::Done(Ok(()))
    } else {
        next == inject
    }
}

/// One step of a delivery.
pub open spec fn inject_step(
    inject: Inject,
    found: Result<Option<ProcessKey>, String>,
    reply: Result<Json, AppServerError>,
    entries: Seq<EntryView>,
    asked: Result<(), String>,
    next: Inject,
) -> bool {
    ||| inject_seated(inject, found, next)
    ||| inject_replied(inject, reply, next)
    ||| inject_read(inject, reply, entries, next)
    ||| inject_asked(inject, asked, next)
    ||| inject_noted(inject, next)
}

impl Inject {
    /// A delivery that has not begun. Where the session is to be live, that is looked at first.
    pub fn begin(parcel: Parcel) -> (r: Inject)
        ensures
            is_recorded(r),
            inject_begins(parcel, r),
    {
        match parcel.permit {
            DeliveryPermit::Seat(_) => Inject::Seat { loaded: false, parcel, ask: None },
            DeliveryPermit::Resume => Inject::look(parcel),
        }
    }

    fn look(parcel: Parcel) -> (r: Inject)
        ensures
            looks_in(parcel, r),
    {
        match &parcel.injection {
            Injection::Human(_) => Inject::enter(parcel, None),
            Injection::Peer(_) => Inject::Read { call: read_thread(parcel.target), parcel },
        }
    }

    fn enter(parcel: Parcel, ask: Option<Ask>) -> (r: Inject)
        ensures
            goes_in(parcel, ask, r),
    {
        match parcel.permit {
            DeliveryPermit::Seat(_) => Inject::Seat { loaded: true, parcel, ask },
            DeliveryPermit::Resume => Inject::Resume {
                call: resume_thread(parcel.target),
                parcel,
                ask,
            },
        }
    }

    fn start(parcel: &Parcel, ask: Option<Ask>) -> (r: Inject)
        ensures
            starts_turn(*parcel, ask, r),
    {
        Inject::Start { call: start_turn(parcel.target, &parcel.injection), ask }
    }

    /// What the census makes of the delivery. One that looks at no seat stays as it is.
    pub fn seated(self, found: Result<Option<ProcessKey>, String>) -> (r: Inject)
        ensures
            inject_seated(self, found, r),
    {
        match self {
            Inject::Seat { loaded, parcel, ask } => {
                let process = match found {
                    Ok(process) => process,
                    Err(complaint) => return Inject::Done(Err(AppServerError::Control(complaint))),
                };
                let held = match (process, parcel.permit) {
                    (Some(process), DeliveryPermit::Seat(promised)) => process == promised,
                    _ => false,
                };
                if !held {
                    Inject::Done(Err(AppServerError::SeatChanged))
                } else if loaded {
                    Inject::start(&parcel, ask)
                } else {
                    Inject::List { call: list_loaded(), parcel }
                }
            },
            other => other,
        }
    }

    /// What a reply makes of the delivery. One that awaits no reply stays as it is.
    pub fn replied(self, reply: Result<Json, AppServerError>) -> (r: Inject)
        ensures
            inject_replied(self, reply, r),
    {
        let reply = match (&self, reply) {
            (Inject::Seat { .. }, _) => return self,
            (Inject::Read { .. }, _) => return self,
            (Inject::Ask { .. }, _) => return self,
            (Inject::Note { .. }, _) => return self,
            (Inject::Done(_), _) => return self,
            (_, Err(error)) => return Inject::Done(Err(error)),
            (_, Ok(reply)) => reply,
        };
        match self {
            Inject::List { call: _, parcel } => {
                let loaded = loaded_sessions(&reply);
                if names(&loaded, parcel.target) {
                    Inject::look(parcel)
                } else {
                    Inject::Done(Err(AppServerError::NotLoaded))
                }
            },
            Inject::Resume { call: _, parcel, ask } => Inject::start(&parcel, ask),
            Inject::Start { call: _, ask } => match ask {
                Some(ask) => match begun(ask, &reply) {
                    Some(entry) => Inject::Note { entry },
                    None => Inject::Done(Ok(())),
                },
                None => Inject::Done(Ok(())),
            },
            other => other,
        }
    }

    /// What the thread, with the record of the turns started in it, makes of the delivery. One that
    /// does not read stays as it is.
    pub fn read(self, reply: Result<Json, AppServerError>, entries: &Vec<Entry>) -> (r: Inject)
        ensures
            inject_read(self, reply, told(entries@), r),
    {
        match self {
            Inject::Read { call: _, parcel } => match reply {
                Ok(thread) => if peer_allowed(&thread, entries) {
                    Inject::Ask { plan: ask_for_peers(&thread), parcel }
                } else {
                    Inject::Done(Err(AppServerError::Control(ALLOWANCE_SPENT.to_owned())))
                },
                Err(error) => Inject::Done(Err(error)),
            },
            other => other,
        }
    }

    /// What the recorded intention makes of the delivery. One that records none stays as it is.
    pub fn asked(self, result: Result<(), String>) -> (r: Inject)
        ensures
            inject_asked(self, result, r),
    {
        match self {
            Inject::Ask { plan, parcel } => match result {
                Ok(()) => Inject::enter(parcel, Some(plan)),
                Err(complaint) => Inject::Done(Err(AppServerError::Control(complaint))),
            },
            other => other,
        }
    }

    /// The turn was recorded, or could not be. A delivery that records none stays as it is.
    pub fn noted(self) -> (r: Inject)
        ensures
            inject_noted(self, r),
    {
        match self {
            Inject::Note { .. } => Inject::Done(Ok(())),
            other => other,
        }
    }
}

/// A turn is started in a live session only right after the census found it in the process that
/// was promised, and in a dormant one only right after it was resumed.
pub proof fn law_turns_start_in_the_promised_place(
    inject: Inject,
    found: Result<Option<ProcessKey>, String>,
    reply: Result<Json, AppServerError>,
    entries: Seq<EntryView>,
    asked: Result<(), String>,
    next: Inject,
)
    requires
        inject !is Start,
        next is Start,
        inject_step(inject, found, reply, entries, asked, next),
    ensures
        match inject {
            Inject::Seat { loaded, parcel, .. } => loaded && found is Ok && found->Ok_0 is Some
                && parcel.permit == DeliveryPermit::Seat(found->Ok_0->Some_0),
            Inject::Resume { .. } => reply is Ok,
            _ => false,
        },
{
}

/// A thread is resumed only where it was promised as a dormant one: a session that was live is
/// never resumed, whatever becomes of its process or its thread.
pub proof fn law_live_sessions_are_never_resumed(
    inject: Inject,
    found: Result<Option<ProcessKey>, String>,
    reply: Result<Json, AppServerError>,
    entries: Seq<EntryView>,
    asked: Result<(), String>,
    next: Inject,
)
    requires
        inject !is Resume,
        next is Resume,
        inject_step(inject, found, reply, entries, asked, next),
    ensures
        next->Resume_parcel.permit == DeliveryPermit::Resume,
        match inject {
            Inject::List { parcel, .. } => parcel == next->Resume_parcel,
            Inject::Ask { parcel, .. } => parcel == next->Resume_parcel,
            _ => false,
        },
{
}

/// Whether what a delivery of peers carries was put on record: whatever goes into a session for
/// peers once its thread was read does so with the record of its start.
pub open spec fn is_recorded(inject: Inject) -> bool {
    match inject {
        Inject::Seat { loaded, parcel, ask } => match parcel.injection {
            Injection::Peer(_) => loaded ==> ask is Some && ask->Some_0.by == Starter::Peer,
            Injection::Human(_) => ask is None,
        },
        Inject::Ask { plan, parcel } => parcel.injection is Peer && plan.by == Starter::Peer,
        Inject::Read { parcel, .. } => parcel.injection is Peer,
        Inject::Resume { parcel, ask, .. } => match parcel.injection {
            Injection::Peer(_) => ask is Some && ask->Some_0.by == Starter::Peer,
            Injection::Human(_) => ask is None,
        },
        _ => true,
    }
}

/// No turn of peers is started before it is on record: a delivery keeps that from its beginning on,
/// and starts the turn of peers only with what was recorded.
pub proof fn law_peers_are_recorded_first(
    inject: Inject,
    found: Result<Option<ProcessKey>, String>,
    reply: Result<Json, AppServerError>,
    entries: Seq<EntryView>,
    asked: Result<(), String>,
    next: Inject,
)
    requires
        is_recorded(inject),
        inject_step(inject, found, reply, entries, asked, next),
    ensures
        is_recorded(next),
        next is Start && inject !is Start ==> match inject {
            Inject::Seat { parcel, ask, .. } => next->Start_ask == ask && (parcel.injection is Peer
                ==> ask is Some && ask->Some_0.by == Starter::Peer),
            Inject::Resume { parcel, ask, .. } => next->Start_ask == ask && (parcel.injection is Peer
                ==> ask is Some && ask->Some_0.by == Starter::Peer),
            _ => false,
        },
        inject is Ask && (next is Seat || next is Resume) ==> asked is Ok,
{
}

/// The turn that a delivery of peers started counts against their allowance as long as nobody else
/// speaks in it, whatever they wrote, whatever was answered to its start and whether the answer could
/// be recorded.
pub proof fn law_peers_spend_the_allowance(
    inject: Inject,
    reply: Result<Json, AppServerError>,
    next: Inject,
    named: Option<Seq<char>>,
    turns: Seq<Tree>,
    entries: Seq<EntryView>,
    turn: Tree,
)
    requires
        inject is Start,
        inject->Start_ask is Some,
        inject->Start_ask->Some_0.by == Starter::Peer,
        inject_replied(inject, reply, next),
        named is None || named == named_turn(reply),
        is_its_turn(turn, inject->Start_ask->Some_0@, named, turns, entries),
    ensures
        next is Note <==> named_turn(reply) is Some,
        next is Note ==> entries.push(EntryView::Asked(inject->Start_ask->Some_0@)).push(
            next->entry@,
        ) == with_start(entries, inject->Start_ask->Some_0@, named_turn(reply)),
        ({
            let starts = all_starts(
                turns.push(turn),
                with_start(entries, inject->Start_ask->Some_0@, named),
            );
            &&& origin(turn, starts) == TurnOrigin::Peer
            &&& peer_turns(turns.push(turn), starts) == peer_turns(
                turns,
                all_starts(turns, entries),
            ) + 1
        }),
{
    lemma_start(turns, entries, inject->Start_ask->Some_0@, named, turn);
    assert(turns.push(turn).drop_last() =~= turns);
}

/// A request to be let in: whom, whether it has a biography, and who speaks.
#[derive(Clone, Copy, Debug, PartialEq, Eq, Structural)]
pub struct Plea {
    pub target: SessionId,
    pub established: bool,
    pub kind: Kind,
}

/// The search for the terms on which a session may be reached, by what is to be done next.
#[derive(Debug, PartialEq, Eq)]
pub enum Admit {
    /// See in which process the session is live; to be answered by `seated`.
    Seat { plea: Plea },
    /// List the loaded threads; to be answered by `replied`.
    List { call: Call, plea: Plea, process: Option<ProcessKey> },
    /// Read the thread and the record of the turns started in it, to count the turns of peers; to
    /// be answered by `read`.
    Read { call: Call, permit: DeliveryPermit },
    Done(Result<Option<DeliveryPermit>, AppServerError>),
}

/// What the census makes of the search.
pub open spec fn admit_seated(
    search: Admit,
    found: Result<Option<ProcessKey>, String>,
    next: Admit,
) -> bool {
    match (search, found) {
        (Admit::Seat { .. }, Err(complaint)) => next is Done && control_error(
            next->Done_0,
            complaint@,
        ),
        (Admit::Seat { plea }, Ok(process)) => {
            &&& next is List
            &&& next->List_call.says("thread/loaded/list"@, Tree::Object(Map::empty()))
            &&& next->List_plea == plea
            &&& next->process == process
        },
        _ => next == search,
    }
}

/// What a reply makes of the search.
pub open spec fn admit_replied(
    search: Admit,
    reply: Result<Json, AppServerError>,
    next: Admit,
) -> bool {
    match (search, reply) {
        (Admit::Seat { .. }, _) => next == search,
        (Admit::Read { .. }, _) => next == search,
        (Admit::Done(_), _) => next == search,
        (_, Err(error)) => next == Admit::Done(Err(error)),
        (Admit::List { plea, process, .. }, Ok(reply)) => match terms(
            process,
            loaded_of(reply.tree()).contains(plea.target),
            plea.established,
        ) {
            None => next == Admit::Done(Ok(None)),
            Some(permit) => match plea.kind {
                Kind::Human => next == Admit::Done(Ok(Some(permit))),
                Kind::Peer => {
                    &&& next is Read
                    &&& next->Read_call.says("thread/read"@, read_tree(plea.target))
                    &&& next->permit == permit
                },
            },
        },
    }
}

/// What the thread, with the record of the turns started in it, makes of the search.
pub open spec fn admit_read(
    search: Admit,
    reply: Result<Json, AppServerError>,
    entries: Seq<EntryView>,
    next: Admit,
) -> bool {
    match (search, reply) {
        (Admit::Read { .. }, Err(error)) => next == Admit::Done(Err(error)),
        (Admit::Read { permit, .. }, Ok(thread)) => if peers_welcome(thread.tree(), entries) {
            next == Admit::Done(Ok(Some(permit)))
        } else {
            next == Admit::Done(Ok(None))
        },
        _ => next == search,
    }
}

impl Admit {
    /// A search that has not begun.
    pub fn begin(plea: Plea) -> (r: Admit)
        ensures
            r == (Admit::Seat { plea }),
    {
        Admit::Seat { plea }
    }

    /// What the census makes of the search. One that looks at no seat stays as it is.
    pub fn seated(self, found: Result<Option<ProcessKey>, String>) -> (r: Admit)
        ensures
            admit_seated(self, found, r),
    {
        match self {
            Admit::Seat { plea } => match found {
                Ok(process) => Admit::List { call: list_loaded(), plea, process },
                Err(complaint) => Admit::Done(Err(AppServerError::Control(complaint))),
            },
            other => other,
        }
    }

    /// What a reply makes of the search. One that awaits no reply stays as it is.
    pub fn replied(self, reply: Result<Json, AppServerError>) -> (r: Admit)
        ensures
            admit_replied(self, reply, r),
    {
        let reply = match (&self, reply) {
            (Admit::Seat { .. }, _) => return self,
            (Admit::Read { .. }, _) => return self,
            (Admit::Done(_), _) => return self,
            (_, Err(error)) => return Admit::Done(Err(error)),
            (_, Ok(reply)) => reply,
        };
        match self {
            Admit::List { call: _, plea, process } => {
                let loaded = loaded_sessions(&reply);
                let loaded = names(&loaded, plea.target);
                match permit(process, loaded, plea.established) {
                    None => Admit::Done(Ok(None)),
                    Some(permit) => match plea.kind {
                        Kind::Human => Admit::Done(Ok(Some(permit))),
                        Kind::Peer => Admit::Read { call: read_thread(plea.target), permit },
                    },
                }
            },
            other => other,
        }
    }

    /// What the thread, with the record of the turns started in it, makes of the search. One that
    /// does not read stays as it is.
    pub fn read(self, reply: Result<Json, AppServerError>, entries: &Vec<Entry>) -> (r: Admit)
        ensures
            admit_read(self, reply, told(entries@), r),
    {
        match self {
            Admit::Read { call: _, permit } => match reply {
                Ok(thread) => if peer_allowed(&thread, entries) {
                    Admit::Done(Ok(Some(permit)))
                } else {
                    Admit::Done(Ok(None))
                },
                Err(error) => Admit::Done(Err(error)),
            },
            other => other,
        }
    }
}

/// Where an item of a turn is a message of the user and no start of the turn is on record, the turn
/// is a human's, whatever stands around the message. With starts on record it is a human's where it
/// holds more messages of the user than there were starts; of the rest, those that were started for
/// peers are theirs.
pub proof fn law_who_made_a_turn(
    turn: Tree,
    items: Seq<Tree>,
    starts: Seq<StartView>,
    turn_id: Seq<char>,
)
    requires
        turn.get("items"@) == Some(Tree::Array(items)),
    ensures
        (exists|i: int|
            0 <= i < items.len() && (#[trigger] items[i]).get("type"@) == Some(
                Tree::Text("userMessage"@),
            )) && (forall|j: int|
            0 <= j < starts.len() ==> turn.get("id"@) != Some(
                Tree::Text((#[trigger] starts[j]).turn_id),
            )) ==> origin(turn, starts) == TurnOrigin::Human,
        (forall|i: int|
            0 <= i < items.len() ==> (#[trigger] items[i]).get("type"@) != Some(
                Tree::Text("userMessage"@),
            )) ==> origin(turn, starts) != TurnOrigin::Human,
        turn.get("id"@) == Some(Tree::Text(turn_id)) ==> {
            let messages = items.filter(
                |item: Tree| item.get("type"@) == Some(Tree::Text("userMessage"@)),
            ).len();
            let own = starts.filter(|start: StartView| start.turn_id == turn_id).len();
            let peers = exists|j: int|
                0 <= j < starts.len() && (#[trigger] starts[j]).turn_id == turn_id && starts[j].by
                    == Starter::Peer;
            &&& origin(turn, starts) == TurnOrigin::Human <==> messages > own
            &&& origin(turn, starts) == TurnOrigin::Peer <==> messages <= own && peers
            &&& origin(turn, starts) == TurnOrigin::System <==> messages <= own && !peers
        },
{
    law_messages_are_counted(items);
    law_starts_are_counted(starts, turn_id);
    let pred = |item: Tree| item.get("type"@) == Some(Tree::Text("userMessage"@));
    if forall|i: int|
        0 <= i < items.len() ==> (#[trigger] items[i]).get("type"@) != Some(
            Tree::Text("userMessage"@),
        ) {
        broadcast use vstd::seq_lib::group_filter_ensures;

        if items.filter(pred).len() > 0 {
            assert(pred(items.filter(pred)[0]));
            items.lemma_filter_contains_rev(pred, items.filter(pred)[0]);
        }
    }
    if let Some(id) = id_of(turn) {
        if forall|j: int|
            0 <= j < starts.len() ==> turn.get("id"@) != Some(
                Tree::Text((#[trigger] starts[j]).turn_id),
            ) {
            lemma_not_started(starts, id);
        }
    }
}

/// Peers may make another turn exactly where they made fewer than three since the last turn of a
/// human, or since the beginning where no human spoke yet.
pub proof fn law_three_turns_of_peers(
    thread: Tree,
    entries: Seq<EntryView>,
    before: Seq<Tree>,
    since: Seq<Tree>,
)
    requires
        thread.at("thread"@, "turns"@) == Some(Tree::Array(before + since)),
        before.len() > 0 ==> origin(before.last(), all_starts(before + since, entries))
            == TurnOrigin::Human,
        forall|i: int|
            0 <= i < since.len() ==> origin(
                #[trigger] since[i],
                all_starts(before + since, entries),
            ) != TurnOrigin::Human,
    ensures
        peers_welcome(thread, entries) <==> since.filter(
            |turn: Tree| origin(turn, all_starts(before + since, entries)) == TurnOrigin::Peer,
        ).len() < 3,
{
    let starts = all_starts(before + since, entries);
    law_allowance_counts_since_the_last_human(before, since, starts);
    lemma_peers_counted(since, starts);
    let left = |turn: Tree| origin(turn, all_starts(before + since, entries)) == TurnOrigin::Peer;
    let right = |turn: Tree| origin(turn, starts) == TurnOrigin::Peer;
    assert(left =~= right);
}

proof fn lemma_peers_counted(turns: Seq<Tree>, starts: Seq<StartView>)
    ensures
        peers_among(turns, starts) == turns.filter(
            |turn: Tree| origin(turn, starts) == TurnOrigin::Peer,
        ).len(),
    decreases turns.len(),
{
    reveal(Seq::filter);
    if turns.len() > 0 {
        lemma_peers_counted(turns.drop_last(), starts);
    }
}

/// A session is loaded exactly where a text among the data of the reply names it.
pub proof fn law_loaded_sessions(reply: Tree, items: Seq<Tree>, session: SessionId)
    requires
        reply.get("data"@) == Some(Tree::Array(items)),
    ensures
        loaded_of(reply).contains(session) <==> exists|i: int|
            0 <= i < items.len() && (#[trigger] items[i]) is Text && named_session(items[i]->Text_0)
                == Some(session),
{
    lemma_loaded(items, session);
}

proof fn lemma_loaded(items: Seq<Tree>, session: SessionId)
    ensures
        loaded_ids(items).contains(session) <==> exists|i: int|
            0 <= i < items.len() && (#[trigger] items[i]) is Text && named_session(items[i]->Text_0)
                == Some(session),
    decreases items.len(),
{
    if items.len() > 0 {
        let before = items.drop_last();
        lemma_loaded(before, session);
        let last = items[items.len() - 1];
        let ids = loaded_ids(items);
        let fewer = loaded_ids(before);
        assert(forall|i: int| 0 <= i < before.len() ==> before[i] == items[i]);
        if fewer.contains(session) {
            let k = choose|k: int| 0 <= k < fewer.len() && fewer[k] == session;
            assert(ids[k] == session);
            let i = choose|i: int|
                0 <= i < before.len() && (#[trigger] before[i]) is Text && named_session(
                    before[i]->Text_0,
                ) == Some(session);
            assert(items[i] is Text);
        }
        if last is Text && named_session(last->Text_0) == Some(session) {
            assert(ids[ids.len() - 1] == session);
        }
        if ids.contains(session) && !fewer.contains(session) {
            let k = choose|k: int| 0 <= k < ids.len() && ids[k] == session;
            if k < fewer.len() {
                assert(fewer[k] == session);
            }
            assert(last is Text && named_session(last->Text_0) == Some(session));
        }
    }
}

/// A session is live in the process of its first seat.
pub proof fn law_first_seat(seats: Seq<Seat>, session: SessionId, at: int)
    ensures
        0 <= at < seats.len() && seats[at].session == session && (forall|i: int|
            0 <= i < at ==> (#[trigger] seats[i]).session != session) ==> seat_process(seats, session)
            == Some(seats[at].process),
        (forall|i: int| 0 <= i < seats.len() ==> (#[trigger] seats[i]).session != session)
            ==> seat_process(seats, session) is None,
    decreases seats.len(),
{
    if seats.len() > 0 {
        let rest = seats.drop_first();
        assert(forall|i: int| 0 <= i < rest.len() ==> rest[i] == seats[i + 1]);
        law_first_seat(rest, session, at - 1);
        if forall|i: int| 0 <= i < seats.len() ==> (#[trigger] seats[i]).session != session {
            assert(seats[0].session != session);
        }
    }
}

/// A target is met in the process of its first entry.
pub proof fn law_first_target(targets: Seq<Target>, session: SessionId, at: int)
    ensures
        0 <= at < targets.len() && targets[at].id == session && (forall|i: int|
            0 <= i < at ==> (#[trigger] targets[i]).id != session) ==> target_process(
            targets,
            session,
        ) == Some(targets[at].process),
        (forall|i: int| 0 <= i < targets.len() ==> (#[trigger] targets[i]).id != session)
            ==> target_process(targets, session) is None,
    decreases targets.len(),
{
    if targets.len() > 0 {
        let rest = targets.drop_first();
        assert(forall|i: int| 0 <= i < rest.len() ==> rest[i] == targets[i + 1]);
        law_first_target(rest, session, at - 1);
        if forall|i: int| 0 <= i < targets.len() ==> (#[trigger] targets[i]).id != session {
            assert(targets[0].id != session);
        }
    }
}

/// Every seat of a loaded session is a target in its own process, and there are no others.
pub proof fn law_every_loaded_seat_is_a_target(seats: Seq<Seat>, loaded: Seq<SessionId>)
    ensures
        ready_targets(seats, loaded).len() == seats.filter(
            |seat: Seat| loaded.contains(seat.session),
        ).len(),
        forall|i: int|
            0 <= i < ready_targets(seats, loaded).len() ==> (#[trigger] ready_targets(
                seats,
                loaded,
            )[i]).id == seats.filter(|seat: Seat| loaded.contains(seat.session))[i].session
                && ready_targets(seats, loaded)[i].process == seats.filter(
                |seat: Seat| loaded.contains(seat.session),
            )[i].process,
    decreases seats.len(),
{
    reveal(Seq::filter);
    if seats.len() > 0 {
        let before = seats.drop_last();
        law_every_loaded_seat_is_a_target(before, loaded);
        let fewer = ready_targets(before, loaded);
        let more = ready_targets(seats, loaded);
        assert forall|i: int| 0 <= i < more.len() implies (#[trigger] more[i]).id == seats.filter(
            |seat: Seat| loaded.contains(seat.session),
        )[i].session && more[i].process == seats.filter(
            |seat: Seat| loaded.contains(seat.session),
        )[i].process by {
            if i < fewer.len() {
                assert(more[i] == fewer[i]);
            }
        }
    }
}

/// A search that is answered throughout: a live session is let in where it is loaded, in its process;
/// a dormant one where it has a biography, to be resumed; and for peers only once the thread of just
/// that session was read and they are welcome in it. All others are turned away.
pub proof fn law_admission(
    plea: Plea,
    process: Option<ProcessKey>,
    listing: Admit,
    reply: Json,
    listed: Admit,
    thread: Json,
    entries: Seq<EntryView>,
    end: Admit,
)
    requires
        admit_seated(Admit::Seat { plea }, Ok(process), listing),
        admit_replied(listing, Ok(reply), listed),
        admit_read(listed, Ok(thread), entries, end),
    ensures
        listing is List && listing->List_call.method@ == "thread/loaded/list"@,
        ({
            let loaded = loaded_of(reply.tree()).contains(plea.target);
            let permit = match process {
                Some(process) => DeliveryPermit::Seat(process),
                None => DeliveryPermit::Resume,
            };
            let reachable = if process is Some {
                loaded
            } else {
                plea.established
            };
            &&& !reachable ==> end == Admit::Done(Ok(None))
            &&& reachable && plea.kind == Kind::Human ==> listed == Admit::Done(Ok(Some(permit)))
                && end == listed
            &&& reachable && plea.kind == Kind::Peer ==> listed is Read
                && listed->Read_call.method@ == "thread/read"@
                && listed->Read_call.params.tree().get("threadId"@) == Some(
                Tree::Text(hyphenated_text(plea.target.value)),
            ) && listed->Read_call.params.tree().get("includeTurns"@) == Some(Tree::Bool(true))
                && end == (if peers_welcome(thread.tree(), entries) {
                Admit::Done(Ok(Some(permit)))
            } else {
                Admit::Done(Ok(None))
            })
        }),
{
    reveal_strlit("threadId");
    reveal_strlit("includeTurns");
    assert("threadId"@.len() == 8 && "includeTurns"@.len() == 12);
}

/// A search ends with the first complaint, in its own words.
pub proof fn law_admission_fails_aloud(
    plea: Plea,
    complaint: String,
    unseated: Admit,
    search: Admit,
    error: AppServerError,
    entries: Seq<EntryView>,
    unlisted: Admit,
    unread: Admit,
)
    requires
        admit_seated(Admit::Seat { plea }, Err(complaint), unseated),
        search is List ==> admit_replied(search, Err(error), unlisted),
        search is Read ==> admit_read(search, Err(error), entries, unread),
    ensures
        unseated is Done && unseated->Done_0 is Err && unseated->Done_0->Err_0 is Control
            && unseated->Done_0->Err_0->Control_0@ == complaint@,
        search is List ==> unlisted == Admit::Done(Err(error)),
        search is Read ==> unread == Admit::Done(Err(error)),
{
}

/// The operator's words go into a live session that is loaded and still in its process, and into a
/// dormant one once it was resumed: by one turn, of just that injection, in just that session. No
/// thread is read for them and nothing is put on record.
pub proof fn law_the_operator_gets_through(
    parcel: Parcel,
    process: ProcessKey,
    begun: Inject,
    listing: Inject,
    listed: Json,
    looking: Inject,
    resumed: Json,
    starting: Inject,
    started: Json,
    end: Inject,
)
    requires
        parcel.injection is Human,
        inject_begins(parcel, begun),
        parcel.permit == DeliveryPermit::Seat(process) ==> {
            &&& inject_seated(begun, Ok(Some(process)), listing)
            &&& loaded_of(listed.tree()).contains(parcel.target)
            &&& inject_replied(listing, Ok(listed), looking)
            &&& inject_seated(looking, Ok(Some(process)), starting)
        },
        parcel.permit == DeliveryPermit::Resume ==> inject_replied(begun, Ok(resumed), starting),
        parcel.permit == DeliveryPermit::Resume || parcel.permit == DeliveryPermit::Seat(process),
        inject_replied(starting, Ok(started), end),
    ensures
        parcel.permit == DeliveryPermit::Resume ==> begun is Resume && begun->Resume_call.method@
            == "thread/resume"@ && begun->Resume_call.params.tree() == resume_tree(parcel.target),
        parcel.permit == DeliveryPermit::Seat(process) ==> listing is List
            && listing->List_call.method@ == "thread/loaded/list"@
            && listing->List_call.params.tree() == Tree::Object(Map::empty()),
        starting is Start,
        starting->Start_call.method@ == "turn/start"@,
        starting->Start_call.params.tree() == turn_tree(parcel.target, parcel.injection),
        starting->Start_ask is None,
        end == Inject::Done(Ok(())),
{
}

/// The words of peers go in only behind a look at the thread that finds them welcome and a record of
/// the turn they are to make, behind the last turn of the thread; then by one turn, of just that
/// injection, in just that session; and the turn that was started goes on record as theirs.
pub proof fn law_peers_get_through(
    parcel: Parcel,
    reading: Inject,
    thread: Json,
    turns: Seq<Tree>,
    last: Seq<char>,
    entries: Seq<EntryView>,
    asking: Inject,
    entering: Inject,
    process: ProcessKey,
    resumed: Json,
    starting: Inject,
    started: Json,
    turn_id: Seq<char>,
    noting: Inject,
    end: Inject,
)
    requires
        parcel.injection is Peer,
        looks_in(parcel, reading),
        inject_read(reading, Ok(thread), entries, asking),
        peers_welcome(thread.tree(), entries),
        inject_asked(asking, Ok(()), entering),
        parcel.permit == DeliveryPermit::Seat(process) ==> inject_seated(
            entering,
            Ok(Some(process)),
            starting,
        ),
        parcel.permit == DeliveryPermit::Resume ==> inject_replied(entering, Ok(resumed), starting),
        parcel.permit == DeliveryPermit::Resume || parcel.permit == DeliveryPermit::Seat(process),
        started.tree().at("turn"@, "id"@) == Some(Tree::Text(turn_id)),
        inject_replied(starting, Ok(started), noting),
        inject_noted(noting, end),
    ensures
        reading is Read,
        reading->Read_call.method@ == "thread/read"@,
        reading->Read_call.params.tree() == read_tree(parcel.target),
        asking is Ask,
        asking->plan.by == Starter::Peer,
        asking->plan.words@ == "Wire advisory."@,
        thread.tree().at("thread"@, "turns"@) == Some(Tree::Array(turns)) && turns.len() > 0
            && turns.last().get("id"@) == Some(Tree::Text(last)) ==> asking->plan.behind@ == last,
        starting is Start,
        starting->Start_call.method@ == "turn/start"@,
        starting->Start_call.params.tree() == turn_tree(parcel.target, parcel.injection),
        starting->Start_ask == Some(asking->plan),
        noting is Note,
        noting->entry@ == (EntryView::Began { ask: asking->plan@, turn_id }),
        end == Inject::Done(Ok(())),
{
    reveal_strlit("Wire advisory.");
    law_single_lines_stay("Wire advisory."@);
    assert(forall|i: int|
        0 <= i < "Wire advisory."@.len() ==> "Wire advisory."@[i] != '\n');
}

/// A delivery is given up where the session is no longer in its process, is no longer loaded, or
/// peers are not welcome in it; each time it says which.
pub proof fn law_deliveries_give_up(
    parcel: Parcel,
    ask: Option<Ask>,
    loaded: bool,
    found: Option<ProcessKey>,
    unseated: Inject,
    listing: Inject,
    reply: Json,
    unlisted: Inject,
    reading: Inject,
    thread: Json,
    entries: Seq<EntryView>,
    unwelcome: Inject,
)
    requires
        inject_seated(Inject::Seat { loaded, parcel, ask }, Ok(found), unseated),
        found is None || parcel.permit != DeliveryPermit::Seat(found->Some_0),
        listing is List,
        inject_replied(listing, Ok(reply), unlisted),
        !loaded_of(reply.tree()).contains(listing->List_parcel.target),
        reading is Read,
        inject_read(reading, Ok(thread), entries, unwelcome),
        !peers_welcome(thread.tree(), entries),
    ensures
        unseated == Inject::Done(Err(AppServerError::SeatChanged)),
        unlisted == Inject::Done(Err(AppServerError::NotLoaded)),
        unwelcome is Done && unwelcome->Done_0 is Err && unwelcome->Done_0->Err_0 is Control
            && unwelcome->Done_0->Err_0->Control_0@
            == "the peer allowance of this session is spent until a human speaks in it"@,
{
}

} // verus!
