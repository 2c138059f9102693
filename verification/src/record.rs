//! The record of the turns that are started here for peers and for handoffs.
use vstd::prelude::*;
use crate::forge::{turn_texts, user_texts};
use crate::json::{as_items, as_text, is_text, items_of, lemma_trees, text_of, trees, Json, Tree};
use crate::text::{after, glue3, lemma_until, replace, replaced, same, split_once, until};

verus! {

/// For whom a turn is started.
#[derive(Clone, Copy, Debug, PartialEq, Eq, Structural)]
pub enum Starter {
    Peer,
    Handoff,
}

/// A turn that was started for somebody other than a human.
#[derive(Debug, PartialEq, Eq)]
pub struct Start {
    pub by: Starter,
    pub turn_id: String,
}

/// What a start says.
pub struct StartView {
    pub by: Starter,
    pub turn_id: Seq<char>,
}

impl View for Start {
    type V = StartView;

    open spec fn view(&self) -> StartView {
        StartView { by: self.by, turn_id: self.turn_id@ }
    }
}

/// What a list of starts says.
pub open spec fn said(starts: Seq<Start>) -> Seq<StartView> {
    starts.map_values(|start: Start| start@)
}

/// A turn that is about to be started: for whom, behind which turn (behind none where that is
/// empty), and in what words, on one line.
#[derive(Debug, PartialEq, Eq)]
pub struct Ask {
    pub by: Starter,
    pub behind: String,
    pub words: String,
}

/// What an intention to start a turn says.
pub struct AskView {
    pub by: Starter,
    pub behind: Seq<char>,
    pub words: Seq<char>,
}

impl View for Ask {
    type V = AskView;

    open spec fn view(&self) -> AskView {
        AskView { by: self.by, behind: self.behind@, words: self.words@ }
    }
}

impl Ask {
    pub fn copy(&self) -> (r: Ask)
        ensures
            r == *self,
    {
        Ask { by: self.by, behind: self.behind.clone(), words: self.words.clone() }
    }
}

/// One entry of the record.
#[derive(Debug, PartialEq, Eq)]
pub enum Entry {
    /// A turn is about to be started.
    Asked(Ask),
    /// It was started, as this one.
    Began { ask: Ask, turn_id: String },
}

/// What an entry of the record says.
pub enum EntryView {
    Asked(AskView),
    Began { ask: AskView, turn_id: Seq<char> },
}

impl View for Entry {
    type V = EntryView;

    open spec fn view(&self) -> EntryView {
        match *self {
            Entry::Asked(ask) => EntryView::Asked(ask@),
            Entry::Began { ask, turn_id } => EntryView::Began { ask: ask@, turn_id: turn_id@ },
        }
    }
}

/// What a record says.
pub open spec fn told(entries: Seq<Entry>) -> Seq<EntryView> {
    entries.map_values(|entry: Entry| entry@)
}

/// A text on one line.
pub open spec fn on_one_line(text: Seq<char>) -> Seq<char> {
    replaced(text, '\n', " "@)
}

/// A text on one line.
pub fn one_line(text: &str) -> (r: String)
    ensures
        r@ == on_one_line(text@),
{
    replace(text, '\n', " ")
}

/// How often a turn was started; one that is under way is started again when more is put into it.
pub open spec fn times_started(starts: Seq<StartView>, turn_id: Seq<char>) -> nat
    decreases starts.len(),
{
    if starts.len() == 0 {
        0
    } else {
        times_started(starts.drop_last(), turn_id) + if starts.last().turn_id == turn_id {
            1nat
        } else {
            0nat
        }
    }
}

/// Whether a turn was started for peers.
pub open spec fn started_for_peers(starts: Seq<StartView>, turn_id: Seq<char>) -> bool {
    exists|i: int|
        0 <= i < starts.len() && (#[trigger] starts[i]).by == Starter::Peer && starts[i].turn_id
            == turn_id
}

/// How often a turn was started.
pub fn count_starts(starts: &Vec<Start>, turn_id: &str) -> (r: usize)
    ensures
        r == times_started(said(starts@), turn_id@),
{
    let ghost all = said(starts@);
    let mut count: usize = 0;
    let mut i: usize = 0;
    while i < starts.len()
        invariant
            i <= starts@.len(),
            all == said(starts@),
            count <= i,
            count == times_started(all.take(i as int), turn_id@),
        decreases starts@.len() - i,
    {
        assert(all.take(i + 1).drop_last() == all.take(i as int));
        assert(all.take(i + 1).last() == starts@[i as int]@);
        if same(starts[i].turn_id.as_str(), turn_id) {
            count += 1;
        }
        i += 1;
    }
    assert(all.take(i as int) == all);
    count
}

/// Whether a turn was started for peers.
pub fn peers_started(starts: &Vec<Start>, turn_id: &str) -> (r: bool)
    ensures
        r == started_for_peers(said(starts@), turn_id@),
{
    let ghost all = said(starts@);
    let mut i: usize = 0;
    while i < starts.len()
        invariant
            i <= starts@.len(),
            all == said(starts@),
            forall|j: int|
                0 <= j < i ==> !((#[trigger] all[j]).by == Starter::Peer && all[j].turn_id
                    == turn_id@),
        decreases starts@.len() - i,
    {
        assert(all[i as int] == starts@[i as int]@);
        if starts[i].by == Starter::Peer && same(starts[i].turn_id.as_str(), turn_id) {
            return true;
        }
        i += 1;
    }
    false
}

/// The identifier of the turn that a reply says was started.
pub open spec fn started_turn(reply: Tree) -> Option<Seq<char>> {
    text_of(reply.at("turn"@, "id"@))
}

/// What is to be recorded of a turn that a reply says was started, if the reply names it.
pub fn begun(ask: Ask, reply: &Json) -> (r: Option<Entry>)
    ensures
        match started_turn(reply.tree()) {
            Some(turn_id) => r is Some && r->Some_0@ == (EntryView::Began { ask: ask@, turn_id }),
            None => r is None,
        },
{
    match as_text(reply.at("turn", "id")) {
        Some(turn_id) => Some(Entry::Began { ask, turn_id: turn_id.clone() }),
        None => None,
    }
}

/// Intentions, but for the last that says the given.
pub open spec fn without(asks: Seq<AskView>, ask: AskView) -> Seq<AskView>
    decreases asks.len(),
{
    if asks.len() == 0 {
        asks
    } else if asks.last() == ask {
        asks.drop_last()
    } else {
        without(asks.drop_last(), ask).push(asks.last())
    }
}

/// The turns that a record says were started.
pub open spec fn known_starts(entries: Seq<EntryView>) -> Seq<StartView>
    decreases entries.len(),
{
    if entries.len() == 0 {
        Seq::empty()
    } else {
        let before = known_starts(entries.drop_last());
        match entries.last() {
            EntryView::Asked(_) => before,
            EntryView::Began { ask, turn_id } => before.push(StartView { by: ask.by, turn_id }),
        }
    }
}

/// The intentions of which a record does not say what became of them.
pub open spec fn open_asks(entries: Seq<EntryView>) -> Seq<AskView>
    decreases entries.len(),
{
    if entries.len() == 0 {
        Seq::empty()
    } else {
        let before = open_asks(entries.drop_last());
        match entries.last() {
            EntryView::Asked(ask) => before.push(ask),
            EntryView::Began { ask, .. } => without(before, ask),
        }
    }
}

/// The last turn that a record knows; empty where it knows none.
pub open spec fn last_known(entries: Seq<EntryView>) -> Seq<char>
    decreases entries.len(),
{
    if entries.len() == 0 {
        Seq::empty()
    } else {
        match entries.last() {
            EntryView::Began { turn_id, .. } => turn_id,
            EntryView::Asked(ask) => if ask.behind.len() > 0 {
                ask.behind
            } else {
                last_known(entries.drop_last())
            },
        }
    }
}

/// The last turn that a record knows; empty where it knows none.
pub fn last_turn(entries: &Vec<Entry>) -> (r: String)
    ensures
        r@ == last_known(told(entries@)),
{
    let ghost all = told(entries@);
    let mut i: usize = entries.len();
    assert(all.take(i as int) == all);
    while i > 0
        invariant
            i <= entries@.len(),
            all == told(entries@),
            last_known(all.take(i as int)) == last_known(all),
        decreases i,
    {
        let ghost before = all.take(i as int);
        i -= 1;
        assert(before.drop_last() == all.take(i as int));
        assert(before.last() == entries@[i as int]@);
        match &entries[i] {
            Entry::Began { turn_id, .. } => return turn_id.clone(),
            Entry::Asked(ask) => if !ask.behind.as_str().is_empty() {
                return ask.behind.clone();
            },
        }
    }
    String::new()
}

fn same_ask(left: &Ask, right: &Ask) -> (r: bool)
    ensures
        r == (left@ == right@),
{
    left.by == right.by && same(left.behind.as_str(), right.behind.as_str()) && same(
        left.words.as_str(),
        right.words.as_str(),
    )
}

/// What a list of intentions says.
pub open spec fn meant(asks: Seq<Ask>) -> Seq<AskView> {
    asks.map_values(|ask: Ask| ask@)
}

proof fn lemma_without(asks: Seq<AskView>, ask: AskView, at: int)
    requires
        0 <= at <= asks.len(),
        at < asks.len() ==> asks[at] == ask,
        forall|i: int| at < i < asks.len() ==> #[trigger] asks[i] != ask,
        at == asks.len() ==> !asks.contains(ask),
    ensures
        without(asks, ask) == if at < asks.len() {
            asks.remove(at)
        } else {
            asks
        },
    decreases asks.len(),
{
    if asks.len() > 0 {
        let before = asks.drop_last();
        if at == asks.len() {
            assert(asks[asks.len() - 1] != ask);
            if before.contains(ask) {
                let i = choose|i: int| 0 <= i < before.len() && before[i] == ask;
                assert(asks[i] == ask);
            }
            lemma_without(before, ask, before.len() as int);
            assert(before.push(asks.last()) =~= asks);
        } else if at < asks.len() - 1 {
            assert(asks[asks.len() - 1] != ask);
            lemma_without(before, ask, at);
            assert(before.remove(at).push(asks.last()) =~= asks.remove(at));
        } else {
            assert(asks.remove(at) =~= before);
        }
    }
}

fn remove_last(asks: &mut Vec<Ask>, ask: &Ask)
    ensures
        meant(final(asks)@) == without(meant(old(asks)@), ask@),
{
    let ghost all = meant(asks@);
    let mut i: usize = asks.len();
    while i > 0
        invariant
            i <= asks@.len(),
            all == meant(asks@),
            all == meant(old(asks)@),
            forall|j: int| i <= j < all.len() ==> #[trigger] all[j] != ask@,
        decreases i,
    {
        i -= 1;
        assert(all[i as int] == asks@[i as int]@);
        if same_ask(&asks[i], ask) {
            proof {
                lemma_without(all, ask@, i as int);
            }
            let _gone = asks.remove(i);
            assert(meant(asks@) =~= all.remove(i as int));
            return;
        }
    }
    proof {
        lemma_without(all, ask@, all.len() as int);
    }
}

/// How many messages of the user the items of a turn hold, whatever is in them.
pub open spec fn message_count(items: Seq<Tree>) -> nat
    decreases items.len(),
{
    if items.len() == 0 {
        0
    } else {
        message_count(items.drop_last()) + if text_of(items.last().get("type"@)) == Some(
            "userMessage"@,
        ) {
            1nat
        } else {
            0nat
        }
    }
}

/// How many messages of the user a turn holds, whatever is in them.
pub open spec fn user_messages(turn: Tree) -> nat {
    message_count(items_of(turn.get("items"@)))
}

/// How many messages of the user a turn holds, whatever is in them.
pub fn count_messages(turn: &Json) -> (r: usize)
    ensures
        r == user_messages(turn.tree()),
{
    let mut count: usize = 0;
    if let Some(items) = as_items(turn.get("items")) {
        let ghost all = trees(items@);
        proof {
            lemma_trees(items@);
        }
        let mut i: usize = 0;
        while i < items.len()
            invariant
                i <= items@.len(),
                all == trees(items@),
                all.len() == items@.len(),
                forall|j: int| 0 <= j < items@.len() ==> all[j] == (#[trigger] items@[j]).tree(),
                count <= i,
                count == message_count(all.take(i as int)),
            decreases items@.len() - i,
        {
            assert(all.take(i + 1).drop_last() == all.take(i as int));
            assert(all.take(i + 1).last() == items@[i as int].tree());
            if is_text(items[i].get("type"), "userMessage") {
                count += 1;
            }
            i += 1;
        }
        assert(all.take(i as int) == all);
    }
    count
}

/// The identifier of a turn.
pub open spec fn id_of(turn: Tree) -> Option<Seq<char>> {
    text_of(turn.get("id"@))
}

/// Whether a turn holds one message of the user, of one text, which says the given words.
pub open spec fn says_just(turn: Tree, words: Seq<char>) -> bool {
    user_messages(turn) == 1 && user_texts(turn).len() == 1 && on_one_line(user_texts(turn)[0])
        == words
}

/// Whether a turn may be the one that was to be started: no start is known of it, and it holds
/// nothing but the words.
pub open spec fn answers(turn: Tree, ask: AskView, starts: Seq<StartView>) -> bool {
    match id_of(turn) {
        Some(turn_id) => times_started(starts, turn_id) == 0 && says_just(turn, ask.words),
        None => false,
    }
}

fn may_answer(turn: &Json, ask: &Ask, starts: &Vec<Start>) -> (r: bool)
    ensures
        r == answers(turn.tree(), ask@, said(starts@)),
{
    match as_text(turn.get("id")) {
        Some(turn_id) => {
            let texts = turn_texts(turn);
            count_starts(starts, turn_id.as_str()) == 0 && count_messages(turn) == 1
                && texts.len() == 1 && same(
                one_line(texts[0].as_str()).as_str(),
                ask.words.as_str(),
            )
        },
        None => false,
    }
}

/// Where the turns behind a turn begin; at the beginning where it is not among them.
pub open spec fn place_behind(turns: Seq<Tree>, turn_id: Seq<char>) -> nat
    decreases turns.len(),
{
    if turns.len() == 0 || turn_id.len() == 0 {
        0
    } else if id_of(turns.last()) == Some(turn_id) {
        turns.len()
    } else {
        place_behind(turns.drop_last(), turn_id)
    }
}

/// The identifier of the first turn from a place on that may be the one that was to be started.
pub open spec fn first_answer(
    turns: Seq<Tree>,
    from: int,
    ask: AskView,
    starts: Seq<StartView>,
) -> Option<Seq<char>>
    decreases turns.len() - from,
{
    if from < 0 || from >= turns.len() {
        None
    } else if answers(turns[from], ask, starts) {
        id_of(turns[from])
    } else {
        first_answer(turns, from + 1, ask, starts)
    }
}

/// The starts that are known, and those that must have been, since a turn says what was to be said:
/// each intention that is open is taken to have started the first such turn behind its place.
pub open spec fn accounted(
    turns: Seq<Tree>,
    starts: Seq<StartView>,
    asks: Seq<AskView>,
) -> Seq<StartView>
    decreases asks.len(),
{
    if asks.len() == 0 {
        starts
    } else {
        let ask = asks[0];
        let more = match first_answer(turns, place_behind(turns, ask.behind) as int, ask, starts) {
            Some(turn_id) => starts.push(StartView { by: ask.by, turn_id }),
            None => starts,
        };
        accounted(turns, more, asks.drop_first())
    }
}

/// The turns of a thread that were started for peers and by handoffs, by the record.
pub open spec fn all_starts(turns: Seq<Tree>, entries: Seq<EntryView>) -> Seq<StartView> {
    accounted(turns, known_starts(entries), open_asks(entries))
}

fn find_behind(turns: &Vec<Json>, turn_id: &str) -> (r: usize)
    ensures
        r == place_behind(trees(turns@), turn_id@),
{
    let ghost all = trees(turns@);
    proof {
        lemma_trees(turns@);
    }
    if turn_id.is_empty() {
        return 0;
    }
    let mut i: usize = turns.len();
    assert(all.take(i as int) == all);
    while i > 0
        invariant
            i <= turns@.len(),
            turn_id@.len() > 0,
            all == trees(turns@),
            all.len() == turns@.len(),
            forall|j: int| 0 <= j < turns@.len() ==> all[j] == (#[trigger] turns@[j]).tree(),
            place_behind(all.take(i as int), turn_id@) == place_behind(all, turn_id@),
        decreases i,
    {
        let ghost before = all.take(i as int);
        assert(before.drop_last() == all.take(i - 1));
        assert(before.last() == turns@[i - 1].tree());
        if is_text(turns[i - 1].get("id"), turn_id) {
            return i;
        }
        i -= 1;
    }
    0
}

fn find_answer(turns: &Vec<Json>, ask: &Ask, starts: &Vec<Start>) -> (r: Option<String>)
    ensures
        crate::text::opt_text(r) == first_answer(
            trees(turns@),
            place_behind(trees(turns@), ask.behind@) as int,
            ask@,
            said(starts@),
        ),
{
    let ghost all = trees(turns@);
    proof {
        lemma_trees(turns@);
    }
    let mut i: usize = find_behind(turns, ask.behind.as_str());
    let ghost from = i as int;
    while i < turns.len()
        invariant
            from == place_behind(all, ask.behind@),
            0 <= from <= i,
            all == trees(turns@),
            all.len() == turns@.len(),
            forall|j: int| 0 <= j < turns@.len() ==> all[j] == (#[trigger] turns@[j]).tree(),
            first_answer(all, i as int, ask@, said(starts@)) == first_answer(
                all,
                from,
                ask@,
                said(starts@),
            ),
        decreases turns@.len() - i,
    {
        assert(all[i as int] == turns@[i as int].tree());
        if may_answer(&turns[i], ask, starts) {
            return match as_text(turns[i].get("id")) {
                Some(turn_id) => Some(turn_id.clone()),
                None => None,
            };
        }
        i += 1;
    }
    None
}

/// The turns of a thread that were started for peers and by handoffs, by the record.
pub fn account(turns: &Vec<Json>, entries: &Vec<Entry>) -> (r: Vec<Start>)
    ensures
        said(r@) == all_starts(trees(turns@), told(entries@)),
{
    let ghost all = told(entries@);
    let mut starts: Vec<Start> = Vec::new();
    let mut asks: Vec<Ask> = Vec::new();
    let mut i: usize = 0;
    assert(said(starts@) =~= known_starts(all.take(0)));
    assert(meant(asks@) =~= open_asks(all.take(0)));
    while i < entries.len()
        invariant
            i <= entries@.len(),
            all == told(entries@),
            said(starts@) == known_starts(all.take(i as int)),
            meant(asks@) == open_asks(all.take(i as int)),
        decreases entries@.len() - i,
    {
        assert(all.take(i + 1).drop_last() == all.take(i as int));
        assert(all.take(i + 1).last() == entries@[i as int]@);
        match &entries[i] {
            Entry::Asked(ask) => {
                let ghost before = asks@;
                asks.push(ask.copy());
                assert(meant(asks@) =~= meant(before).push(ask@));
            },
            Entry::Began { ask, turn_id } => {
                let ghost before = starts@;
                starts.push(Start { by: ask.by, turn_id: turn_id.clone() });
                assert(said(starts@) =~= said(before).push(
                    StartView { by: ask.by, turn_id: turn_id@ },
                ));
                remove_last(&mut asks, ask);
            },
        }
        i += 1;
    }
    assert(all.take(i as int) == all);
    let ghost open = meant(asks@);
    let ghost known = said(starts@);
    let mut k: usize = 0;
    assert(open.skip(0) == open);
    while k < asks.len()
        invariant
            k <= asks@.len(),
            open == meant(asks@),
            accounted(trees(turns@), said(starts@), open.skip(k as int)) == accounted(
                trees(turns@),
                known,
                open,
            ),
        decreases asks@.len() - k,
    {
        assert(open.skip(k as int)[0] == asks@[k as int]@);
        assert(open.skip(k as int).drop_first() == open.skip(k + 1));
        if let Some(turn_id) = find_answer(turns, &asks[k], &starts) {
            let ghost before = starts@;
            starts.push(Start { by: asks[k].by, turn_id });
            assert(said(starts@) =~= said(before).push(
                StartView { by: asks@[k as int].by, turn_id: turn_id@ },
            ));
        }
        k += 1;
    }
    starts
}

/// What a line calls a starter.
pub open spec fn starter_text(by: Starter) -> Seq<char> {
    match by {
        Starter::Peer => "peer"@,
        Starter::Handoff => "handoff"@,
    }
}

/// Whom a line calls so.
pub open spec fn starter_named(text: Seq<char>) -> Option<Starter> {
    if text == "peer"@ {
        Some(Starter::Peer)
    } else if text == "handoff"@ {
        Some(Starter::Handoff)
    } else {
        None
    }
}

fn find_starter(text: &str) -> (r: Option<Starter>)
    ensures
        r == starter_named(text@),
{
    if same(text, "peer") {
        Some(Starter::Peer)
    } else if same(text, "handoff") {
        Some(Starter::Handoff)
    } else {
        None
    }
}

/// A field of a line, and what follows it.
pub open spec fn tabbed(first: Seq<char>, rest: Seq<char>) -> Seq<char> {
    first + "\t"@ + rest
}

/// The line of an entry.
pub open spec fn entry_line(entry: EntryView) -> Seq<char> {
    match entry {
        EntryView::Asked(ask) => tabbed(
            "asked"@,
            tabbed(starter_text(ask.by), tabbed(ask.behind, ask.words)),
        ),
        EntryView::Began { ask, turn_id } => tabbed(
            "began"@,
            tabbed(starter_text(ask.by), tabbed(ask.behind, tabbed(turn_id, ask.words))),
        ),
    }
}

/// The entry that a line holds, if it holds one.
pub open spec fn line_entry(line: Seq<char>) -> Option<EntryView> {
    let first = after(line, '\t');
    let second = after(first, '\t');
    let third = after(second, '\t');
    if !line.contains('\t') || !first.contains('\t') || !second.contains('\t') {
        None
    } else {
        match starter_named(until(first, '\t')) {
            Some(by) => if until(line, '\t') == "asked"@ {
                Some(EntryView::Asked(AskView { by, behind: until(second, '\t'), words: third }))
            } else if until(line, '\t') == "began"@ && third.contains('\t') {
                Some(
                    EntryView::Began {
                        ask: AskView {
                            by,
                            behind: until(second, '\t'),
                            words: after(third, '\t'),
                        },
                        turn_id: until(third, '\t'),
                    },
                )
            } else {
                None
            },
            None => None,
        }
    }
}

/// The entries that the whole lines of a text hold. What follows the last line feed is a line that
/// was not written to its end.
pub open spec fn recorded(text: Seq<char>) -> Seq<EntryView>
    decreases text.len(),
{
    if text.len() == 0 || !text.contains('\n') {
        Seq::empty()
    } else {
        proof {
            lemma_head(text, Seq::empty());
        }
        let rest = recorded(after(text, '\n'));
        match line_entry(until(text, '\n')) {
            Some(entry) => seq![entry] + rest,
            None => rest,
        }
    }
}

fn tab(first: &str, rest: &str) -> (r: String)
    ensures
        r@ == tabbed(first@, rest@),
{
    glue3(first, "\t", rest)
}

/// What is written for an entry: its line between two line feeds, so that it stands on a line of its
/// own even behind one that was not written to its end.
pub open spec fn entry_text(entry: EntryView) -> Seq<char> {
    "\n"@ + (entry_line(entry) + "\n"@)
}

/// What is written for an entry.
pub fn record_line(entry: &Entry) -> (r: String)
    ensures
        r@ == entry_text(entry@),
{
    let (kind, ask, tail) = match entry {
        Entry::Asked(ask) => ("asked", ask, ask.words.clone()),
        Entry::Began { ask, turn_id } => (
            "began",
            ask,
            tab(turn_id.as_str(), ask.words.as_str()),
        ),
    };
    let by = match ask.by {
        Starter::Peer => "peer",
        Starter::Handoff => "handoff",
    };
    let line = tab(
        kind,
        tab(by, tab(ask.behind.as_str(), tail.as_str()).as_str()).as_str(),
    );
    assert("\n"@ + line@ + "\n"@ =~= "\n"@ + (line@ + "\n"@));
    glue3("\n", line.as_str(), "\n")
}

fn read_line(line: &str) -> (r: Option<Entry>)
    ensures
        match r {
            Some(entry) => line_entry(line@) == Some(entry@),
            None => line_entry(line@) is None,
        },
{
    let (kind, first) = match split_once(line, '\t') {
        Some(parts) => parts,
        None => return None,
    };
    let (by, second) = match split_once(first.as_str(), '\t') {
        Some(parts) => parts,
        None => return None,
    };
    let (behind, third) = match split_once(second.as_str(), '\t') {
        Some(parts) => parts,
        None => return None,
    };
    let by = match find_starter(by.as_str()) {
        Some(by) => by,
        None => return None,
    };
    if same(kind.as_str(), "asked") {
        return Some(Entry::Asked(Ask { by, behind, words: third }));
    }
    if !same(kind.as_str(), "began") {
        return None;
    }
    match split_once(third.as_str(), '\t') {
        Some((turn_id, words)) => Some(Entry::Began { ask: Ask { by, behind, words }, turn_id }),
        None => None,
    }
}

/// The entries that a text holds.
pub fn read_record(text: &str) -> (r: Vec<Entry>)
    ensures
        told(r@) == recorded(text@),
{
    let mut out: Vec<Entry> = Vec::new();
    let mut rest = text.to_owned();
    assert(told(out@) + recorded(rest@) =~= recorded(text@));
    loop
        invariant
            told(out@) + recorded(rest@) == recorded(text@),
        ensures
            !rest@.contains('\n'),
        decreases rest@.len(),
    {
        let (line, more) = match split_once(rest.as_str(), '\n') {
            Some(parts) => parts,
            None => break,
        };
        let ghost before = told(out@);
        proof {
            lemma_head(rest@, Seq::empty());
        }
        if let Some(entry) = read_line(line.as_str()) {
            out.push(entry);
            assert(told(out@) =~= before.push(entry@));
            assert(before.push(entry@) + recorded(more@) =~= before + (seq![entry@] + recorded(
                more@,
            )));
        }
        rest = more;
    }
    assert(told(out@) + recorded(rest@) =~= told(out@));
    out
}

pub proof fn lemma_head(text: Seq<char>, more: Seq<char>)
    requires
        text.contains('\n'),
    ensures
        until(text + more, '\n') == until(text, '\n'),
        after(text + more, '\n') == after(text, '\n') + more,
        after(text, '\n').len() < text.len(),
        (text + more).contains('\n'),
        after(text, '\n').len() > 0 ==> after(text, '\n').last() == text.last(),
{
    let at = first_feed(text);
    lemma_until(text, '\n', at);
    assert((text + more)[at] == '\n');
    lemma_until(text + more, '\n', at);
    assert((text + more).take(at) =~= text.take(at));
    assert((text + more).skip(at + 1) =~= text.skip(at + 1) + more);
}

proof fn first_feed(text: Seq<char>) -> (at: int)
    requires
        text.contains('\n'),
    ensures
        0 <= at < text.len(),
        text[at] == '\n',
        forall|i: int| 0 <= i < at ==> text[i] != '\n',
    decreases text.len(),
{
    if text[0] == '\n' {
        0
    } else {
        let rest = text.drop_first();
        let k = choose|k: int| 0 <= k < text.len() && text[k] == '\n';
        assert(rest[k - 1] == '\n');
        let at = first_feed(rest);
        assert forall|i: int| 0 <= i < at + 1 implies text[i] != '\n' by {
            if i > 0 {
                assert(rest[i - 1] == text[i]);
            }
        }
        at + 1
    }
}

/// Whether a text holds neither tabs nor line feeds.
pub open spec fn is_plain(text: Seq<char>) -> bool {
    !text.contains('\t') && !text.contains('\n')
}

/// Whether an entry fits its line: identifiers are plain, and the words stand on one line.
pub open spec fn fits_line(entry: EntryView) -> bool {
    match entry {
        EntryView::Asked(ask) => is_plain(ask.behind) && !ask.words.contains('\n'),
        EntryView::Began { ask, turn_id } => is_plain(ask.behind) && is_plain(turn_id)
            && !ask.words.contains('\n'),
    }
}

proof fn lemma_tabbed(first: Seq<char>, rest: Seq<char>)
    requires
        !first.contains('\t'),
    ensures
        tabbed(first, rest).contains('\t'),
        until(tabbed(first, rest), '\t') == first,
        after(tabbed(first, rest), '\t') == rest,
        !first.contains('\n') && !rest.contains('\n') ==> !tabbed(first, rest).contains('\n'),
{
    reveal_strlit("\t");
    let whole = tabbed(first, rest);
    let at = first.len() as int;
    assert(whole[at] == '\t');
    assert forall|i: int| 0 <= i < at implies whole[i] != '\t' by {
        assert(whole[i] == first[i]);
    }
    lemma_until(whole, '\t', at);
    assert(whole.take(at) =~= first);
    assert(whole.skip(at + 1) =~= rest);
    if !first.contains('\n') && !rest.contains('\n') && whole.contains('\n') {
        let i = choose|i: int| 0 <= i < whole.len() && whole[i] == '\n';
        if i < at {
            assert(first[i] == '\n');
        } else {
            assert(rest[i - at - 1] == '\n');
        }
    }
}

proof fn lemma_entry_line(entry: EntryView)
    requires
        fits_line(entry),
    ensures
        line_entry(entry_line(entry)) == Some(entry),
        !entry_line(entry).contains('\n'),
{
    reveal_strlit("asked");
    reveal_strlit("began");
    reveal_strlit("peer");
    reveal_strlit("handoff");
    assert("asked"@[0] == 'a' && "began"@[0] == 'b');
    assert("peer"@.len() == 4 && "handoff"@.len() == 7);
    assert(is_plain("asked"@));
    assert(is_plain("began"@));
    assert(is_plain("peer"@));
    assert(is_plain("handoff"@));
    match entry {
        EntryView::Asked(ask) => {
            let third = tabbed(ask.behind, ask.words);
            lemma_tabbed(ask.behind, ask.words);
            lemma_tabbed(starter_text(ask.by), third);
            lemma_tabbed("asked"@, tabbed(starter_text(ask.by), third));
        },
        EntryView::Began { ask, turn_id } => {
            let fourth = tabbed(turn_id, ask.words);
            let third = tabbed(ask.behind, fourth);
            lemma_tabbed(turn_id, ask.words);
            lemma_tabbed(ask.behind, fourth);
            lemma_tabbed(starter_text(ask.by), third);
            lemma_tabbed("began"@, tabbed(starter_text(ask.by), third));
        },
    }
}

proof fn lemma_reads_back(text: Seq<char>, entry: EntryView)
    requires
        text.len() > 0 ==> text.last() == '\n',
        fits_line(entry),
    ensures
        recorded(text + (entry_line(entry) + "\n"@)) == recorded(text).push(entry),
    decreases text.len(),
{
    let line = entry_line(entry) + "\n"@;
    if text.len() == 0 {
        reveal_strlit("\n");
        lemma_entry_line(entry);
        let body = entry_line(entry);
        let at = body.len() as int;
        assert(text + line =~= line);
        assert(line[at] == '\n');
        assert forall|i: int| 0 <= i < at implies line[i] != '\n' by {
            assert(line[i] == body[i]);
        }
        lemma_until(line, '\n', at);
        assert(line.take(at) =~= body);
        assert(after(line, '\n') =~= Seq::<char>::empty());
        assert(recorded(after(line, '\n')) =~= Seq::<EntryView>::empty());
        assert(seq![entry] + Seq::<EntryView>::empty() =~= seq![entry]);
        assert(line.contains('\n'));
        assert(recorded(line) =~= seq![entry]);
        assert(recorded(text).push(entry) =~= seq![entry]);
    } else {
        assert(text[text.len() - 1] == '\n');
        lemma_head(text, line);
        let rest = after(text, '\n');
        lemma_reads_back(rest, entry);
        let found = line_entry(until(text, '\n'));
        if found is Some {
            assert((seq![found->Some_0] + recorded(rest)).push(entry) =~= seq![found->Some_0]
                + recorded(rest).push(entry));
        }
    }
}

proof fn lemma_blank_line(text: Seq<char>)
    requires
        text.len() > 0 ==> text.last() == '\n',
    ensures
        recorded(text + "\n"@) == recorded(text),
    decreases text.len(),
{
    reveal_strlit("\n");
    let feed = "\n"@;
    if text.len() == 0 {
        assert(text + feed =~= feed);
        assert(feed[0] == '\n');
        lemma_until(feed, '\n', 0);
        assert(feed.take(0) =~= Seq::<char>::empty());
        assert(after(feed, '\n') =~= Seq::<char>::empty());
        assert(line_entry(Seq::empty()) is None);
        assert(recorded(after(feed, '\n')) =~= Seq::<EntryView>::empty());
        assert(feed.contains('\n'));
    } else {
        assert(text[text.len() - 1] == '\n');
        lemma_head(text, feed);
        lemma_blank_line(after(text, '\n'));
    }
}

/// An entry that fits its line is read back behind all that were recorded before, even where the
/// last of these was not written to its end.
pub proof fn law_record_reads_back(text: Seq<char>, entry: EntryView)
    requires
        fits_line(entry),
    ensures
        recorded(text + entry_text(entry)) == recorded(text + "\n"@).push(entry),
        text.len() == 0 || text.last() == '\n' ==> recorded(text + entry_text(entry)) == recorded(
            text,
        ).push(entry),
{
    reveal_strlit("\n");
    let whole = text + "\n"@;
    assert(whole.last() == '\n');
    assert(text + entry_text(entry) =~= whole + (entry_line(entry) + "\n"@));
    lemma_reads_back(whole, entry);
    if text.len() == 0 || text.last() == '\n' {
        lemma_blank_line(text);
    }
}

/// What is to be recorded of peers and handoffs fits its line wherever the identifiers of turns are
/// plain, whatever the words are.
pub proof fn law_intentions_fit_their_line(by: Starter, behind: Seq<char>, text: Seq<char>)
    requires
        is_plain(behind),
    ensures
        fits_line(EntryView::Asked(AskView { by, behind, words: on_one_line(text) })),
{
    lemma_one_line(text);
}

proof fn lemma_one_line(text: Seq<char>)
    ensures
        !on_one_line(text).contains('\n'),
    decreases text.len(),
{
    reveal_strlit(" ");
    if text.len() > 0 {
        lemma_one_line(text.drop_last());
        let before = on_one_line(text.drop_last());
        let whole = on_one_line(text);
        if whole.contains('\n') {
            let i = choose|i: int| 0 <= i < whole.len() && whole[i] == '\n';
            if i < before.len() {
                assert(before[i] == '\n');
            }
        }
    }
}

/// The user's messages of a turn are its items of type `userMessage`, as many as there are, whatever
/// stands before, between or behind them.
pub proof fn law_messages_are_counted(items: Seq<Tree>)
    ensures
        message_count(items) == items.filter(
            |item: Tree| item.get("type"@) == Some(Tree::Text("userMessage"@)),
        ).len(),
        forall|i: int|
            0 <= i < items.len() && (#[trigger] items[i]).get("type"@) == Some(
                Tree::Text("userMessage"@),
            ) ==> message_count(items) > 0,
    decreases items.len(),
{
    reveal(Seq::filter);
    if items.len() > 0 {
        let before = items.drop_last();
        law_messages_are_counted(before);
        assert forall|i: int|
            0 <= i < items.len() && (#[trigger] items[i]).get("type"@) == Some(
                Tree::Text("userMessage"@),
            ) implies message_count(items) > 0 by {
            if i < before.len() {
                assert(before[i] == items[i]);
            }
        }
    }
}

/// The messages of two rows of items are those of both.
pub proof fn law_messages_add_up(left: Seq<Tree>, right: Seq<Tree>)
    ensures
        message_count(left + right) == message_count(left) + message_count(right),
{
    let pred = |item: Tree| item.get("type"@) == Some(Tree::Text("userMessage"@));
    law_messages_are_counted(left);
    law_messages_are_counted(right);
    law_messages_are_counted(left + right);
    Seq::filter_distributes_over_add(left, right, pred);
}

/// A turn was started as often as starts of its identifier are listed.
pub proof fn law_starts_are_counted(starts: Seq<StartView>, turn_id: Seq<char>)
    ensures
        times_started(starts, turn_id) == starts.filter(
            |start: StartView| start.turn_id == turn_id,
        ).len(),
    decreases starts.len(),
{
    reveal(Seq::filter);
    if starts.len() > 0 {
        law_starts_are_counted(starts.drop_last(), turn_id);
    }
}

/// The turns that a record names as started are those of its entries that say so, in their order,
/// each for whom it was started.
pub proof fn law_recorded_starts(left: Seq<EntryView>, right: Seq<EntryView>)
    ensures
        known_starts(left + right) == known_starts(left) + known_starts(right),
        left.len() == 1 ==> match left[0] {
            EntryView::Asked(_) => known_starts(left).len() == 0,
            EntryView::Began { ask, turn_id } => known_starts(left) == seq![
                StartView { by: ask.by, turn_id },
            ],
        },
    decreases right.len(),
{
    if left.len() == 1 {
        assert(left.drop_last() =~= Seq::<EntryView>::empty());
        assert(known_starts(left.drop_last()) =~= Seq::<StartView>::empty());
        if let EntryView::Began { ask, turn_id } = left[0] {
            assert(known_starts(left) =~= seq![StartView { by: ask.by, turn_id }]);
        }
    }
    if right.len() == 0 {
        assert(left + right =~= left);
        assert(known_starts(left) + known_starts(right) =~= known_starts(left));
    } else {
        let fewer = right.drop_last();
        law_recorded_starts(left, fewer);
        assert((left + right).drop_last() =~= left + fewer);
        assert((left + right).last() == right.last());
        assert(known_starts(left + right) =~= known_starts(left) + known_starts(right));
    }
}

/// An intention is open from its record on until the record of its turn: one that was answered right
/// away leaves the open ones as they were, and one that was not answered is the last of them.
pub proof fn law_open_intentions(entries: Seq<EntryView>, ask: AskView, turn_id: Seq<char>)
    ensures
        open_asks(Seq::empty()).len() == 0,
        open_asks(entries.push(EntryView::Asked(ask))) == open_asks(entries).push(ask),
        open_asks(entries.push(EntryView::Asked(ask)).push(EntryView::Began { ask, turn_id }))
            == open_asks(entries),
        !open_asks(entries).contains(ask) ==> open_asks(
            entries.push(EntryView::Began { ask, turn_id }),
        ) == open_asks(entries),
{
    let asked = entries.push(EntryView::Asked(ask));
    let began = asked.push(EntryView::Began { ask, turn_id });
    let alone = entries.push(EntryView::Began { ask, turn_id });
    assert(asked.drop_last() =~= entries);
    assert(began.drop_last() =~= asked);
    assert(alone.drop_last() =~= entries);
    assert(began.last() == (EntryView::Began { ask, turn_id }));
    assert(open_asks(entries).push(ask).drop_last() =~= open_asks(entries));
    assert(open_asks(asked) == open_asks(entries).push(ask));
    assert(open_asks(began) == without(open_asks(asked), ask));
    if !open_asks(entries).contains(ask) {
        lemma_without(open_asks(entries), ask, open_asks(entries).len() as int);
    }
}

/// The last turn that a record knows is that of its last start, or the one behind which something was
/// to be started since.
pub proof fn law_last_known_turn(entries: Seq<EntryView>, ask: AskView, turn_id: Seq<char>)
    ensures
        last_known(Seq::empty()).len() == 0,
        last_known(entries.push(EntryView::Began { ask, turn_id })) == turn_id,
        ask.behind.len() > 0 ==> last_known(entries.push(EntryView::Asked(ask))) == ask.behind,
        ask.behind.len() == 0 ==> last_known(entries.push(EntryView::Asked(ask))) == last_known(
            entries,
        ),
{
    assert(entries.push(EntryView::Asked(ask)).drop_last() =~= entries);
}

/// The turns behind a turn begin right behind its last occurrence; where it does not occur, all turns
/// count.
pub proof fn law_place_behind(turns: Seq<Tree>, turn_id: Seq<char>, at: int)
    requires
        turn_id.len() > 0,
    ensures
        0 <= at < turns.len() && turns[at].get("id"@) == Some(Tree::Text(turn_id)) && (forall|i: int|
            at < i < turns.len() ==> (#[trigger] turns[i]).get("id"@) != Some(Tree::Text(turn_id)))
            ==> place_behind(turns, turn_id) == at + 1,
        (forall|i: int|
            0 <= i < turns.len() ==> (#[trigger] turns[i]).get("id"@) != Some(Tree::Text(turn_id)))
            ==> place_behind(turns, turn_id) == 0,
    decreases turns.len(),
{
    if turns.len() > 0 {
        let before = turns.drop_last();
        assert(forall|i: int| 0 <= i < before.len() ==> before[i] == turns[i]);
        assert(turns[turns.len() - 1] == turns.last());
        law_place_behind(before, turn_id, at);
    }
}

/// A lost start is found in the first turn behind its place that no start is known of and that holds
/// one message of the user, with just the words that were to be said.
pub proof fn law_lost_starts_are_found(
    turns: Seq<Tree>,
    from: int,
    ask: AskView,
    starts: Seq<StartView>,
    at: int,
    turn_id: Seq<char>,
)
    requires
        0 <= from <= at < turns.len(),
        turns[at].get("id"@) == Some(Tree::Text(turn_id)),
        forall|i: int| 0 <= i < starts.len() ==> (#[trigger] starts[i]).turn_id != turn_id,
        user_messages(turns[at]) == 1,
        user_texts(turns[at]) == seq![ask.words],
        !ask.words.contains('\n'),
        forall|i: int|
            from <= i < at ==> user_messages(#[trigger] turns[i]) != 1 || user_texts(turns[i]).len()
                != 1 || on_one_line(user_texts(turns[i])[0]) != ask.words,
    ensures
        first_answer(turns, from, ask, starts) == Some(turn_id),
    decreases at - from,
{
    if from < at {
        assert(!answers(turns[from], ask, starts));
        law_lost_starts_are_found(turns, from + 1, ask, starts, at, turn_id);
    } else {
        law_starts_are_counted(starts, turn_id);
        let pred = |start: StartView| start.turn_id == turn_id;
        broadcast use vstd::seq_lib::group_filter_ensures;

        if starts.filter(pred).len() > 0 {
            starts.lemma_filter_contains_rev(pred, starts.filter(pred)[0]);
        }
        law_single_lines_stay(ask.words);
        assert(user_texts(turns[at])[0] == ask.words);
    }
}

/// A text on one line has a space for each of its line feeds, and is otherwise the same.
pub proof fn law_single_lines_stay(text: Seq<char>)
    ensures
        on_one_line(text).len() == text.len(),
        forall|i: int|
            0 <= i < text.len() ==> #[trigger] on_one_line(text)[i] == if text[i] == '\n' {
                ' '
            } else {
                text[i]
            },
        !text.contains('\n') ==> on_one_line(text) == text,
    decreases text.len(),
{
    reveal_strlit(" ");
    if text.len() > 0 {
        let before = text.drop_last();
        law_single_lines_stay(before);
        let line = on_one_line(text);
        assert forall|i: int| 0 <= i < text.len() implies #[trigger] line[i] == if text[i] == '\n' {
            ' '
        } else {
            text[i]
        } by {
            if i < before.len() {
                assert(before[i] == text[i]);
                assert(line[i] == on_one_line(before)[i]);
            }
        }
    }
    if !text.contains('\n') {
        assert forall|i: int| 0 <= i < text.len() implies on_one_line(text)[i] == text[i] by {
            assert(text.contains(text[i]));
        }
        assert(on_one_line(text) =~= text);
    }
}

/// A turn holds as many messages of the user as its array of items holds items of type
/// `userMessage`, and none where it has no such array.
pub proof fn law_turns_hold_their_messages(turn: Tree)
    ensures
        match turn.get("items"@) {
            Some(Tree::Array(items)) => user_messages(turn) == items.filter(
                |item: Tree| item.get("type"@) == Some(Tree::Text("userMessage"@)),
            ).len(),
            _ => user_messages(turn) == 0,
        },
{
    if let Some(Tree::Array(items)) = turn.get("items"@) {
        law_messages_are_counted(items);
    }
}

/// Lost starts are sought one after the other, each among the turns of which none is known yet:
/// what was found is added behind what was known, for whom it was to be started.
pub proof fn law_lost_starts_are_added(
    turns: Seq<Tree>,
    starts: Seq<StartView>,
    left: Seq<AskView>,
    right: Seq<AskView>,
)
    ensures
        accounted(turns, starts, left + right) == accounted(
            turns,
            accounted(turns, starts, left),
            right,
        ),
        accounted(turns, starts, Seq::empty()) == starts,
        left.len() == 1 ==> accounted(turns, starts, left) == match first_answer(
            turns,
            place_behind(turns, left[0].behind) as int,
            left[0],
            starts,
        ) {
            Some(turn_id) => starts.push(StartView { by: left[0].by, turn_id }),
            None => starts,
        },
        starts.is_prefix_of(accounted(turns, starts, left)),
    decreases left.len(),
{
    if left.len() == 0 {
        assert(left + right =~= right);
        assert(left =~= Seq::<AskView>::empty());
        assert(starts.is_prefix_of(starts));
    } else {
        let rest = left.drop_first();
        let more = match first_answer(
            turns,
            place_behind(turns, left[0].behind) as int,
            left[0],
            starts,
        ) {
            Some(turn_id) => starts.push(StartView { by: left[0].by, turn_id }),
            None => starts,
        };
        law_lost_starts_are_added(turns, more, rest, right);
        assert((left + right).drop_first() =~= rest + right);
        let all = accounted(turns, starts, left);
        assert(all == accounted(turns, more, rest));
        assert(starts =~= all.take(starts.len() as int)) by {
            assert(more =~= all.take(more.len() as int));
        }
        if left.len() == 1 {
            assert(rest =~= Seq::<AskView>::empty());
        }
    }
}

/// A turn may be the one that was to be started exactly where it has an identifier of which no start
/// is known, and holds one message of the user, of one text, which on one line reads as the words.
pub proof fn law_what_answers(turn: Tree, ask: AskView, starts: Seq<StartView>, turn_id: Seq<char>)
    ensures
        turn.get("id"@) == Some(Tree::Text(turn_id)) ==> (answers(turn, ask, starts) <==> (forall|
            i: int,
        |
            0 <= i < starts.len() ==> (#[trigger] starts[i]).turn_id != turn_id) && user_messages(
            turn,
        ) == 1 && user_texts(turn).len() == 1 && on_one_line(user_texts(turn)[0]) == ask.words),
        turn.get("id"@) is None ==> !answers(turn, ask, starts),
{
    law_starts_are_counted(starts, turn_id);
    let pred = |start: StartView| start.turn_id == turn_id;
    let own = starts.filter(pred);
    if own.len() > 0 {
        broadcast use vstd::seq_lib::group_filter_ensures;

        assert(pred(own[0]));
        starts.lemma_filter_contains_rev(pred, own[0]);
    }
    if exists|i: int| 0 <= i < starts.len() && (#[trigger] starts[i]).turn_id == turn_id {
        broadcast use vstd::seq_lib::group_filter_ensures;

        let i = choose|i: int| 0 <= i < starts.len() && (#[trigger] starts[i]).turn_id == turn_id;
        assert(starts.contains(starts[i]));
        assert(own.contains(starts[i]));
    }
}

/// Of intentions that say the same the last is taken away, and only one.
pub proof fn law_one_intention_is_answered(asks: Seq<AskView>, ask: AskView, other: AskView)
    ensures
        without(asks.push(ask), ask) == asks,
        other != ask ==> without(asks.push(other), ask) == without(asks, ask).push(other),
        without(Seq::empty(), ask).len() == 0,
{
    assert(asks.push(ask).drop_last() =~= asks);
    assert(asks.push(other).drop_last() =~= asks);
}

} // verus!
