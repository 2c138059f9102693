//! The forge: an ephemeral, read-only fork of a thread that writes the biography of its session.
use vstd::prelude::*;
use crate::error::AppServerError;
use crate::ident::{hyphenated_text, SessionId};
use crate::json::{as_items, as_text, is_text, items_of, json_text, lemma_trees, opt_tree, text_array, text_of, trees, Json, Tree};
use crate::model::copy_text;
use crate::rpc::{control_error, Call};
use crate::text::{clipped, glue2, glue3, opt_text, same, texts, truncate_chars};

verus! {

/// How much of the operator's current requests the forge is shown, in characters.
pub const MAX_ACTIVE_EVIDENCE_CHARS: usize = 16_000;

/// The model that writes biographies.
pub const FORGE_MODEL: &'static str = "gpt-5.6-luna";

/// What the model is told about its place.
pub const FORGE_INSTRUCTIONS: &'static str =
    "You are a read-only biographer. Follow the identity brief in the next operator message exactly. Do not continue the source thread's work, call tools, edit files, or communicate with anyone.";

/// What precedes the operator's current requests.
pub const EVIDENCE_HEADING: &'static str = "\n\n# Current In-Progress Operator Requests\n\n";

/// Whether a turn is under way.
pub open spec fn in_progress(turn: Tree) -> bool {
    text_of(turn.get("status"@)) == Some("inProgress"@)
}

/// The last turn that is under way.
pub open spec fn last_active(turns: Seq<Tree>) -> Option<Tree>
    decreases turns.len(),
{
    if turns.len() == 0 {
        None
    } else if in_progress(turns.last()) {
        Some(turns.last())
    } else {
        last_active(turns.drop_last())
    }
}

/// The last turn of a thread that is under way.
pub open spec fn active_turn(source: Tree) -> Option<Tree> {
    last_active(items_of(source.at("thread"@, "turns"@)))
}

fn find_active_turn(source: &Json) -> (r: Option<&Json>)
    ensures
        opt_tree(r) == active_turn(source.tree()),
{
    match as_items(source.at("thread", "turns")) {
        Some(turns) => {
            let ghost all = trees(turns@);
            let mut i: usize = turns.len();
            proof {
                lemma_trees(turns@);
                assert(all.take(i as int) == all);
            }
            while i > 0
                invariant
                    i <= turns@.len(),
                    all == trees(turns@),
                    all == items_of(source.tree().at("thread"@, "turns"@)),
                    all.len() == turns@.len(),
                    forall|j: int| 0 <= j < turns@.len() ==> all[j] == (#[trigger] turns@[j]).tree(),
                    last_active(all.take(i as int)) == last_active(all),
                decreases i,
            {
                let ghost before = all.take(i as int);
                i -= 1;
                assert(before.drop_last() == all.take(i as int));
                assert(before.last() == turns@[i as int].tree());
                if is_text(turns[i].get("status"), "inProgress") {
                    return Some(&turns[i]);
                }
            }
            None
        },
        None => None,
    }
}

/// The texts among the contents of a message.
pub open spec fn content_texts(contents: Seq<Tree>) -> Seq<Seq<char>>
    decreases contents.len(),
{
    if contents.len() == 0 {
        Seq::empty()
    } else {
        let before = content_texts(contents.drop_last());
        let content = contents.last();
        match text_of(content.get("text"@)) {
            Some(text) => if text_of(content.get("type"@)) == Some("text"@) {
                before.push(text)
            } else {
                before
            },
            None => before,
        }
    }
}

/// The texts of the user's messages among the items of a turn.
pub open spec fn message_texts(items: Seq<Tree>) -> Seq<Seq<char>>
    decreases items.len(),
{
    if items.len() == 0 {
        Seq::empty()
    } else {
        let before = message_texts(items.drop_last());
        let item = items.last();
        if text_of(item.get("type"@)) == Some("userMessage"@) {
            before + content_texts(items_of(item.get("content"@)))
        } else {
            before
        }
    }
}

/// The texts that the user wrote in a turn.
pub open spec fn user_texts(turn: Tree) -> Seq<Seq<char>> {
    message_texts(items_of(turn.get("items"@)))
}

fn push_texts(out: &mut Vec<String>, contents: &Vec<Json>)
    ensures
        texts(final(out)@) == texts(old(out)@) + content_texts(trees(contents@)),
{
    let ghost start = texts(out@);
    let ghost all = trees(contents@);
    proof {
        lemma_trees(contents@);
    }
    let mut i: usize = 0;
    while i < contents.len()
        invariant
            i <= contents@.len(),
            all == trees(contents@),
            all.len() == contents@.len(),
            forall|j: int| 0 <= j < contents@.len() ==> all[j] == (#[trigger] contents@[j]).tree(),
            texts(out@) == start + content_texts(all.take(i as int)),
        decreases contents@.len() - i,
    {
        let content = &contents[i];
        assert(all.take(i + 1).drop_last() == all.take(i as int));
        assert(all.take(i + 1).last() == contents@[i as int].tree());
        let ghost before = out@;
        if is_text(content.get("type"), "text") {
            if let Some(text) = as_text(content.get("text")) {
                out.push(text.clone());
                assert(texts(out@) =~= texts(before).push(text@));
            }
        }
        i += 1;
        assert(texts(out@) =~= start + content_texts(all.take(i as int)));
    }
    assert(all.take(i as int) == all);
}

/// The texts that the user wrote in a turn.
pub fn turn_texts(turn: &Json) -> (r: Vec<String>)
    ensures
        texts(r@) == user_texts(turn.tree()),
{
    let mut out: Vec<String> = Vec::new();
    match as_items(turn.get("items")) {
        Some(items) => {
            let ghost all = trees(items@);
            proof {
                lemma_trees(items@);
            }
            assert(texts(out@) =~= message_texts(all.take(0)));
            let mut i: usize = 0;
            while i < items.len()
                invariant
                    i <= items@.len(),
                    all == trees(items@),
                    all == items_of(turn.tree().get("items"@)),
                    all.len() == items@.len(),
                    forall|j: int| 0 <= j < items@.len() ==> all[j] == (#[trigger] items@[j]).tree(),
                    texts(out@) == message_texts(all.take(i as int)),
                decreases items@.len() - i,
            {
                let item = &items[i];
                assert(all.take(i + 1).drop_last() == all.take(i as int));
                assert(all.take(i + 1).last() == items@[i as int].tree());
                if is_text(item.get("type"), "userMessage") {
                    match as_items(item.get("content")) {
                        Some(contents) => push_texts(&mut out, contents),
                        None => {
                            assert(texts(out@) =~= texts(out@) + content_texts(Seq::empty()));
                        },
                    }
                }
                i += 1;
            }
            assert(all.take(i as int) == all);
        },
        None => {
            assert(texts(out@) =~= Seq::<Seq<char>>::empty());
        },
    }
    out
}

/// Texts, one behind the other.
pub open spec fn flat(parts: Seq<Seq<char>>) -> Seq<char>
    decreases parts.len(),
{
    if parts.len() == 0 {
        Seq::empty()
    } else {
        flat(parts.drop_last()) + parts.last()
    }
}

/// The beginnings of texts that fit a common limit, empty ones aside.
pub open spec fn excerpts(parts: Seq<Seq<char>>, limit: nat) -> Seq<Seq<char>>
    decreases parts.len(),
{
    if parts.len() == 0 {
        Seq::empty()
    } else {
        let before = excerpts(parts.drop_last(), limit);
        let excerpt = clipped(parts.last(), (limit - flat(before).len()) as nat);
        if excerpt.len() == 0 {
            before
        } else {
            before.push(excerpt)
        }
    }
}

/// Excerpts fit their limit: together they are the beginning of the whole, cut at the limit, and
/// none is empty.
pub proof fn law_excerpts_fit(parts: Seq<Seq<char>>, limit: nat)
    ensures
        flat(excerpts(parts, limit)) == clipped(flat(parts), limit),
        flat(excerpts(parts, limit)).len() <= limit,
        forall|i: int|
            0 <= i < excerpts(parts, limit).len() ==> (#[trigger] excerpts(parts, limit)[i]).len()
                > 0,
    decreases parts.len(),
{
    if parts.len() > 0 {
        law_excerpts_fit(parts.drop_last(), limit);
        let before = excerpts(parts.drop_last(), limit);
        let excerpt = clipped(parts.last(), (limit - flat(before).len()) as nat);
        if excerpt.len() == 0 {
            assert(clipped(flat(parts), limit) =~= flat(before));
        } else {
            assert(excerpts(parts, limit).drop_last() =~= before);
            assert(flat(before) + excerpt =~= clipped(flat(parts), limit));
        }
    }
}

/// What the forge is shown of the operator's requests in a turn.
pub open spec fn evidence_texts(turn: Tree) -> Seq<Seq<char>> {
    excerpts(user_texts(turn), MAX_ACTIVE_EVIDENCE_CHARS as nat)
}

/// What the forge is shown of the operator's requests in a turn.
pub fn active_user_evidence(turn: &Json) -> (r: Vec<String>)
    ensures
        texts(r@) == evidence_texts(turn.tree()),
{
    let parts = turn_texts(turn);
    let ghost all = texts(parts@);
    let mut out: Vec<String> = Vec::new();
    let mut remaining: usize = MAX_ACTIVE_EVIDENCE_CHARS;
    let mut i: usize = 0;
    assert(texts(out@) =~= excerpts(all.take(0), MAX_ACTIVE_EVIDENCE_CHARS as nat));
    while i < parts.len()
        invariant
            i <= parts@.len(),
            all == texts(parts@),
            all == user_texts(turn.tree()),
            texts(out@) == excerpts(all.take(i as int), MAX_ACTIVE_EVIDENCE_CHARS as nat),
            remaining == MAX_ACTIVE_EVIDENCE_CHARS - flat(texts(out@)).len(),
        decreases parts@.len() - i,
    {
        assert(all.take(i + 1).drop_last() == all.take(i as int));
        assert(all.take(i + 1).last() == parts@[i as int]@);
        let excerpt = truncate_chars(parts[i].as_str(), remaining);
        let taken: usize = crate::text::characters(excerpt.as_str()).len();
        let ghost before = out@;
        if taken > 0 {
            remaining -= taken;
            out.push(excerpt);
            assert(texts(out@) =~= texts(before).push(excerpt@));
            assert(texts(out@).drop_last() =~= texts(before));
        }
        i += 1;
    }
    assert(all.take(i as int) == all);
    out
}

/// The brief, followed by the operator's current requests where there are any.
pub open spec fn brief_text(prompt: Seq<char>, evidence: Seq<Seq<char>>) -> Seq<char> {
    if evidence.len() == 0 {
        prompt
    } else {
        prompt + EVIDENCE_HEADING@ + json_text(text_array(evidence))
    }
}

/// What the forge is shown of a thread: the requests of its active turn.
pub open spec fn thread_evidence(source: Tree) -> Seq<Seq<char>> {
    match active_turn(source) {
        Some(turn) => evidence_texts(turn),
        None => Seq::empty(),
    }
}

/// The identifier of the active turn of a thread.
pub open spec fn active_turn_id(source: Tree) -> Option<Seq<char>> {
    match active_turn(source) {
        Some(turn) => text_of(turn.get("id"@)),
        None => None,
    }
}

/// A text that goes into a turn.
pub open spec fn input_tree(text: Seq<char>) -> Tree {
    Tree::Object(
        map![
            "type"@ => Tree::Text("text"@),
            "text"@ => Tree::Text(text),
            "textElements"@ => Tree::Array(Seq::empty()),
        ],
    )
}

/// A text that goes into a turn.
pub fn input_item(text: &str) -> (r: Json)
    ensures
        r.tree() == input_tree(text@),
        r.settled(),
{
    let none: Vec<Json> = Vec::new();
    let elements = Json::Array(none);
    assert(elements.tree() == Tree::Array(Seq::empty()));
    assert(elements.settled());
    Json::object().with("type", Json::string("text")).with("text", Json::string(text)).with(
        "textElements",
        elements,
    )
}

/// The thread of a session, with its turns.
pub open spec fn read_tree(session: SessionId) -> Tree {
    Tree::Object(
        map![
            "threadId"@ => Tree::Text(hyphenated_text(session.value)),
            "includeTurns"@ => Tree::Bool(true),
        ],
    )
}

/// The thread of a session, with its turns.
pub fn read_thread(session: SessionId) -> (r: Call)
    ensures
        r.says("thread/read"@, read_tree(session)),
{
    Call::new(
        "thread/read",
        Json::object().with("threadId", Json::Text(session.text())).with(
            "includeTurns",
            Json::Bool(true),
        ),
    )
}

/// An ephemeral, read-only fork without approvals, taken before the active turn.
pub open spec fn fork_tree(session: SessionId, before: Option<Seq<char>>) -> Tree {
    let members = map![
        "threadId"@ => Tree::Text(hyphenated_text(session.value)),
        "ephemeral"@ => Tree::Bool(true),
        "excludeTurns"@ => Tree::Bool(true),
        "model"@ => Tree::Text(FORGE_MODEL@),
        "serviceTier"@ => Tree::Text("priority"@),
        "approvalPolicy"@ => Tree::Text("never"@),
        "sandbox"@ => Tree::Text("read-only"@),
        "developerInstructions"@ => Tree::Text(FORGE_INSTRUCTIONS@),
    ];
    match before {
        Some(turn_id) => Tree::Object(members.insert("beforeTurnId"@, Tree::Text(turn_id))),
        None => Tree::Object(members),
    }
}

fn fork_thread(session: SessionId, before: Option<&String>) -> (r: Call)
    ensures
        r.says(
            "thread/fork"@,
            fork_tree(
                session,
                match before {
                    Some(turn_id) => Some(turn_id@),
                    None => None,
                },
            ),
        ),
{
    let params = Json::object().with("threadId", Json::Text(session.text())).with(
        "ephemeral",
        Json::Bool(true),
    ).with("excludeTurns", Json::Bool(true)).with("model", Json::string(FORGE_MODEL)).with(
        "serviceTier",
        Json::string("priority"),
    ).with("approvalPolicy", Json::string("never")).with("sandbox", Json::string("read-only")).with(
        "developerInstructions",
        Json::string(FORGE_INSTRUCTIONS),
    );
    match before {
        Some(turn_id) => Call::new(
            "thread/fork",
            params.with("beforeTurnId", Json::string(turn_id.as_str())),
        ),
        None => Call::new("thread/fork", params),
    }
}

/// The turn in which the fork writes, bound to a schema.
pub open spec fn forge_turn_tree(thread_id: Seq<char>, prompt: Seq<char>, schema: Tree) -> Tree {
    Tree::Object(
        map![
            "threadId"@ => Tree::Text(thread_id),
            "input"@ => Tree::Array(seq![input_tree(prompt)]),
            "model"@ => Tree::Text(FORGE_MODEL@),
            "effort"@ => Tree::Text("xhigh"@),
            "serviceTier"@ => Tree::Text("priority"@),
            "approvalPolicy"@ => Tree::Text("never"@),
            "sandboxPolicy"@ => Tree::Object(
                map!["type"@ => Tree::Text("readOnly"@), "networkAccess"@ => Tree::Bool(false)],
            ),
            "outputSchema"@ => schema,
        ],
    )
}

fn start_forge_turn(thread_id: &str, prompt: &str, schema: Json) -> (r: Call)
    ensures
        r.bears("turn/start"@, forge_turn_tree(thread_id@, prompt@, schema.tree())),
        schema.settled() ==> r.params.settled(),
{
    let sandbox = Json::object().with("type", Json::string("readOnly")).with(
        "networkAccess",
        Json::Bool(false),
    );
    Call::new(
        "turn/start",
        Json::object().with("threadId", Json::string(thread_id)).with(
            "input",
            Json::single(input_item(prompt)),
        ).with("model", Json::string(FORGE_MODEL)).with("effort", Json::string("xhigh")).with(
            "serviceTier",
            Json::string("priority"),
        ).with("approvalPolicy", Json::string("never")).with("sandboxPolicy", sandbox).with(
            "outputSchema",
            schema,
        ),
    )
}

/// A parameter object that only names a thread.
pub open spec fn thread_tree(thread_id: Seq<char>) -> Tree {
    Tree::Object(map!["threadId"@ => Tree::Text(thread_id)])
}

fn leave_thread(thread_id: &str) -> (r: Call)
    ensures
        r.says("thread/unsubscribe"@, thread_tree(thread_id@)),
{
    Call::new("thread/unsubscribe", Json::object().with("threadId", Json::string(thread_id)))
}

/// The text behind two keys, which a reply must hold.
pub fn required_string(value: &Json, first: &str, second: &str, label: &str) -> (r: Result<
    String,
    AppServerError,
>)
    ensures
        match text_of(value.tree().at(first@, second@)) {
            Some(text) => r is Ok && r->Ok_0@ == text,
            None => control_error(r, "missing "@ + label@),
        },
{
    match as_text(value.at(first, second)) {
        Some(text) => Ok(text.clone()),
        None => Err(AppServerError::Control(glue2("missing ", label))),
    }
}

/// The parameters of a notification.
pub open spec fn params_of(message: Tree) -> Tree {
    match message.get("params"@) {
        Some(params) => params,
        None => Tree::Null,
    }
}

/// Whether a notification concerns a turn of a thread: it names the thread, and no other turn.
pub open spec fn concerns(thread_id: Seq<char>, turn_id: Seq<char>, message: Tree) -> bool {
    let params = params_of(message);
    text_of(params.get("threadId"@)) == Some(thread_id) && match text_of(params.get("turnId"@)) {
        Some(id) => id == turn_id,
        None => true,
    }
}

/// Whether a notification brings a message of the agent.
pub open spec fn is_answer(message: Tree) -> bool {
    text_of(message.get("method"@)) == Some("item/completed"@) && text_of(
        params_of(message).at("item"@, "type"@),
    ) == Some("agentMessage"@)
}

/// The text of the agent's message that a notification brings.
pub open spec fn answer_text(message: Tree) -> Option<Seq<char>> {
    text_of(params_of(message).at("item"@, "text"@))
}

/// Whether a notification ends a turn.
pub open spec fn is_end(message: Tree) -> bool {
    text_of(message.get("method"@)) == Some("turn/completed"@)
}

/// How a turn ended, given the agent's last message.
pub open spec fn verdict(message: Tree, answer: Option<Seq<char>>) -> Result<Seq<char>, Seq<char>> {
    let params = params_of(message);
    if text_of(params.at("turn"@, "status"@)) != Some("completed"@) {
        match text_of(params.at3("turn"@, "error"@, "message"@)) {
            Some(error) => Err(error),
            None => Err("identity turn did not complete"@),
        }
    } else {
        match answer {
            Some(text) => Ok(text),
            None => Err("identity turn completed without an agent message"@),
        }
    }
}

/// How far a turn has come.
pub enum Progress {
    /// It goes on; this is the agent's last message.
    Listening(Option<Seq<char>>),
    /// It is over.
    Over(Result<Seq<char>, Seq<char>>),
}

/// What a notification makes of a turn that goes on.
pub open spec fn advanced(
    thread_id: Seq<char>,
    turn_id: Seq<char>,
    answer: Option<Seq<char>>,
    message: Tree,
) -> Progress {
    if !concerns(thread_id, turn_id, message) {
        Progress::Listening(answer)
    } else {
        let answer = if is_answer(message) {
            answer_text(message)
        } else {
            answer
        };
        if is_end(message) {
            Progress::Over(verdict(message, answer))
        } else {
            Progress::Listening(answer)
        }
    }
}

/// A turn whose end is awaited, with the agent's last message so far.
#[derive(Debug, PartialEq, Eq)]
pub struct Completion {
    pub thread_id: String,
    pub turn_id: String,
    pub answer: Option<String>,
}

impl Completion {
    /// What a notification makes of the turn: nothing yet, or its outcome.
    pub fn observe(&mut self, message: &Json) -> (r: Option<Result<String, AppServerError>>)
        ensures
            final(self).thread_id == old(self).thread_id,
            final(self).turn_id == old(self).turn_id,
            match advanced(
                old(self).thread_id@,
                old(self).turn_id@,
                opt_text(old(self).answer),
                message.tree(),
            ) {
                Progress::Listening(answer) => r is None && opt_text(final(self).answer) == answer,
                Progress::Over(Ok(text)) => r is Some && r->Some_0 is Ok && r->Some_0->Ok_0@ == text,
                Progress::Over(Err(complaint)) => r is Some && control_error(r->Some_0, complaint),
            },
    {
        let none = Json::Null;
        let params = match message.get("params") {
            Some(params) => params,
            None => &none,
        };
        assert(params.tree() == params_of(message.tree()));
        if !is_text(params.get("threadId"), self.thread_id.as_str()) {
            return None;
        }
        if let Some(id) = as_text(params.get("turnId")) {
            if !same(id.as_str(), self.turn_id.as_str()) {
                return None;
            }
        }
        assert(concerns(self.thread_id@, self.turn_id@, message.tree()));
        if is_text(message.get("method"), "item/completed") && is_text(
            params.at("item", "type"),
            "agentMessage",
        ) {
            self.answer = match as_text(params.at("item", "text")) {
                Some(text) => Some(text.clone()),
                None => None,
            };
        }
        if !is_text(message.get("method"), "turn/completed") {
            return None;
        }
        if !is_text(params.at("turn", "status"), "completed") {
            let complaint = match as_text(params.at3("turn", "error", "message")) {
                Some(error) => error.clone(),
                None => "identity turn did not complete".to_owned(),
            };
            return Some(Err(AppServerError::Control(complaint)));
        }
        match copy_text(&self.answer) {
            Some(text) => Some(Ok(text)),
            None => Some(
                Err(
                    AppServerError::Control(
                        "identity turn completed without an agent message".to_owned(),
                    ),
                ),
            ),
        }
    }
}

/// How far a turn has come after a row of notifications.
pub open spec fn progress(
    thread_id: Seq<char>,
    turn_id: Seq<char>,
    messages: Seq<Tree>,
) -> Progress
    decreases messages.len(),
{
    if messages.len() == 0 {
        Progress::Listening(None)
    } else {
        match progress(thread_id, turn_id, messages.drop_last()) {
            Progress::Listening(answer) => advanced(thread_id, turn_id, answer, messages.last()),
            over => over,
        }
    }
}

/// Whether a notification brings a message of the agent in the turn.
pub open spec fn answers(thread_id: Seq<char>, turn_id: Seq<char>, message: Tree) -> bool {
    concerns(thread_id, turn_id, message) && is_answer(message)
}

/// The message `text` stands in the row, and the agent completed none after it in the turn.
pub open spec fn last_answer(
    thread_id: Seq<char>,
    turn_id: Seq<char>,
    messages: Seq<Tree>,
    text: Seq<char>,
) -> bool {
    exists|i: int|
        0 <= i < messages.len() && answers(thread_id, turn_id, #[trigger] messages[i])
            && answer_text(messages[i]) == Some(text) && forall|j: int|
            i < j < messages.len() ==> !answers(thread_id, turn_id, #[trigger] messages[j])
}

proof fn lemma_last_answer_kept(
    thread_id: Seq<char>,
    turn_id: Seq<char>,
    messages: Seq<Tree>,
    text: Seq<char>,
)
    requires
        messages.len() > 0,
        last_answer(thread_id, turn_id, messages.drop_last(), text),
        !answers(thread_id, turn_id, messages.last()),
    ensures
        last_answer(thread_id, turn_id, messages, text),
{
    let before = messages.drop_last();
    assert(forall|j: int| 0 <= j < before.len() ==> before[j] == messages[j]);
    let i = choose|i: int|
        0 <= i < before.len() && answers(thread_id, turn_id, #[trigger] before[i]) && answer_text(
            before[i],
        ) == Some(text) && forall|j: int|
            i < j < before.len() ==> !answers(thread_id, turn_id, #[trigger] before[j]);
    assert(answers(thread_id, turn_id, messages[i]));
    assert forall|j: int| i < j < messages.len() implies !answers(
        thread_id,
        turn_id,
        #[trigger] messages[j],
    ) by {
        if j < before.len() {
            assert(!answers(thread_id, turn_id, before[j]));
        }
    }
}

proof fn lemma_listening(
    thread_id: Seq<char>,
    turn_id: Seq<char>,
    messages: Seq<Tree>,
    text: Seq<char>,
)
    requires
        progress(thread_id, turn_id, messages) == Progress::Listening(Some(text)),
    ensures
        last_answer(thread_id, turn_id, messages, text),
    decreases messages.len(),
{
    if answers(thread_id, turn_id, messages.last()) {
        assert(answers(thread_id, turn_id, messages[messages.len() - 1]));
    } else {
        lemma_listening(thread_id, turn_id, messages.drop_last(), text);
        lemma_last_answer_kept(thread_id, turn_id, messages, text);
    }
}

/// What the forge returns when the turn ends is a message that the agent completed in this very
/// turn, and the agent completed none after it in that turn.
pub proof fn law_forged_text_is_the_last_message(
    thread_id: Seq<char>,
    turn_id: Seq<char>,
    messages: Seq<Tree>,
    text: Seq<char>,
)
    requires
        messages.len() > 0,
        progress(thread_id, turn_id, messages.drop_last()) is Listening,
        progress(thread_id, turn_id, messages) == Progress::Over(Ok(text)),
    ensures
        is_end(messages.last()),
        concerns(thread_id, turn_id, messages.last()),
        last_answer(thread_id, turn_id, messages, text),
{
    if answers(thread_id, turn_id, messages.last()) {
        assert(answers(thread_id, turn_id, messages[messages.len() - 1]));
    } else {
        lemma_listening(thread_id, turn_id, messages.drop_last(), text);
        lemma_last_answer_kept(thread_id, turn_id, messages, text);
    }
}

/// What the forge needs: the session, the brief and the schema of the answer.
#[derive(Debug, PartialEq, Eq)]
pub struct Brief {
    pub session: SessionId,
    pub prompt: String,
    pub schema: Json,
}

/// A forging, by what is to be done next. Each call is to be made, and its reply handed to
/// `replied`.
#[derive(Debug, PartialEq, Eq)]
pub enum Forge {
    /// Read the thread.
    Read { call: Call, brief: Brief },
    /// Fork it.
    Fork { call: Call, prompt: String, schema: Json },
    /// Start the turn in which the fork writes.
    Start { call: Call, thread_id: String },
    /// Hand notifications to `heard`, or call `expired`.
    Await(Completion),
    /// Leave the fork.
    Leave { call: Call, result: Result<String, AppServerError> },
    Done(Result<String, AppServerError>),
}

/// A forging that failed with a control error.
pub open spec fn forge_failed(forge: Forge, message: Seq<char>) -> bool {
    forge is Done && control_error(forge->Done_0, message)
}

/// A forging that has not begun: the session's thread is read.
pub open spec fn forge_begins(brief: Brief, next: Forge) -> bool {
    &&& next is Read
    &&& next->Read_call.says("thread/read"@, read_tree(brief.session))
    &&& next->Read_brief == brief
}

/// What a reply makes of a forging.
pub open spec fn forge_replied(
    forge: Forge,
    reply: Result<Json, AppServerError>,
    next: Forge,
) -> bool {
    match (forge, reply) {
        (Forge::Leave { result, .. }, _) => next == Forge::Done(result),
        (Forge::Await(_), _) => next == forge,
        (Forge::Done(_), _) => next == forge,
        (_, Err(error)) => next == Forge::Done(Err(error)),
        (Forge::Read { brief, .. }, Ok(source)) => {
            &&& next is Fork
            &&& next->Fork_call.says(
                "thread/fork"@,
                fork_tree(brief.session, active_turn_id(source.tree())),
            )
            &&& next->Fork_prompt@ == brief_text(brief.prompt@, thread_evidence(source.tree()))
            &&& next->Fork_schema == brief.schema
        },
        (Forge::Fork { prompt, schema, .. }, Ok(forked)) => match text_of(
            forked.tree().at("thread"@, "id"@),
        ) {
            Some(id) => {
                &&& next is Start
                &&& next->Start_thread_id@ == id
                &&& next->Start_call.bears(
                    "turn/start"@,
                    forge_turn_tree(id, prompt@, schema.tree()),
                )
                &&& schema.settled() ==> next->Start_call.params.settled()
            },
            None => forge_failed(next, "missing forked thread id"@),
        },
        (Forge::Start { thread_id, .. }, Ok(started)) => match text_of(
            started.tree().at("turn"@, "id"@),
        ) {
            Some(id) => {
                &&& next is Await
                &&& next->Await_0.thread_id == thread_id
                &&& next->Await_0.turn_id@ == id
                &&& next->Await_0.answer is None
            },
            None => forge_failed(next, "missing identity turn id"@),
        },
    }
}

/// What a notification, or the failure to get one, makes of a forging.
pub open spec fn forge_heard(
    forge: Forge,
    message: Result<Json, AppServerError>,
    next: Forge,
) -> bool {
    match (forge, message) {
        (Forge::Await(turn), Ok(message)) => match advanced(
            turn.thread_id@,
            turn.turn_id@,
            opt_text(turn.answer),
            message.tree(),
        ) {
            Progress::Listening(answer) => {
                &&& next is Await
                &&& next->Await_0.thread_id == turn.thread_id
                &&& next->Await_0.turn_id == turn.turn_id
                &&& opt_text(next->Await_0.answer) == answer
            },
            Progress::Over(Ok(text)) => {
                &&& next is Leave
                &&& next->Leave_call.says("thread/unsubscribe"@, thread_tree(turn.thread_id@))
                &&& next->Leave_result is Ok
                &&& next->Leave_result->Ok_0@ == text
            },
            Progress::Over(Err(complaint)) => {
                &&& next is Leave
                &&& next->Leave_call.says("thread/unsubscribe"@, thread_tree(turn.thread_id@))
                &&& control_error(next->Leave_result, complaint)
            },
        },
        (Forge::Await(turn), Err(error)) => {
            &&& next is Leave
            &&& next->Leave_call.says("thread/unsubscribe"@, thread_tree(turn.thread_id@))
            &&& next->Leave_result == Err::<String, AppServerError>(error)
        },
        _ => next == forge,
    }
}

/// What the end of its time makes of a forging.
pub open spec fn forge_expired(forge: Forge, next: Forge) -> bool {
    if forge is Await {
        forge_failed(next, "identity forge timed out"@)
    } else {
        next == forge
    }
}

impl Forge {
    /// A forging that has not begun.
    pub fn begin(brief: Brief) -> (r: Forge)
        ensures
            forge_begins(brief, r),
    {
        Forge::Read { call: read_thread(brief.session), brief }
    }

    /// What a reply makes of the forging. One that awaits no reply stays as it is.
    pub fn replied(self, reply: Result<Json, AppServerError>) -> (r: Forge)
        ensures
            forge_replied(self, reply, r),
    {
        match self {
            Forge::Leave { call: _, result } => Forge::Done(result),
            Forge::Await(turn) => Forge::Await(turn),
            Forge::Done(result) => Forge::Done(result),
            Forge::Read { call: _, brief } => match reply {
                Err(error) => Forge::Done(Err(error)),
                Ok(source) => Forge::fork(brief, &source),
            },
            Forge::Fork { call: _, prompt, schema } => match reply {
                Err(error) => Forge::Done(Err(error)),
                Ok(forked) => match required_string(&forked, "thread", "id", "forked thread id") {
                    Ok(thread_id) => Forge::Start {
                        call: start_forge_turn(thread_id.as_str(), prompt.as_str(), schema),
                        thread_id,
                    },
                    Err(error) => {
                        assert("missing "@ + "forked thread id"@ =~= "missing forked thread id"@) by {
                            reveal_strlit("missing ");
                            reveal_strlit("forked thread id");
                            reveal_strlit("missing forked thread id");
                        }
                        Forge::Done(Err(error))
                    },
                },
            },
            Forge::Start { call: _, thread_id } => match reply {
                Err(error) => Forge::Done(Err(error)),
                Ok(started) => match required_string(&started, "turn", "id", "identity turn id") {
                    Ok(turn_id) => Forge::Await(Completion { thread_id, turn_id, answer: None }),
                    Err(error) => {
                        assert("missing "@ + "identity turn id"@ =~= "missing identity turn id"@) by {
                            reveal_strlit("missing ");
                            reveal_strlit("identity turn id");
                            reveal_strlit("missing identity turn id");
                        }
                        Forge::Done(Err(error))
                    },
                },
            },
        }
    }

    fn fork(brief: Brief, source: &Json) -> (r: Forge)
        ensures
            r is Fork,
            r->Fork_call.says(
                "thread/fork"@,
                fork_tree(brief.session, active_turn_id(source.tree())),
            ),
            r->Fork_prompt@ == brief_text(brief.prompt@, thread_evidence(source.tree())),
            r->Fork_schema == brief.schema,
    {
        let turn = find_active_turn(source);
        let evidence = match turn {
            Some(turn) => active_user_evidence(turn),
            None => {
                let none: Vec<String> = Vec::new();
                assert(texts(none@) =~= Seq::<Seq<char>>::empty());
                none
            },
        };
        let call = match turn {
            Some(turn) => fork_thread(brief.session, as_text(turn.get("id"))),
            None => fork_thread(brief.session, None),
        };
        let prompt = if evidence.len() == 0 {
            brief.prompt
        } else {
            let requests = Json::strings(&evidence).render();
            glue3(brief.prompt.as_str(), EVIDENCE_HEADING, requests.as_str())
        };
        Forge::Fork { call, prompt, schema: brief.schema }
    }

    /// What a notification, or the failure to get one, makes of the forging. One that awaits no
    /// notification stays as it is.
    pub fn heard(self, message: Result<Json, AppServerError>) -> (r: Forge)
        ensures
            forge_heard(self, message, r),
    {
        match self {
            Forge::Await(turn) => {
                let mut turn = turn;
                let outcome = match message {
                    Ok(message) => turn.observe(&message),
                    Err(error) => Some(Err(error)),
                };
                match outcome {
                    None => Forge::Await(turn),
                    Some(result) => Forge::Leave {
                        call: leave_thread(turn.thread_id.as_str()),
                        result,
                    },
                }
            },
            other => other,
        }
    }

    /// The turn took too long.
    pub fn expired(self) -> (r: Forge)
        ensures
            forge_expired(self, r),
    {
        match self {
            Forge::Await(_) => Forge::Done(
                Err(AppServerError::Control("identity forge timed out".to_owned())),
            ),
            other => other,
        }
    }
}

/// The text of a content that is one: an object of type `text` that holds a text.
pub open spec fn is_text_content(content: Tree, text: Seq<char>) -> bool {
    content.get("type"@) == Some(Tree::Text("text"@)) && content.get("text"@) == Some(
        Tree::Text(text),
    )
}

/// The texts of two rows of contents are those of the first followed by those of the second; a
/// content of type `text` brings its text, and any other brings none.
pub proof fn law_contents_keep_their_texts(left: Seq<Tree>, right: Seq<Tree>, text: Seq<char>)
    ensures
        content_texts(left + right) == content_texts(left) + content_texts(right),
        content_texts(Seq::empty()).len() == 0,
        left.len() == 1 && is_text_content(left[0], text) ==> content_texts(left) == seq![text],
        left.len() == 1 && (forall|other: Seq<char>| !is_text_content(left[0], other))
            ==> content_texts(left).len() == 0,
    decreases right.len(),
{
    if left.len() == 1 {
        assert(left.drop_last() =~= Seq::<Tree>::empty());
        assert(content_texts(left.drop_last()) =~= Seq::<Seq<char>>::empty());
        assert(left.last() == left[0]);
        if is_text_content(left[0], text) {
            assert(content_texts(left) =~= seq![text]);
        }
        if content_texts(left).len() > 0 {
            assert(is_text_content(left[0], content_texts(left)[0]));
        }
    }
    if right.len() == 0 {
        assert(left + right =~= left);
        assert(content_texts(left) + content_texts(right) =~= content_texts(left));
    } else {
        let fewer = right.drop_last();
        law_contents_keep_their_texts(left, fewer, text);
        assert((left + right).drop_last() =~= left + fewer);
        assert((left + right).last() == right.last());
        assert(content_texts(left + right) =~= content_texts(left) + content_texts(right));
    }
}

/// The texts of two rows of items are those of the first followed by those of the second; a message
/// of the user brings the texts of its contents, and any other item brings none.
pub proof fn law_items_keep_their_texts(left: Seq<Tree>, right: Seq<Tree>, contents: Seq<Tree>)
    ensures
        message_texts(left + right) == message_texts(left) + message_texts(right),
        message_texts(Seq::empty()).len() == 0,
        left.len() == 1 && left[0].get("type"@) == Some(Tree::Text("userMessage"@)) && left[0].get(
            "content"@,
        ) == Some(Tree::Array(contents)) ==> message_texts(left) == content_texts(contents),
        left.len() == 1 && left[0].get("type"@) != Some(Tree::Text("userMessage"@)) ==> message_texts(
            left,
        ).len() == 0,
    decreases right.len(),
{
    if left.len() == 1 {
        assert(left.drop_last() =~= Seq::<Tree>::empty());
        assert(message_texts(left.drop_last()) =~= Seq::<Seq<char>>::empty());
        assert(left.last() == left[0]);
        assert(Seq::<Seq<char>>::empty() + content_texts(contents) =~= content_texts(contents));
    }
    if right.len() == 0 {
        assert(left + right =~= left);
        assert(message_texts(left) + message_texts(right) =~= message_texts(left));
    } else {
        let fewer = right.drop_last();
        law_items_keep_their_texts(left, fewer, contents);
        assert((left + right).drop_last() =~= left + fewer);
        assert((left + right).last() == right.last());
        assert(message_texts(left + right) =~= message_texts(left) + message_texts(right));
    }
}

proof fn lemma_content_occurs(contents: Seq<Tree>, at: int, text: Seq<char>)
    requires
        0 <= at < contents.len(),
        is_text_content(contents[at], text),
    ensures
        content_texts(contents).contains(text),
{
    let before = contents.take(at);
    let here = seq![contents[at]];
    let behind = contents.skip(at + 1);
    assert(contents =~= before + (here + behind));
    law_contents_keep_their_texts(before, here + behind, text);
    law_contents_keep_their_texts(here, behind, text);
    assert(content_texts(contents)[content_texts(before).len() as int] == text);
}

/// Every text of every message of the user in a turn is among the turn's texts, wherever the message
/// stands and whatever stands around it.
pub proof fn law_every_request_is_heard(
    turn: Tree,
    items: Seq<Tree>,
    at: int,
    contents: Seq<Tree>,
    place: int,
    text: Seq<char>,
)
    requires
        turn.get("items"@) == Some(Tree::Array(items)),
        0 <= at < items.len(),
        items[at].get("type"@) == Some(Tree::Text("userMessage"@)),
        items[at].get("content"@) == Some(Tree::Array(contents)),
        0 <= place < contents.len(),
        is_text_content(contents[place], text),
    ensures
        user_texts(turn).contains(text),
        flat(user_texts(turn)).len() <= 16_000 && text.len() > 0 ==> evidence_texts(turn).contains(text),
{
    let before = items.take(at);
    let here = seq![items[at]];
    let behind = items.skip(at + 1);
    assert(items =~= before + (here + behind));
    law_items_keep_their_texts(before, here + behind, contents);
    law_items_keep_their_texts(here, behind, contents);
    lemma_content_occurs(contents, place, text);
    let own = content_texts(contents);
    let k = choose|k: int| 0 <= k < own.len() && own[k] == text;
    assert(user_texts(turn)[message_texts(before).len() + k] == text);
    if flat(user_texts(turn)).len() <= 16_000 && text.len() > 0 {
        law_short_requests_are_shown_whole(user_texts(turn), 16_000);
        let whole = user_texts(turn);
        broadcast use vstd::seq_lib::group_filter_ensures;

        assert(whole[message_texts(before).len() + k] == text);
    }
}

/// Texts, one behind the other, hold all their characters in order.
pub proof fn law_flat_texts(left: Seq<Seq<char>>, right: Seq<Seq<char>>)
    ensures
        flat(left + right) == flat(left) + flat(right),
        left.len() == 1 ==> flat(left) == left[0],
        flat(Seq::empty()).len() == 0,
    decreases right.len(),
{
    if left.len() == 1 {
        assert(left.drop_last() =~= Seq::<Seq<char>>::empty());
        assert(flat(left.drop_last()) =~= Seq::<char>::empty());
        assert(Seq::<char>::empty() + left.last() =~= left[0]);
    }
    if right.len() == 0 {
        assert(left + right =~= left);
        assert(flat(left) + flat(right) =~= flat(left));
    } else {
        let fewer = right.drop_last();
        law_flat_texts(left, fewer);
        assert((left + right).drop_last() =~= left + fewer);
        assert((left + right).last() == right.last());
        assert(flat(left + right) =~= flat(left) + flat(right));
    }
}

/// Texts that fit the limit together are shown whole and in order, but for empty ones.
pub proof fn law_short_requests_are_shown_whole(parts: Seq<Seq<char>>, limit: nat)
    requires
        flat(parts).len() <= limit,
    ensures
        excerpts(parts, limit) == parts.filter(|part: Seq<char>| part.len() > 0),
    decreases parts.len(),
{
    reveal(Seq::filter);
    if parts.len() > 0 {
        let before = parts.drop_last();
        law_short_requests_are_shown_whole(before, limit);
        law_excerpts_fit(before, limit);
        assert(clipped(flat(before), limit) == flat(before));
        assert(clipped(parts.last(), (limit - flat(before).len()) as nat) == parts.last());
    } else {
        assert(excerpts(parts, limit) =~= parts.filter(|part: Seq<char>| part.len() > 0));
    }
}

proof fn lemma_last_active(turns: Seq<Tree>, at: int)
    requires
        0 <= at < turns.len(),
        turns[at].get("status"@) == Some(Tree::Text("inProgress"@)),
        forall|i: int|
            at < i < turns.len() ==> (#[trigger] turns[i]).get("status"@) != Some(
                Tree::Text("inProgress"@),
            ),
    ensures
        last_active(turns) == Some(turns[at]),
    decreases turns.len(),
{
    if at < turns.len() - 1 {
        assert(turns[turns.len() - 1].get("status"@) != Some(Tree::Text("inProgress"@)));
        let before = turns.drop_last();
        assert(forall|i: int| 0 <= i < before.len() ==> before[i] == turns[i]);
        lemma_last_active(before, at);
    }
}

proof fn lemma_none_active(turns: Seq<Tree>)
    requires
        forall|i: int|
            0 <= i < turns.len() ==> (#[trigger] turns[i]).get("status"@) != Some(
                Tree::Text("inProgress"@),
            ),
    ensures
        last_active(turns) is None,
    decreases turns.len(),
{
    if turns.len() > 0 {
        assert(turns[turns.len() - 1].get("status"@) != Some(Tree::Text("inProgress"@)));
        let before = turns.drop_last();
        assert(forall|i: int| 0 <= i < before.len() ==> before[i] == turns[i]);
        lemma_none_active(before);
    }
}

/// A thread is forked right before its last turn that is under way, and what the operator asks for
/// in that turn is what the forge is shown; where no turn is under way, the whole thread is forked.
pub proof fn law_forks_leave_out_the_active_turn(
    source: Tree,
    turns: Seq<Tree>,
    at: int,
    turn_id: Seq<char>,
    session: SessionId,
)
    requires
        source.at("thread"@, "turns"@) == Some(Tree::Array(turns)),
    ensures
        0 <= at < turns.len() && turns[at].get("status"@) == Some(Tree::Text("inProgress"@))
            && turns[at].get("id"@) == Some(Tree::Text(turn_id)) && (forall|i: int|
            at < i < turns.len() ==> (#[trigger] turns[i]).get("status"@) != Some(
                Tree::Text("inProgress"@),
            )) ==> active_turn(source) == Some(turns[at]) && thread_evidence(source)
            == evidence_texts(turns[at]) && fork_tree(session, active_turn_id(source)).get(
            "beforeTurnId"@,
        ) == Some(Tree::Text(turn_id)),
        (forall|i: int|
            0 <= i < turns.len() ==> (#[trigger] turns[i]).get("status"@) != Some(
                Tree::Text("inProgress"@),
            )) ==> active_turn(source) is None && thread_evidence(source).len() == 0 && fork_tree(
            session,
            active_turn_id(source),
        ).get("beforeTurnId"@) is None,
{
    lemma_fork_keys();
    if 0 <= at < turns.len() && turns[at].get("status"@) == Some(Tree::Text("inProgress"@)) && (
    forall|i: int|
        at < i < turns.len() ==> (#[trigger] turns[i]).get("status"@) != Some(
            Tree::Text("inProgress"@),
        )) {
        lemma_last_active(turns, at);
    }
    if forall|i: int|
        0 <= i < turns.len() ==> (#[trigger] turns[i]).get("status"@) != Some(
            Tree::Text("inProgress"@),
        ) {
        lemma_none_active(turns);
    }
}

proof fn lemma_fork_keys()
    ensures
        ({
            let keys = seq![
                "threadId"@,
                "ephemeral"@,
                "excludeTurns"@,
                "model"@,
                "serviceTier"@,
                "approvalPolicy"@,
                "sandbox"@,
                "developerInstructions"@,
                "beforeTurnId"@,
                "input"@,
                "effort"@,
                "sandboxPolicy"@,
                "outputSchema"@,
                "type"@,
                "networkAccess"@,
            ];
            forall|i: int, j: int| 0 <= i < j < keys.len() ==> #[trigger] keys[i] != #[trigger] keys[j]
        }),
        "threadId"@ != "ephemeral"@,
        "threadId"@ != "excludeTurns"@,
        "threadId"@ != "model"@,
        "threadId"@ != "serviceTier"@,
        "threadId"@ != "approvalPolicy"@,
        "threadId"@ != "sandbox"@,
        "threadId"@ != "developerInstructions"@,
        "threadId"@ != "beforeTurnId"@,
        "beforeTurnId"@ != "ephemeral"@,
        "beforeTurnId"@ != "excludeTurns"@,
        "beforeTurnId"@ != "model"@,
        "beforeTurnId"@ != "serviceTier"@,
        "beforeTurnId"@ != "approvalPolicy"@,
        "beforeTurnId"@ != "sandbox"@,
        "beforeTurnId"@ != "developerInstructions"@,
{
    reveal_strlit("threadId");
    reveal_strlit("ephemeral");
    reveal_strlit("excludeTurns");
    reveal_strlit("model");
    reveal_strlit("serviceTier");
    reveal_strlit("approvalPolicy");
    reveal_strlit("sandbox");
    reveal_strlit("developerInstructions");
    reveal_strlit("beforeTurnId");
    reveal_strlit("input");
    reveal_strlit("effort");
    reveal_strlit("sandboxPolicy");
    reveal_strlit("outputSchema");
    reveal_strlit("type");
    reveal_strlit("networkAccess");
    let keys = seq![
        "threadId"@,
        "ephemeral"@,
        "excludeTurns"@,
        "model"@,
        "serviceTier"@,
        "approvalPolicy"@,
        "sandbox"@,
        "developerInstructions"@,
        "beforeTurnId"@,
        "input"@,
        "effort"@,
        "sandboxPolicy"@,
        "outputSchema"@,
        "type"@,
        "networkAccess"@,
    ];
    assert forall|i: int, j: int| 0 <= i < j < keys.len() implies #[trigger] keys[i] != #[trigger] keys[j] by {
        assert(keys[i][0] != keys[j][0] || keys[i].len() != keys[j].len() || keys[i][1] != keys[j][1]);
    }
    assert(keys[0] != keys[1] && keys[0] != keys[2] && keys[0] != keys[3] && keys[0] != keys[4] && keys[0]
        != keys[5] && keys[0] != keys[6] && keys[0] != keys[7] && keys[0] != keys[8]);
    assert(keys[1] != keys[8] && keys[2] != keys[8] && keys[3] != keys[8] && keys[4] != keys[8]
        && keys[5] != keys[8] && keys[6] != keys[8] && keys[7] != keys[8]);
}

/// The forge can do nothing but write: its fork is of the session's thread, it is ephemeral,
/// read-only and asks for no approval, and its turn is offline, read-only and bound to the schema, with
/// the prompt as its whole input.
pub proof fn law_forge_only_writes(
    session: SessionId,
    before: Option<Seq<char>>,
    thread_id: Seq<char>,
    prompt: Seq<char>,
    schema: Tree,
)
    ensures
        fork_tree(session, before).get("threadId"@) == Some(
            Tree::Text(hyphenated_text(session.value)),
        ),
        fork_tree(session, before).get("ephemeral"@) == Some(Tree::Bool(true)),
        fork_tree(session, before).get("excludeTurns"@) == Some(Tree::Bool(true)),
        fork_tree(session, before).get("approvalPolicy"@) == Some(Tree::Text("never"@)),
        fork_tree(session, before).get("sandbox"@) == Some(Tree::Text("read-only"@)),
        fork_tree(session, before).get("model"@) == Some(Tree::Text("gpt-5.6-luna"@)),
        forge_turn_tree(thread_id, prompt, schema).get("model"@) == Some(Tree::Text("gpt-5.6-luna"@)),
        forge_turn_tree(thread_id, prompt, schema).get("effort"@) == Some(Tree::Text("xhigh"@)),
        forge_turn_tree(thread_id, prompt, schema).get("threadId"@) == Some(Tree::Text(thread_id)),
        forge_turn_tree(thread_id, prompt, schema).get("outputSchema"@) == Some(schema),
        forge_turn_tree(thread_id, prompt, schema).get("approvalPolicy"@) == Some(
            Tree::Text("never"@),
        ),
        forge_turn_tree(thread_id, prompt, schema).at("sandboxPolicy"@, "type"@) == Some(
            Tree::Text("readOnly"@),
        ),
        forge_turn_tree(thread_id, prompt, schema).at("sandboxPolicy"@, "networkAccess"@) == Some(
            Tree::Bool(false),
        ),
        items_of(forge_turn_tree(thread_id, prompt, schema).get("input"@)).len() == 1,
        is_text_content(
            items_of(forge_turn_tree(thread_id, prompt, schema).get("input"@))[0],
            prompt,
        ),
{
    lemma_fork_keys();
    let keys = seq![
        "threadId"@,
        "ephemeral"@,
        "excludeTurns"@,
        "model"@,
        "serviceTier"@,
        "approvalPolicy"@,
        "sandbox"@,
        "developerInstructions"@,
        "beforeTurnId"@,
        "input"@,
        "effort"@,
        "sandboxPolicy"@,
        "outputSchema"@,
        "type"@,
        "networkAccess"@,
    ];
    assert forall|i: int, j: int| 0 <= i < keys.len() && 0 <= j < keys.len() && i != j implies
        #[trigger] keys[i] != #[trigger] keys[j] by {
        if i < j {
        } else {
            assert(keys[j] != keys[i]);
        }
    }
    assert(keys[0] == "threadId"@ && keys[1] == "ephemeral"@ && keys[2] == "excludeTurns"@ && keys[3]
        == "model"@ && keys[4] == "serviceTier"@ && keys[5] == "approvalPolicy"@ && keys[6]
        == "sandbox"@ && keys[7] == "developerInstructions"@ && keys[8] == "beforeTurnId"@ && keys[9]
        == "input"@ && keys[10] == "effort"@ && keys[11] == "sandboxPolicy"@ && keys[12]
        == "outputSchema"@ && keys[13] == "type"@ && keys[14] == "networkAccess"@);
    law_inputs_hold_their_text(prompt);
}

/// An input of a turn is a text content that holds the text as it is.
pub proof fn law_inputs_hold_their_text(text: Seq<char>)
    ensures
        is_text_content(input_tree(text), text),
        content_texts(seq![input_tree(text)]) == seq![text],
{
    reveal_strlit("type");
    reveal_strlit("text");
    reveal_strlit("textElements");
    assert("type"@[1] == 'y' && "text"@[1] == 'e');
    assert("textElements"@.len() == 12 && "type"@.len() == 4 && "text"@.len() == 4);
    law_contents_keep_their_texts(seq![input_tree(text)], Seq::empty(), text);
}

/// The prompt of the forge begins with the brief, and where the operator asks for something right now
/// it ends with all of it.
pub proof fn law_briefs_show_requests(prompt: Seq<char>, evidence: Seq<Seq<char>>)
    ensures
        prompt.is_prefix_of(brief_text(prompt, evidence)),
        evidence.len() == 0 ==> brief_text(prompt, evidence) == prompt,
        evidence.len() > 0 ==> json_text(text_array(evidence)).is_suffix_of(
            brief_text(prompt, evidence),
        ),
        text_array(evidence) is Array,
        text_array(evidence)->Array_0.len() == evidence.len(),
        forall|i: int|
            0 <= i < evidence.len() ==> #[trigger] text_array(evidence)->Array_0[i] == Tree::Text(
                evidence[i],
            ),
{
    let whole = brief_text(prompt, evidence);
    assert(whole.take(prompt.len() as int) =~= prompt);
    if evidence.len() > 0 {
        let tail = json_text(text_array(evidence));
        assert(whole.subrange(whole.len() - tail.len(), whole.len() as int) =~= tail);
    }
}

/// Whether a notification names a thread, and no other turn than the given.
pub open spec fn is_about(message: Tree, thread_id: Seq<char>, turn_id: Seq<char>) -> bool {
    message.at("params"@, "threadId"@) == Some(Tree::Text(thread_id)) && match message.at(
        "params"@,
        "turnId"@,
    ) {
        Some(Tree::Text(id)) => id == turn_id,
        _ => true,
    }
}

/// Whether a notification says that a message of the agent is complete.
pub open spec fn completes_message(message: Tree) -> bool {
    message.get("method"@) == Some(Tree::Text("item/completed"@)) && message.at3(
        "params"@,
        "item"@,
        "type"@,
    ) == Some(Tree::Text("agentMessage"@))
}

/// Whether a notification says that a turn is complete.
pub open spec fn completes_turn(message: Tree) -> bool {
    message.get("method"@) == Some(Tree::Text("turn/completed"@))
}

proof fn lemma_forge_words()
    ensures
        "item/completed"@ != "turn/completed"@,
{
    reveal_strlit("item/completed");
    reveal_strlit("turn/completed");
    assert("item/completed"@[0] == 'i' && "turn/completed"@[0] == 't');
}

proof fn lemma_still_listening(
    thread_id: Seq<char>,
    turn_id: Seq<char>,
    messages: Seq<Tree>,
    at: int,
    text: Seq<char>,
)
    requires
        forall|i: int|
            0 <= i < messages.len() && is_about(#[trigger] messages[i], thread_id, turn_id)
                ==> !completes_turn(messages[i]),
        0 <= at < messages.len(),
        is_about(messages[at], thread_id, turn_id),
        completes_message(messages[at]),
        params_of(messages[at]).at("item"@, "text"@) == Some(Tree::Text(text)),
        forall|i: int|
            at < i < messages.len() && is_about(#[trigger] messages[i], thread_id, turn_id)
                ==> !completes_message(messages[i]),
    ensures
        progress(thread_id, turn_id, messages) == Progress::Listening(Some(text)),
    decreases messages.len(),
{
    let before = messages.drop_last();
    let last = messages[messages.len() - 1];
    assert(forall|i: int| 0 <= i < before.len() ==> before[i] == messages[i]);
    assert(concerns(thread_id, turn_id, last) == is_about(last, thread_id, turn_id));
    assert(is_answer(last) == completes_message(last));
    if at < before.len() {
        lemma_still_listening(thread_id, turn_id, before, at, text);
    } else {
        lemma_listening_at_all(thread_id, turn_id, before);
    }
}

proof fn lemma_listening_at_all(thread_id: Seq<char>, turn_id: Seq<char>, messages: Seq<Tree>)
    requires
        forall|i: int|
            0 <= i < messages.len() && is_about(#[trigger] messages[i], thread_id, turn_id)
                ==> !completes_turn(messages[i]),
    ensures
        progress(thread_id, turn_id, messages) is Listening,
    decreases messages.len(),
{
    if messages.len() > 0 {
        let before = messages.drop_last();
        let last = messages[messages.len() - 1];
        assert(forall|i: int| 0 <= i < before.len() ==> before[i] == messages[i]);
        assert(concerns(thread_id, turn_id, last) == is_about(last, thread_id, turn_id));
        lemma_listening_at_all(thread_id, turn_id, before);
    }
}

/// Once a turn is complete, the last message that the agent completed in it is the outcome, whatever
/// was said before or in other turns; a turn that did not complete fails in the words of its error;
/// and until its end comes nothing is decided.
pub proof fn law_turns_end_with_their_last_message(
    thread_id: Seq<char>,
    turn_id: Seq<char>,
    messages: Seq<Tree>,
    at: int,
    text: Seq<char>,
    end: Tree,
    error: Seq<char>,
)
    requires
        forall|i: int|
            0 <= i < messages.len() && is_about(#[trigger] messages[i], thread_id, turn_id)
                ==> !completes_turn(messages[i]),
        is_about(end, thread_id, turn_id),
        completes_turn(end),
    ensures
        progress(thread_id, turn_id, messages) is Listening,
        end.at3("params"@, "turn"@, "status"@) == Some(Tree::Text("completed"@)) && 0 <= at
            < messages.len() && is_about(messages[at], thread_id, turn_id) && completes_message(
            messages[at],
        ) && params_of(messages[at]).at("item"@, "text"@) == Some(Tree::Text(text)) && (forall|i: int|
            at < i < messages.len() && is_about(#[trigger] messages[i], thread_id, turn_id)
                ==> !completes_message(messages[i])) ==> progress(
            thread_id,
            turn_id,
            messages.push(end),
        ) == Progress::Over(Ok::<Seq<char>, Seq<char>>(text)),
        end.at3("params"@, "turn"@, "status"@) != Some(Tree::Text("completed"@)) && params_of(end).at3(
            "turn"@,
            "error"@,
            "message"@,
        ) == Some(Tree::Text(error)) ==> progress(thread_id, turn_id, messages.push(end))
            == Progress::Over(Err::<Seq<char>, Seq<char>>(error)),
{
    lemma_forge_words();
    lemma_listening_at_all(thread_id, turn_id, messages);
    assert(messages.push(end).drop_last() =~= messages);
    assert(concerns(thread_id, turn_id, end));
    if 0 <= at < messages.len() && is_about(messages[at], thread_id, turn_id) && completes_message(
        messages[at],
    ) && params_of(messages[at]).at("item"@, "text"@) == Some(Tree::Text(text)) && (forall|i: int|
        at < i < messages.len() && is_about(#[trigger] messages[i], thread_id, turn_id)
            ==> !completes_message(messages[i])) {
        lemma_still_listening(thread_id, turn_id, messages, at, text);
    }
}

/// A forging that is answered throughout asks for the session's thread with its turns, forks it, lets
/// the fork write on the brief, and awaits the turn that was started there; whatever comes of it, it
/// leaves the fork and hands on just that.
pub proof fn law_forging(
    brief: Brief,
    forge: Forge,
    source: Json,
    forked: Json,
    started: Json,
    fork_id: Seq<char>,
    turn_id: Seq<char>,
    fork: Forge,
    start: Forge,
    wait: Forge,
    left: Forge,
    reply: Result<Json, AppServerError>,
    end: Forge,
)
    requires
        forge_begins(brief, forge),
        forge_replied(forge, Ok(source), fork),
        forked.tree().at("thread"@, "id"@) == Some(Tree::Text(fork_id)),
        forge_replied(fork, Ok(forked), start),
        started.tree().at("turn"@, "id"@) == Some(Tree::Text(turn_id)),
        forge_replied(start, Ok(started), wait),
        left is Leave,
        forge_replied(left, reply, end),
    ensures
        forge is Read,
        forge->Read_call.method@ == "thread/read"@,
        forge->Read_call.params.tree().get("threadId"@) == Some(
            Tree::Text(hyphenated_text(brief.session.value)),
        ),
        forge->Read_call.params.tree().get("includeTurns"@) == Some(Tree::Bool(true)),
        fork is Fork,
        fork->Fork_call.method@ == "thread/fork"@,
        fork->Fork_call.params.tree().get("threadId"@) == Some(
            Tree::Text(hyphenated_text(brief.session.value)),
        ),
        start is Start,
        start->Start_call.method@ == "turn/start"@,
        start->Start_call.params.tree().get("threadId"@) == Some(Tree::Text(fork_id)),
        start->Start_call.params.tree().get("outputSchema"@) == Some(
            brief.schema.tree(),
        ),
        brief.prompt@.is_prefix_of(fork->Fork_prompt@),
        content_texts(items_of(start->Start_call.params.tree().get("input"@)))
            == seq![fork->Fork_prompt@],
        wait is Await,
        wait->Await_0.thread_id@ == fork_id,
        wait->Await_0.turn_id@ == turn_id,
        wait->Await_0.answer is None,
        end == Forge::Done(left->Leave_result),
{
    reveal_strlit("threadId");
    reveal_strlit("includeTurns");
    assert("threadId"@.len() == 8 && "includeTurns"@.len() == 12);
    law_briefs_show_requests(brief.prompt@, thread_evidence(source.tree()));
    law_forge_only_writes(
        brief.session,
        active_turn_id(source.tree()),
        fork_id,
        fork->Fork_prompt@,
        brief.schema.tree(),
    );
    let input = items_of(start->Start_call.params.tree().get("input"@));
    law_contents_keep_their_texts(input, Seq::empty(), fork->Fork_prompt@);
}

/// A forging listens as long as its turn goes on, with the agent's last message so far; once the turn
/// is over it leaves just that fork, with the outcome of the turn.
pub proof fn law_forgings_follow_their_turn(
    turn: Completion,
    messages: Seq<Tree>,
    message: Json,
    next: Forge,
    error: AppServerError,
    lost: Forge,
    late: Forge,
)
    requires
        progress(turn.thread_id@, turn.turn_id@, messages) == Progress::Listening(
            opt_text(turn.answer),
        ),
        forge_heard(Forge::Await(turn), Ok(message), next),
        forge_heard(Forge::Await(turn), Err(error), lost),
        forge_expired(Forge::Await(turn), late),
    ensures
        match progress(turn.thread_id@, turn.turn_id@, messages.push(message.tree())) {
            Progress::Listening(answer) => {
                &&& next is Await
                &&& next->Await_0.thread_id == turn.thread_id
                &&& next->Await_0.turn_id == turn.turn_id
                &&& opt_text(next->Await_0.answer) == answer
            },
            Progress::Over(Ok(text)) => {
                &&& next is Leave
                &&& next->Leave_call.method@ == "thread/unsubscribe"@
                &&& next->Leave_call.params.tree().get("threadId"@) == Some(
                    Tree::Text(turn.thread_id@),
                )
                &&& next->Leave_result is Ok
                &&& next->Leave_result->Ok_0@ == text
            },
            Progress::Over(Err(complaint)) => {
                &&& next is Leave
                &&& next->Leave_call.method@ == "thread/unsubscribe"@
                &&& next->Leave_call.params.tree().get("threadId"@) == Some(
                    Tree::Text(turn.thread_id@),
                )
                &&& control_error(next->Leave_result, complaint)
            },
        },
        lost is Leave && lost->Leave_result == Err::<String, AppServerError>(error),
        late is Done && control_error(late->Done_0, "identity forge timed out"@),
{
    assert(messages.push(message.tree()).drop_last() =~= messages);
}

/// A forging that is not told which thread or turn is its own, or whose call fails, ends with an error
/// that says so.
pub proof fn law_forgings_fail_aloud(
    forge: Forge,
    error: AppServerError,
    reply: Json,
    failed: Forge,
    nameless: Forge,
)
    requires
        forge is Read || forge is Fork || forge is Start,
        forge_replied(forge, Err(error), failed),
        reply.tree().at("thread"@, "id"@) is None,
        reply.tree().at("turn"@, "id"@) is None,
        forge_replied(forge, Ok(reply), nameless),
    ensures
        failed == Forge::Done(Err(error)),
        forge is Fork ==> nameless is Done && control_error(
            nameless->Done_0,
            "missing forked thread id"@,
        ),
        forge is Start ==> nameless is Done && control_error(
            nameless->Done_0,
            "missing identity turn id"@,
        ),
{
}

/// However a turn ends, its thread is left, just that one; and only a forging that awaits its turn
/// can come too late.
pub proof fn law_threads_are_left(
    turn: Completion,
    heard: Result<Json, AppServerError>,
    next: Forge,
    other: Forge,
    late: Forge,
)
    requires
        forge_heard(Forge::Await(turn), heard, next),
        forge_expired(other, late),
    ensures
        next is Await || next is Leave,
        heard is Err ==> next is Leave,
        next is Leave ==> next->Leave_call.method@ == "thread/unsubscribe"@
            && next->Leave_call.params.tree().get("threadId"@) == Some(
            Tree::Text(turn.thread_id@),
        ),
        other !is Await ==> late == other,
{
}

} // verus!
