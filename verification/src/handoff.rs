//! The handoff: an idle thread goes on in a fresh turn, with its tool servers reloaded.
use vstd::prelude::*;
use crate::error::AppServerError;
use crate::forge::{input_item, input_tree, law_inputs_hold_their_text, thread_tree};
use crate::ident::{hyphenated_text, SessionId};
use crate::json::{as_items, as_text, is_text, items_of, lemma_trees, text_of, trees, Json, Tree};
use crate::record::{begun, last_known, last_turn, law_single_lines_stay, on_one_line, one_line, started_turn, told, Ask, AskView, Entry, EntryView, Starter};
use crate::rpc::{control_error, Call};
use crate::text::{glue3, same};

verus! {

/// How long to wait before an active thread is looked at again, in milliseconds.
pub const IDLE_PAUSE_MS: u64 = 250;

/// How long to wait before the tools are looked at again, in milliseconds.
pub const TOOL_PAUSE_MS: u64 = 100;

/// The parameters that name the thread of a session.
pub open spec fn session_tree(session: SessionId) -> Tree {
    thread_tree(hyphenated_text(session.value))
}

fn session_params(session: SessionId) -> (r: Json)
    ensures
        r is Object,
        r.tree() == session_tree(session),
        r.settled(),
{
    Json::object().with("threadId", Json::Text(session.text()))
}

/// The tool servers attached to a thread.
pub open spec fn status_tree(session: SessionId) -> Tree {
    Tree::Object(
        map![
            "threadId"@ => Tree::Text(hyphenated_text(session.value)),
            "detail"@ => Tree::Text("toolsAndAuthOnly"@),
        ],
    )
}

/// The tool servers attached to a thread.
pub fn mcp_status(session: SessionId) -> (r: Call)
    ensures
        r.says("mcpServerStatus/list"@, status_tree(session)),
{
    Call::new(
        "mcpServerStatus/list",
        session_params(session).with("detail", Json::string("toolsAndAuthOnly")),
    )
}

fn look_at(session: SessionId) -> (r: Call)
    ensures
        r.says("thread/read"@, session_tree(session)),
{
    Call::new("thread/read", session_params(session))
}

fn reload() -> (r: Call)
    ensures
        r.says("config/mcpServer/reload"@, Tree::Null),
{
    Call::new("config/mcpServer/reload", Json::Null)
}

/// A resumption that leaves past turns out.
pub open spec fn resume_tree(session: SessionId) -> Tree {
    Tree::Object(
        map![
            "threadId"@ => Tree::Text(hyphenated_text(session.value)),
            "excludeTurns"@ => Tree::Bool(true),
        ],
    )
}

/// A resumption of a session's thread that leaves past turns out.
pub fn resume_thread(session: SessionId) -> (r: Call)
    ensures
        r.says("thread/resume"@, resume_tree(session)),
{
    Call::new("thread/resume", session_params(session).with("excludeTurns", Json::Bool(true)))
}

/// A turn that a message opens.
pub open spec fn message_tree(session: SessionId, message: Seq<char>) -> Tree {
    Tree::Object(
        map![
            "threadId"@ => Tree::Text(hyphenated_text(session.value)),
            "input"@ => Tree::Array(seq![input_tree(message)]),
        ],
    )
}

fn start_turn(session: SessionId, message: &str) -> (r: Call)
    ensures
        r.says("turn/start"@, message_tree(session, message@)),
{
    let input = Json::single(input_item(message));
    Call::new("turn/start", session_params(session).with("input", input))
}

/// The first entry of a given name.
pub open spec fn first_named(entries: Seq<Tree>, name: Seq<char>) -> Option<Tree>
    decreases entries.len(),
{
    if entries.len() == 0 {
        None
    } else if text_of(entries[0].get("name"@)) == Some(name) {
        Some(entries[0])
    } else {
        first_named(entries.drop_first(), name)
    }
}

/// Whether a server of the given name and version offers a tool, by the first entry of that name.
pub open spec fn offers(status: Tree, server: Seq<char>, version: Seq<char>, tool: Seq<char>) -> bool {
    match first_named(items_of(status.get("data"@)), server) {
        Some(entry) => text_of(entry.at("serverInfo"@, "version"@)) == Some(version) && entry.at(
            "tools"@,
            tool,
        ) is Some,
        None => false,
    }
}

/// Whether a server of the given name and version offers a tool, by the first entry of that name.
pub fn tool_attached(status: &Json, server: &str, version: &str, tool: &str) -> (r: bool)
    ensures
        r == offers(status.tree(), server@, version@, tool@),
{
    match as_items(status.get("data")) {
        Some(entries) => {
            let ghost all = trees(entries@);
            proof {
                lemma_trees(entries@);
                assert(all.skip(0) == all);
            }
            let mut i: usize = 0;
            while i < entries.len()
                invariant
                    i <= entries@.len(),
                    all == trees(entries@),
                    all == items_of(status.tree().get("data"@)),
                    all.len() == entries@.len(),
                    forall|j: int| 0 <= j < entries@.len() ==> all[j] == (#[trigger] entries@[j]).tree(),
                    first_named(all.skip(i as int), server@) == first_named(all, server@),
                decreases entries@.len() - i,
            {
                let entry = &entries[i];
                assert(all.skip(i as int)[0] == entries@[i as int].tree());
                assert(all.skip(i as int).drop_first() == all.skip(i + 1));
                if is_text(entry.get("name"), server) {
                    return is_text(entry.at("serverInfo", "version"), version) && entry.at(
                        "tools",
                        tool,
                    ).is_some();
                }
                i += 1;
            }
            false
        },
        None => false,
    }
}

/// What a handoff needs: the session, the message, and the version whose tools must be attached.
#[derive(Debug, PartialEq, Eq)]
pub struct Errand {
    pub session: SessionId,
    pub message: String,
    pub version: String,
}

/// A handoff, by what is to be done next. Each call is to be made, and its reply handed to
/// `replied`; each pause is to be slept, and then `rested` called. Until the turn was started,
/// `expired` ends it at any time.
#[derive(Debug, PartialEq, Eq)]
pub enum Handoff {
    /// See whether the thread is idle.
    Look { call: Call, errand: Errand },
    /// Wait until it may be.
    Pause { milliseconds: u64, errand: Errand },
    /// Reload the tool servers.
    Reload { call: Call, errand: Errand },
    /// See whether the tools are attached.
    Inspect { call: Call, errand: Errand },
    /// Wait until they may be.
    Linger { milliseconds: u64, errand: Errand },
    /// Resume the thread.
    Resume { call: Call, errand: Errand },
    /// Read the record of the turns started in the thread; it goes to `recalled`.
    Recall { errand: Errand },
    /// Record that the turn is about to be started, and tell `asked` whether that was done.
    Ask { ask: Ask, errand: Errand },
    /// Start the turn.
    Start { call: Call, ask: Ask },
    /// Record that the turn was started, come what may; then call `noted`.
    Note { entry: Entry },
    Done(Result<(), AppServerError>),
}

/// A handoff that failed with a control error.
pub open spec fn handoff_failed(handoff: Handoff, message: Seq<char>) -> bool {
    handoff is Done && control_error(handoff->Done_0, message)
}

/// A handoff that has not begun: the thread is looked at.
pub open spec fn handoff_begins(errand: Errand, next: Handoff) -> bool {
    &&& next is Look
    &&& next->Look_call.says("thread/read"@, session_tree(errand.session))
    &&& next->Look_errand == errand
}

/// What a reply makes of a handoff.
pub open spec fn handoff_replied(
    handoff: Handoff,
    reply: Result<Json, AppServerError>,
    next: Handoff,
) -> bool {
    match (handoff, reply) {
        (Handoff::Pause { .. }, _) => next == handoff,
        (Handoff::Linger { .. }, _) => next == handoff,
        (Handoff::Recall { .. }, _) => next == handoff,
        (Handoff::Ask { .. }, _) => next == handoff,
        (Handoff::Note { .. }, _) => next == handoff,
        (Handoff::Done(_), _) => next == handoff,
        (_, Err(error)) => next == Handoff::Done(Err(error)),
        (Handoff::Look { errand, .. }, Ok(thread)) => match text_of(
            thread.tree().at3("thread"@, "status"@, "type"@),
        ) {
            Some(status) => if status == "idle"@ {
                &&& next is Reload
                &&& next->Reload_call.says("config/mcpServer/reload"@, Tree::Null)
                &&& next->Reload_errand == errand
            } else if status == "active"@ {
                next == (Handoff::Pause { milliseconds: IDLE_PAUSE_MS, errand })
            } else {
                handoff_failed(next, "cannot hand off a thread in "@ + status + " state"@)
            },
            None => handoff_failed(next, "thread/read omitted thread status"@),
        },
        (Handoff::Reload { errand, .. }, Ok(_)) => {
            &&& next is Inspect
            &&& next->Inspect_call.says("mcpServerStatus/list"@, status_tree(errand.session))
            &&& next->Inspect_errand == errand
        },
        (Handoff::Inspect { errand, .. }, Ok(status)) => if offers(
            status.tree(),
            "wire"@,
            errand.version@,
            "identity.update"@,
        ) {
            &&& next is Resume
            &&& next->Resume_call.says("thread/resume"@, resume_tree(errand.session))
            &&& next->Resume_errand == errand
        } else {
            next == (Handoff::Linger { milliseconds: TOOL_PAUSE_MS, errand })
        },
        (Handoff::Resume { errand, .. }, Ok(_)) => next == (Handoff::Recall { errand }),
        (Handoff::Start { ask, .. }, Ok(reply)) => match started_turn(reply.tree()) {
            Some(turn_id) => next is Note && next->entry@ == (EntryView::Began {
                ask: ask@,
                turn_id,
            }),
            None => next == Handoff::Done(Ok(())),
        },
    }
}

/// The intention to start the turn of a handoff: behind the last turn that the record knows, in the
/// words of its message.
pub open spec fn handoff_ask(message: Seq<char>, entries: Seq<EntryView>) -> AskView {
    AskView {
        by: Starter::Handoff,
        behind: last_known(entries),
        words: on_one_line(message),
    }
}

/// What the record makes of a handoff.
pub open spec fn handoff_recalled(
    handoff: Handoff,
    result: Result<Vec<Entry>, String>,
    next: Handoff,
) -> bool {
    match (handoff, result) {
        (Handoff::Recall { errand }, Ok(entries)) => {
            &&& next is Ask
            &&& next->Ask_ask@ == handoff_ask(errand.message@, told(entries@))
            &&& next->Ask_errand == errand
        },
        (Handoff::Recall { .. }, Err(complaint)) => handoff_failed(next, complaint@),
        _ => next == handoff,
    }
}

/// What the recorded intention makes of a handoff: without it no turn is started.
pub open spec fn handoff_asked(handoff: Handoff, result: Result<(), String>, next: Handoff) -> bool {
    match (handoff, result) {
        (Handoff::Ask { ask, errand }, Ok(_)) => {
            &&& next is Start
            &&& next->Start_call.says("turn/start"@, message_tree(errand.session, errand.message@))
            &&& next->Start_ask == ask
        },
        (Handoff::Ask { .. }, Err(complaint)) => handoff_failed(next, complaint@),
        _ => next == handoff,
    }
}

/// What the end of a pause makes of a handoff.
pub open spec fn handoff_rested(handoff: Handoff, next: Handoff) -> bool {
    match handoff {
        Handoff::Pause { errand, .. } => {
            &&& next is Look
            &&& next->Look_call.says("thread/read"@, session_tree(errand.session))
            &&& next->Look_errand == errand
        },
        Handoff::Linger { errand, .. } => {
            &&& next is Inspect
            &&& next->Inspect_call.says("mcpServerStatus/list"@, status_tree(errand.session))
            &&& next->Inspect_errand == errand
        },
        _ => next == handoff,
    }
}

/// What the record of its turn makes of a handoff.
pub open spec fn handoff_noted(handoff: Handoff, next: Handoff) -> bool {
    if handoff is Note {
        next == Handoff::Done(Ok(()))
    } else {
        next == handoff
    }
}

/// What the end of its time makes of a handoff. One whose turn was started stays as it is.
pub open spec fn handoff_expired(handoff: Handoff, next: Handoff) -> bool {
    if handoff is Note || handoff is Done {
        next == handoff
    } else {
        handoff_failed(next, "thread handoff timed out"@)
    }
}

impl Handoff {
    /// A handoff that has not begun.
    pub fn begin(errand: Errand) -> (r: Handoff)
        ensures
            handoff_begins(errand, r),
    {
        Handoff::Look { call: look_at(errand.session), errand }
    }

    /// What a reply makes of the handoff. One that awaits no reply stays as it is.
    pub fn replied(self, reply: Result<Json, AppServerError>) -> (r: Handoff)
        ensures
            handoff_replied(self, reply, r),
    {
        let reply = match (&self, reply) {
            (Handoff::Pause { .. }, _) => return self,
            (Handoff::Linger { .. }, _) => return self,
            (Handoff::Recall { .. }, _) => return self,
            (Handoff::Ask { .. }, _) => return self,
            (Handoff::Note { .. }, _) => return self,
            (Handoff::Done(_), _) => return self,
            (_, Err(error)) => return Handoff::Done(Err(error)),
            (_, Ok(reply)) => reply,
        };
        match self {
            Handoff::Look { call: _, errand } => match as_text(
                reply.at3("thread", "status", "type"),
            ) {
                Some(status) => if same(status.as_str(), "idle") {
                    Handoff::Reload { call: reload(), errand }
                } else if same(status.as_str(), "active") {
                    Handoff::Pause { milliseconds: IDLE_PAUSE_MS, errand }
                } else {
                    Handoff::Done(
                        Err(
                            AppServerError::Control(
                                glue3("cannot hand off a thread in ", status.as_str(), " state"),
                            ),
                        ),
                    )
                },
                None => Handoff::Done(
                    Err(AppServerError::Control("thread/read omitted thread status".to_owned())),
                ),
            },
            Handoff::Reload { call: _, errand } => Handoff::Inspect {
                call: mcp_status(errand.session),
                errand,
            },
            Handoff::Inspect { call: _, errand } => if tool_attached(
                &reply,
                "wire",
                errand.version.as_str(),
                "identity.update",
            ) {
                Handoff::Resume { call: resume_thread(errand.session), errand }
            } else {
                Handoff::Linger { milliseconds: TOOL_PAUSE_MS, errand }
            },
            Handoff::Resume { call: _, errand } => Handoff::Recall { errand },
            Handoff::Start { call: _, ask } => match begun(ask, &reply) {
                Some(entry) => Handoff::Note { entry },
                None => Handoff::Done(Ok(())),
            },
            other => other,
        }
    }

    /// A pause is over. A handoff that does not pause stays as it is.
    pub fn rested(self) -> (r: Handoff)
        ensures
            handoff_rested(self, r),
    {
        match self {
            Handoff::Pause { milliseconds: _, errand } => Handoff::begin(errand),
            Handoff::Linger { milliseconds: _, errand } => Handoff::Inspect {
                call: mcp_status(errand.session),
                errand,
            },
            other => other,
        }
    }

    /// What the record makes of the handoff. One that does not read it stays as it is.
    pub fn recalled(self, result: Result<Vec<Entry>, String>) -> (r: Handoff)
        ensures
            handoff_recalled(self, result, r),
    {
        match self {
            Handoff::Recall { errand } => match result {
                Ok(entries) => {
                    let ask = Ask {
                        by: Starter::Handoff,
                        behind: last_turn(&entries),
                        words: one_line(errand.message.as_str()),
                    };
                    Handoff::Ask { ask, errand }
                },
                Err(complaint) => Handoff::Done(Err(AppServerError::Control(complaint))),
            },
            other => other,
        }
    }

    /// What the recorded intention makes of the handoff. One that records none stays as it is.
    pub fn asked(self, result: Result<(), String>) -> (r: Handoff)
        ensures
            handoff_asked(self, result, r),
    {
        match self {
            Handoff::Ask { ask, errand } => match result {
                Ok(()) => Handoff::Start {
                    call: start_turn(errand.session, errand.message.as_str()),
                    ask,
                },
                Err(complaint) => Handoff::Done(Err(AppServerError::Control(complaint))),
            },
            other => other,
        }
    }

    /// The turn was recorded, or could not be. A handoff that records none stays as it is.
    pub fn noted(self) -> (r: Handoff)
        ensures
            handoff_noted(self, r),
    {
        match self {
            Handoff::Note { .. } => Handoff::Done(Ok(())),
            other => other,
        }
    }

    /// The handoff took too long. One whose turn was started stays as it is.
    pub fn expired(self) -> (r: Handoff)
        ensures
            handoff_expired(self, r),
    {
        match self {
            Handoff::Note { entry } => Handoff::Note { entry },
            Handoff::Done(result) => Handoff::Done(result),
            _ => Handoff::Done(
                Err(AppServerError::Control("thread handoff timed out".to_owned())),
            ),
        }
    }
}

/// How far a handoff has come.
pub open spec fn stage(handoff: Handoff) -> nat {
    match handoff {
        Handoff::Look { .. } => 0,
        Handoff::Pause { .. } => 0,
        Handoff::Reload { .. } => 1,
        Handoff::Inspect { .. } => 2,
        Handoff::Linger { .. } => 2,
        Handoff::Resume { .. } => 3,
        Handoff::Recall { .. } => 4,
        Handoff::Ask { .. } => 5,
        Handoff::Start { .. } => 6,
        Handoff::Note { .. } => 7,
        Handoff::Done(_) => 8,
    }
}

/// One step of a handoff.
pub open spec fn handoff_step(
    handoff: Handoff,
    reply: Result<Json, AppServerError>,
    entries: Result<Vec<Entry>, String>,
    asked: Result<(), String>,
    next: Handoff,
) -> bool {
    ||| handoff_replied(handoff, reply, next)
    ||| handoff_rested(handoff, next)
    ||| handoff_recalled(handoff, entries, next)
    ||| handoff_asked(handoff, asked, next)
    ||| handoff_noted(handoff, next)
}

/// A handoff never goes back, and it succeeds only by the reply to the turn that it started: the
/// thread was idle, the servers were reloaded, the tools attached, the thread resumed and the turn
/// put on record before.
pub proof fn law_handoff_advances(
    handoff: Handoff,
    reply: Result<Json, AppServerError>,
    entries: Result<Vec<Entry>, String>,
    asked: Result<(), String>,
    next: Handoff,
)
    requires
        handoff_step(handoff, reply, entries, asked, next),
    ensures
        stage(handoff) <= stage(next),
        next is Done || stage(next) <= stage(handoff) + 1,
        next is Done && next->Done_0 is Ok ==> stage(handoff) >= 6,
        next is Start && handoff !is Start ==> handoff is Ask && asked is Ok,
{
}

proof fn lemma_handoff_keys()
    ensures
        "threadId"@ != "detail"@,
        "threadId"@ != "excludeTurns"@,
        "threadId"@ != "input"@,
{
    reveal_strlit("threadId");
    reveal_strlit("detail");
    reveal_strlit("excludeTurns");
    reveal_strlit("input");
    assert("threadId"@.len() == 8 && "detail"@.len() == 6 && "excludeTurns"@.len() == 12
        && "input"@.len() == 5);
}

/// The first entry of a name decides whether a tool is attached: it is where that entry is of the
/// version and lists the tool. Without an entry of the name it is not.
pub proof fn law_tools_attached(
    status: Tree,
    entries: Seq<Tree>,
    server: Seq<char>,
    version: Seq<char>,
    tool: Seq<char>,
    at: int,
)
    requires
        status.get("data"@) == Some(Tree::Array(entries)),
    ensures
        0 <= at < entries.len() && entries[at].get("name"@) == Some(Tree::Text(server)) && (forall|
            i: int,
        |
            0 <= i < at ==> (#[trigger] entries[i]).get("name"@) != Some(Tree::Text(server))) ==> (
        offers(status, server, version, tool) <==> entries[at].at("serverInfo"@, "version"@) == Some(
            Tree::Text(version),
        ) && entries[at].at("tools"@, tool) is Some),
        (forall|i: int|
            0 <= i < entries.len() ==> (#[trigger] entries[i]).get("name"@) != Some(
                Tree::Text(server),
            )) ==> !offers(status, server, version, tool),
{
    lemma_first_named(entries, server, at);
}

proof fn lemma_first_named(entries: Seq<Tree>, name: Seq<char>, at: int)
    ensures
        0 <= at < entries.len() && entries[at].get("name"@) == Some(Tree::Text(name)) && (forall|
            i: int,
        |
            0 <= i < at ==> (#[trigger] entries[i]).get("name"@) != Some(Tree::Text(name)))
            ==> first_named(entries, name) == Some(entries[at]),
        (forall|i: int|
            0 <= i < entries.len() ==> (#[trigger] entries[i]).get("name"@) != Some(
                Tree::Text(name),
            )) ==> first_named(entries, name) is None,
    decreases entries.len(),
{
    if entries.len() > 0 {
        let rest = entries.drop_first();
        assert(forall|i: int| 0 <= i < rest.len() ==> rest[i] == entries[i + 1]);
        lemma_first_named(rest, name, at - 1);
        if forall|i: int|
            0 <= i < entries.len() ==> (#[trigger] entries[i]).get("name"@) != Some(
                Tree::Text(name),
            ) {
            assert(entries[0].get("name"@) != Some(Tree::Text(name)));
        }
    }
}

/// A handoff of an idle thread reloads the tool servers, sees that the tools of its version are
/// attached to the thread, resumes the thread, puts on record what it is about to start, starts a
/// turn with its message in that thread, puts the turn on record, and succeeds.
pub proof fn law_handing_off(
    errand: Errand,
    looking: Handoff,
    thread: Json,
    reloading: Handoff,
    reloaded: Json,
    inspecting: Handoff,
    status: Json,
    resuming: Handoff,
    resumed: Json,
    recalling: Handoff,
    entries: Vec<Entry>,
    asking: Handoff,
    starting: Handoff,
    inputs: Seq<Tree>,
    started: Json,
    turn_id: Seq<char>,
    noting: Handoff,
    end: Handoff,
)
    requires
        handoff_begins(errand, looking),
        thread.tree().at3("thread"@, "status"@, "type"@) == Some(Tree::Text("idle"@)),
        handoff_replied(looking, Ok(thread), reloading),
        handoff_replied(reloading, Ok(reloaded), inspecting),
        offers(status.tree(), "wire"@, errand.version@, "identity.update"@),
        handoff_replied(inspecting, Ok(status), resuming),
        handoff_replied(resuming, Ok(resumed), recalling),
        handoff_recalled(recalling, Ok(entries), asking),
        handoff_asked(asking, Ok(()), starting),
        started.tree().at("turn"@, "id"@) == Some(Tree::Text(turn_id)),
        handoff_replied(starting, Ok(started), noting),
        handoff_noted(noting, end),
    ensures
        looking is Look && looking->Look_call.method@ == "thread/read"@
            && looking->Look_call.params.tree().get("threadId"@) == Some(
            Tree::Text(hyphenated_text(errand.session.value)),
        ),
        reloading is Reload && reloading->Reload_call.method@ == "config/mcpServer/reload"@,
        inspecting is Inspect && inspecting->Inspect_call.method@ == "mcpServerStatus/list"@
            && inspecting->Inspect_call.params.tree().get("threadId"@) == Some(
            Tree::Text(hyphenated_text(errand.session.value)),
        ) && inspecting->Inspect_call.params.tree().get("detail"@) == Some(
            Tree::Text("toolsAndAuthOnly"@),
        ),
        resuming is Resume && resuming->Resume_call.method@ == "thread/resume"@
            && resuming->Resume_call.params.tree().get("threadId"@) == Some(
            Tree::Text(hyphenated_text(errand.session.value)),
        ) && resuming->Resume_call.params.tree().get("excludeTurns"@) == Some(Tree::Bool(true)),
        asking is Ask && asking->Ask_ask.by == Starter::Handoff && asking->Ask_ask.behind@
            == last_known(told(entries@)),
        !errand.message@.contains('\n') ==> asking->Ask_ask.words@ == errand.message@,
        starting is Start && starting->Start_call.method@ == "turn/start"@
            && starting->Start_call.params.tree().get("threadId"@) == Some(
            Tree::Text(hyphenated_text(errand.session.value)),
        ) && starting->Start_ask == asking->Ask_ask,
        starting->Start_call.params.tree().get("input"@) == Some(Tree::Array(inputs)) ==> inputs.len()
            == 1 && inputs[0].get("type"@) == Some(Tree::Text("text"@)) && inputs[0].get("text"@)
            == Some(Tree::Text(errand.message@)),
        starting->Start_call.params.tree().get("input"@) is Some
            && starting->Start_call.params.tree().get("input"@)->Some_0 is Array,
        noting is Note && noting->entry@ == (EntryView::Began { ask: asking->Ask_ask@, turn_id }),
        end == Handoff::Done(Ok(())),
{
    lemma_handoff_keys();
    law_single_lines_stay(errand.message@);
    law_inputs_hold_their_text(errand.message@);
}

/// While a thread is active it is looked at again every quarter of a second, and while the tools are
/// not attached they are looked at again every tenth; a thread in any other state is not handed off.
pub proof fn law_handoffs_wait(
    errand: Errand,
    call: Call,
    state: Seq<char>,
    thread: Json,
    status: Json,
    looked: Handoff,
    again: Handoff,
    inspected: Handoff,
    once_more: Handoff,
)
    requires
        thread.tree().at3("thread"@, "status"@, "type"@) == Some(Tree::Text(state)),
        handoff_replied(Handoff::Look { call, errand }, Ok(thread), looked),
        handoff_rested(looked, again),
        !offers(status.tree(), "wire"@, errand.version@, "identity.update"@),
        handoff_replied(Handoff::Inspect { call, errand }, Ok(status), inspected),
        handoff_rested(inspected, once_more),
    ensures
        state == "active"@ ==> looked == (Handoff::Pause { milliseconds: 250, errand })
            && again is Look && again->Look_errand == errand && again->Look_call.method@
            == "thread/read"@,
        state != "active"@ && state != "idle"@ ==> looked is Done && looked->Done_0 is Err,
        inspected == (Handoff::Linger { milliseconds: 100, errand }),
        once_more is Inspect && once_more->Inspect_errand == errand
            && once_more->Inspect_call.method@ == "mcpServerStatus/list"@,
{
    reveal_strlit("active");
    reveal_strlit("idle");
    assert("active"@.len() == 6 && "idle"@.len() == 4);
}

/// A handoff that takes too long fails in those words, unless its turn was started.
pub proof fn law_handoffs_expire(handoff: Handoff, next: Handoff)
    requires
        handoff_expired(handoff, next),
    ensures
        handoff is Note || handoff is Done ==> next == handoff,
        handoff !is Note && handoff !is Done ==> next is Done && control_error(
            next->Done_0,
            "thread handoff timed out"@,
        ),
{
}

/// A thread that is neither idle nor active is not handed off, and neither is one whose state is not
/// known; both are told, and so is any failure of the app server.
pub proof fn law_states_that_bar_a_handoff(
    call: Call,
    errand: Errand,
    thread: Json,
    fault: AppServerError,
    next: Handoff,
    failed: Handoff,
)
    requires
        handoff_replied(Handoff::Look { call, errand }, Ok(thread), next),
        handoff_replied(Handoff::Look { call, errand }, Err(fault), failed),
    ensures
        failed == Handoff::Done(Err(fault)),
        thread.tree().at3("thread"@, "status"@, "type"@) is None ==> handoff_failed(
            next,
            "thread/read omitted thread status"@,
        ),
        thread.tree().at3("thread"@, "status"@, "type"@) matches Some(Tree::Text(status)) ==> (
        status != "idle"@ && status != "active"@ ==> handoff_failed(
            next,
            "cannot hand off a thread in "@ + status + " state"@,
        )),
{
}

} // verus!
