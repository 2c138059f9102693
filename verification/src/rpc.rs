//! The line to the shared Codex app server: calls, replies and notifications.
use std::collections::VecDeque;
use vstd::prelude::*;
use crate::error::AppServerError;
use crate::json::{as_integer, integer_of, json_parse, json_text, member_or_whole, member_text, Json, Tree};
use crate::text::glue2;

verus! {

/// A call of the app server: a method and its parameters.
#[derive(Debug, PartialEq, Eq)]
pub struct Call {
    pub method: String,
    pub params: Json,
}

impl Call {
    /// The call of a method with the given parameters.
    pub open spec fn bears(self, method: Seq<char>, params: Tree) -> bool {
        self.method@ == method && self.params.tree() == params
    }

    /// The call of a method with the given parameters, which hold no number beyond 64 signed bits.
    pub open spec fn says(self, method: Seq<char>, params: Tree) -> bool {
        self.bears(method, params) && self.params.settled()
    }

    pub fn new(method: &str, params: Json) -> (r: Call)
        ensures
            r.method@ == method@,
            r.params == params,
    {
        Call { method: method.to_owned(), params }
    }
}

/// A control failure with the given message.
pub open spec fn control_error<T>(r: Result<T, AppServerError>, message: Seq<char>) -> bool {
    r is Err && r->Err_0 is Control && r->Err_0->Control_0@ == message
}

/// What the other end of a connection does.
#[derive(Debug, PartialEq, Eq)]
pub enum Frame {
    Text(String),
    Ping(Vec<u8>),
    Close,
    /// Anything that carries no message: binary data, pongs, raw frames.
    Other,
    /// The connection failed.
    Broken(String),
    /// The connection is over.
    Ended,
}

/// What to do about a frame.
#[derive(Debug, PartialEq, Eq)]
pub enum Heard {
    /// Listen on.
    Nothing,
    /// Answer a ping with its own payload, and listen on.
    Pong(Vec<u8>),
    /// This is what was awaited.
    Finished(Result<Json, AppServerError>),
}

/// The document of a call on the line.
pub open spec fn envelope(id: int, method: Seq<char>, params: Tree) -> Tree {
    Tree::Object(
        map![
            "id"@ => Tree::Integer(id),
            "method"@ => Tree::Text(method),
            "params"@ => params,
        ],
    )
}

/// A call with its identifier, as text.
#[derive(Debug, PartialEq, Eq)]
pub struct Outgoing {
    pub id: i64,
    pub text: String,
}

/// Our end of the line: the next identifier, and the messages that were set aside while a reply
/// was awaited, oldest first.
#[derive(Debug, PartialEq, Eq)]
pub struct Line {
    pub next_id: i64,
    pub inbox: VecDeque<Json>,
}

/// The documents of a sequence.
pub open spec fn documents(messages: Seq<Json>) -> Seq<Tree> {
    messages.map_values(|message: Json| message.tree())
}

/// What a document that answers a call says: its result, or an error.
pub open spec fn reply_of(tree: Tree) -> Result<Tree, Seq<char>> {
    match tree.get("result"@) {
        Some(result) => Ok(result),
        None => Err(member_text(tree, "error"@)),
    }
}

/// The message that is set aside while the reply to a call is awaited.
pub open spec fn set_aside(id: int, frame: Frame) -> Option<Tree> {
    match frame {
        Frame::Text(text) => match json_parse(text@) {
            Ok(tree) => if integer_of(tree.get("id"@)) == Some(id) {
                None
            } else {
                Some(tree)
            },
            Err(_) => None,
        },
        _ => None,
    }
}

/// The messages that are set aside once a frame came while the reply to a call was awaited.
pub open spec fn kept_aside(inbox: Seq<Tree>, id: int, frame: Frame) -> Seq<Tree> {
    match set_aside(id, frame) {
        Some(message) => inbox.push(message),
        None => inbox,
    }
}

/// What comes back of the messages that were set aside: the oldest, and then the others are left.
pub open spec fn recalls(inbox: Seq<Tree>, message: Option<Json>, left: Seq<Tree>) -> bool {
    match message {
        Some(message) => inbox == seq![message.tree()] + left,
        None => inbox.len() == 0 && left.len() == 0,
    }
}

/// What a frame brings while the reply to a call is awaited.
pub open spec fn response_heard(id: int, frame: Frame, heard: Heard) -> bool {
    match frame {
        Frame::Text(text) => match json_parse(text@) {
            Ok(tree) => if integer_of(tree.get("id"@)) == Some(id) {
                heard is Finished && match reply_of(tree) {
                    Ok(result) => heard->Finished_0 is Ok && heard->Finished_0->Ok_0.tree() == result,
                    Err(complaint) => control_error(heard->Finished_0, complaint),
                }
            } else {
                heard is Nothing
            },
            Err(complaint) => heard is Finished && control_error(heard->Finished_0, complaint),
        },
        _ => silent_heard(frame, "response"@, heard),
    }
}

/// What a frame without text brings while something is awaited.
pub open spec fn silent_heard(frame: Frame, awaited: Seq<char>, heard: Heard) -> bool {
    match frame {
        Frame::Text(_) => true,
        Frame::Ping(payload) => heard == Heard::Pong(payload),
        Frame::Other => heard is Nothing,
        Frame::Broken(complaint) => heard is Finished && control_error(
            heard->Finished_0,
            complaint@,
        ),
        Frame::Close => heard is Finished && control_error(
            heard->Finished_0,
            "connection closed before "@ + awaited,
        ),
        Frame::Ended => heard is Finished && control_error(
            heard->Finished_0,
            "connection ended before "@ + awaited,
        ),
    }
}

fn silence(frame: Frame, awaited: &str) -> (r: Heard)
    ensures
        silent_heard(frame, awaited@, r),
{
    match frame {
        Frame::Ping(payload) => Heard::Pong(payload),
        Frame::Broken(complaint) => Heard::Finished(Err(AppServerError::Control(complaint))),
        Frame::Close => Heard::Finished(
            Err(AppServerError::Control(glue2("connection closed before ", awaited))),
        ),
        Frame::Ended => Heard::Finished(
            Err(AppServerError::Control(glue2("connection ended before ", awaited))),
        ),
        Frame::Text(_) | Frame::Other => Heard::Nothing,
    }
}

impl Line {
    /// A line on which nothing was said yet.
    pub fn open() -> (r: Line)
        ensures
            r.next_id == 1,
            r.inbox@.len() == 0,
    {
        Line { next_id: 1, inbox: VecDeque::new() }
    }

    /// A call with the next identifier.
    pub fn send(&mut self, call: &Call) -> (r: Outgoing)
        requires
            old(self).next_id < i64::MAX,
        ensures
            r.id == old(self).next_id,
            final(self).next_id == old(self).next_id + 1,
            final(self).inbox == old(self).inbox,
            r.text@ == json_text(
                envelope(old(self).next_id as int, call.method@, call.params.written()),
            ),
            call.params.settled() ==> r.text@ == json_text(
                envelope(old(self).next_id as int, call.method@, call.params.tree()),
            ),
    {
        let id: i64 = self.next_id;
        self.next_id = id + 1;
        let message = Json::object().with("id", Json::Integer(id)).with(
            "method",
            Json::string(call.method.as_str()),
        ).with("params", call.params.copy());
        assert(message.tree()->Object_0 =~= envelope(
            id as int,
            call.method@,
            call.params.tree(),
        )->Object_0);
        assert(message.written()->Object_0 =~= envelope(
            id as int,
            call.method@,
            call.params.written(),
        )->Object_0);
        Outgoing { id, text: message.render() }
    }

    /// What a frame brings while the reply to a call is awaited. Other messages are set aside.
    pub fn response(&mut self, id: i64, frame: Frame) -> (r: Heard)
        ensures
            response_heard(id as int, frame, r),
            final(self).next_id == old(self).next_id,
            documents(final(self).inbox@) == kept_aside(
                documents(old(self).inbox@),
                id as int,
                frame,
            ),
    {
        match frame {
            Frame::Text(text) => {
                let message = match Json::parse(text.as_str()) {
                    Ok(message) => message,
                    Err(complaint) => {
                        return Heard::Finished(Err(AppServerError::Control(complaint)));
                    },
                };
                let own = match as_integer(message.get("id")) {
                    Some(number) => number == id,
                    None => false,
                };
                if !own {
                    let ghost tree = message.tree();
                    let ghost before = self.inbox@;
                    self.inbox.push_back(message);
                    assert(documents(self.inbox@) =~= documents(before).push(tree));
                    return Heard::Nothing;
                }
                match message.get("result") {
                    Some(result) => Heard::Finished(Ok(result.copy())),
                    None => {
                        let complaint = match member_or_whole(text.as_str(), "error") {
                            Some(complaint) => complaint,
                            None => String::new(),
                        };
                        Heard::Finished(Err(AppServerError::Control(complaint)))
                    },
                }
            },
            other => silence(other, "response"),
        }
    }

    /// The oldest message that was set aside.
    pub fn recall(&mut self) -> (r: Option<Json>)
        ensures
            final(self).next_id == old(self).next_id,
            recalls(documents(old(self).inbox@), r, documents(final(self).inbox@)),
    {
        let ghost before = self.inbox@;
        let r = self.inbox.pop_front();
        assert(r matches Some(message) ==> documents(before) =~= seq![message.tree()] + documents(
            self.inbox@,
        ));
        r
    }
}

/// What a frame brings while a notification is awaited.
pub open spec fn notification_heard(frame: Frame, heard: Heard) -> bool {
    match frame {
        Frame::Text(text) => heard is Finished && match json_parse(text@) {
            Ok(tree) => heard->Finished_0 is Ok && heard->Finished_0->Ok_0.tree() == tree,
            Err(complaint) => control_error(heard->Finished_0, complaint),
        },
        _ => silent_heard(frame, "identity completion"@, heard),
    }
}

/// What a frame brings while a notification is awaited.
pub fn notification(frame: Frame) -> (r: Heard)
    ensures
        notification_heard(frame, r),
{
    match frame {
        Frame::Text(text) => match Json::parse(text.as_str()) {
            Ok(message) => Heard::Finished(Ok(message)),
            Err(complaint) => Heard::Finished(Err(AppServerError::Control(complaint))),
        },
        other => silence(other, "identity completion"),
    }
}

/// A call that was not written in time.
pub fn write_timed_out(call: &Call) -> (r: AppServerError)
    ensures
        r is Control,
        r->Control_0@ == call.method@ + " write timed out"@,
{
    AppServerError::Control(glue2(call.method.as_str(), " write timed out"))
}

/// A call that was not answered in time.
pub fn response_timed_out(call: &Call) -> (r: AppServerError)
    ensures
        r is Control,
        r->Control_0@ == call.method@ + " response timed out"@,
{
    AppServerError::Control(glue2(call.method.as_str(), " response timed out"))
}

/// The parameters with which a client introduces itself.
pub open spec fn introduction(version: Seq<char>) -> Tree {
    Tree::Object(
        map![
            "clientInfo"@ => Tree::Object(
                map![
                    "name"@ => Tree::Text("wire-relay"@),
                    "title"@ => Tree::Text("Wire relay"@),
                    "version"@ => Tree::Text(version),
                ],
            ),
            "capabilities"@ => Tree::Object(map!["experimentalApi"@ => Tree::Bool(true)]),
        ],
    )
}

/// The call with which a client introduces itself.
pub fn initialize(version: &str) -> (r: Call)
    ensures
        r.says("initialize"@, introduction(version@)),
{
    let info = Json::object().with("name", Json::string("wire-relay")).with(
        "title",
        Json::string("Wire relay"),
    ).with("version", Json::string(version));
    let capabilities = Json::object().with("experimentalApi", Json::Bool(true));
    Call::new(
        "initialize",
        Json::object().with("clientInfo", info).with("capabilities", capabilities),
    )
}

/// A call on the line holds its identifier, its method and its parameters.
pub proof fn law_calls_on_the_line(id: int, method: Seq<char>, params: Tree)
    ensures
        envelope(id, method, params).get("id"@) == Some(Tree::Integer(id)),
        envelope(id, method, params).get("method"@) == Some(Tree::Text(method)),
        envelope(id, method, params).get("params"@) == Some(params),
{
    reveal_strlit("id");
    reveal_strlit("method");
    reveal_strlit("params");
    assert("id"@.len() == 2);
    assert("method"@.len() == 6 && "method"@[0] == 'm');
    assert("params"@.len() == 6 && "params"@[0] == 'p');
}

/// A message with the identifier of the call is its reply, and brings its result where it has one;
/// any other message is set aside, as it is, and what was awaited is awaited on. A ping is answered
/// with its own payload.
pub proof fn law_replies(
    id: int,
    text: String,
    tree: Tree,
    result: Tree,
    fault: Tree,
    heard: Heard,
    payload: Vec<u8>,
    pinged: Heard,
)
    requires
        json_parse(text@) == Ok::<Tree, Seq<char>>(tree),
        response_heard(id, Frame::Text(text), heard),
        response_heard(id, Frame::Ping(payload), pinged),
    ensures
        tree.get("id"@) == Some(Tree::Integer(id)) && tree.get("result"@) == Some(result) ==> heard
            is Finished && heard->Finished_0 is Ok && heard->Finished_0->Ok_0.tree() == result
            && set_aside(id, Frame::Text(text)) is None,
        tree.get("id"@) == Some(Tree::Integer(id)) && tree.get("result"@) is None ==> heard
            is Finished && heard->Finished_0 is Err && set_aside(id, Frame::Text(text)) is None,
        tree.get("id"@) == Some(Tree::Integer(id)) && tree.get("result"@) is None && tree.get(
            "error"@,
        ) == Some(fault) ==> control_error(heard->Finished_0, json_text(fault)),
        tree.get("id"@) == Some(Tree::Integer(id)) && tree.get("result"@) is None && tree.get(
            "error"@,
        ) is None ==> control_error(heard->Finished_0, json_text(tree)),
        tree.get("id"@) != Some(Tree::Integer(id)) ==> heard is Nothing && set_aside(
            id,
            Frame::Text(text),
        ) == Some(tree),
        pinged == Heard::Pong(payload) && set_aside(id, Frame::Ping(payload)) is None,
{
}

/// A line that is closed, ends or breaks while something is awaited brings an error, in words that
/// say what was awaited.
pub proof fn law_lines_that_end(
    id: int,
    complaint: String,
    closed: Heard,
    ended: Heard,
    broken: Heard,
    told: Heard,
)
    requires
        response_heard(id, Frame::Close, closed),
        response_heard(id, Frame::Ended, ended),
        response_heard(id, Frame::Broken(complaint), broken),
        notification_heard(Frame::Close, told),
    ensures
        closed is Finished && control_error(
            closed->Finished_0,
            "connection closed before "@ + "response"@,
        ),
        ended is Finished && control_error(
            ended->Finished_0,
            "connection ended before "@ + "response"@,
        ),
        broken is Finished && control_error(broken->Finished_0, complaint@),
        told is Finished && control_error(
            told->Finished_0,
            "connection closed before "@ + "identity completion"@,
        ),
{
}

/// A notification brings the whole message.
pub proof fn law_notifications(text: String, tree: Tree, heard: Heard)
    requires
        json_parse(text@) == Ok::<Tree, Seq<char>>(tree),
        notification_heard(Frame::Text(text), heard),
    ensures
        heard is Finished,
        heard->Finished_0 is Ok,
        heard->Finished_0->Ok_0.tree() == tree,
{
}

/// A client introduces itself by name and version, and asks for what is experimental.
pub proof fn law_introduction(version: Seq<char>)
    ensures
        introduction(version).at("clientInfo"@, "name"@) == Some(Tree::Text("wire-relay"@)),
        introduction(version).at("clientInfo"@, "title"@) == Some(Tree::Text("Wire relay"@)),
        introduction(version).at("clientInfo"@, "version"@) == Some(Tree::Text(version)),
        introduction(version).at("capabilities"@, "experimentalApi"@) == Some(Tree::Bool(true)),
{
    reveal_strlit("clientInfo");
    reveal_strlit("capabilities");
    reveal_strlit("name");
    reveal_strlit("title");
    reveal_strlit("version");
    assert("clientInfo"@.len() == 10 && "capabilities"@.len() == 12);
    assert("name"@.len() == 4 && "title"@.len() == 5 && "version"@.len() == 7);
}

/// What is set aside comes back, as it was and in the order in which it came: what is recalled is the
/// oldest, and what came behind it is left.
pub proof fn law_messages_come_back(
    inbox: Seq<Tree>,
    id: int,
    text: String,
    tree: Tree,
    message: Option<Json>,
    left: Seq<Tree>,
)
    requires
        json_parse(text@) == Ok::<Tree, Seq<char>>(tree),
        tree.get("id"@) != Some(Tree::Integer(id)),
        recalls(kept_aside(inbox, id, Frame::Text(text)), message, left),
    ensures
        message is Some,
        inbox.len() == 0 ==> message->Some_0.tree() == tree && left.len() == 0,
        inbox.len() > 0 ==> message->Some_0.tree() == inbox[0] && left.last() == tree,
        left.len() == inbox.len(),
{
    let all = kept_aside(inbox, id, Frame::Text(text));
    assert(all.len() == inbox.len() + 1);
    assert(all.last() == tree);
    if message is Some {
        assert(all[0] == message->Some_0.tree());
        if inbox.len() > 0 {
            assert(all[inbox.len() as int] == left[inbox.len() - 1]);
        }
    }
}

} // verus!
