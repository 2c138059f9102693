//! Biographies: how they are asked for, and which are lawful.
use vstd::prelude::*;
use crate::error::IdentityError;
use crate::json::{json_text, text_or_null, Json, Tree};
use crate::model::biography_text;
use crate::session::{session_name, Session};
use crate::text::{characters, control_character, decimal, glue2, glue3, holds, is_control, lemma_trimmed, number, opt_str, opt_text, same, trim, trimmed};

verus! {

/// The shortest biography, in characters.
pub const MIN_BIOGRAPHY_CHARS: usize = 120;

/// The longest biography, in characters.
pub const MAX_BIOGRAPHY_CHARS: usize = 700;

/// What precedes the metadata in a brief.
pub const METADATA_HEADING: &'static str = "\n\n# Identity Metadata\n\n";

/// The hook event that calls for a new biography.
pub const COMPACTION_EVENT: &'static str = "PostCompact";

/// An unlawful biography, in the given words.
pub open spec fn unlawful<T>(r: Result<T, IdentityError>, message: Seq<char>) -> bool {
    r is Err && r->Err_0 is Biography && r->Err_0->Biography_0@ == message
}

/// A lawful biography: one paragraph of fitting length.
pub open spec fn is_lawful(biography: Seq<char>) -> bool {
    &&& MIN_BIOGRAPHY_CHARS <= biography.len() <= MAX_BIOGRAPHY_CHARS
    &&& forall|i: int| 0 <= i < biography.len() ==> !is_control(#[trigger] biography[i])
}

/// Whether a text holds a line break.
pub open spec fn breaks(text: Seq<char>) -> bool {
    text.contains('\r') || text.contains('\n')
}

/// Whether a text holds a control character.
pub open spec fn controls(text: Seq<char>) -> bool {
    exists|i: int| 0 <= i < text.len() && is_control(#[trigger] text[i])
}

/// What comes of a biography: the text without white space at its ends where it is lawful, or what is
/// wrong with it.
pub open spec fn judged(biography: Seq<char>, r: Result<String, IdentityError>) -> bool {
    ({
        let text = trimmed(biography);
        if !(MIN_BIOGRAPHY_CHARS <= text.len() <= MAX_BIOGRAPHY_CHARS) {
            unlawful(r, "expected 120..=700 characters, received "@ + decimal(text.len()))
        } else if breaks(text) {
            unlawful(r, "the paragraph contains a line break"@)
        } else if controls(text) {
            unlawful(r, "the paragraph contains a control character"@)
        } else {
            r is Ok && r->Ok_0@ == text
        }
    })
}

fn any_control(text: &str) -> (r: bool)
    ensures
        r == controls(text@),
{
    let chars = characters(text);
    let mut i: usize = 0;
    while i < chars.len()
        invariant
            i <= chars@.len(),
            chars@ == text@,
            forall|j: int| 0 <= j < i ==> !is_control(#[trigger] chars@[j]),
        decreases chars@.len() - i,
    {
        if control_character(chars[i]) {
            assert(is_control(text@[i as int]));
            return true;
        }
        i += 1;
    }
    false
}

/// A biography without white space at its ends, where it is lawful.
pub fn validate(biography: &str) -> (r: Result<String, IdentityError>)
    ensures
        judged(biography@, r),
        r is Ok <==> is_lawful(trimmed(biography@)),
{
    let text = trim(biography);
    let length = characters(text.as_str()).len();
    proof {
        if breaks(text@) {
            let c = if text@.contains('\r') {
                '\r'
            } else {
                '\n'
            };
            let i = choose|i: int| 0 <= i < text@.len() && text@[i] == c;
            assert(is_control(text@[i]));
        }
    }
    if length < MIN_BIOGRAPHY_CHARS || length > MAX_BIOGRAPHY_CHARS {
        return Err(
            IdentityError::Biography(
                glue2(
                    "expected 120..=700 characters, received ",
                    number(length as u64).as_str(),
                ),
            ),
        );
    }
    if holds(text.as_str(), '\r') || holds(text.as_str(), '\n') {
        return Err(
            IdentityError::Biography("the paragraph contains a line break".to_owned()),
        );
    }
    if any_control(text.as_str()) {
        return Err(
            IdentityError::Biography("the paragraph contains a control character".to_owned()),
        );
    }
    Ok(text)
}

/// A biography that was found lawful is, as a bot's description, what the session's identity shows:
/// it is never taken for a blank one, nor for a session of the older form.
pub proof fn law_biographies_read_back(draft: Seq<char>)
    requires
        is_lawful(trimmed(draft)),
    ensures
        biography_text(Some(trimmed(draft))) == Some(trimmed(draft)),
{
    lemma_trimmed(draft);
    reveal_strlit("Codex session ");
    assert("Codex session "@.len() == 14);
}

/// What the forge is told about a session besides its history.
pub open spec fn metadata(name: Seq<char>, incumbent: Option<Seq<char>>) -> Tree {
    Tree::Object(
        map![
            "thread_name"@ => Tree::Text(name),
            "previous_biography"@ => text_or_null(incumbent),
        ],
    )
}

/// The brief for a session: the prompt, and what is known of it.
pub fn forge_prompt(prompt: &str, session: &Session, incumbent: Option<&str>) -> (r: String)
    ensures
        r@ == prompt@ + METADATA_HEADING@ + json_text(
            metadata(session_name(session.id, opt_text(session.title)), opt_str(incumbent)),
        ),
{
    let known = Json::object().with("thread_name", Json::Text(session.name())).with(
        "previous_biography",
        Json::optional(incumbent),
    );
    assert(known.tree()->Object_0 =~= metadata(
        session_name(session.id, opt_text(session.title)),
        opt_str(incumbent),
    )->Object_0);
    glue3(prompt, METADATA_HEADING, known.render().as_str())
}

/// The form of the forge's answer: an object that holds a biography and nothing else.
pub open spec fn draft_schema() -> Tree {
    Tree::Object(
        map![
            "type"@ => Tree::Text("object"@),
            "properties"@ => Tree::Object(
                map!["biography"@ => Tree::Object(map!["type"@ => Tree::Text("string"@)])],
            ),
            "required"@ => Tree::Array(seq![Tree::Text("biography"@)]),
            "additionalProperties"@ => Tree::Bool(false),
        ],
    )
}

/// The form of the forge's answer.
pub fn output_schema() -> (r: Json)
    ensures
        r.tree() == draft_schema(),
        r.settled(),
{
    let text = Json::object().with("type", Json::string("string"));
    Json::object().with("type", Json::string("object")).with(
        "properties",
        Json::object().with("biography", text),
    ).with("required", Json::single(Json::string("biography"))).with(
        "additionalProperties",
        Json::Bool(false),
    )
}

/// Whether a hook event calls for a new biography.
pub open spec fn compacts(event: Seq<char>, r: Result<(), IdentityError>) -> bool {
    if event == COMPACTION_EVENT@ {
        r is Ok
    } else {
        unlawful(r, "identity hook received "@ + event + " instead of PostCompact"@)
    }
}

/// Whether a hook event calls for a new biography.
pub fn require_compaction(event: &str) -> (r: Result<(), IdentityError>)
    ensures
        compacts(event@, r),
{
    if same(event, COMPACTION_EVENT) {
        Ok(())
    } else {
        Err(
            IdentityError::Biography(
                glue3("identity hook received ", event, " instead of PostCompact"),
            ),
        )
    }
}

/// A biography is lawful exactly where, without white space at its ends, it has between 120 and 700
/// characters of which none is a control character; then just that comes of it.
pub proof fn law_lawful_biographies(biography: Seq<char>, r: Result<String, IdentityError>)
    requires
        judged(biography, r),
    ensures
        r is Ok <==> 120 <= trimmed(biography).len() <= 700 && forall|i: int|
            0 <= i < trimmed(biography).len() ==> !is_control(#[trigger] trimmed(biography)[i]),
        r is Ok ==> r->Ok_0@ == trimmed(biography),
        trimmed(biography).len() < 120 || trimmed(biography).len() > 700 ==> r is Err
            && r->Err_0 is Biography && r->Err_0->Biography_0@
            == "expected 120..=700 characters, received "@ + decimal(trimmed(biography).len()),
{
    let text = trimmed(biography);
    if breaks(text) {
        let c = if text.contains('\r') {
            '\r'
        } else {
            '\n'
        };
        let i = choose|i: int| 0 <= i < text.len() && text[i] == c;
        assert(is_control(text[i]));
    }
}

/// What is told about a session is its name and its biography so far, if it has one.
pub proof fn law_metadata(name: Seq<char>, incumbent: Seq<char>)
    ensures
        metadata(name, None).get("thread_name"@) == Some(Tree::Text(name)),
        metadata(name, None).get("previous_biography"@) == Some(Tree::Null),
        metadata(name, Some(incumbent)).get("thread_name"@) == Some(Tree::Text(name)),
        metadata(name, Some(incumbent)).get("previous_biography"@) == Some(Tree::Text(incumbent)),
{
    reveal_strlit("thread_name");
    reveal_strlit("previous_biography");
    assert("thread_name"@.len() == 11 && "previous_biography"@.len() == 18);
}

/// The answer is to be an object with a text `biography`, which must be there, and nothing else.
pub proof fn law_answers_have_a_form(required: Seq<Tree>)
    requires
        required == draft_schema().get("required"@)->Some_0->Array_0,
    ensures
        draft_schema().get("required"@) == Some(Tree::Array(required)),
        draft_schema().get("type"@) == Some(Tree::Text("object"@)),
        draft_schema().at3("properties"@, "biography"@, "type"@) == Some(Tree::Text("string"@)),
        required == seq![Tree::Text("biography"@)],
        draft_schema().get("additionalProperties"@) == Some(Tree::Bool(false)),
{
    reveal_strlit("type");
    reveal_strlit("properties");
    reveal_strlit("required");
    reveal_strlit("additionalProperties");
    assert("type"@.len() == 4 && "properties"@.len() == 10 && "required"@.len() == 8
        && "additionalProperties"@.len() == 20);
}

/// Only a compaction calls for a new biography.
pub proof fn law_compactions(event: Seq<char>, r: Result<(), IdentityError>)
    requires
        compacts(event, r),
    ensures
        r is Ok <==> event == "PostCompact"@,
{
}

} // verus!
