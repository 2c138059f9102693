//! Secrets: how the desktop's keyring is asked for them, and what its answers mean.
use vstd::prelude::*;
use crate::error::WireError;
use crate::ident::{hyphenated_text, SessionId};
use crate::text::{glue2, opt_text, texts, trim, trimmed};
use crate::utf8::{guess, guessed_text, read, read_text};

verus! {

/// The program that speaks to the keyring.
pub const SECRET_TOOL: &'static str = "secret-tool";

/// The account of the administrator's token.
pub const ADMIN_ACCOUNT: &'static str = "admin";

/// The account of a session's token.
pub const SESSION_ACCOUNT: &'static str = "session";

/// What tells one secret from another.
pub open spec fn attributes_of(account: Seq<char>, session: Option<SessionId>) -> Seq<Seq<char>> {
    let base = seq!["application"@, "wire"@, "service"@, "mattermost"@, "account"@, account];
    match session {
        Some(id) => base.push("session"@).push(hyphenated_text(id.value)),
        None => base,
    }
}

/// What tells one secret from another.
pub fn secret_attributes(account: &str, session: Option<SessionId>) -> (r: Vec<String>)
    ensures
        texts(r@) == attributes_of(account@, session),
{
    let mut attributes: Vec<String> = Vec::new();
    attributes.push("application".to_owned());
    attributes.push("wire".to_owned());
    attributes.push("service".to_owned());
    attributes.push("mattermost".to_owned());
    attributes.push("account".to_owned());
    attributes.push(account.to_owned());
    if let Some(id) = session {
        attributes.push("session".to_owned());
        attributes.push(id.text());
    }
    assert(texts(attributes@) =~= attributes_of(account@, session));
    attributes
}

/// The arguments of a command about a secret.
pub fn secret_args(command: &str, account: &str, session: Option<SessionId>) -> (r: Vec<String>)
    ensures
        texts(r@) == seq![command@] + attributes_of(account@, session),
{
    let mut args: Vec<String> = Vec::new();
    args.push(command.to_owned());
    let mut attributes = secret_attributes(account, session);
    let ghost listed = attributes@;
    args.append(&mut attributes);
    assert(texts(args@) =~= seq![command@] + texts(listed));
    args
}

/// The arguments that store a session's secret under a label.
pub fn store_args(account: &str, session: SessionId, display_name: &str) -> (r: Vec<String>)
    ensures
        texts(r@) == seq!["store"@, "--label=Wire "@ + display_name@] + attributes_of(
            account@,
            Some(session),
        ),
{
    let mut args: Vec<String> = Vec::new();
    args.push("store".to_owned());
    args.push(glue2("--label=Wire ", display_name));
    let mut attributes = secret_attributes(account, Some(session));
    let ghost listed = attributes@;
    let ghost head = args@;
    args.append(&mut attributes);
    assert(texts(head) =~= seq!["store"@, "--label=Wire "@ + display_name@]);
    assert(texts(args@) =~= texts(head) + texts(listed));
    args
}

/// Two secrets of one account with the same attributes are those of one session.
pub proof fn law_secrets_are_apart(account: Seq<char>, left: Option<SessionId>, right: Option<SessionId>)
    ensures
        attributes_of(account, left) == attributes_of(account, right) ==> left == right,
{
    if attributes_of(account, left) == attributes_of(account, right) {
        match (left, right) {
            (Some(a), Some(b)) => {
                assert(attributes_of(account, left)[7] == attributes_of(account, right)[7]);
                crate::ident::law_session_id_texts_differ(a, b);
            },
            (Some(_), None) => {
                assert(attributes_of(account, left).len() == 8);
            },
            (None, Some(_)) => {
                assert(attributes_of(account, right).len() == 8);
            },
            (None, None) => {},
        }
    }
}

/// How a command ended: whether it succeeded, its exit code, what it printed, and what it complained
/// of.
#[derive(Debug, PartialEq, Eq)]
pub struct CommandOutput {
    pub success: bool,
    pub code: Option<i32>,
    pub stdout: Vec<u8>,
    pub stderr: Vec<u8>,
}

/// A failure of the keyring with the given message.
pub open spec fn keyring_error<T>(r: Result<T, WireError>, message: Seq<char>) -> bool {
    r is Err && r->Err_0 is Keyring && r->Err_0->Keyring_0@ == message
}

/// Whether a command found nothing, as opposed to failing.
pub open spec fn found_nothing(output: CommandOutput) -> bool {
    !output.success && output.code == Some(1i32) && output.stderr@.len() == 0
}

fn nothing(output: &CommandOutput) -> (r: bool)
    ensures
        r == found_nothing(*output),
{
    let one = match output.code {
        Some(code) => code == 1,
        None => false,
    };
    !output.success && one && output.stderr.len() == 0
}

fn complaint(output: &CommandOutput) -> (r: String)
    ensures
        r@ == trimmed(guessed_text(output.stderr@)),
{
    trim(guess(&output.stderr).as_str())
}

/// The secret that a look brought, if any.
pub open spec fn looked_up(
    output: CommandOutput,
    r: Result<Option<String>, WireError>,
) -> bool {
    if found_nothing(output) {
        r == Ok::<Option<String>, WireError>(None)
    } else if !output.success {
        keyring_error(r, trimmed(guessed_text(output.stderr@)))
    } else {
        match read_text(output.stdout@) {
            Err(complaint) => keyring_error(r, complaint),
            Ok(printed) => r is Ok && opt_text(r->Ok_0) == if trimmed(printed).len() == 0 {
                None
            } else {
                Some(trimmed(printed))
            },
        }
    }
}

/// The secret that a look brought, if any.
pub fn secret_output(output: CommandOutput) -> (r: Result<Option<String>, WireError>)
    ensures
        looked_up(output, r),
{
    if nothing(&output) {
        return Ok(None);
    }
    if !output.success {
        return Err(WireError::Keyring(complaint(&output)));
    }
    match read(output.stdout) {
        Err(complaint) => Err(WireError::Keyring(complaint)),
        Ok(printed) => {
            let token = trim(printed.as_str());
            if token.as_str().is_empty() {
                Ok(None)
            } else {
                Ok(Some(token))
            }
        },
    }
}

/// Whether there was a secret to clear.
pub open spec fn cleared(output: CommandOutput, r: Result<bool, WireError>) -> bool {
    if output.success {
        r == Ok::<bool, WireError>(true)
    } else if found_nothing(output) {
        r == Ok::<bool, WireError>(false)
    } else {
        keyring_error(r, trimmed(guessed_text(output.stderr@)))
    }
}

/// Whether there was a secret to clear.
pub fn secret_cleared(output: CommandOutput) -> (r: Result<bool, WireError>)
    ensures
        cleared(output, r),
{
    if output.success {
        Ok(true)
    } else if nothing(&output) {
        Ok(false)
    } else {
        Err(WireError::Keyring(complaint(&output)))
    }
}

/// Whether a secret was stored.
pub open spec fn stored(output: CommandOutput, r: Result<(), WireError>) -> bool {
    if output.success {
        r is Ok
    } else {
        keyring_error(r, trimmed(guessed_text(output.stderr@)))
    }
}

/// Whether a secret was stored.
pub fn secret_stored(output: CommandOutput) -> (r: Result<(), WireError>)
    ensures
        stored(output, r),
{
    if output.success {
        Ok(())
    } else {
        Err(WireError::Keyring(complaint(&output)))
    }
}

/// A secret is told by its application, its service, its account and, where it is a session's, that
/// session.
pub proof fn law_attributes(account: Seq<char>, session: SessionId)
    ensures
        attributes_of(account, None) == seq![
            "application"@,
            "wire"@,
            "service"@,
            "mattermost"@,
            "account"@,
            account,
        ],
        attributes_of(account, Some(session)) == attributes_of(account, None) + seq![
            "session"@,
            hyphenated_text(session.value),
        ],
{
    assert(attributes_of(account, Some(session)) =~= attributes_of(account, None) + seq![
        "session"@,
        hyphenated_text(session.value),
    ]);
}

/// What a look printed is the secret, but for white space at its ends; where nothing visible was
/// printed, or the command ended with 1 and no complaint, there is none; every other end is an error.
pub proof fn law_looks(
    output: CommandOutput,
    printed: Seq<char>,
    found: Result<Option<String>, WireError>,
    gone: Result<bool, WireError>,
    kept: Result<(), WireError>,
)
    requires
        read_text(output.stdout@) == Ok::<Seq<char>, Seq<char>>(printed),
        looked_up(output, found),
        cleared(output, gone),
        stored(output, kept),
    ensures
        output.success && trimmed(printed).len() > 0 ==> found is Ok && opt_text(found->Ok_0)
            == Some(trimmed(printed)),
        output.success && trimmed(printed).len() == 0 ==> found is Ok && found->Ok_0 is None,
        !output.success && output.code == Some(1i32) && output.stderr@.len() == 0 ==> found is Ok
            && found->Ok_0 is None && gone == Ok::<bool, WireError>(false) && kept is Err,
        !output.success && (output.code != Some(1i32) || output.stderr@.len() > 0) ==> found is Err
            && gone is Err && kept is Err,
        output.success ==> gone == Ok::<bool, WireError>(true) && kept is Ok,
{
}

} // verus!
