//! What can go wrong, and how it is said.
use vstd::prelude::*;
use crate::text::{glue2, glue4};

verus! {

/// Failures of the Mattermost client.
#[derive(Debug, PartialEq, Eq)]
pub enum WireError {
    Configuration(String),
    Input(String),
    Transport(String),
    /// `status` is the HTTP status code and `label` its customary text.
    Response { status: u16, label: String, body: String },
    Decode(String),
    Keyring(String),
}

/// Failures of the shared Codex app server.
#[derive(Debug, PartialEq, Eq)]
pub enum AppServerError {
    SeatChanged,
    NotLoaded,
    Control(String),
}

/// Failures of the relay.
#[derive(Debug, PartialEq, Eq)]
pub enum RelayError {
    Io(String),
    Protocol(String),
    Json(String),
    Mattermost(WireError),
}

/// Failures of the identity forge.
#[derive(Debug, PartialEq, Eq)]
pub enum IdentityError {
    Wire(WireError),
    AppServer(AppServerError),
    Io(String),
    Task(String),
    ForgeDecode(String),
    HookDecode(String),
    Biography(String),
    Runtime,
}

/// A tool call that cannot be served.
#[derive(Debug, PartialEq, Eq)]
pub enum CallError {
    /// The caller's arguments are at fault.
    InvalidParams(String),
    /// The server is at fault.
    Internal(String),
}

pub open spec fn wire_error_text(error: WireError) -> Seq<char> {
    match error {
        WireError::Configuration(message) => "invalid configuration: "@ + message@,
        WireError::Input(message) => "invalid input: "@ + message@,
        WireError::Transport(message) => "Mattermost request failed: "@ + message@,
        WireError::Response { status, label, body } => "Mattermost returned HTTP "@ + label@ + ": "@
            + body@,
        WireError::Decode(message) => "Mattermost response was invalid: "@ + message@,
        WireError::Keyring(message) => "local credential registry failed: "@ + message@,
    }
}

pub open spec fn app_server_error_text(error: AppServerError) -> Seq<char> {
    match error {
        AppServerError::SeatChanged =>
            "target Codex session is no longer live in the reserved process"@,
        AppServerError::NotLoaded =>
            "target Codex session is not loaded by the shared app server"@,
        AppServerError::Control(message) => "Codex app-server control failed: "@ + message@,
    }
}

pub open spec fn relay_error_text(error: RelayError) -> Seq<char> {
    match error {
        RelayError::Io(message) => "relay I/O failed: "@ + message@,
        RelayError::Protocol(message) => "relay protocol failed: "@ + message@,
        RelayError::Json(message) => "relay JSON failed: "@ + message@,
        RelayError::Mattermost(error) => wire_error_text(error),
    }
}

pub open spec fn identity_error_text(error: IdentityError) -> Seq<char> {
    match error {
        IdentityError::Wire(error) => wire_error_text(error),
        IdentityError::AppServer(error) => app_server_error_text(error),
        IdentityError::Io(message) => "identity forge I/O failed: "@ + message@,
        IdentityError::Task(message) => "identity lock task failed: "@ + message@,
        IdentityError::ForgeDecode(message) => "identity forge returned invalid JSON: "@ + message@,
        IdentityError::HookDecode(message) => "invalid Codex hook event: "@ + message@,
        IdentityError::Biography(message) => "identity forge returned an unlawful biography: "@
            + message@,
        IdentityError::Runtime =>
            "CODEX_HOME must resolve to an absolute path for identity serialization"@,
    }
}

impl WireError {
    pub fn text(&self) -> (r: String)
        ensures
            r@ == wire_error_text(*self),
    {
        match self {
            WireError::Configuration(message) => glue2("invalid configuration: ", message.as_str()),
            WireError::Input(message) => glue2("invalid input: ", message.as_str()),
            WireError::Transport(message) => glue2("Mattermost request failed: ", message.as_str()),
            WireError::Response { status: _, label, body } => glue4(
                "Mattermost returned HTTP ",
                label.as_str(),
                ": ",
                body.as_str(),
            ),
            WireError::Decode(message) => glue2(
                "Mattermost response was invalid: ",
                message.as_str(),
            ),
            WireError::Keyring(message) => glue2(
                "local credential registry failed: ",
                message.as_str(),
            ),
        }
    }

    /// Whether Mattermost answered with the given status.
    pub fn answered(&self, wanted: u16) -> (r: bool)
        ensures
            r == (self is Response && self->status == wanted),
    {
        match self {
            WireError::Response { status, .. } => *status == wanted,
            _ => false,
        }
    }
}

impl AppServerError {
    pub fn text(&self) -> (r: String)
        ensures
            r@ == app_server_error_text(*self),
    {
        match self {
            AppServerError::SeatChanged =>
                "target Codex session is no longer live in the reserved process".to_owned(),
            AppServerError::NotLoaded =>
                "target Codex session is not loaded by the shared app server".to_owned(),
            AppServerError::Control(message) => glue2(
                "Codex app-server control failed: ",
                message.as_str(),
            ),
        }
    }
}

impl RelayError {
    pub fn text(&self) -> (r: String)
        ensures
            r@ == relay_error_text(*self),
    {
        match self {
            RelayError::Io(message) => glue2("relay I/O failed: ", message.as_str()),
            RelayError::Protocol(message) => glue2("relay protocol failed: ", message.as_str()),
            RelayError::Json(message) => glue2("relay JSON failed: ", message.as_str()),
            RelayError::Mattermost(error) => error.text(),
        }
    }
}

impl IdentityError {
    pub fn text(&self) -> (r: String)
        ensures
            r@ == identity_error_text(*self),
    {
        match self {
            IdentityError::Wire(error) => error.text(),
            IdentityError::AppServer(error) => error.text(),
            IdentityError::Io(message) => glue2("identity forge I/O failed: ", message.as_str()),
            IdentityError::Task(message) => glue2("identity lock task failed: ", message.as_str()),
            IdentityError::ForgeDecode(message) => glue2(
                "identity forge returned invalid JSON: ",
                message.as_str(),
            ),
            IdentityError::HookDecode(message) => glue2(
                "invalid Codex hook event: ",
                message.as_str(),
            ),
            IdentityError::Biography(message) => glue2(
                "identity forge returned an unlawful biography: ",
                message.as_str(),
            ),
            IdentityError::Runtime =>
                "CODEX_HOME must resolve to an absolute path for identity serialization".to_owned(),
        }
    }
}

/// A failure of the app server's control channel.
pub fn control(error: String) -> (r: AppServerError)
    ensures
        r == AppServerError::Control(error),
{
    AppServerError::Control(error)
}

/// A fault in the caller's arguments.
pub fn invalid(message: String) -> (r: CallError)
    ensures
        r == CallError::InvalidParams(message),
{
    CallError::InvalidParams(message)
}

/// A fault of the server's own.
pub fn internal(error: &str) -> (r: CallError)
    ensures
        r is Internal,
        r->Internal_0@ == "wire output failed: "@ + error@,
{
    CallError::Internal(glue2("wire output failed: ", error))
}

/// Every error is told in words of its kind, followed by what is known of it; errors of others are
/// told as they are.
pub proof fn law_errors_are_told(message: String, label: String, status: u16, inner: WireError)
    ensures
        "invalid configuration: "@ + message@ == wire_error_text(WireError::Configuration(message)),
        "invalid input: "@ + message@ == wire_error_text(WireError::Input(message)),
        "Mattermost returned HTTP "@ + label@ + ": "@ + message@ == wire_error_text(
            WireError::Response { status, label, body: message },
        ),
        relay_error_text(RelayError::Mattermost(inner)) == wire_error_text(inner),
        identity_error_text(IdentityError::Wire(inner)) == wire_error_text(inner),
        "relay protocol failed: "@ + message@ == relay_error_text(RelayError::Protocol(message)),
        "Codex app-server control failed: "@ + message@ == app_server_error_text(
            AppServerError::Control(message),
        ),
        identity_error_text(IdentityError::AppServer(AppServerError::Control(message)))
            == app_server_error_text(AppServerError::Control(message)),
{
}

} // verus!
