//! Configuration: the broadcast switch, the API root and the administrator's token.
use vstd::prelude::*;
use crate::error::WireError;
use crate::secret::keyring_error;
use crate::session::configuration_error;
use crate::text::{blank, glue2, glue4, is_blank, is_white, law_trailing_text, law_trimmed_text, longer_than, opt_str, opt_text, same, trim, trim_trailing, trimmed, without_trailing};

verus! {

/// The environment variable, and the entry in Codex's configuration, that switch broadcasting.
pub const BROADCAST_ENV: &'static str = "WIRE_CHANNEL_BROADCAST";

/// The API root unless the environment names another.
pub const DEFAULT_URL: &'static str = "http://127.0.0.1:8065/api/v4";

/// Whether agents' channel posts are pushed to other agents.
#[derive(Clone, Copy, Debug, PartialEq, Eq, Structural)]
pub enum ChannelBroadcast {
    Disabled,
    Enabled,
}

/// What a TOML document says, as far as tables and texts go.
pub enum Toml {
    Text(Seq<char>),
    Table(Map<Seq<char>, Toml>),
    Other,
}

impl Toml {
    /// The member of a table.
    pub open spec fn get(self, key: Seq<char>) -> Option<Toml> {
        match self {
            Toml::Table(members) => if members.dom().contains(key) {
                Some(members[key])
            } else {
                None
            },
            _ => None,
        }
    }
}

/// What a `toml::Value` says.
pub uninterp spec fn toml_content(value: toml::Value) -> Toml;

/// What `toml` reads from a text: a document, or the message of the error.
pub uninterp spec fn toml_parse(text: Seq<char>) -> Result<Toml, Seq<char>>;

/// `toml::Value`, carried between the wrappers below.
#[verifier::external_type_specification]
#[verifier::external_body]
pub struct ExToml(toml::Value);

/// `toml::from_str` into a table: the document that the text spells, or the message of the error.
#[verifier::external_body]
fn decode_toml(text: &str) -> (r: Result<toml::Value, String>)
    ensures
        match r {
            Ok(value) => toml_parse(text@) == Ok::<Toml, Seq<char>>(toml_content(value)),
            Err(complaint) => toml_parse(text@) == Err::<Toml, Seq<char>>(complaint@),
        },
{
    match toml::from_str::<toml::Table>(text) {
        Ok(table) => Ok(toml::Value::Table(table)),
        Err(error) => Err(error.to_string()),
    }
}

/// `toml::Value::get` with a key: the member of a table; other values have none.
#[verifier::external_body]
fn toml_member<'a>(value: &'a toml::Value, key: &str) -> (r: Option<&'a toml::Value>)
    ensures
        toml_content(*value).get(key@) == match r {
            Some(member) => Some(toml_content(*member)),
            None => None,
        },
{
    value.get(key)
}

/// `toml::Value::as_str`: the text of a value that is one.
#[verifier::external_body]
fn toml_text(value: &toml::Value) -> (r: Option<&str>)
    ensures
        match r {
            Some(text) => toml_content(*value) == Toml::Text(text@),
            None => !(toml_content(*value) is Text),
        },
{
    value.as_str()
}

/// The entry that switches broadcasting.
#[derive(Debug, PartialEq, Eq)]
pub enum Switch {
    Absent,
    /// Something that is no text.
    Other,
    Text(String),
}

/// The member of a value that may be absent.
pub open spec fn deeper(value: Option<Toml>, key: Seq<char>) -> Option<Toml> {
    match value {
        Some(value) => value.get(key),
        None => None,
    }
}

/// The entry that switches broadcasting, in Codex's configuration.
pub open spec fn entry(document: Toml) -> Option<Toml> {
    deeper(deeper(deeper(document.get("mcp_servers"@), "wire"@), "env"@), BROADCAST_ENV@)
}

fn member_of<'a>(value: Option<&'a toml::Value>, key: &str) -> (r: Option<&'a toml::Value>)
    ensures
        (match r {
            Some(member) => Some(toml_content(*member)),
            None => None,
        }) == deeper(
            match value {
                Some(value) => Some(toml_content(*value)),
                None => None,
            },
            key@,
        ),
{
    match value {
        Some(value) => toml_member(value, key),
        None => None,
    }
}

fn find_switch(document: &toml::Value) -> (r: Switch)
    ensures
        match entry(toml_content(*document)) {
            None => r is Absent,
            Some(Toml::Text(text)) => r is Text && r->Text_0@ == text,
            Some(_) => r is Other,
        },
{
    let wire = member_of(toml_member(document, "mcp_servers"), "wire");
    match member_of(member_of(wire, "env"), BROADCAST_ENV) {
        None => Switch::Absent,
        Some(value) => match toml_text(value) {
            Some(text) => Switch::Text(text.to_owned()),
            None => Switch::Other,
        },
    }
}

/// What a text says of the switch, but for white space around it.
pub open spec fn spelled(value: Seq<char>) -> Option<ChannelBroadcast> {
    if trimmed(value) == "false"@ {
        Some(ChannelBroadcast::Disabled)
    } else if trimmed(value) == "true"@ {
        Some(ChannelBroadcast::Enabled)
    } else {
        None
    }
}

/// A failure in the given words.
pub open spec fn says<T>(r: Result<T, String>, message: Seq<char>) -> bool {
    r is Err && r->Err_0@ == message
}

/// What a text makes of the switch.
pub open spec fn parsed(value: Seq<char>, r: Result<ChannelBroadcast, String>) -> bool {
    match spelled(value) {
        Some(broadcast) => r == Ok::<ChannelBroadcast, String>(broadcast),
        None => says(r, BROADCAST_ENV@ + " must be `true` or `false`"@),
    }
}

/// An environment variable.
#[derive(Debug, PartialEq, Eq)]
pub enum Variable {
    Present(String),
    NotUnicode,
    Absent,
}

/// Codex's configuration file, as it was found.
#[derive(Debug, PartialEq, Eq)]
pub enum ConfigFile {
    Missing,
    Failed(String),
    Text(String),
}

/// Codex's configuration file: where it should be, and how it was found.
#[derive(Debug, PartialEq, Eq)]
pub struct ConfigSource {
    pub path: String,
    pub file: ConfigFile,
}

/// What an entry makes of the switch.
pub open spec fn switches(switch: Switch, r: Result<ChannelBroadcast, String>) -> bool {
    match switch {
        Switch::Absent => r == Ok::<ChannelBroadcast, String>(ChannelBroadcast::Disabled),
        Switch::Other => says(r, "mcp_servers.wire.env."@ + BROADCAST_ENV@ + " must be a string"@),
        Switch::Text(text) => parsed(text@, r),
    }
}

/// What Codex's configuration makes of the switch.
pub open spec fn configured(source: ConfigSource, r: Result<ChannelBroadcast, String>) -> bool {
    match source.file {
        ConfigFile::Missing => r == Ok::<ChannelBroadcast, String>(ChannelBroadcast::Disabled),
        ConfigFile::Failed(complaint) => says(
            r,
            "cannot read "@ + source.path@ + ": "@ + complaint@,
        ),
        ConfigFile::Text(text) => match toml_parse(text@) {
            Err(complaint) => says(r, "cannot parse "@ + source.path@ + ": "@ + complaint),
            Ok(document) => match entry(document) {
                None => r == Ok::<ChannelBroadcast, String>(ChannelBroadcast::Disabled),
                Some(Toml::Text(text)) => parsed(text, r),
                Some(_) => says(
                    r,
                    "mcp_servers.wire.env."@ + BROADCAST_ENV@ + " must be a string"@,
                ),
            },
        },
    }
}

/// The switch: as the environment has it, or else Codex's configuration, or else off.
pub open spec fn loads(
    variable: Variable,
    config: Option<ConfigSource>,
    r: Result<ChannelBroadcast, String>,
) -> bool {
    match variable {
        Variable::Present(value) => parsed(value@, r),
        Variable::NotUnicode => says(r, BROADCAST_ENV@ + " is not UTF-8"@),
        Variable::Absent => match config {
            None => r == Ok::<ChannelBroadcast, String>(ChannelBroadcast::Disabled),
            Some(source) => configured(source, r),
        },
    }
}

impl ChannelBroadcast {
    pub fn enabled(self) -> (r: bool)
        ensures
            r == (self == ChannelBroadcast::Enabled),
    {
        matches!(self, ChannelBroadcast::Enabled)
    }

    /// What a text makes of the switch.
    pub fn parse(value: &str) -> (r: Result<ChannelBroadcast, String>)
        ensures
            parsed(value@, r),
    {
        let value = trim(value);
        if same(value.as_str(), "false") {
            Ok(ChannelBroadcast::Disabled)
        } else if same(value.as_str(), "true") {
            Ok(ChannelBroadcast::Enabled)
        } else {
            Err(glue2(BROADCAST_ENV, " must be `true` or `false`"))
        }
    }

    /// What an entry makes of the switch.
    pub fn from_switch(switch: Switch) -> (r: Result<ChannelBroadcast, String>)
        ensures
            switches(switch, r),
    {
        match switch {
            Switch::Absent => Ok(ChannelBroadcast::Disabled),
            Switch::Other => Err(
                crate::text::glue3("mcp_servers.wire.env.", BROADCAST_ENV, " must be a string"),
            ),
            Switch::Text(text) => ChannelBroadcast::parse(text.as_str()),
        }
    }

    /// The switch: as the environment has it, or else Codex's configuration, or else off.
    pub fn load(variable: &Variable, config: Option<ConfigSource>) -> (r: Result<
        ChannelBroadcast,
        String,
    >)
        ensures
            loads(*variable, config, r),
    {
        match variable {
            Variable::Present(value) => return ChannelBroadcast::parse(value.as_str()),
            Variable::NotUnicode => return Err(glue2(BROADCAST_ENV, " is not UTF-8")),
            Variable::Absent => {},
        }
        let source = match config {
            Some(source) => source,
            None => return Ok(ChannelBroadcast::Disabled),
        };
        let text = match source.file {
            ConfigFile::Missing => return Ok(ChannelBroadcast::Disabled),
            ConfigFile::Failed(complaint) => {
                return Err(
                    glue4("cannot read ", source.path.as_str(), ": ", complaint.as_str()),
                );
            },
            ConfigFile::Text(text) => text,
        };
        match decode_toml(text.as_str()) {
            Ok(document) => ChannelBroadcast::from_switch(find_switch(&document)),
            Err(complaint) => Err(
                glue4("cannot parse ", source.path.as_str(), ": ", complaint.as_str()),
            ),
        }
    }
}

/// The parts of a URL that matter here.
#[derive(Debug, PartialEq, Eq)]
pub struct UrlParts {
    pub scheme: String,
    /// Whether it cannot be a base.
    pub opaque: bool,
    pub username: String,
    pub has_password: bool,
    pub has_query: bool,
    pub has_fragment: bool,
    pub path: String,
}

/// What the parts of a URL say.
pub struct UrlView {
    pub scheme: Seq<char>,
    pub opaque: bool,
    pub username: Seq<char>,
    pub has_password: bool,
    pub has_query: bool,
    pub has_fragment: bool,
    pub path: Seq<char>,
}

impl View for UrlParts {
    type V = UrlView;

    open spec fn view(&self) -> UrlView {
        UrlView {
            scheme: self.scheme@,
            opaque: self.opaque,
            username: self.username@,
            has_password: self.has_password,
            has_query: self.has_query,
            has_fragment: self.has_fragment,
            path: self.path@,
        }
    }
}

/// What `reqwest::Url` reads from a text: the parts of a URL, or the message of the error.
pub uninterp spec fn url_parse(text: Seq<char>) -> Result<UrlView, Seq<char>>;

/// The text of a URL that was read from a text and then given a scheme and a path; nothing where it
/// does not admit the scheme.
pub uninterp spec fn url_with(text: Seq<char>, scheme: Seq<char>, path: Seq<char>) -> Option<Seq<char>>;

/// `reqwest::Url::parse`, and the accessors of what it returns.
#[verifier::external_body]
fn parse_url(text: &str) -> (r: Result<UrlParts, String>)
    ensures
        match r {
            Ok(parts) => url_parse(text@) == Ok::<UrlView, Seq<char>>(parts@),
            Err(complaint) => url_parse(text@) == Err::<UrlView, Seq<char>>(complaint@),
        },
{
    let url = reqwest::Url::parse(text).map_err(|error| error.to_string())?;
    Ok(UrlParts {
        scheme: url.scheme().to_owned(),
        opaque: url.cannot_be_a_base(),
        username: url.username().to_owned(),
        has_password: url.password().is_some(),
        has_query: url.query().is_some(),
        has_fragment: url.fragment().is_some(),
        path: url.path().to_owned(),
    })
}

/// How long a URL and a path may be that are put together, in characters. `reqwest::Url` counts the
/// bytes of its text in 32 bits and panics where they do not fit; below this length they do, even
/// where every character is mapped and escaped.
pub const URL_CHARS: usize = 0x0100_0000;

/// `reqwest::Url::set_scheme` and `reqwest::Url::set_path` on a URL that `reqwest::Url::parse` reads,
/// and the text of the outcome. Longer texts are left out, since `set_path` panics where the text of
/// the URL outgrows 32 bits.
#[verifier::external_body]
fn change_url(text: &str, scheme: &str, path: &str) -> (r: Option<String>)
    requires
        text@.len() <= URL_CHARS,
        scheme@.len() <= 3,
        path@.len() <= URL_CHARS,
    ensures
        opt_text(r) == url_with(text@, scheme@, path@),
{
    let mut url = reqwest::Url::parse(text).ok()?;
    url.set_scheme(scheme).ok()?;
    url.set_path(path);
    Some(url.to_string())
}

/// Whether a URL is an API root: HTTP, hierarchical, and nothing but a path behind the host.
pub open spec fn is_root(url: UrlView) -> bool {
    &&& url.scheme == "http"@ || url.scheme == "https"@
    &&& !url.opaque
    &&& url.username.len() == 0
    &&& !url.has_password
    &&& !url.has_query
    &&& !url.has_fragment
}

/// Why a URL is no API root.
pub const NO_ROOT: &'static str =
    "WIRE_URL must be an HTTP(S) API root without credentials, query, or fragment";

/// Whether a URL that was read is an API root.
pub fn require_root(url: Result<UrlParts, String>) -> (r: Result<(), WireError>)
    ensures
        match url {
            Err(complaint) => configuration_error(r, "WIRE_URL: "@ + complaint@),
            Ok(parts) => if is_root(parts@) {
                r is Ok
            } else {
                configuration_error(r, NO_ROOT@)
            },
        },
{
    let parts = match url {
        Ok(parts) => parts,
        Err(complaint) => {
            return Err(WireError::Configuration(glue2("WIRE_URL: ", complaint.as_str())));
        },
    };
    let http = same(parts.scheme.as_str(), "http") || same(parts.scheme.as_str(), "https");
    if !http || parts.opaque || !parts.username.as_str().is_empty() || parts.has_password
        || parts.has_query || parts.has_fragment {
        return Err(WireError::Configuration(NO_ROOT.to_owned()));
    }
    Ok(())
}

/// What a text makes of the API root.
pub open spec fn root_fault(text: Seq<char>) -> Option<Seq<char>> {
    match url_parse(text) {
        Err(complaint) => Some("WIRE_URL: "@ + complaint),
        Ok(url) => if is_root(url) {
            None
        } else {
            Some(NO_ROOT@)
        },
    }
}

/// Settings whose token may still have to be looked up.
#[derive(Debug, PartialEq, Eq)]
pub struct Pending {
    pub base: String,
    pub token: Option<String>,
    pub broadcast: ChannelBroadcast,
}

/// Complete settings.
#[derive(Debug, PartialEq, Eq)]
pub struct Settings {
    pub base: String,
    pub admin_token: String,
    pub broadcast: ChannelBroadcast,
}

/// The API root that the environment names, or the default.
pub open spec fn named_root(url: Option<Seq<char>>) -> Seq<char> {
    match url {
        Some(url) => url,
        None => DEFAULT_URL@,
    }
}

/// A token that the environment holds; a blank one is none.
pub open spec fn held_token(token: Option<Seq<char>>) -> Option<Seq<char>> {
    match token {
        Some(token) => if is_blank(token) {
            None
        } else {
            Some(token)
        },
        None => None,
    }
}

/// Settings from the environment. The root is kept without slashes at its end.
pub open spec fn pends(
    broadcast: Result<ChannelBroadcast, String>,
    url: Option<Seq<char>>,
    token: Option<Seq<char>>,
    r: Result<Pending, WireError>,
) -> bool {
    match broadcast {
        Err(complaint) => configuration_error(r, complaint@),
        Ok(broadcast) => match root_fault(named_root(url)) {
            Some(fault) => configuration_error(r, fault),
            None => {
                &&& r is Ok
                &&& r->Ok_0.base@ == without_trailing(named_root(url), '/')
                &&& opt_text(r->Ok_0.token) == held_token(token)
                &&& r->Ok_0.broadcast == broadcast
            },
        },
    }
}

/// Complete settings, with what a look for the administrator's secret brought.
pub open spec fn completes(
    pending: Pending,
    secret: Result<Option<String>, WireError>,
    r: Result<Settings, WireError>,
) -> bool {
    match (pending.token, secret) {
        (Some(token), _) => r == Ok::<Settings, WireError>(
            Settings { base: pending.base, admin_token: token, broadcast: pending.broadcast },
        ),
        (None, Ok(Some(token))) => r == Ok::<Settings, WireError>(
            Settings { base: pending.base, admin_token: token, broadcast: pending.broadcast },
        ),
        (None, Ok(None)) => keyring_error(r, "Mattermost administrator token is absent"@),
        (None, Err(error)) => r == Err::<Settings, WireError>(error),
    }
}

impl Pending {
    /// Settings from the environment. The root is kept without slashes at its end.
    pub fn load(
        broadcast: Result<ChannelBroadcast, String>,
        url: Option<&str>,
        token: Option<&str>,
    ) -> (r: Result<Pending, WireError>)
        ensures
            pends(broadcast, opt_str(url), opt_str(token), r),
    {
        let broadcast = match broadcast {
            Ok(broadcast) => broadcast,
            Err(complaint) => return Err(WireError::Configuration(complaint)),
        };
        let base = match url {
            Some(url) => url,
            None => DEFAULT_URL,
        };
        match require_root(parse_url(base)) {
            Ok(()) => {},
            Err(error) => return Err(error),
        }
        let token = match token {
            Some(token) => if blank(token) {
                None
            } else {
                Some(token.to_owned())
            },
            None => None,
        };
        Ok(Pending { base: trim_trailing(base, '/'), token, broadcast })
    }

    /// Complete settings, with what a look for the administrator's secret brought. It counts only
    /// where the environment holds no token.
    pub fn complete(self, secret: Result<Option<String>, WireError>) -> (r: Result<
        Settings,
        WireError,
    >)
        ensures
            completes(self, secret, r),
    {
        let admin_token = match (self.token, secret) {
            (Some(token), _) => token,
            (None, Ok(Some(token))) => token,
            (None, Ok(None)) => {
                return Err(
                    WireError::Keyring("Mattermost administrator token is absent".to_owned()),
                );
            },
            (None, Err(error)) => return Err(error),
        };
        Ok(Settings { base: self.base, admin_token, broadcast: self.broadcast })
    }
}

/// The scheme of the live connection.
pub open spec fn live_scheme(scheme: Seq<char>) -> Option<Seq<char>> {
    if scheme == "http"@ {
        Some("ws"@)
    } else if scheme == "https"@ {
        Some("wss"@)
    } else {
        None
    }
}

/// The scheme of the live connection.
pub fn websocket_scheme(scheme: &str) -> (r: Option<&'static str>)
    ensures
        opt_str(r) == live_scheme(scheme@),
{
    if same(scheme, "http") {
        Some("ws")
    } else if same(scheme, "https") {
        Some("wss")
    } else {
        None
    }
}

/// The path of the live connection.
pub open spec fn live_path(path: Seq<char>) -> Seq<char> {
    without_trailing(path, '/') + "/websocket"@
}

/// The path of the live connection.
pub fn websocket_path(path: &str) -> (r: String)
    ensures
        r@ == live_path(path@),
{
    glue2(trim_trailing(path, '/').as_str(), "/websocket")
}

/// The address of the live connection under an API root.
pub open spec fn connects(base: Seq<char>, r: Result<String, WireError>) -> bool {
    match url_parse(base) {
        Err(complaint) => configuration_error(r, "WIRE_URL: "@ + complaint),
        Ok(url) => match live_scheme(url.scheme) {
            None => configuration_error(r, "WIRE_URL does not project to a WebSocket URL"@),
            Some(scheme) => if base.len() > URL_CHARS || live_path(url.path).len() > URL_CHARS {
                configuration_error(r, "WIRE_URL is too long"@)
            } else {
                match url_with(base, scheme, live_path(url.path)) {
                    Some(address) => r is Ok && r->Ok_0@ == address,
                    None => configuration_error(
                        r,
                        "WIRE_URL does not admit a WebSocket scheme"@,
                    ),
                }
            },
        },
    }
}

/// The address of the live connection under an API root.
pub fn websocket_url(base: &str) -> (r: Result<String, WireError>)
    ensures
        connects(base@, r),
{
    let parts = match parse_url(base) {
        Ok(parts) => parts,
        Err(complaint) => {
            return Err(WireError::Configuration(glue2("WIRE_URL: ", complaint.as_str())));
        },
    };
    let scheme = match websocket_scheme(parts.scheme.as_str()) {
        Some(scheme) => scheme,
        None => {
            return Err(
                WireError::Configuration(
                    "WIRE_URL does not project to a WebSocket URL".to_owned(),
                ),
            );
        },
    };
    let path = websocket_path(parts.path.as_str());
    if longer_than(base, URL_CHARS) || longer_than(path.as_str(), URL_CHARS) {
        return Err(WireError::Configuration("WIRE_URL is too long".to_owned()));
    }
    proof {
        reveal_strlit("ws");
        reveal_strlit("wss");
    }
    match change_url(base, scheme, path.as_str()) {
        Some(address) => Ok(address),
        None => Err(
            WireError::Configuration("WIRE_URL does not admit a WebSocket scheme".to_owned()),
        ),
    }
}

/// The switch is on for `true` and off for `false`, whatever white space is around it; nothing else
/// is understood.
pub proof fn law_spelling_of_the_switch(value: Seq<char>, r: Result<ChannelBroadcast, String>)
    requires
        parsed(value, r),
    ensures
        r == Ok::<ChannelBroadcast, String>(ChannelBroadcast::Enabled) <==> trimmed(value)
            == "true"@,
        r == Ok::<ChannelBroadcast, String>(ChannelBroadcast::Disabled) <==> trimmed(value)
            == "false"@,
        r is Err <==> trimmed(value) != "true"@ && trimmed(value) != "false"@,
        value == "true"@ ==> r == Ok::<ChannelBroadcast, String>(ChannelBroadcast::Enabled),
        value == "false"@ ==> r == Ok::<ChannelBroadcast, String>(ChannelBroadcast::Disabled),
{
    reveal_strlit("true");
    reveal_strlit("false");
    assert("true"@.len() == 4 && "false"@.len() == 5);
    if value == "true"@ || value == "false"@ {
        law_trimmed_text(value);
    }
}

/// The environment decides where it says anything; else the entry under `mcp_servers`, `wire` and
/// `env` does; and where neither is there, the switch is off.
pub proof fn law_where_the_switch_is(
    value: String,
    config: Option<ConfigSource>,
    text: String,
    path: String,
    document: Toml,
    spelling: Seq<char>,
    by_environment: Result<ChannelBroadcast, String>,
    by_file: Result<ChannelBroadcast, String>,
    by_nothing: Result<ChannelBroadcast, String>,
)
    requires
        loads(Variable::Present(value), config, by_environment),
        toml_parse(text@) == Ok::<Toml, Seq<char>>(document),
        loads(
            Variable::Absent,
            Some(ConfigSource { path, file: ConfigFile::Text(text) }),
            by_file,
        ),
        loads(Variable::Absent, None, by_nothing),
    ensures
        trimmed(value@) == "true"@ ==> by_environment == Ok::<ChannelBroadcast, String>(
            ChannelBroadcast::Enabled,
        ),
        trimmed(value@) == "false"@ ==> by_environment == Ok::<ChannelBroadcast, String>(
            ChannelBroadcast::Disabled,
        ),
        document.get("mcp_servers"@) matches Some(servers) ==> (servers.get("wire"@) matches Some(
            wire,
        ) ==> (wire.get("env"@) matches Some(env) ==> (env.get("WIRE_CHANNEL_BROADCAST"@) == Some(
            Toml::Text(spelling),
        ) && trimmed(spelling) == "true"@ ==> by_file == Ok::<ChannelBroadcast, String>(
            ChannelBroadcast::Enabled,
        )))),
        document.get("mcp_servers"@) is None ==> by_file == Ok::<ChannelBroadcast, String>(
            ChannelBroadcast::Disabled,
        ),
        by_nothing == Ok::<ChannelBroadcast, String>(ChannelBroadcast::Disabled),
{
    reveal_strlit("true");
    reveal_strlit("false");
    assert("true"@.len() == 4 && "false"@.len() == 5);
}

/// An API root is a URL of HTTP or HTTPS, with a host, and without credentials, query or fragment;
/// each of these alone makes it none.
pub proof fn law_api_roots(url: UrlView)
    ensures
        is_root(url) <==> (url.scheme == "http"@ || url.scheme == "https"@) && !(url.opaque
            || url.username.len() > 0 || url.has_password || url.has_query || url.has_fragment),
{
}

/// Settings keep the root that the environment names, but for slashes at its end, and its token
/// where anything is visible in it; a token of the environment counts before the keyring's.
pub proof fn law_settings(
    broadcast: ChannelBroadcast,
    url: Seq<char>,
    token: Seq<char>,
    visible: int,
    pending: Result<Pending, WireError>,
    secret: Result<Option<String>, WireError>,
    settings: Result<Settings, WireError>,
)
    requires
        pends(Ok(broadcast), Some(url), Some(token), pending),
        root_fault(url) is None,
        pending is Ok ==> completes(pending->Ok_0, secret, settings),
    ensures
        pending is Ok,
        pending->Ok_0.broadcast == broadcast,
        pending->Ok_0.base@.len() > 0 ==> pending->Ok_0.base@.last() != '/',
        pending->Ok_0.base@ == url.take(pending->Ok_0.base@.len() as int),
        forall|i: int| pending->Ok_0.base@.len() <= i < url.len() ==> #[trigger] url[i] == '/',
        0 <= visible < token.len() && !is_white(token[visible]) ==> settings is Ok
            && settings->Ok_0.admin_token@ == token && settings->Ok_0.base@ == pending->Ok_0.base@
            && settings->Ok_0.broadcast == broadcast,
        is_blank(token) ==> match secret {
            Ok(Some(found)) => settings is Ok && settings->Ok_0.admin_token == found,
            _ => settings is Err,
        },
{
    law_trailing_text(url, '/');
    law_trimmed_text(token);
}

/// Without a wish, the root is that of a local Mattermost.
pub proof fn law_default_root(broadcast: ChannelBroadcast, pending: Result<Pending, WireError>)
    requires
        pends(Ok(broadcast), None, None, pending),
        root_fault("http://127.0.0.1:8065/api/v4"@) is None,
    ensures
        pending is Ok,
        pending->Ok_0.token is None,
        pending->Ok_0.base@ == without_trailing("http://127.0.0.1:8065/api/v4"@, '/'),
{
}

/// The live connection is by WebSocket, safe where the root is, under the path of the root, with or
/// without slashes at its end.
pub proof fn law_live_connections(path: Seq<char>, scheme: Seq<char>)
    ensures
        live_scheme("http"@) == Some("ws"@),
        live_scheme("https"@) == Some("wss"@),
        scheme != "http"@ && scheme != "https"@ ==> live_scheme(scheme) is None,
        live_path(path.push('/')) == live_path(path),
        path.len() > 0 && path.last() != '/' ==> live_path(path) == path + "/websocket"@,
        live_path(Seq::empty()) == "/websocket"@,
{
    reveal_strlit("http");
    reveal_strlit("https");
    assert("http"@.len() == 4 && "https"@.len() == 5);
    assert(path.push('/').drop_last() =~= path);
    assert(without_trailing(Seq::<char>::empty(), '/') =~= Seq::<char>::empty());
    assert(Seq::<char>::empty() + "/websocket"@ =~= "/websocket"@);
}

/// The address of the live connection is that of the root with the scheme and the path of the live
/// connection; a root of another scheme has none.
pub proof fn law_live_address(
    base: Seq<char>,
    url: UrlView,
    address: Seq<char>,
    r: Result<String, WireError>,
)
    requires
        url_parse(base) == Ok::<UrlView, Seq<char>>(url),
        base.len() <= URL_CHARS,
        live_path(url.path).len() <= URL_CHARS,
        connects(base, r),
    ensures
        url.scheme == "http"@ && url_with(base, "ws"@, live_path(url.path)) == Some(address) ==> r
            is Ok && r->Ok_0@ == address,
        url.scheme == "https"@ && url_with(base, "wss"@, live_path(url.path)) == Some(address)
            ==> r is Ok && r->Ok_0@ == address,
        url.scheme != "http"@ && url.scheme != "https"@ ==> r is Err,
{
    law_live_connections(url.path, url.scheme);
}

} // verus!
