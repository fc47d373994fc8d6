//! What is decided while the client of an MCP server starts and stops.

use crate::channel_delivery::McpServerChannelConfig;
use crate::channel_relay::{
    channel_announcement, channel_capabilities, MCP_CHANNEL_NOTIFICATIONS_CAPABILITY,
};
use crate::json::{JsonModel, JsonObject};
use crate::text::same_text;
use vstd::prelude::*;

verus! {

broadcast use vstd::string::group_string_axioms;

/// The capability by which a server asks for the sandbox state in the metadata of tool calls.
pub const MCP_SANDBOX_STATE_META_CAPABILITY: &'static str = "codex/sandbox-state-meta";

/// The time that a server may take to start, in nanoseconds, where none is configured.
pub const DEFAULT_STARTUP_TIMEOUT_NANOS: u64 = 30_000_000_000;

/// The time that a tool may take, in nanoseconds, where none is configured.
pub const DEFAULT_TOOL_TIMEOUT_NANOS: u64 = 120_000_000_000;

/// What the name of a server must match.
pub const SERVER_NAME_PATTERN: &'static str = "^[a-zA-Z0-9_-]+$";

/// The version of the protocol that the client speaks.
pub const PROTOCOL_VERSION: &'static str = "2025-06-18";

/// Something that went wrong, in words.
#[derive(Debug)]
pub struct McpError {
    pub message: String,
}

/// Why a server did not start.
#[derive(Debug)]
pub enum StartupOutcomeError {
    Cancelled,
    Failed { error: String },
}

/// Why a server did not start.
pub enum StartupFault {
    Cancelled,
    Failed { error: Seq<char> },
}

impl View for StartupOutcomeError {
    type V = StartupFault;

    open spec fn view(&self) -> StartupFault {
        match self {
            StartupOutcomeError::Cancelled => StartupFault::Cancelled,
            StartupOutcomeError::Failed { error } => StartupFault::Failed { error: error@ },
        }
    }
}

impl Clone for StartupOutcomeError {
    fn clone(&self) -> (copy: Self)
        ensures
            copy@ == self@,
    {
        match self {
            StartupOutcomeError::Cancelled => StartupOutcomeError::Cancelled,
            StartupOutcomeError::Failed { error } => StartupOutcomeError::Failed {
                error: error.clone(),
            },
        }
    }
}

/// A fault in words.
pub open spec fn fault_text(fault: StartupFault) -> Seq<char> {
    match fault {
        StartupFault::Cancelled => "MCP startup cancelled"@,
        StartupFault::Failed { error } => "MCP startup failed: "@ + error,
    }
}

impl From<McpError> for StartupOutcomeError {
    fn from(error: McpError) -> (outcome: Self) {
        StartupOutcomeError::Failed { error: error.message }
    }
}

impl vstd::std_specs::convert::FromSpecImpl<McpError> for StartupOutcomeError {
    open spec fn obeys_from_spec() -> bool {
        true
    }

    open spec fn from_spec(error: McpError) -> Self {
        StartupOutcomeError::Failed { error: error.message }
    }
}

impl StartupOutcomeError {
    /// The fault in words.
    pub fn message(&self) -> (text: String)
        ensures
            text@ == fault_text(self@),
    {
        match self {
            StartupOutcomeError::Cancelled => "MCP startup cancelled".to_owned(),
            StartupOutcomeError::Failed { error } => {
                let mut text = "MCP startup failed: ".to_owned();
                text.append(error.as_str());
                text
            },
        }
    }
}

/// An error of `regex_lite`.
#[verifier::external_type_specification]
#[verifier::external_body]
pub struct ExRegexError(regex_lite::Error);

/// Whether `regex_lite::Regex::new` takes a pattern.
pub uninterp spec fn regex_accepts(pattern: Seq<char>) -> bool;

/// Whether the regular expression that `regex_lite::Regex::new` makes of a pattern is found in a
/// text.
pub uninterp spec fn regex_finds(pattern: Seq<char>, text: Seq<char>) -> bool;

/// `regex_lite::Regex::is_match` on what `regex_lite::Regex::new` makes of a pattern: whether the
/// pattern is found anywhere in the text, or an error where the pattern is refused. The pattern for
/// server names is taken; it is anchored at both ends of the text and asks for one or more
/// characters of its class.
#[verifier::external_body]
fn find_pattern(pattern: &str, text: &str) -> (found: Result<bool, regex_lite::Error>)
    ensures
        match found {
            Ok(yes) => regex_accepts(pattern@) && yes == regex_finds(pattern@, text@),
            Err(_) => !regex_accepts(pattern@),
        },
        pattern@ == SERVER_NAME_PATTERN@ ==> found is Ok,
        pattern@ == SERVER_NAME_PATTERN@ ==> found->Ok_0 == is_server_name(text@),
{
    match regex_lite::Regex::new(pattern) {
        Ok(regex) => Ok(regex.is_match(text)),
        Err(error) => Err(error),
    }
}

/// Whether a character can stand in the name of a server.
pub open spec fn is_name_char(c: char) -> bool {
    'a' <= c <= 'z' || 'A' <= c <= 'Z' || '0' <= c <= '9' || c == '_' || c == '-'
}

/// Whether a text can be the name of a server.
pub open spec fn is_server_name(name: Seq<char>) -> bool {
    name.len() > 0 && forall|i: int| 0 <= i < name.len() ==> is_name_char(#[trigger] name[i])
}

/// Refuses a name that no server can have.
pub fn validate_mcp_server_name(server_name: &str) -> (checked: Result<(), McpError>)
    ensures
        match checked {
            Ok(()) => is_server_name(server_name@),
            Err(error) => {
                &&& !is_server_name(server_name@)
                &&& error.message@ == "Invalid MCP server name '"@ + server_name@
                    + "': must match pattern "@ + SERVER_NAME_PATTERN@
            },
        },
{
    match find_pattern(SERVER_NAME_PATTERN, server_name) {
        Ok(true) => Ok(()),
        _ => {
            let mut message = "Invalid MCP server name '".to_owned();
            message.append(server_name);
            message.append("': must match pattern ");
            message.append(SERVER_NAME_PATTERN);
            Err(McpError { message })
        },
    }
}

/// What was found under the name of an environment variable.
#[derive(Debug)]
pub enum EnvLookup {
    Value(String),
    NotPresent,
    NotUnicode,
}

/// What is wrong with a variable that should hold a token.
pub open spec fn token_fault(found: EnvLookup) -> Option<Seq<char>> {
    match found {
        EnvLookup::Value(value) => if value@.len() == 0 {
            Some("' is empty"@)
        } else {
            None
        },
        EnvLookup::NotPresent => Some("' is not set"@),
        EnvLookup::NotUnicode => Some("' contains invalid Unicode"@),
    }
}

/// The complaint about a variable that should hold a token.
pub open spec fn token_error(env_var: Seq<char>, server_name: Seq<char>, fault: Seq<char>) -> Seq<
    char,
> {
    "Environment variable "@ + env_var + " for MCP server '"@ + server_name + fault
}

/// The complaint about a variable that should hold a token.
fn bad_token(env_var: &str, server_name: &str, fault: &str) -> (error: McpError)
    ensures
        error.message@ == token_error(env_var@, server_name@, fault@),
{
    let mut message = "Environment variable ".to_owned();
    message.append(env_var);
    message.append(" for MCP server '");
    message.append(server_name);
    message.append(fault);
    McpError { message }
}

/// The token in the variable that a server names, where it names one. `found` is what the
/// environment holds under that name.
pub fn resolve_bearer_token(
    server_name: &str,
    bearer_token_env_var: Option<&str>,
    found: EnvLookup,
) -> (token: Result<Option<String>, McpError>)
    ensures
        match (bearer_token_env_var, token) {
            (None, Ok(resolved)) => resolved is None,
            (Some(_), Ok(resolved)) => {
                &&& token_fault(found) is None
                &&& resolved matches Some(text) && found matches EnvLookup::Value(value) && text@
                    == value@
            },
            (Some(env_var), Err(error)) => token_fault(found) matches Some(fault)
                && error.message@ == token_error(env_var@, server_name@, fault),
            (None, Err(_)) => false,
        },
{
    let env_var: &str = match bearer_token_env_var {
        Some(env_var) => env_var,
        None => return Ok(None),
    };
    match found {
        EnvLookup::Value(value) => if value.as_str().is_empty() {
            Err(bad_token(env_var, server_name, "' is empty"))
        } else {
            Ok(Some(value))
        },
        EnvLookup::NotPresent => Err(bad_token(env_var, server_name, "' is not set")),
        EnvLookup::NotUnicode => Err(
            bad_token(env_var, server_name, "' contains invalid Unicode"),
        ),
    }
}

/// Where a server runs, or why it cannot run there.
pub open spec fn placement(
    server_name: Seq<char>,
    environment: Option<Seq<char>>,
    environment_is_remote: bool,
) -> Result<bool, Seq<char>> {
    match environment {
        None => Ok(false),
        Some(name) => if name == "local"@ {
            Ok(false)
        } else if name == "remote"@ {
            if environment_is_remote {
                Ok(true)
            } else {
                Err("remote MCP server `"@ + server_name + "` requires a remote environment"@)
            }
        } else {
            Err(
                "unsupported experimental_environment `"@ + name + "` for MCP server `"@
                    + server_name + "`"@,
            )
        },
    }
}

/// How a server is reached.
#[derive(Debug)]
pub enum TransportKind {
    /// Through the streams of a process.
    Stdio,
    /// Over HTTP, with the token that the named variable holds.
    StreamableHttp { bearer_token_env_var: Option<String> },
}

/// How the client of a server is made.
#[derive(Debug)]
pub struct ClientPlan {
    /// Whether the server is reached through the remote environment.
    pub remote: bool,
    /// The token that goes with each request.
    pub bearer_token: Option<String>,
}

/// An optional text as its characters.
pub open spec fn optional_chars(text: Option<&str>) -> Option<Seq<char>> {
    match text {
        Some(t) => Some(t@),
        None => None,
    }
}

/// Decides whether a server runs in the remote environment.
pub fn uses_remote_environment(
    server_name: &str,
    experimental_environment: Option<&str>,
    environment_is_remote: bool,
) -> (remote: Result<bool, StartupOutcomeError>)
    ensures
        match (
            placement(
                server_name@,
                optional_chars(experimental_environment),
                environment_is_remote,
            ),
            remote,
        ) {
            (Ok(a), Ok(b)) => a == b,
            (Err(words), Err(error)) => error@ == (StartupFault::Failed { error: words }),
            _ => false,
        },
{
    let name: &str = match experimental_environment {
        Some(name) => name,
        None => return Ok(false),
    };
    if same_text(name, "local") {
        return Ok(false);
    }
    if same_text(name, "remote") {
        if environment_is_remote {
            return Ok(true);
        }
        let mut message = "remote MCP server `".to_owned();
        message.append(server_name);
        message.append("` requires a remote environment");
        return Err(StartupOutcomeError::from(McpError { message }));
    }
    let mut message = "unsupported experimental_environment `".to_owned();
    message.append(name);
    message.append("` for MCP server `");
    message.append(server_name);
    message.append("`");
    Err(StartupOutcomeError::from(McpError { message }))
}

/// What a client is made with, or why none is made. A server that cannot be placed is refused before
/// its token is looked at; only a server over HTTP has a token.
pub open spec fn client_plan(
    server_name: Seq<char>,
    environment: Option<Seq<char>>,
    environment_is_remote: bool,
    transport: TransportKind,
    found: EnvLookup,
) -> Result<(bool, Option<Seq<char>>), Seq<char>> {
    match placement(server_name, environment, environment_is_remote) {
        Err(words) => Err(words),
        Ok(remote) => match transport {
            TransportKind::Stdio => Ok((remote, None)),
            TransportKind::StreamableHttp { bearer_token_env_var: None } => Ok((remote, None)),
            TransportKind::StreamableHttp { bearer_token_env_var: Some(env_var) } => {
                match token_fault(found) {
                    Some(fault) => Err(token_error(env_var@, server_name, fault)),
                    None => Ok((remote, Some(found->Value_0@))),
                }
            },
        },
    }
}

/// Decides how the client of a server is made.
pub fn plan_client(
    server_name: &str,
    experimental_environment: Option<&str>,
    environment_is_remote: bool,
    transport: &TransportKind,
    found: EnvLookup,
) -> (plan: Result<ClientPlan, StartupOutcomeError>)
    ensures
        match (
            client_plan(
                server_name@,
                optional_chars(experimental_environment),
                environment_is_remote,
                *transport,
                found,
            ),
            plan,
        ) {
            (Ok(wanted), Ok(p)) => p.remote == wanted.0 && p.bearer_token.deep_view() == wanted.1,
            (Err(words), Err(error)) => error@ == (StartupFault::Failed { error: words }),
            _ => false,
        },
{
    let remote: bool = match uses_remote_environment(
        server_name,
        experimental_environment,
        environment_is_remote,
    ) {
        Ok(remote) => remote,
        Err(error) => return Err(error),
    };
    match transport {
        TransportKind::Stdio => Ok(ClientPlan { remote, bearer_token: None }),
        TransportKind::StreamableHttp { bearer_token_env_var } => {
            let env_var: Option<&str> = match bearer_token_env_var {
                Some(env_var) => Some(env_var.as_str()),
                None => None,
            };
            match resolve_bearer_token(server_name, env_var, found) {
                Ok(bearer_token) => Ok(ClientPlan { remote, bearer_token }),
                Err(error) => Err(StartupOutcomeError::from(error)),
            }
        },
    }
}

/// What a client can do with forms.
#[derive(Debug)]
pub struct FormElicitationCapability {
    pub schema_validation: Option<bool>,
}

/// What a client can do with addresses.
#[derive(Debug)]
pub struct UrlElicitationCapability;

/// How a client can ask its user.
#[derive(Debug)]
pub struct ElicitationCapability {
    pub form: Option<FormElicitationCapability>,
    pub url: Option<UrlElicitationCapability>,
}

/// How the client can ask its user: by forms, whatever the server.
pub fn elicitation_capability_for_server(_server_name: &str) -> (capability: Option<
    ElicitationCapability,
>)
    ensures
        capability == Some(
            ElicitationCapability {
                form: Some(FormElicitationCapability { schema_validation: None }),
                url: None,
            },
        ),
{
    Some(
        ElicitationCapability {
            form: Some(FormElicitationCapability { schema_validation: None }),
            url: None,
        },
    )
}

/// What a client tells a server of itself.
#[derive(Debug)]
pub struct InitializeRequest {
    pub experimental: Option<JsonObject>,
    pub elicitation: Option<ElicitationCapability>,
    pub client_name: &'static str,
    pub client_title: &'static str,
    pub client_version: String,
    pub protocol_version: &'static str,
}

/// What the client tells a server of itself.
pub fn initialize_request(
    server_name: &str,
    channel_config: &McpServerChannelConfig,
    client_version: &str,
) -> (request: InitializeRequest)
    ensures
        match request.experimental {
            Some(experimental) => channel_config.enabled && experimental@ == map![
                MCP_CHANNEL_NOTIFICATIONS_CAPABILITY@ => JsonModel::Object(
                    channel_announcement(*channel_config),
                ),
            ],
            None => !channel_config.enabled,
        },
        request.elicitation == Some(
            ElicitationCapability {
                form: Some(FormElicitationCapability { schema_validation: None }),
                url: None,
            },
        ),
        request.client_name@ == "codex-mcp-client"@,
        request.client_title@ == "Codex"@,
        request.client_version@ == client_version@,
        request.protocol_version@ == PROTOCOL_VERSION@,
{
    InitializeRequest {
        experimental: channel_capabilities(channel_config),
        elicitation: elicitation_capability_for_server(server_name),
        client_name: "codex-mcp-client",
        client_title: "Codex",
        client_version: client_version.to_owned(),
        protocol_version: PROTOCOL_VERSION,
    }
}

/// Whether a server asks for the sandbox state in the metadata of tool calls.
pub fn supports_sandbox_state_meta(experimental: &Option<JsonObject>) -> (supported: bool)
    ensures
        supported == (experimental matches Some(e) && e@.contains_key(
            MCP_SANDBOX_STATE_META_CAPABILITY@,
        )),
{
    match experimental {
        Some(experimental) => experimental.get(MCP_SANDBOX_STATE_META_CAPABILITY).is_some(),
        None => false,
    }
}

/// The time that a server may take to start, in nanoseconds.
pub fn startup_timeout_nanos(configured: Option<u64>) -> (nanos: Option<u64>)
    ensures
        nanos == (match configured {
            Some(n) => Some(n),
            None => Some(DEFAULT_STARTUP_TIMEOUT_NANOS),
        }),
{
    match configured {
        Some(n) => Some(n),
        None => Some(DEFAULT_STARTUP_TIMEOUT_NANOS),
    }
}

/// The time that a tool may take, in nanoseconds.
pub fn tool_timeout_nanos(configured: Option<u64>) -> (nanos: u64)
    ensures
        nanos == (match configured {
            Some(n) => n,
            None => DEFAULT_TOOL_TIMEOUT_NANOS,
        }),
{
    match configured {
        Some(n) => n,
        None => DEFAULT_TOOL_TIMEOUT_NANOS,
    }
}

/// What is done with a client when its server is shut down.
#[derive(Debug)]
pub enum ShutdownAction {
    /// The client is shut down.
    ShutDown,
    /// Nothing: its startup was cancelled.
    Nothing,
    /// There is no client; the log says why.
    Warn(String),
}

/// Decides what is done on shutdown with a client that started, or did not.
pub fn shutdown_action(outcome: Result<(), StartupOutcomeError>) -> (action: ShutdownAction)
    ensures
        match outcome {
            Ok(()) => action is ShutDown,
            Err(error) => match error@ {
                StartupFault::Cancelled => action is Nothing,
                StartupFault::Failed { .. } => action matches ShutdownAction::Warn(words) && words@
                    == "failed to initialize MCP client during shutdown: "@ + fault_text(error@),
            },
        },
{
    match outcome {
        Ok(()) => ShutdownAction::ShutDown,
        Err(error) => match error {
            StartupOutcomeError::Cancelled => ShutdownAction::Nothing,
            StartupOutcomeError::Failed { error } => {
                let failed = StartupOutcomeError::Failed { error };
                let mut words = "failed to initialize MCP client during shutdown: ".to_owned();
                words.append(failed.message().as_str());
                ShutdownAction::Warn(words)
            },
        },
    }
}

} // verus!
