//! What calls that deal with servers and requests give back, in terms of what they are given.

use crate::call_laws::same_option;
use crate::channel_delivery::{nothing_seen, ChannelDeliveryDecision, McpServerChannelConfig};
use crate::channel_event::{announced_message, params_tree, ChannelMessageEvent};
use crate::channel_relay::{
    channel_announcement, channel_capabilities, refusal_warning, ChannelRelay, RelayAction,
    RelayModel,
};
use crate::delivery_laws::{
    among_the_last, delivered, on_time, remembered, what_was_delivered_decides, younger_than, Arrival,
};
use crate::display_laws::holds;
use crate::json::{JsonModel, JsonObject};
use crate::json_text::value_tree;
use crate::loop_protocol::{
    create_loop_control_tool, loop_control_arguments, loop_control_tool, loop_deadline_ms,
    request_arguments, told, validate_loop_control, DynamicToolResponse, FunctionCallError,
    FunctionToolOutput, LoopControlAction, LoopControlCall, LoopControlEvent, LoopControlHandler,
    LoopControlMode, ToolPayload, ToolSpec,
};
use crate::mcp_startup::{
    initialize_request, is_server_name, plan_client, resolve_bearer_token, shutdown_action,
    startup_timeout_nanos, supports_sandbox_state_meta, tool_timeout_nanos,
    validate_mcp_server_name, ClientPlan, EnvLookup, InitializeRequest, McpError, ShutdownAction,
    StartupOutcomeError, TransportKind,
};
use crate::mcp_tools::{
    annotate_tools, annotated, finish_startup, is_offered, is_untrusted_connector_meta_key, offer_tool,
    optional_tools, plugins_under, sanitize_listed_tools, sanitize_tool_connector_metadata, sanitized,
    strip_untrusted_connector_meta, AsyncManagedClient, CacheUse, FilteredTool, InitializedServer,
    ListedTool, ManagedClient, McpTool, StartedClient, ToolInfo, ToolNames,
    ToolPluginProvenance,
};
use crate::request_laws::{requests_in_order_pass, within};
use crate::server_laws::speaks_of_a_connector;
use crate::text::texts;
use vstd::prelude::*;

verus! {

broadcast use vstd::string::group_string_axioms;

/// Every tool of a server is offered, except those of the apps that are not allowed.
pub proof fn only_apps_can_be_kept_back(server: &str, allowed_app: bool, answer: bool)
    requires
        call_ensures(is_offered, (server, allowed_app), answer),
    ensures
        answer <==> server@ != "codex_apps"@ || allowed_app,
{
}

/// A time that is configured counts; without one a server has half a minute to start, and a tool two
/// minutes.
pub proof fn configured_times_count(configured: Option<u64>, start: Option<u64>, tool: u64)
    requires
        call_ensures(startup_timeout_nanos, (configured,), start),
        call_ensures(tool_timeout_nanos, (configured,), tool),
    ensures
        configured is Some ==> start == configured && Some(tool) == configured,
        configured is None ==> start == Some(30_000_000_000u64) && tool == 120_000_000_000u64,
{
}

/// The tools of a client are those in its cache, if it has one and there are any in it, and otherwise
/// those from its start.
pub proof fn the_cache_goes_first(
    client: &ManagedClient,
    cached: Option<Vec<ToolInfo>>,
    listed: (Vec<ToolInfo>, CacheUse),
)
    requires
        call_ensures(ManagedClient::listed_tools, (client, cached), listed),
    ensures
        client.has_cache && cached is Some ==> listed.0.deep_view() == cached->Some_0.deep_view()
            && listed.1 == CacheUse::Hit,
        client.has_cache && cached is None ==> listed.0.deep_view() == client.tools.deep_view()
            && listed.1 == CacheUse::Miss,
        !client.has_cache ==> listed.0.deep_view() == client.tools.deep_view() && listed.1
            == CacheUse::Uncached,
{
}

/// The tools that are listed for a client: its own once it has started, those known before where it
/// failed, each with its plugins and in its place.
pub proof fn started_tools_go_first(
    client: &AsyncManagedClient,
    outcome: Result<Vec<ToolInfo>, StartupOutcomeError>,
    listed: Option<Vec<ToolInfo>>,
    i: int,
)
    requires
        call_ensures(AsyncManagedClient::listed_tools, (client, outcome), listed),
    ensures
        outcome is Ok ==> listed is Some && listed->Some_0@.len() == outcome->Ok_0@.len(),
        outcome is Ok && 0 <= i < outcome->Ok_0@.len() ==> listed->Some_0@[i]@ == annotated(
            client.tool_plugin_provenance,
            outcome->Ok_0@[i]@,
        ),
        outcome is Err ==> (listed is Some <==> client.startup_snapshot is Some),
        outcome is Err && listed is Some ==> listed->Some_0@.len()
            == client.startup_snapshot->Some_0@.len(),
        outcome is Err && listed is Some && 0 <= i < listed->Some_0@.len() ==> listed->Some_0@[i]@
            == annotated(
            client.tool_plugin_provenance,
            client.startup_snapshot->Some_0@[i]@,
        ),
{
    if listed is Some {
        let tools = listed->Some_0;
        assert(tools.deep_view().len() == tools@.len());
        if 0 <= i < tools@.len() {
            assert(tools.deep_view()[i] == tools@[i]@);
        }
    }
    if outcome is Ok {
        let own = outcome->Ok_0;
        assert(own.deep_view().len() == own@.len());
        if 0 <= i < own@.len() {
            assert(own.deep_view()[i] == own@[i]@);
        }
    }
    if client.startup_snapshot is Some {
        let known = client.startup_snapshot->Some_0;
        assert(known.deep_view().len() == known@.len());
        if 0 <= i < known@.len() {
            assert(known.deep_view()[i] == known@[i]@);
        }
    }
}

/// While a client starts, the tools known before stand in for its own; once it has started they do not.
pub proof fn known_tools_stand_in(
    client: &AsyncManagedClient,
    complete: bool,
    plain: Option<Vec<ToolInfo>>,
    listed: Option<Vec<ToolInfo>>,
    i: int,
)
    requires
        call_ensures(
            AsyncManagedClient::startup_snapshot_while_initializing,
            (client, complete),
            plain,
        ),
        call_ensures(
            AsyncManagedClient::listed_tools_while_initializing,
            (client, complete),
            listed,
        ),
    ensures
        complete ==> plain is None && listed is None,
        !complete ==> optional_tools(plain) == optional_tools(client.startup_snapshot),
        !complete ==> (listed is Some <==> client.startup_snapshot is Some),
        !complete && listed is Some && 0 <= i < listed->Some_0@.len() ==> listed->Some_0@[i]@
            == annotated(
            client.tool_plugin_provenance,
            client.startup_snapshot->Some_0@[i]@,
        ),
{
    if listed is Some {
        let tools = listed->Some_0;
        assert(tools.deep_view().len() == tools@.len());
        if 0 <= i < tools@.len() {
            assert(tools.deep_view()[i] == tools@[i]@);
        }
    }
    if client.startup_snapshot is Some {
        let known = client.startup_snapshot->Some_0;
        assert(known.deep_view().len() == known@.len());
        if 0 <= i < known@.len() {
            assert(known.deep_view()[i] == known@[i]@);
        }
    }
}

/// A client that started is shut down, one whose start was cancelled is left, and of one that failed
/// the log says why.
pub proof fn clients_are_shut_down(
    outcome: Result<(), StartupOutcomeError>,
    error: String,
    action: ShutdownAction,
)
    requires
        call_ensures(shutdown_action, (outcome,), action),
    ensures
        outcome is Ok ==> action is ShutDown,
        outcome == Err::<(), StartupOutcomeError>(StartupOutcomeError::Cancelled) ==> action is Nothing,
        outcome == Err::<(), StartupOutcomeError>(StartupOutcomeError::Failed { error }) ==> action
            is Warn && action->Warn_0@ == "failed to initialize MCP client during shutdown: "@ + (
        "MCP startup failed: "@ + error@),
{
}

/// A server is told of the channel if it is on, and of nothing if it is off.
pub proof fn a_channel_that_is_on_is_announced(
    server: &str,
    config: &McpServerChannelConfig,
    version: &str,
    capabilities: Option<JsonObject>,
    request: InitializeRequest,
    key: Seq<char>,
)
    requires
        call_ensures(channel_capabilities, (config,), capabilities),
        call_ensures(initialize_request, (server, config, version), request),
    ensures
        capabilities is Some <==> config.enabled,
        request.experimental is Some <==> config.enabled,
        config.enabled ==> {
            &&& holds(
                capabilities->Some_0@,
                "codex/channel-notifications"@,
                Some(JsonModel::Object(channel_announcement(*config))),
            )
            &&& capabilities->Some_0@.contains_key(key) ==> key == "codex/channel-notifications"@
            &&& request.experimental->Some_0@ == capabilities->Some_0@
        },
        request.client_name@ == "codex-mcp-client"@,
        request.client_title@ == "Codex"@,
        request.client_version@ == version@,
        request.protocol_version@ == "2025-06-18"@,
        request.elicitation is Some,
        request.elicitation->Some_0.form is Some,
        request.elicitation->Some_0.url is None,
{
}

/// A server asks for the sandbox state by naming the capability, whatever it says of it.
pub proof fn the_sandbox_state_is_asked_for(experimental: &Option<JsonObject>, answer: bool)
    requires
        call_ensures(supports_sandbox_state_meta, (experimental,), answer),
    ensures
        answer <==> *experimental is Some && (*experimental)->Some_0@.contains_key(
            "codex/sandbox-state-meta"@,
        ),
{
}

/// A name passes if it can be that of a server, and is otherwise refused by name.
pub proof fn names_pass_or_are_refused(server: &str, checked: Result<(), McpError>)
    requires
        call_ensures(validate_mcp_server_name, (server,), checked),
    ensures
        checked is Ok <==> is_server_name(server@),
        checked is Err ==> checked->Err_0.message@ == "Invalid MCP server name '"@ + server@
            + "': must match pattern "@ + "^[a-zA-Z0-9_-]+$"@,
{
}

/// The token in the variable that is named is handed over whole, and no token where none is named.
pub proof fn the_named_token_is_found(
    server: &str,
    variable: Option<&str>,
    found: EnvLookup,
    token: Result<Option<String>, McpError>,
)
    requires
        call_ensures(resolve_bearer_token, (server, variable, found), token),
    ensures
        variable is None ==> token is Ok && token->Ok_0 is None,
        variable is Some && found is Value && found->Value_0@.len() > 0 ==> token is Ok
            && token->Ok_0 is Some && token->Ok_0->Some_0@ == found->Value_0@,
        variable is Some && !(found is Value && found->Value_0@.len() > 0) ==> token is Err,
        variable is Some && found is NotPresent ==> token is Err && token->Err_0.message@
            == "Environment variable "@ + variable->Some_0@ + " for MCP server '"@ + server@
            + "' is not set"@,
        variable is Some && found is NotUnicode ==> token is Err && token->Err_0.message@
            == "Environment variable "@ + variable->Some_0@ + " for MCP server '"@ + server@
            + "' contains invalid Unicode"@,
        variable is Some && found is Value && found->Value_0@.len() == 0 ==> token is Err
            && token->Err_0.message@ == "Environment variable "@ + variable->Some_0@
            + " for MCP server '"@ + server@ + "' is empty"@,
{
}

/// The client of a server that runs here and is reached over HTTP gets the token that it names; one
/// that is reached through its streams gets none.
pub proof fn clients_are_made_as_planned(
    server: &str,
    environment: Option<&str>,
    is_remote: bool,
    transport: &TransportKind,
    found: EnvLookup,
    plan: Result<ClientPlan, StartupOutcomeError>,
)
    requires
        call_ensures(plan_client, (server, environment, is_remote, transport, found), plan),
    ensures
        (environment is None || environment->Some_0@ == "local"@) && *transport is Stdio ==> plan
            is Ok && !plan->Ok_0.remote && plan->Ok_0.bearer_token is None,
        environment is Some && environment->Some_0@ == "remote"@ && is_remote && *transport is Stdio
            ==> plan is Ok && plan->Ok_0.remote && plan->Ok_0.bearer_token is None,
        environment is Some && environment->Some_0@ == "remote"@ && !is_remote ==> plan is Err,
        environment is Some && environment->Some_0@ != "remote"@ && environment->Some_0@ != "local"@
            ==> plan is Err,
        plan is Ok && *transport is StreamableHttp && (*transport)->bearer_token_env_var is Some
            ==> found is Value && plan->Ok_0.bearer_token is Some
            && plan->Ok_0.bearer_token->Some_0@ == found->Value_0@ && found->Value_0@.len() > 0,
{
    reveal_strlit("local");
    reveal_strlit("remote");
    assert("local"@.len() == 5 && "remote"@.len() == 6);
}

/// A server that was initialized and listed its tools has a client with those that the filter lets
/// through; the first failure is the reason where there is none.
pub proof fn servers_start_or_say_why(
    initialized: Result<InitializedServer, McpError>,
    listed: Result<Vec<FilteredTool>, McpError>,
    timeout: u64,
    has_cache: bool,
    started: Result<StartedClient, StartupOutcomeError>,
    i: int,
)
    requires
        call_ensures(finish_startup, (initialized, listed, timeout, has_cache), started),
    ensures
        started is Ok <==> initialized is Ok && listed is Ok,
        initialized is Err ==> started->Err_0 is Failed && started->Err_0->error@
            == initialized->Err_0.message@,
        initialized is Ok && listed is Err ==> started->Err_0 is Failed && started->Err_0->error@
            == listed->Err_0.message@,
        started is Ok ==> {
            let s = started->Ok_0;
            &&& s.tool_timeout_nanos == timeout
            &&& s.client.has_cache == has_cache
            &&& s.tools_for_cache@.len() == listed->Ok_0@.len()
            &&& 0 <= i < listed->Ok_0@.len() ==> s.tools_for_cache@[i]@ == listed->Ok_0@[i].info@
            &&& s.server_supports_sandbox_state_meta_capability <==> (
            initialized->Ok_0.experimental is Some
                && initialized->Ok_0.experimental->Some_0@.contains_key(
                "codex/sandbox-state-meta"@,
            ))
            &&& same_option(
                s.server_instructions,
                match initialized->Ok_0.instructions {
                    Some(text) => Some(text@),
                    None => None,
                },
            )
        },
{
    if started is Ok {
        let tools = started->Ok_0.tools_for_cache;
        assert(tools.deep_view().len() == tools@.len());
        if 0 <= i < tools@.len() {
            assert(tools.deep_view()[i] == tools@[i]@);
        }
    }
}

/// A relay decides on the next message by what it delivered, and hands on what it accepts unchanged and
/// under its own id.
pub proof fn a_relay_hands_messages_on(
    relay: &mut ChannelRelay,
    announced: Option<ChannelMessageEvent>,
    now: u128,
    action: RelayAction,
    arrivals: Seq<Arrival>,
)
    requires
        call_ensures(ChannelRelay::relay_at, (relay, announced, now), action),
        announced is Some,
        old(relay).delivery() == remembered(
            nothing_seen(old(relay).policy().dedupe_capacity as nat),
            arrivals,
        ),
        on_time(
            nothing_seen(old(relay).policy().dedupe_capacity as nat),
            arrivals.push(
                Arrival { config: old(relay).policy(), id: announced->Some_0.id@, now },
            ),
        ),
    ensures
        ({
            let config = old(relay).policy();
            let capacity = config.dedupe_capacity as nat;
            let message = announced->Some_0;
            let messages = delivered(nothing_seen(capacity), arrivals);
            let known = among_the_last(messages, capacity, message.id@);
            let crowded = 0 < config.queue_capacity <= younger_than(messages, now, 10_000_000_000);
            let hurried = 0 < config.rate_limit_per_minute <= younger_than(
                messages,
                now,
                60_000_000_000,
            );
            let accepted = config.enabled && !known && !crowded && !hurried;
            &&& action is Forward <==> accepted
            &&& action is Refuse <==> !accepted
            &&& action is Forward ==> action->event_id@ == "mcp_channel_"@ + message.id@
                && action->message@ == message@
            &&& action is Refuse ==> action->message_id@ == message.id@
        }),
        final(relay).policy() == old(relay).policy(),
        final(relay).server() == old(relay).server(),
{
    let next = Arrival { config: old(relay).policy(), id: announced->Some_0.id@, now };
    what_was_delivered_decides(old(relay).policy().dedupe_capacity as nat, arrivals, next);
}

/// A request passes if it is in order, and is otherwise refused in the words for what is wrong.
pub proof fn requests_pass_or_are_refused(
    event: &LoopControlEvent,
    checked: Result<(), FunctionCallError>,
)
    requires
        call_ensures(validate_loop_control, (event,), checked),
    ensures
        ({
            let short = within(event@.prompt, 1024) && within(event@.reason, 512);
            let starts = event.action == LoopControlAction::Start;
            let zero = event.max_iterations == Some(0usize);
            let timed = event.mode == Some(LoopControlMode::Timed);
            let spaced = event.interval_minutes is Some && 1 <= event.interval_minutes->Some_0
                <= 525600;
            &&& checked is Ok <==> short && (starts ==> !zero && (timed ==> spaced))
            &&& !short ==> told(checked->Err_0) == "Loop prompt or reason exceeds its size limit."@
            &&& short && starts && zero ==> told(checked->Err_0)
                == "Loop max must be greater than zero."@
            &&& short && starts && !zero && timed && !spaced ==> told(checked->Err_0)
                == "Timed loops require interval_minutes between 1 and 525600."@
        }),
{
    requests_in_order_pass(event@);
}

/// A request that is in order goes to the loop as it is, with five seconds to be served, and a call
/// from the root agent keeps its arguments.
pub proof fn requests_go_to_the_loop(
    handler: &LoopControlHandler,
    event: &LoopControlEvent,
    now_ms: u128,
    call: Result<LoopControlCall, FunctionCallError>,
    deadline: u64,
)
    requires
        call_ensures(LoopControlHandler::request, (handler, event, now_ms), call),
        call_ensures(loop_deadline_ms, (now_ms,), deadline),
        call is Ok,
    ensures
        call->Ok_0.tool_name@ == "loop_control"@,
        call->Ok_0.timeout_ms == 5000,
        value_tree(call->Ok_0.arguments) == request_arguments(event@, deadline),
        now_ms + 5000 < 0x1_0000_0000_0000_0000 ==> deadline == now_ms + 5000,
{
}

/// Only a function call of the root agent is accepted, with its arguments as they are.
pub proof fn calls_keep_their_arguments(
    handler: &LoopControlHandler,
    payload: ToolPayload,
    non_root_agent: bool,
    arguments: Result<String, FunctionCallError>,
)
    requires
        call_ensures(LoopControlHandler::accept_call, (handler, payload, non_root_agent), arguments),
    ensures
        arguments is Ok <==> payload is Function && !non_root_agent,
        arguments is Ok ==> arguments->Ok_0@ == payload->arguments@,
        payload is Other ==> told(arguments->Err_0)
            == "loop_control handler received unsupported payload"@,
        payload is Function && non_root_agent ==> told(arguments->Err_0)
            == "loop_control can only be used by the root thread"@,
{
}

/// What the loop answers reaches the model as it is; where it does not answer the model is told.
pub proof fn answers_reach_the_model(
    handler: &LoopControlHandler,
    response: Option<DynamicToolResponse>,
    output: Result<FunctionToolOutput, FunctionCallError>,
)
    requires
        call_ensures(LoopControlHandler::finish, (handler, response), output),
    ensures
        output is Ok <==> response is Some,
        response is Some ==> output->Ok_0.body.deep_view() == response->Some_0.content_items.deep_view()
            && output->Ok_0.success == Some(response->Some_0.success),
        response is None ==> told(output->Err_0)
            == "Local loop control requires an attached TUI; its response timed out or was cancelled."@,
{
}

/// A refusal is logged in its own words, and an accepted message is not.
pub proof fn refusals_are_logged_in_their_words(
    verdict: ChannelDeliveryDecision,
    warning: Option<&'static str>,
)
    requires
        call_ensures(refusal_warning, (verdict,), warning),
    ensures
        warning is None <==> verdict == ChannelDeliveryDecision::Accept,
        verdict == ChannelDeliveryDecision::Duplicate ==> warning->Some_0@
            == "ignored duplicate MCP channel notification"@,
        verdict == ChannelDeliveryDecision::QueueFull ==> warning->Some_0@
            == "ignored MCP channel notification because the channel queue is full"@,
        verdict == ChannelDeliveryDecision::RateLimited ==> warning->Some_0@
            == "ignored MCP channel notification because the channel rate limit was reached"@,
        verdict == ChannelDeliveryDecision::Disabled ==> warning->Some_0@
            == "ignored MCP channel notification because this server has channel.enabled=false"@,
{
}

/// The metadata of a tool that speaks of a connector is taken away, and nothing else is.
pub proof fn connectors_are_taken_away(tool: &mut McpTool, key: &str, untrusted: bool)
    requires
        call_ensures(strip_untrusted_connector_meta, (tool,), ()),
        call_ensures(is_untrusted_connector_meta_key, (key,), untrusted),
    ensures
        untrusted <==> speaks_of_a_connector(key@),
        final(tool)@.name == old(tool)@.name,
        final(tool)@.title == old(tool)@.title,
        final(tool)@.description == old(tool)@.description,
        final(tool)@.meta is Some <==> old(tool)@.meta is Some,
        final(tool)@.meta is Some ==> {
            &&& final(tool)@.meta->Some_0.contains_key(key@)
                <==> old(tool)@.meta->Some_0.contains_key(key@) && !speaks_of_a_connector(key@)
            &&& final(tool)@.meta->Some_0.contains_key(key@) ==> final(tool)@.meta->Some_0[key@]
                == old(tool)@.meta->Some_0[key@]
        },
{
}

/// The server of the apps is believed about a tool and its connector; of any other server the connector
/// is not.
pub proof fn connectors_are_believed_of_the_apps(
    server: &str,
    tool: &mut McpTool,
    id: Option<String>,
    name: Option<String>,
    description: Option<String>,
    kept: (Option<String>, Option<String>, Option<String>),
)
    requires
        call_ensures(
            sanitize_tool_connector_metadata,
            (server, tool, id, name, description),
            kept,
        ),
    ensures
        server@ == "codex_apps"@ ==> final(tool)@ == old(tool)@ && kept.0.deep_view()
            == id.deep_view() && kept.1.deep_view() == name.deep_view() && kept.2.deep_view()
            == description.deep_view(),
        server@ != "codex_apps"@ ==> kept.0 is None && kept.1 is None && kept.2 is None
            && final(tool)@.name == old(tool)@.name && final(tool)@.description
            == old(tool)@.description,
{
}

/// Every listed tool is kept, in its place.
pub proof fn listed_tools_are_kept(
    server: &str,
    tools: Vec<ListedTool>,
    kept: Vec<ListedTool>,
    i: int,
)
    requires
        call_ensures(sanitize_listed_tools, (server, tools), kept),
    ensures
        kept@.len() == tools@.len(),
        0 <= i < tools@.len() ==> kept@[i]@ == sanitized(server@, tools@[i]@),
{
    assert(kept.deep_view().len() == kept@.len());
    assert(tools.deep_view().len() == tools@.len());
    if 0 <= i < tools@.len() {
        assert(kept.deep_view()[i] == kept@[i]@);
        assert(tools.deep_view()[i] == tools@[i]@);
    }
}

/// A tool is offered as it is listed, under its names.
pub proof fn tools_are_offered(
    server: &str,
    instructions: Option<&str>,
    listed: ListedTool,
    names: ToolNames,
    info: ToolInfo,
)
    requires
        call_ensures(offer_tool, (server, instructions, listed, names), info),
    ensures
        info.server_name@ == server@,
        info.callable_name@ == names.callable_name@,
        info.callable_namespace@ == names.callable_namespace@,
        info@.tool.name == listed.tool.name@,
        info@.tool.description == listed@.tool.description,
        info@.tool.meta == listed@.tool.meta,
        listed.tool.title is Some ==> info@.tool.title == Some(names.title@),
        listed.tool.title is None ==> info@.tool.title is None,
        info@.connector_id == listed@.connector_id,
        info@.connector_name == listed@.connector_name,
        info@.connector_description == listed@.connector_description,
        instructions is Some ==> info@.server_instructions == Some(instructions->Some_0@),
        instructions is None ==> info@.server_instructions is None,
        info@.plugin_display_names.len() == 0,
{
}

/// The arguments of a request say what it says, and the tool offers what requests say.
pub proof fn requests_are_written_out(
    event: &LoopControlEvent,
    deadline_ms: u64,
    arguments: serde_json::Value,
    tool: ToolSpec,
)
    requires
        call_ensures(loop_control_arguments, (event, deadline_ms), arguments),
        call_ensures(create_loop_control_tool, (), tool),
    ensures
        value_tree(arguments) == request_arguments(event@, deadline_ms),
        tool@ == loop_control_tool(),
        tool@.name == "loop_control"@,
{
}

/// Actions and modes go by their names.
pub proof fn actions_and_modes_have_names(
    action: LoopControlAction,
    mode: LoopControlMode,
    action_text: &'static str,
    mode_text: &'static str,
)
    requires
        call_ensures(LoopControlAction::name, (action,), action_text),
        call_ensures(LoopControlMode::name, (mode,), mode_text),
    ensures
        action == LoopControlAction::Start ==> action_text@ == "start"@,
        action == LoopControlAction::Stop ==> action_text@ == "stop"@,
        action == LoopControlAction::Status ==> action_text@ == "status"@,
        mode == LoopControlMode::Timed ==> mode_text@ == "timed"@,
        mode == LoopControlMode::Immediate ==> mode_text@ == "immediate"@,
        mode == LoopControlMode::Once ==> mode_text@ == "once"@,
{
}

/// What is said of a tool is what it holds.
pub proof fn tools_are_seen_as_they_are(tool: McpTool, listed: ListedTool, info: ToolInfo, i: int)
    ensures
        tool@.name == tool.name@,
        same_option(tool.title, tool@.title),
        same_option(tool.description, tool@.description),
        tool.meta is Some ==> tool@.meta == Some(tool.meta->Some_0@),
        tool.meta is None ==> tool@.meta is None,
        listed@.tool == listed.tool@,
        same_option(listed.connector_id, listed@.connector_id),
        same_option(listed.connector_name, listed@.connector_name),
        same_option(listed.connector_description, listed@.connector_description),
        info@.server_name == info.server_name@,
        info@.callable_name == info.callable_name@,
        info@.callable_namespace == info.callable_namespace@,
        same_option(info.server_instructions, info@.server_instructions),
        info@.tool == info.tool@,
        same_option(info.connector_id, info@.connector_id),
        same_option(info.connector_name, info@.connector_name),
        same_option(info.connector_description, info@.connector_description),
        info@.plugin_display_names.len() == info.plugin_display_names@.len(),
        0 <= i < info.plugin_display_names@.len() ==> info@.plugin_display_names[i]
            == info.plugin_display_names@[i]@,
{
}

/// What is said of an action is what it holds.
pub proof fn actions_are_seen_as_they_are(
    verdict: ChannelDeliveryDecision,
    id: String,
    message: ChannelMessageEvent,
)
    ensures
        RelayAction::Ignore@ == RelayModel::Ignore,
        (RelayAction::Refuse { verdict, message_id: id })@ == (RelayModel::Refuse {
            verdict,
            message_id: id@,
        }),
        (RelayAction::Forward { event_id: id, message })@ == (RelayModel::Forward {
            event_id: id@,
            message: message@,
        }),
{
}

/// A notification that announces nothing is ignored, and one that announces a message has that message
/// handed on, or refused under its id; a server whose channel is off has every message refused.
pub proof fn notifications_are_answered(
    relay: &mut ChannelRelay,
    method: &str,
    params: Option<serde_json::Value>,
    action: RelayAction,
)
    requires
        call_ensures(ChannelRelay::on_notification, (relay, method, params), action),
    ensures
        ({
            let announced = announced_message(
                old(relay).server(),
                method@,
                old(relay).peer_name(),
                params_tree(params),
            );
            &&& announced is None ==> action is Ignore && final(relay).delivery()
                == old(relay).delivery()
            &&& announced is Some ==> !(action is Ignore)
            &&& action is Forward ==> old(relay).policy().enabled && action->message@
                == announced->Some_0 && action->event_id@ == "mcp_channel_"@ + announced->Some_0.id
            &&& action is Refuse ==> action->message_id@ == announced->Some_0.id
            &&& !old(relay).policy().enabled && announced is Some ==> action is Refuse
                && action->verdict == ChannelDeliveryDecision::Disabled
        }),
        final(relay).policy() == old(relay).policy(),
        final(relay).server() == old(relay).server(),
        final(relay).peer_name() == old(relay).peer_name(),
{
}

/// A relay starts with nothing on record, under the policy that it is given.
pub proof fn relays_start_empty(
    server: String,
    config: McpServerChannelConfig,
    peer: String,
    relay: ChannelRelay,
)
    requires
        call_ensures(ChannelRelay::new, (server, config, peer), relay),
    ensures
        relay.server() == server@,
        relay.peer_name() == peer@,
        relay.policy() == config,
        relay.delivery() == remembered(nothing_seen(config.dedupe_capacity as nat), seq![]),
        relay.delivery().capacity == config.dedupe_capacity,
{
}

/// A fault is told in its words, and the words of an error are those of the fault that it makes.
pub proof fn faults_keep_their_words(fault: &StartupOutcomeError, text: String)
    requires
        call_ensures(StartupOutcomeError::message, (fault,), text),
    ensures
        *fault is Cancelled ==> text@ == "MCP startup cancelled"@,
        *fault is Failed ==> text@ == "MCP startup failed: "@ + (*fault)->error@,
{
}

/// Tools are annotated one by one, each in its place.
pub proof fn tools_are_annotated_in_place(
    tools: Vec<ToolInfo>,
    provenance: &ToolPluginProvenance,
    shown: Vec<ToolInfo>,
    i: int,
)
    requires
        call_ensures(annotate_tools, (tools, provenance), shown),
    ensures
        shown@.len() == tools@.len(),
        0 <= i < tools@.len() ==> shown@[i]@ == annotated(*provenance, tools@[i]@),
{
    assert(shown.deep_view().len() == shown@.len());
    assert(tools.deep_view().len() == tools@.len());
    if 0 <= i < tools@.len() {
        assert(shown.deep_view()[i] == shown@[i]@);
        assert(tools.deep_view()[i] == tools@[i]@);
    }
}

/// The plugins of a connector are looked up among those of connectors, and of a server among those of
/// servers.
pub proof fn plugins_are_looked_up(
    provenance: &ToolPluginProvenance,
    key: &str,
    of_connector: Vec<String>,
    of_server: Vec<String>,
)
    requires
        call_ensures(
            ToolPluginProvenance::plugin_display_names_for_connector_id,
            (provenance, key),
            of_connector,
        ),
        call_ensures(
            ToolPluginProvenance::plugin_display_names_for_mcp_server_name,
            (provenance, key),
            of_server,
        ),
    ensures
        texts(of_connector@) == plugins_under(provenance.connectors@, key@),
        texts(of_server@) == plugins_under(provenance.servers@, key@),
{
}

} // verus!
