//! What servers are told and believed, and what becomes of their notifications and their tools.

use crate::channel_delivery::{
    decision, ChannelDeliveryDecision, DeliveryModel, McpServerChannelConfig, McpServerChannelMode,
};
use crate::channel_event::MessageModel;
use crate::channel_relay::{
    channel_announcement, relayed, state_after, warning_text, RelayModel,
    MCP_CHANNEL_NOTIFICATIONS_CAPABILITY,
};
use crate::display_laws::holds;
use crate::json::{
    entries_model, json_model, lemma_items_model, number_integer, Json, JsonModel, JsonObject,
};
use crate::json_text::json_text;
use crate::mcp_startup::{
    client_plan, fault_text, is_name_char, is_server_name, EnvLookup, StartupFault, TransportKind,
    DEFAULT_STARTUP_TIMEOUT_NANOS, DEFAULT_TOOL_TIMEOUT_NANOS, MCP_SANDBOX_STATE_META_CAPABILITY,
    PROTOCOL_VERSION, SERVER_NAME_PATTERN,
};
use crate::mcp_tools::{
    all_annotated, allowed_infos, annotated, listed_infos, offered, plugins_under, quoted, sanitized,
    source_note, with_note, FilteredTool, ListedToolModel, McpToolModel, PluginSource,
    ToolInfoModel, ToolPluginProvenance, CODEX_APPS_MCP_SERVER_NAME,
};
use crate::numerals::decimal;
use crate::text::{joined, texts, trimmed};
use crate::text_laws::{blank, trimming_keeps_what_is_said};
use vstd::prelude::*;

verus! {

broadcast use vstd::string::group_string_axioms;

/// The fixed names and numbers that servers are met with.
pub proof fn the_fixed_terms()
    ensures
        MCP_CHANNEL_NOTIFICATIONS_CAPABILITY@ == "codex/channel-notifications"@,
        MCP_SANDBOX_STATE_META_CAPABILITY@ == "codex/sandbox-state-meta"@,
        CODEX_APPS_MCP_SERVER_NAME@ == "codex_apps"@,
        SERVER_NAME_PATTERN@ == "^[a-zA-Z0-9_-]+$"@,
        PROTOCOL_VERSION@ == "2025-06-18"@,
        DEFAULT_STARTUP_TIMEOUT_NANOS == 30 * 1_000_000_000,
        DEFAULT_TOOL_TIMEOUT_NANOS == 120 * 1_000_000_000,
{
}

/// A server is told the version, the mode and each of the limits of its channel, under these five names
/// and nothing else.
pub proof fn a_server_is_told_its_limits(config: McpServerChannelConfig)
    ensures
        ({
            let told = channel_announcement(config);
            &&& holds(told, "schemaVersion"@, Some(JsonModel::Integer(1)))
            &&& holds(
                told,
                "queueCapacity"@,
                Some(JsonModel::Integer(config.queue_capacity as int)),
            )
            &&& holds(
                told,
                "dedupeCapacity"@,
                Some(JsonModel::Integer(config.dedupe_capacity as int)),
            )
            &&& holds(
                told,
                "rateLimitPerMinute"@,
                Some(JsonModel::Integer(config.rate_limit_per_minute as int)),
            )
            &&& config.mode == McpServerChannelMode::Ask ==> holds(
                told,
                "mode"@,
                Some(JsonModel::Text("ask"@)),
            )
            &&& config.mode == McpServerChannelMode::Queue ==> holds(
                told,
                "mode"@,
                Some(JsonModel::Text("queue"@)),
            )
            &&& config.mode == McpServerChannelMode::Immediate ==> holds(
                told,
                "mode"@,
                Some(JsonModel::Text("immediate"@)),
            )
            &&& config.mode == McpServerChannelMode::Context ==> holds(
                told,
                "mode"@,
                Some(JsonModel::Text("context"@)),
            )
            &&& forall|key: Seq<char>| #[trigger]
                told.contains_key(key) ==> key == "schemaVersion"@ || key == "mode"@ || key
                    == "queueCapacity"@ || key == "dedupeCapacity"@ || key == "rateLimitPerMinute"@
        }),
{
    reveal_strlit("schemaVersion");
    reveal_strlit("mode");
    reveal_strlit("queueCapacity");
    reveal_strlit("dedupeCapacity");
    reveal_strlit("rateLimitPerMinute");
    assert("schemaVersion"@.len() == 13 && "queueCapacity"@.len() == 13 && "mode"@.len() == 4);
    assert("schemaVersion"@[0] == 's' && "queueCapacity"@[0] == 'q');
    assert("dedupeCapacity"@.len() == 14 && "rateLimitPerMinute"@.len() == 18);
}

/// A notification without a message is ignored and remembered nowhere; a message that is accepted goes
/// on unchanged under its own id; and any other is refused under its own id, for the reason that
/// applies.
pub proof fn messages_go_on_or_are_refused(
    state: DeliveryModel,
    config: McpServerChannelConfig,
    message: MessageModel,
    now: u128,
)
    ensures
        relayed(state, config, None, now) == RelayModel::Ignore,
        state_after(state, config, None, now) == state,
        ({
            let verdict = decision(state, config, message.id, now);
            let action = relayed(state, config, Some(message), now);
            &&& verdict == ChannelDeliveryDecision::Accept ==> action == (RelayModel::Forward {
                event_id: "mcp_channel_"@ + message.id,
                message,
            })
            &&& verdict != ChannelDeliveryDecision::Accept ==> action == (RelayModel::Refuse {
                verdict,
                message_id: message.id,
            })
        }),
{
}

/// Every refusal has a warning of its own, and nothing else has one.
pub proof fn refusals_are_logged()
    ensures
        warning_text(ChannelDeliveryDecision::Accept) is None,
        warning_text(ChannelDeliveryDecision::Disabled) == Some(
            "ignored MCP channel notification because this server has channel.enabled=false"@,
        ),
        warning_text(ChannelDeliveryDecision::Duplicate) == Some(
            "ignored duplicate MCP channel notification"@,
        ),
        warning_text(ChannelDeliveryDecision::QueueFull) == Some(
            "ignored MCP channel notification because the channel queue is full"@,
        ),
        warning_text(ChannelDeliveryDecision::RateLimited) == Some(
            "ignored MCP channel notification because the channel rate limit was reached"@,
        ),
{
}

/// The name of a server is made of letters, digits, underscores and hyphens, and there is one of them
/// at least.
pub proof fn server_names_are_plain(name: Seq<char>, at: int, c: char)
    ensures
        is_server_name(seq![c]) <==> 65 <= c as u32 <= 90 || 97 <= c as u32 <= 122 || 48 <= c as u32
            <= 57 || c == '_' || c == '-',
        !is_server_name(seq![]),
        is_server_name(name) && is_server_name(seq![c]) ==> is_server_name(name.push(c)),
        0 <= at < name.len() && is_server_name(name) ==> is_server_name(seq![name[at]]),
{
    assert(seq![c][0] == c);
    if is_server_name(name) && is_server_name(seq![c]) {
        assert forall|i: int| 0 <= i < name.push(c).len() implies is_name_char(
            #[trigger] name.push(c)[i],
        ) by {
            if i < name.len() {
                assert(name.push(c)[i] == name[i]);
            }
        }
    }
}

/// Why a server did not start, in words.
pub proof fn faults_are_told(error: Seq<char>)
    ensures
        fault_text(StartupFault::Cancelled) == "MCP startup cancelled"@,
        fault_text(StartupFault::Failed { error }) == "MCP startup failed: "@ + error,
{
}

/// Whether a server that names this environment runs here: it names none, or the local one.
pub open spec fn runs_here(environment: Option<Seq<char>>) -> bool {
    environment is None || environment->Some_0 == "local"@
}

/// A server that runs here, or in a remote environment that is there, is reached so; any other is
/// refused before its token is looked at.
pub proof fn servers_run_where_they_can(
    server: Seq<char>,
    environment: Option<Seq<char>>,
    is_remote: bool,
    found: EnvLookup,
)
    ensures
        ({
            let plan = client_plan(server, environment, is_remote, TransportKind::Stdio, found);
            let remote = environment is Some && environment->Some_0 == "remote"@;
            &&& runs_here(environment) ==> plan == Ok::<(bool, Option<Seq<char>>), Seq<char>>(
                (false, None),
            )
            &&& remote && is_remote ==> plan == Ok::<(bool, Option<Seq<char>>), Seq<char>>(
                (true, None),
            )
            &&& remote && !is_remote ==> plan == Err::<(bool, Option<Seq<char>>), Seq<char>>(
                "remote MCP server `"@ + server + "` requires a remote environment"@,
            )
            &&& !remote && !runs_here(environment) ==> plan == Err::<
                (bool, Option<Seq<char>>),
                Seq<char>,
            >(
                "unsupported experimental_environment `"@ + environment->Some_0
                    + "` for MCP server `"@ + server + "`"@,
            )
        }),
{
    reveal_strlit("local");
    reveal_strlit("remote");
    assert("local"@.len() == 5 && "remote"@.len() == 6);
}

/// A server that is reached over HTTP gets the whole token in the variable that it names, and none
/// where it names none; a variable that is missing, empty or not Unicode is refused in the words for it.
pub proof fn tokens_are_handed_over_whole(
    server: Seq<char>,
    environment: Option<Seq<char>>,
    is_remote: bool,
    variable: String,
    value: String,
)
    requires
        runs_here(environment),
    ensures
        ({
            let named = TransportKind::StreamableHttp { bearer_token_env_var: Some(variable) };
            let unnamed = TransportKind::StreamableHttp { bearer_token_env_var: None };
            let start = "Environment variable "@ + variable@ + " for MCP server '"@ + server;
            &&& value@.len() > 0 ==> client_plan(
                server,
                environment,
                is_remote,
                named,
                EnvLookup::Value(value),
            ) == Ok::<(bool, Option<Seq<char>>), Seq<char>>((false, Some(value@)))
            &&& value@.len() == 0 ==> client_plan(
                server,
                environment,
                is_remote,
                named,
                EnvLookup::Value(value),
            ) == Err::<(bool, Option<Seq<char>>), Seq<char>>(start + "' is empty"@)
            &&& client_plan(server, environment, is_remote, named, EnvLookup::NotPresent) == Err::<
                (bool, Option<Seq<char>>),
                Seq<char>,
            >(start + "' is not set"@)
            &&& client_plan(server, environment, is_remote, named, EnvLookup::NotUnicode) == Err::<
                (bool, Option<Seq<char>>),
                Seq<char>,
            >(start + "' contains invalid Unicode"@)
            &&& client_plan(server, environment, is_remote, unnamed, EnvLookup::Value(value)) == Ok::<
                (bool, Option<Seq<char>>),
                Seq<char>,
            >((false, None))
        }),
{
}

/// What a server other than that of the apps may not say.
pub open spec fn speaks_of_a_connector(key: Seq<char>) -> bool {
    ||| key == "connector_id"@
    ||| key == "connector_name"@
    ||| key == "connector_display_name"@
    ||| key == "connector_description"@
    ||| key == "connectorDescription"@
}

/// The server of the apps is believed; of a tool of any other server the five members that speak of a
/// connector are taken away, and everything else is kept.
pub proof fn only_the_apps_speak_of_connectors(server: Seq<char>, listed: ListedToolModel)
    ensures
        ({
            let kept = sanitized(server, listed);
            &&& server == "codex_apps"@ ==> kept == listed
            &&& server != "codex_apps"@ ==> {
                &&& kept.connector_id is None
                &&& kept.connector_name is None
                &&& kept.connector_description is None
                &&& kept.tool.name == listed.tool.name
                &&& kept.tool.title == listed.tool.title
                &&& kept.tool.description == listed.tool.description
                &&& kept.tool.meta is Some <==> listed.tool.meta is Some
                &&& kept.tool.meta is Some ==> {
                    &&& forall|key: Seq<char>| #[trigger]
                        kept.tool.meta->Some_0.contains_key(key)
                            <==> listed.tool.meta->Some_0.contains_key(key)
                            && !speaks_of_a_connector(key)
                    &&& forall|key: Seq<char>| #[trigger]
                        kept.tool.meta->Some_0.contains_key(key) ==> kept.tool.meta->Some_0[key]
                            == listed.tool.meta->Some_0[key]
                }
            }
        }),
{
    if listed.tool.meta is Some && server != "codex_apps"@ {
        let before = listed.tool.meta->Some_0;
        let after = sanitized(server, listed).tool.meta->Some_0;
        assert forall|key: Seq<char>| #[trigger] after.contains_key(key) <==> before.contains_key(
            key,
        ) && !speaks_of_a_connector(key) by {}
        assert forall|key: Seq<char>| #[trigger] after.contains_key(key) implies after[key]
            == before[key] by {}
    }
}

/// A tool is offered with what its server says of it, under its names, and with the title to show where
/// it has a title.
pub proof fn tools_are_offered_as_listed(
    server: Seq<char>,
    instructions: Option<Seq<char>>,
    listed: ListedToolModel,
    name: Seq<char>,
    namespace: Seq<char>,
    title: Seq<char>,
)
    ensures
        ({
            let info = offered(server, instructions, listed, name, namespace, title);
            &&& info.server_name == server
            &&& info.callable_name == name
            &&& info.callable_namespace == namespace
            &&& info.server_instructions == instructions
            &&& info.tool.name == listed.tool.name
            &&& info.tool.description == listed.tool.description
            &&& info.tool.meta == listed.tool.meta
            &&& listed.tool.title is Some ==> info.tool.title == Some(title)
            &&& listed.tool.title is None ==> info.tool.title is None
            &&& info.connector_id == listed.connector_id
            &&& info.connector_name == listed.connector_name
            &&& info.connector_description == listed.connector_description
            &&& info.plugin_display_names.len() == 0
        }),
{
}

/// The plugins of a key are those of the first source that has it, and there are none where no source
/// has it.
pub proof fn the_first_source_counts(sources: Seq<PluginSource>, key: Seq<char>, at: int)
    requires
        0 <= at <= sources.len(),
        forall|i: int| 0 <= i < at ==> (#[trigger] sources[i]).key@ != key,
    ensures
        at < sources.len() && sources[at].key@ == key ==> plugins_under(sources, key) == texts(
            sources[at].plugins@,
        ),
        at == sources.len() ==> plugins_under(sources, key).len() == 0,
    decreases at,
{
    if at > 0 {
        let rest = sources.drop_first();
        assert(sources[0].key@ != key);
        assert forall|i: int| 0 <= i < at - 1 implies (#[trigger] rest[i]).key@ != key by {
            assert(rest[i] == sources[i + 1]);
        }
        if at < sources.len() {
            assert(rest[at - 1] == sources[at]);
        }
        the_first_source_counts(rest, key, at - 1);
    }
}

/// A tool is listed with the plugins of its connector, and of its server where it has no connector; its
/// description names them, and nothing else about it is different.
pub proof fn tools_are_listed_with_their_plugins(
    provenance: ToolPluginProvenance,
    info: ToolInfoModel,
)
    ensures
        ({
            let shown = annotated(provenance, info);
            let plugins = shown.plugin_display_names;
            &&& info.connector_id is Some ==> plugins =~= plugins_under(
                provenance.connectors@,
                info.connector_id->Some_0,
            )
            &&& info.connector_id is None ==> plugins =~= plugins_under(
                provenance.servers@,
                info.server_name,
            )
            &&& plugins.len() == 0 ==> shown.tool == info.tool
            &&& plugins.len() > 0 ==> shown.tool.description == Some(
                with_note(info.tool.description, source_note(plugins)),
            )
            &&& shown.tool == (McpToolModel { description: shown.tool.description, ..info.tool })
            &&& shown == (ToolInfoModel {
                plugin_display_names: plugins,
                tool: shown.tool,
                ..info
            })
        }),
{
}

/// What is listed for every tool is what is listed for it alone, in the same place.
pub proof fn every_tool_is_listed(
    provenance: ToolPluginProvenance,
    tools: Seq<ToolInfoModel>,
    at: int,
)
    ensures
        all_annotated(provenance, tools).len() == tools.len(),
        0 <= at < tools.len() ==> all_annotated(provenance, tools)[at] == annotated(
            provenance,
            tools[at],
        ),
{
}

/// One plugin is named by itself, and several one after the other with commas between them, each
/// between backquotes.
pub proof fn plugins_are_named(one: Seq<char>, two: Seq<char>, plugins: Seq<Seq<char>>)
    ensures
        source_note(seq![one]) == "This tool is part of plugin "@ + ("`"@ + one + "`"@) + "."@,
        plugins.len() >= 2 ==> source_note(plugins) == "This tool is part of plugins "@ + joined(
            plugins.map_values(|name: Seq<char>| "`"@ + name + "`"@),
            ", "@,
        ) + "."@,
        source_note(seq![one, two]) == "This tool is part of plugins "@ + ("`"@ + one + "`"@ + ", "@
            + ("`"@ + two + "`"@)) + "."@,
{
    assert(seq![one][0] == one);
    let quote = |name: Seq<char>| "`"@ + name + "`"@;
    assert(plugins.map_values(|name: Seq<char>| quoted(name))
        =~= plugins.map_values(quote));
    let both = seq![one, two].map_values(|name: Seq<char>| quoted(name));
    assert(both.len() == 2);
    assert(both[0] == "`"@ + one + "`"@ && both[1] == "`"@ + two + "`"@);
    assert(both.drop_last() =~= seq![both[0]]);
    assert(joined(seq![both[0]], ", "@) == both[0]);
    assert(joined(both, ", "@) == both[0] + ", "@ + both[1]);
}

/// A note follows the description, after a full stop where the description does not end a sentence, and
/// stands alone where there is no description.
pub proof fn notes_follow_the_description(text: Seq<char>, note: Seq<char>)
    ensures
        with_note(None, note) == note,
        blank(text) ==> with_note(Some(text), note) == note,
        !blank(text) ==> trimmed(text).len() > 0,
        !blank(text) && (trimmed(text).last() == '.' || trimmed(text).last() == '!' || trimmed(
            text,
        ).last() == '?') ==> with_note(Some(text), note) == trimmed(text) + " "@ + note,
        !blank(text) && trimmed(text).last() != '.' && trimmed(text).last() != '!' && trimmed(
            text,
        ).last() != '?' ==> with_note(Some(text), note) == trimmed(text) + ". "@ + note,
{
    trimming_keeps_what_is_said(text);
}

/// A client keeps the tools that the filter lets through, in their order, and the cache gets all.
pub proof fn the_filter_decides_what_is_kept(listed: Seq<FilteredTool>, tool: FilteredTool, at: int)
    ensures
        tool.allowed ==> allowed_infos(listed.push(tool)) == allowed_infos(listed).push(tool.info@),
        !tool.allowed ==> allowed_infos(listed.push(tool)) == allowed_infos(listed),
        allowed_infos(seq![]).len() == 0,
        listed_infos(listed).len() == listed.len(),
        0 <= at < listed.len() ==> listed_infos(listed)[at] == listed[at].info@,
{
    assert(listed.push(tool).drop_last() =~= listed);
    assert(listed.push(tool).last() == tool);
}

/// The tree of a value says what the value is.
pub proof fn trees_say_what_values_are(
    b: bool,
    n: u64,
    i: i64,
    text: String,
    items: Vec<Json>,
    object: JsonObject,
    number: serde_json::Number,
    at: int,
)
    ensures
        number_integer(number) is Some ==> json_model(Json::Number(number)) == JsonModel::Integer(
            number_integer(number)->Some_0 as int,
        ),
        number_integer(number) is None ==> json_model(Json::Number(number)) == JsonModel::Fraction(
            number,
        ),
        json_model(Json::Null) == JsonModel::Null,
        json_model(Json::Bool(b)) == JsonModel::Bool(b),
        json_model(Json::Unsigned(n)) == JsonModel::Integer(n as int),
        json_model(Json::Signed(i)) == JsonModel::Integer(i as int),
        json_model(Json::Text(text)) == JsonModel::Text(text@),
        json_model(Json::Array(items)) is Array,
        json_model(Json::Array(items))->Array_0.len() == items@.len(),
        0 <= at < items@.len() ==> json_model(Json::Array(items))->Array_0[at] == json_model(
            items@[at],
        ),
        json_model(Json::Object(object)) == JsonModel::Object(object@),
{
    lemma_items_model(items@);
}

/// A member that is added replaces the one under its key, and leaves every other.
pub proof fn later_members_replace_earlier_ones(
    entries: Seq<(String, Json)>,
    entry: (String, Json),
    key: Seq<char>,
)
    ensures
        entries_model(entries.push(entry)).contains_key(entry.0@),
        entries_model(entries.push(entry))[entry.0@] == json_model(entry.1),
        key != entry.0@ ==> entries_model(entries.push(entry)).contains_key(key) == entries_model(
            entries,
        ).contains_key(key),
        key != entry.0@ && entries_model(entries).contains_key(key) ==> entries_model(
            entries.push(entry),
        )[key] == entries_model(entries)[key],
        !entries_model(seq![]).contains_key(key),
{
    assert(entries.push(entry).drop_last() =~= entries);
    assert(entries.push(entry).last() == entry);
}

/// What has no members or items is written as it is: nothing, a truth value and an integer.
pub proof fn plain_values_are_written_plainly(n: nat)
    ensures
        json_text(JsonModel::Null) == "null"@,
        json_text(JsonModel::Bool(true)) == "true"@,
        json_text(JsonModel::Bool(false)) == "false"@,
        json_text(JsonModel::Integer(n as int)) == decimal(n),
        n > 0 ==> json_text(JsonModel::Integer(-(n as int))) == seq!['-'] + decimal(n),
{
}

} // verus!
