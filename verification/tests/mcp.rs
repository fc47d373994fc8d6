use codex_channels::channel_delivery::McpServerChannelConfig;
use codex_channels::json::{Json, JsonObject};
use codex_channels::mcp_startup::{
    elicitation_capability_for_server, initialize_request, plan_client, resolve_bearer_token,
    shutdown_action, startup_timeout_nanos, supports_sandbox_state_meta, tool_timeout_nanos,
    uses_remote_environment, validate_mcp_server_name, EnvLookup, McpError, ShutdownAction,
    StartupOutcomeError, TransportKind, MCP_SANDBOX_STATE_META_CAPABILITY,
};
use codex_channels::mcp_tools::{
    annotate_tools, finish_startup, is_offered, is_untrusted_connector_meta_key, offer_tool, sanitize_listed_tools,
    sanitize_tool_connector_metadata, AsyncManagedClient, CacheUse, FilteredTool,
    InitializedServer, ListedTool, ManagedClient,
    McpTool, PluginSource, ToolInfo, ToolNames, ToolPluginProvenance, CODEX_APPS_MCP_SERVER_NAME,
};

fn tool_with_connector_meta() -> McpTool {
    let meta = serde_json::from_str(
        r#"{
            "connector_id": "connector_gmail",
            "connector_name": "Gmail",
            "connector_display_name": "Gmail",
            "connector_description": "Mail connector",
            "connectorDescription": "Mail connector",
            "connectorFutureField": "future connector metadata",
            "CONNECTOR_UPPERCASE": "uppercase connector metadata",
            "openai/fileParams": ["file"],
            "custom": "kept"
        }"#,
    )
    .expect("object");
    let Json::Object(meta) = Json::from_value(meta) else {
        panic!("object");
    };
    McpTool {
        name: "capture_file_upload".to_string(),
        title: None,
        description: Some("test tool".to_string()),
        meta: Some(meta),
    }
}

fn info(server: &str, connector: Option<&str>, description: Option<&str>) -> ToolInfo {
    ToolInfo {
        server_name: server.to_string(),
        callable_name: "call".to_string(),
        callable_namespace: "space".to_string(),
        server_instructions: None,
        tool: McpTool {
            name: "raw".to_string(),
            title: None,
            description: description.map(str::to_string),
            meta: None,
        },
        connector_id: connector.map(str::to_string),
        connector_name: None,
        connector_description: None,
        plugin_display_names: vec!["stale".to_string()],
    }
}

fn source(key: &str, plugins: &[&str]) -> PluginSource {
    PluginSource {
        key: key.to_string(),
        plugins: plugins.iter().map(|name| name.to_string()).collect(),
    }
}

fn provenance() -> ToolPluginProvenance {
    ToolPluginProvenance {
        connectors: vec![source("gmail", &["Mail"]), source("none", &[])],
        servers: vec![source("server", &["One", "Two"])],
    }
}

fn failed(error: StartupOutcomeError) -> String {
    match error {
        StartupOutcomeError::Failed { error } => error,
        StartupOutcomeError::Cancelled => panic!("cancelled"),
    }
}

#[test]
fn custom_mcp_connector_metadata_is_stripped() {
    let mut tool = tool_with_connector_meta();
    let (connector_id, connector_name, connector_description) = sanitize_tool_connector_metadata(
        "minimaltest",
        &mut tool,
        Some("connector_gmail".to_string()),
        Some("Gmail".to_string()),
        Some("Mail connector".to_string()),
    );
    assert_eq!(connector_id, None);
    assert_eq!(connector_name, None);
    assert_eq!(connector_description, None);
    let meta = tool.meta.as_ref().expect("meta");
    for key in [
        "connector_id",
        "connector_name",
        "connector_display_name",
        "connector_description",
        "connectorDescription",
    ] {
        assert!(meta.get(key).is_none(), "{key} should be stripped");
        assert!(is_untrusted_connector_meta_key(key));
    }
    assert!(meta.get("connectorFutureField").is_some());
    assert!(meta.get("CONNECTOR_UPPERCASE").is_some());
    assert!(meta.get("openai/fileParams").is_some());
    assert!(matches!(meta.get("custom"), Some(Json::Text(text)) if text == "kept"));
    assert!(!is_untrusted_connector_meta_key("connectorFutureField"));
}

#[test]
fn codex_apps_connector_metadata_is_preserved() {
    let mut tool = tool_with_connector_meta();
    let (connector_id, connector_name, connector_description) = sanitize_tool_connector_metadata(
        CODEX_APPS_MCP_SERVER_NAME,
        &mut tool,
        Some("connector_gmail".to_string()),
        Some("Gmail".to_string()),
        Some("Mail connector".to_string()),
    );
    assert_eq!(connector_id.as_deref(), Some("connector_gmail"));
    assert_eq!(connector_name.as_deref(), Some("Gmail"));
    assert_eq!(connector_description.as_deref(), Some("Mail connector"));
    let meta = tool.meta.as_ref().expect("meta");
    for key in [
        "connector_id",
        "connector_name",
        "connector_display_name",
        "connector_description",
        "connectorDescription",
        "connectorFutureField",
        "CONNECTOR_UPPERCASE",
    ] {
        assert!(meta.get(key).is_some(), "{key} should be preserved");
    }
}

#[test]
fn listed_tools_are_sanitized_and_offered_under_their_names() {
    let mut tool = tool_with_connector_meta();
    tool.title = Some("Gmail upload".to_string());
    let listed = ListedTool {
        tool,
        connector_id: Some("connector_gmail".to_string()),
        connector_name: Some("Gmail".to_string()),
        connector_description: None,
    };
    let mut kept = sanitize_listed_tools("minimaltest", vec![listed]);
    assert_eq!(kept.len(), 1);
    assert_eq!(kept[0].connector_id, None);
    let names = || ToolNames {
        callable_name: "upload".to_string(),
        callable_namespace: "gmail".to_string(),
        title: "Upload".to_string(),
    };
    let info = offer_tool("minimaltest", Some("be kind"), kept.remove(0), names());
    assert_eq!(info.server_name, "minimaltest");
    assert_eq!(info.callable_name, "upload");
    assert_eq!(info.callable_namespace, "gmail");
    assert_eq!(info.server_instructions.as_deref(), Some("be kind"));
    assert_eq!(info.tool.name, "capture_file_upload");
    assert_eq!(info.tool.title.as_deref(), Some("Upload"));
    assert!(info.plugin_display_names.is_empty());
    let untitled = ListedTool {
        tool: tool_with_connector_meta(),
        connector_id: None,
        connector_name: None,
        connector_description: None,
    };
    assert_eq!(offer_tool("s", None, untitled, names()).tool.title, None);
}

#[test]
fn only_apps_have_to_be_allowed() {
    assert!(is_offered("minimaltest", false));
    assert!(is_offered(CODEX_APPS_MCP_SERVER_NAME, true));
    assert!(!is_offered(CODEX_APPS_MCP_SERVER_NAME, false));
}

#[test]
fn plugins_are_named_in_the_description() {
    let tools = annotate_tools(
        vec![
            info("server", Some("gmail"), Some(" Sends mail ")),
            info("server", None, Some("Works!")),
            info("server", None, None),
            info("server", Some("none"), Some("Plain")),
            info("elsewhere", None, Some("Plain")),
        ],
        &provenance(),
    );
    let described: Vec<Option<&str>> =
        tools.iter().map(|tool| tool.tool.description.as_deref()).collect();
    assert_eq!(
        described,
        vec![
            Some("Sends mail. This tool is part of plugin `Mail`."),
            Some("Works! This tool is part of plugins `One`, `Two`."),
            Some("This tool is part of plugins `One`, `Two`."),
            Some("Plain"),
            Some("Plain"),
        ]
    );
    assert_eq!(tools[0].plugin_display_names, vec!["Mail".to_string()]);
    assert!(tools[3].plugin_display_names.is_empty());
    assert!(tools[4].plugin_display_names.is_empty());
}

#[test]
fn tools_are_listed_from_the_snapshot_until_the_client_has_started() {
    let client = AsyncManagedClient {
        startup_snapshot: Some(vec![info("server", None, None)]),
        tool_plugin_provenance: provenance(),
    };
    assert!(client.startup_snapshot_while_initializing(true).is_none());
    let early = client.listed_tools_while_initializing(false).expect("snapshot");
    assert_eq!(early[0].plugin_display_names, vec!["One".to_string(), "Two".to_string()]);
    assert!(client.listed_tools_while_initializing(true).is_none());
    let own = client.listed_tools(Ok(vec![info("elsewhere", None, None)])).expect("tools");
    assert_eq!(own[0].server_name, "elsewhere");
    let after_failure =
        client.listed_tools(Err(StartupOutcomeError::Cancelled)).expect("snapshot");
    assert_eq!(after_failure[0].server_name, "server");
    let bare = AsyncManagedClient { startup_snapshot: None, tool_plugin_provenance: provenance() };
    assert!(bare.listed_tools(Err(StartupOutcomeError::Cancelled)).is_none());
    assert!(bare.listed_tools_while_initializing(false).is_none());
}

#[test]
fn cached_tools_go_before_those_from_startup() {
    let cached = || Some(vec![info("cache", None, None), info("cache", None, None)]);
    let client = ManagedClient { tools: vec![info("startup", None, None)], has_cache: true };
    let (tools, used) = client.listed_tools(cached());
    assert_eq!((tools.len(), used), (2, CacheUse::Hit));
    let (tools, used) = client.listed_tools(None);
    assert_eq!((tools.len(), used), (1, CacheUse::Miss));
    let client = ManagedClient { has_cache: false, ..client };
    let (tools, used) = client.listed_tools(cached());
    assert_eq!((tools[0].server_name.as_str(), used), ("startup", CacheUse::Uncached));
}

#[test]
fn a_started_client_has_the_tools_that_pass_the_filter() {
    let mut experimental = JsonObject::new();
    experimental.insert(MCP_SANDBOX_STATE_META_CAPABILITY.to_string(), Json::Null);
    let server = || InitializedServer {
        experimental: Some(experimental.clone()),
        instructions: Some("be kind".to_string()),
    };
    let tools = || {
        vec![
            FilteredTool { info: info("a", None, None), allowed: true },
            FilteredTool { info: info("b", None, None), allowed: false },
            FilteredTool { info: info("c", None, None), allowed: true },
        ]
    };
    let names = |tools: &[ToolInfo]| {
        tools.iter().map(|tool| tool.server_name.clone()).collect::<Vec<String>>().join(" ")
    };
    let started = finish_startup(Ok(server()), Ok(tools()), 7, true).expect("started");
    assert_eq!(names(&started.client.tools), "a c");
    assert_eq!(names(&started.tools_for_cache), "a b c");
    assert!(started.client.has_cache);
    assert_eq!(started.tool_timeout_nanos, 7);
    assert_eq!(started.server_instructions.as_deref(), Some("be kind"));
    assert!(started.server_supports_sandbox_state_meta_capability);
    let error = |words: &str| McpError { message: words.to_string() };
    assert_eq!(
        failed(finish_startup(Err(error("no")), Err(error("never")), 7, true).expect_err("failed")),
        "no"
    );
    assert_eq!(
        failed(finish_startup(Ok(server()), Err(error("list")), 7, true).expect_err("failed")),
        "list"
    );
}

#[test]
fn server_names_are_letters_digits_underscores_and_hyphens() {
    assert!(validate_mcp_server_name("telegram-channel_2").is_ok());
    for name in ["", "a b", "naïve", "a\n", "a/b", "a.b"] {
        let error = validate_mcp_server_name(name).expect_err("refused");
        assert_eq!(
            error.message,
            format!("Invalid MCP server name '{name}': must match pattern ^[a-zA-Z0-9_-]+$")
        );
    }
}

#[test]
fn bearer_tokens_come_from_the_environment() {
    let found = || EnvLookup::Value("SECRET".to_string());
    assert_eq!(resolve_bearer_token("s", None, EnvLookup::NotPresent).ok(), Some(None));
    assert_eq!(
        resolve_bearer_token("s", Some("TOKEN"), found()).ok(),
        Some(Some("SECRET".to_string()))
    );
    let refused = |found| resolve_bearer_token("s", Some("TOKEN"), found).expect_err("refused").message;
    assert_eq!(
        refused(EnvLookup::Value(String::new())),
        "Environment variable TOKEN for MCP server 's' is empty"
    );
    assert_eq!(
        refused(EnvLookup::NotPresent),
        "Environment variable TOKEN for MCP server 's' is not set"
    );
    assert_eq!(
        refused(EnvLookup::NotUnicode),
        "Environment variable TOKEN for MCP server 's' contains invalid Unicode"
    );
}

#[test]
fn servers_run_locally_unless_a_remote_environment_is_asked_for() {
    assert_eq!(uses_remote_environment("s", None, true).ok(), Some(false));
    assert_eq!(uses_remote_environment("s", Some("local"), true).ok(), Some(false));
    assert_eq!(uses_remote_environment("s", Some("remote"), true).ok(), Some(true));
    assert_eq!(
        failed(uses_remote_environment("s", Some("remote"), false).expect_err("refused")),
        "remote MCP server `s` requires a remote environment"
    );
    assert_eq!(
        failed(uses_remote_environment("s", Some("moon"), true).expect_err("refused")),
        "unsupported experimental_environment `moon` for MCP server `s`"
    );
}

#[test]
fn clients_are_planned_by_their_transport() {
    let http = TransportKind::StreamableHttp { bearer_token_env_var: Some("TOKEN".to_string()) };
    let plan = plan_client("s", Some("remote"), true, &http, EnvLookup::Value("t".to_string()))
        .expect("plan");
    assert!(plan.remote);
    assert_eq!(plan.bearer_token.as_deref(), Some("t"));
    let plan =
        plan_client("s", None, false, &TransportKind::Stdio, EnvLookup::NotPresent).expect("plan");
    assert!(!plan.remote);
    assert_eq!(plan.bearer_token, None);
    assert_eq!(
        failed(plan_client("s", None, false, &http, EnvLookup::NotPresent).expect_err("refused")),
        "Environment variable TOKEN for MCP server 's' is not set"
    );
    assert_eq!(
        failed(
            plan_client("s", Some("remote"), false, &http, EnvLookup::NotPresent)
                .expect_err("refused")
        ),
        "remote MCP server `s` requires a remote environment"
    );
}

#[test]
fn the_client_introduces_itself() {
    let config = McpServerChannelConfig { enabled: true, ..Default::default() };
    let request = initialize_request("s", &config, "0.153.4");
    assert_eq!((request.client_name, request.client_title), ("codex-mcp-client", "Codex"));
    assert_eq!(request.client_version, "0.153.4");
    assert_eq!(request.protocol_version, "2025-06-18");
    assert!(request.experimental.expect("capabilities").get("codex/channel-notifications").is_some());
    let elicitation = request.elicitation.expect("elicitation");
    assert!(elicitation.url.is_none());
    assert_eq!(elicitation.form.expect("form").schema_validation, None);
    assert!(elicitation_capability_for_server("other").is_some());
    let quiet = initialize_request("s", &McpServerChannelConfig::default(), "0");
    assert!(quiet.experimental.is_none());
}

#[test]
fn servers_ask_for_the_sandbox_state_by_a_capability() {
    assert!(!supports_sandbox_state_meta(&None));
    let mut experimental = JsonObject::new();
    assert!(!supports_sandbox_state_meta(&Some(experimental.clone())));
    experimental.insert(MCP_SANDBOX_STATE_META_CAPABILITY.to_string(), Json::Null);
    assert!(supports_sandbox_state_meta(&Some(experimental)));
}

#[test]
fn timeouts_have_defaults() {
    assert_eq!(startup_timeout_nanos(None), Some(30_000_000_000));
    assert_eq!(startup_timeout_nanos(Some(5)), Some(5));
    assert_eq!(tool_timeout_nanos(None), 120_000_000_000);
    assert_eq!(tool_timeout_nanos(Some(5)), 5);
}

#[test]
fn startup_faults_are_told_and_decide_the_shutdown() {
    let failed = StartupOutcomeError::from(McpError { message: "no route".to_string() });
    assert_eq!(failed.clone().message(), "MCP startup failed: no route");
    assert_eq!(StartupOutcomeError::Cancelled.message(), "MCP startup cancelled");
    assert!(matches!(shutdown_action(Ok(())), ShutdownAction::ShutDown));
    assert!(matches!(
        shutdown_action(Err(StartupOutcomeError::Cancelled)),
        ShutdownAction::Nothing
    ));
    assert!(matches!(shutdown_action(Err(failed)), ShutdownAction::Warn(words)
        if words == "failed to initialize MCP client during shutdown: MCP startup failed: no route"));
}
