//! The tools of MCP servers: what is kept of their metadata and how they are listed.

use crate::json::{entries_model, Json, JsonModel, JsonObject};
use crate::mcp_startup::{
    supports_sandbox_state_meta, McpError, StartupFault, StartupOutcomeError,
    MCP_SANDBOX_STATE_META_CAPABILITY,
};
use crate::text::{join, joined, same_text, texts, trim, trimmed};
use vstd::prelude::*;

verus! {

broadcast use vstd::string::group_string_axioms;

/// The server whose word on connectors is taken.
pub const CODEX_APPS_MCP_SERVER_NAME: &'static str = "codex_apps";

/// A tool as its server describes it.
#[derive(Debug)]
pub struct McpTool {
    pub name: String,
    pub title: Option<String>,
    pub description: Option<String>,
    pub meta: Option<JsonObject>,
}

/// A tool as its server describes it.
pub struct McpToolModel {
    pub name: Seq<char>,
    pub title: Option<Seq<char>>,
    pub description: Option<Seq<char>>,
    pub meta: Option<Map<Seq<char>, JsonModel>>,
}

impl View for McpTool {
    type V = McpToolModel;

    open spec fn view(&self) -> McpToolModel {
        McpToolModel {
            name: self.name@,
            title: self.title.deep_view(),
            description: self.description.deep_view(),
            meta: match self.meta {
                Some(meta) => Some(meta@),
                None => None,
            },
        }
    }
}

/// A tool in the answer of a server, with what it says of the connector behind it.
#[derive(Debug)]
pub struct ListedTool {
    pub tool: McpTool,
    pub connector_id: Option<String>,
    pub connector_name: Option<String>,
    pub connector_description: Option<String>,
}

/// A tool in the answer of a server.
pub struct ListedToolModel {
    pub tool: McpToolModel,
    pub connector_id: Option<Seq<char>>,
    pub connector_name: Option<Seq<char>>,
    pub connector_description: Option<Seq<char>>,
}

impl View for ListedTool {
    type V = ListedToolModel;

    open spec fn view(&self) -> ListedToolModel {
        ListedToolModel {
            tool: self.tool@,
            connector_id: self.connector_id.deep_view(),
            connector_name: self.connector_name.deep_view(),
            connector_description: self.connector_description.deep_view(),
        }
    }
}

impl DeepView for ListedTool {
    type V = ListedToolModel;

    open spec fn deep_view(&self) -> ListedToolModel {
        self.view()
    }
}

/// A tool as it is offered to the model.
#[derive(Debug)]
pub struct ToolInfo {
    pub server_name: String,
    pub callable_name: String,
    pub callable_namespace: String,
    pub server_instructions: Option<String>,
    pub tool: McpTool,
    pub connector_id: Option<String>,
    pub connector_name: Option<String>,
    pub connector_description: Option<String>,
    pub plugin_display_names: Vec<String>,
}

/// A tool as it is offered to the model.
pub struct ToolInfoModel {
    pub server_name: Seq<char>,
    pub callable_name: Seq<char>,
    pub callable_namespace: Seq<char>,
    pub server_instructions: Option<Seq<char>>,
    pub tool: McpToolModel,
    pub connector_id: Option<Seq<char>>,
    pub connector_name: Option<Seq<char>>,
    pub connector_description: Option<Seq<char>>,
    pub plugin_display_names: Seq<Seq<char>>,
}

impl View for ToolInfo {
    type V = ToolInfoModel;

    open spec fn view(&self) -> ToolInfoModel {
        ToolInfoModel {
            server_name: self.server_name@,
            callable_name: self.callable_name@,
            callable_namespace: self.callable_namespace@,
            server_instructions: self.server_instructions.deep_view(),
            tool: self.tool@,
            connector_id: self.connector_id.deep_view(),
            connector_name: self.connector_name.deep_view(),
            connector_description: self.connector_description.deep_view(),
            plugin_display_names: texts(self.plugin_display_names@),
        }
    }
}

impl DeepView for ToolInfo {
    type V = ToolInfoModel;

    open spec fn deep_view(&self) -> ToolInfoModel {
        self.view()
    }
}

/// A copy of an optional text.
fn copy_text(text: &Option<String>) -> (copy: Option<String>)
    ensures
        copy.deep_view() == text.deep_view(),
{
    match text {
        Some(text) => Some(text.clone()),
        None => None,
    }
}

/// A copy of a list of texts.
fn copy_texts(list: &Vec<String>) -> (copy: Vec<String>)
    ensures
        texts(copy@) == texts(list@),
{
    let n: usize = list.len();
    let mut copy: Vec<String> = Vec::new();
    let mut i: usize = 0;
    while i < n
        invariant
            i <= n,
            n == list@.len(),
            copy@.len() == i,
            forall|k: int| 0 <= k < i ==> (#[trigger] copy@[k])@ == list@[k]@,
        decreases n - i,
    {
        copy.push(list[i].clone());
        i = i + 1;
    }
    assert(texts(copy@) =~= texts(list@));
    copy
}

impl Clone for McpTool {
    fn clone(&self) -> (copy: Self)
        ensures
            copy@ == self@,
    {
        McpTool {
            name: self.name.clone(),
            title: copy_text(&self.title),
            description: copy_text(&self.description),
            meta: match &self.meta {
                Some(meta) => Some(meta.clone()),
                None => None,
            },
        }
    }
}

impl Clone for ToolInfo {
    fn clone(&self) -> (copy: Self)
        ensures
            copy@ == self@,
    {
        ToolInfo {
            server_name: self.server_name.clone(),
            callable_name: self.callable_name.clone(),
            callable_namespace: self.callable_namespace.clone(),
            server_instructions: copy_text(&self.server_instructions),
            tool: self.tool.clone(),
            connector_id: copy_text(&self.connector_id),
            connector_name: copy_text(&self.connector_name),
            connector_description: copy_text(&self.connector_description),
            plugin_display_names: copy_texts(&self.plugin_display_names),
        }
    }
}

/// Whether metadata under a key speaks of a connector.
pub open spec fn is_connector_key(key: Seq<char>) -> bool {
    ||| key == "connector_id"@
    ||| key == "connector_name"@
    ||| key == "connector_display_name"@
    ||| key == "connector_description"@
    ||| key == "connectorDescription"@
}

/// Whether metadata under `key` speaks of a connector.
pub fn is_untrusted_connector_meta_key(key: &str) -> (untrusted: bool)
    ensures
        untrusted == is_connector_key(key@),
{
    same_text(key, "connector_id") || same_text(key, "connector_name") || same_text(
        key,
        "connector_display_name",
    ) || same_text(key, "connector_description") || same_text(key, "connectorDescription")
}

/// Metadata without what speaks of a connector.
pub open spec fn without_connector(meta: Map<Seq<char>, JsonModel>) -> Map<Seq<char>, JsonModel> {
    meta.restrict(Set::new(|key: Seq<char>| !is_connector_key(key)))
}

/// A tool without the metadata that speaks of a connector.
pub open spec fn stripped(tool: McpToolModel) -> McpToolModel {
    McpToolModel {
        meta: match tool.meta {
            Some(meta) => Some(without_connector(meta)),
            None => None,
        },
        ..tool
    }
}

/// The entries whose key speaks of no connector.
fn trusted_entries(object: JsonObject) -> (kept: JsonObject)
    ensures
        kept@ == without_connector(object@),
{
    let ghost all = object.entries@;
    let mut entries: Vec<(String, Json)> = Vec::new();
    assert(all.take(0) =~= seq![]);
    assert(entries_model(entries@) =~= without_connector(entries_model(all.take(0))));
    for entry in rest: object.entries
        invariant
            rest.seq() == all,
            entries_model(entries@) == without_connector(
                entries_model(all.take(rest.index() as int)),
            ),
    {
        let ghost before = entries@;
        let ghost shorter = all.take(rest.index() as int);
        let ghost longer = all.take(rest.index() + 1);
        proof {
            assert(longer.drop_last() =~= shorter);
            assert(longer.last() == entry);
        }
        if !is_untrusted_connector_meta_key(entry.0.as_str()) {
            entries.push(entry);
            assert(entries@.drop_last() =~= before);
        }
        assert(entries_model(entries@) =~= without_connector(entries_model(longer)));
    }
    assert(all.take(all.len() as int) =~= all);
    JsonObject { entries }
}

/// Takes the metadata that speaks of a connector away from a tool.
pub fn strip_untrusted_connector_meta(tool: &mut McpTool)
    ensures
        final(tool)@ == stripped(old(tool)@),
{
    match tool.meta.take() {
        Some(meta) => {
            tool.meta = Some(trusted_entries(meta));
        },
        None => {},
    }
}

/// A tool with what its server may say of connectors: everything for the server of the apps, nothing
/// for any other.
pub open spec fn sanitized(server_name: Seq<char>, listed: ListedToolModel) -> ListedToolModel {
    if server_name == CODEX_APPS_MCP_SERVER_NAME@ {
        listed
    } else {
        ListedToolModel {
            tool: stripped(listed.tool),
            connector_id: None,
            connector_name: None,
            connector_description: None,
        }
    }
}

/// Takes what a server may not say of connectors away from one of its tools.
pub fn sanitize_tool_connector_metadata(
    server_name: &str,
    tool: &mut McpTool,
    connector_id: Option<String>,
    connector_name: Option<String>,
    connector_description: Option<String>,
) -> (connector: (Option<String>, Option<String>, Option<String>))
    ensures
        sanitized(
            server_name@,
            ListedToolModel {
                tool: old(tool)@,
                connector_id: connector_id.deep_view(),
                connector_name: connector_name.deep_view(),
                connector_description: connector_description.deep_view(),
            },
        ) == (ListedToolModel {
            tool: final(tool)@,
            connector_id: connector.0.deep_view(),
            connector_name: connector.1.deep_view(),
            connector_description: connector.2.deep_view(),
        }),
{
    if same_text(server_name, CODEX_APPS_MCP_SERVER_NAME) {
        return (connector_id, connector_name, connector_description);
    }
    strip_untrusted_connector_meta(tool);
    (None, None, None)
}

/// The tools in the answer of a server, with what it may not say of connectors taken away.
pub fn sanitize_listed_tools(server_name: &str, tools: Vec<ListedTool>) -> (kept: Vec<ListedTool>)
    ensures
        kept.deep_view() == tools.deep_view().map_values(
            |t: ListedToolModel| sanitized(server_name@, t),
        ),
{
    let ghost all = tools@;
    let mut kept: Vec<ListedTool> = Vec::new();
    for listed in rest: tools
        invariant
            rest.seq() == all,
            kept@.len() == rest.index(),
            forall|k: int|
                0 <= k < kept@.len() ==> (#[trigger] kept@[k])@ == sanitized(
                    server_name@,
                    all[k]@,
                ),
    {
        let mut tool = listed.tool;
        let (connector_id, connector_name, connector_description) =
            sanitize_tool_connector_metadata(
            server_name,
            &mut tool,
            listed.connector_id,
            listed.connector_name,
            listed.connector_description,
        );
        kept.push(ListedTool { tool, connector_id, connector_name, connector_description });
    }
    assert(kept.deep_view() =~= tools.deep_view().map_values(
        |t: ListedToolModel| sanitized(server_name@, t),
    ));
    kept
}

/// Under what names a tool is called and shown.
#[derive(Debug)]
pub struct ToolNames {
    pub callable_name: String,
    pub callable_namespace: String,
    /// The title to show, where the tool has one.
    pub title: String,
}

/// A listed tool as it is offered to the model under its names. It has no plugins yet.
pub open spec fn offered(
    server_name: Seq<char>,
    server_instructions: Option<Seq<char>>,
    listed: ListedToolModel,
    callable_name: Seq<char>,
    callable_namespace: Seq<char>,
    title: Seq<char>,
) -> ToolInfoModel {
    ToolInfoModel {
        server_name,
        callable_name,
        callable_namespace,
        server_instructions,
        tool: McpToolModel {
            title: match listed.tool.title {
                Some(_) => Some(title),
                None => None,
            },
            ..listed.tool
        },
        connector_id: listed.connector_id,
        connector_name: listed.connector_name,
        connector_description: listed.connector_description,
        plugin_display_names: seq![],
    }
}

/// Offers a listed tool to the model under its names.
pub fn offer_tool(
    server_name: &str,
    server_instructions: Option<&str>,
    listed: ListedTool,
    names: ToolNames,
) -> (info: ToolInfo)
    ensures
        info@ == offered(
            server_name@,
            (match server_instructions {
                Some(text) => Some(text@),
                None => None,
            }),
            listed@,
            names.callable_name@,
            names.callable_namespace@,
            names.title@,
        ),
{
    let mut tool = listed.tool;
    if tool.title.is_some() {
        tool.title = Some(names.title);
    }
    let plugin_display_names: Vec<String> = Vec::new();
    assert(texts(plugin_display_names@) =~= seq![]);
    ToolInfo {
        server_name: server_name.to_owned(),
        callable_name: names.callable_name,
        callable_namespace: names.callable_namespace,
        server_instructions: match server_instructions {
            Some(text) => Some(text.to_owned()),
            None => None,
        },
        tool,
        connector_id: listed.connector_id,
        connector_name: listed.connector_name,
        connector_description: listed.connector_description,
        plugin_display_names,
    }
}

/// Whether a tool of a server is offered at all. Of the tools of the apps server only those of allowed
/// apps are; every tool of another server is.
pub fn is_offered(server_name: &str, allowed_app: bool) -> (offered: bool)
    ensures
        offered == (server_name@ != CODEX_APPS_MCP_SERVER_NAME@ || allowed_app),
{
    !same_text(server_name, CODEX_APPS_MCP_SERVER_NAME) || allowed_app
}

/// The plugins that a connector or a server belongs to.
#[derive(Debug)]
pub struct PluginSource {
    /// The id of the connector, or the name of the server.
    pub key: String,
    /// The names of the plugins, as they are shown.
    pub plugins: Vec<String>,
}

/// Which plugins tools come from.
#[derive(Debug)]
pub struct ToolPluginProvenance {
    pub connectors: Vec<PluginSource>,
    pub servers: Vec<PluginSource>,
}

/// The plugins of the first source with a key; none where no source has it.
pub open spec fn plugins_under(sources: Seq<PluginSource>, key: Seq<char>) -> Seq<Seq<char>>
    decreases sources.len(),
{
    if sources.len() == 0 {
        seq![]
    } else if sources[0].key@ == key {
        texts(sources[0].plugins@)
    } else {
        plugins_under(sources.drop_first(), key)
    }
}

/// The plugins of the first source with a key.
fn find_plugins(sources: &Vec<PluginSource>, key: &str) -> (plugins: Vec<String>)
    ensures
        texts(plugins@) == plugins_under(sources@, key@),
{
    let n: usize = sources.len();
    let mut i: usize = 0;
    assert(sources@.skip(0) =~= sources@);
    while i < n
        invariant
            i <= n,
            n == sources@.len(),
            plugins_under(sources@, key@) == plugins_under(sources@.skip(i as int), key@),
        decreases n - i,
    {
        assert(sources@.skip(i as int)[0] == sources@[i as int]);
        if same_text(sources[i].key.as_str(), key) {
            return copy_texts(&sources[i].plugins);
        }
        assert(sources@.skip(i as int).drop_first() =~= sources@.skip(i + 1));
        i = i + 1;
    }
    let none: Vec<String> = Vec::new();
    assert(texts(none@) =~= seq![]);
    none
}

impl ToolPluginProvenance {
    /// The plugins of a connector.
    pub fn plugin_display_names_for_connector_id(&self, connector_id: &str) -> (names: Vec<String>)
        ensures
            texts(names@) == plugins_under(self.connectors@, connector_id@),
    {
        find_plugins(&self.connectors, connector_id)
    }

    /// The plugins of a server.
    pub fn plugin_display_names_for_mcp_server_name(&self, server_name: &str) -> (names: Vec<
        String,
    >)
        ensures
            texts(names@) == plugins_under(self.servers@, server_name@),
    {
        find_plugins(&self.servers, server_name)
    }
}

/// The plugins that a tool comes from: those of its connector where it has one, else those of its
/// server.
pub open spec fn plugins_of(provenance: ToolPluginProvenance, info: ToolInfoModel) -> Seq<
    Seq<char>,
> {
    match info.connector_id {
        Some(id) => plugins_under(provenance.connectors@, id),
        None => plugins_under(provenance.servers@, info.server_name),
    }
}

/// A name between backquotes.
pub open spec fn quoted(name: Seq<char>) -> Seq<char> {
    "`"@ + name + "`"@
}

/// What a description says of the plugins of a tool.
pub open spec fn source_note(plugins: Seq<Seq<char>>) -> Seq<char> {
    if plugins.len() == 1 {
        "This tool is part of plugin "@ + quoted(plugins[0]) + "."@
    } else {
        "This tool is part of plugins "@ + joined(
            plugins.map_values(|name: Seq<char>| quoted(name)),
            ", "@,
        ) + "."@
    }
}

/// A description followed by a note, with a full stop between them where there is none.
pub open spec fn with_note(description: Option<Seq<char>>, note: Seq<char>) -> Seq<char> {
    let told = match description {
        Some(text) => trimmed(text),
        None => seq![],
    };
    if told.len() == 0 {
        note
    } else if told.last() == '.' || told.last() == '!' || told.last() == '?' {
        told + " "@ + note
    } else {
        told + ". "@ + note
    }
}

/// A tool with its plugins, which its description names.
pub open spec fn annotated(provenance: ToolPluginProvenance, info: ToolInfoModel) -> ToolInfoModel {
    let plugins = plugins_of(provenance, info);
    if plugins.len() == 0 {
        ToolInfoModel { plugin_display_names: seq![], ..info }
    } else {
        ToolInfoModel {
            plugin_display_names: plugins,
            tool: McpToolModel {
                description: Some(with_note(info.tool.description, source_note(plugins))),
                ..info.tool
            },
            ..info
        }
    }
}

/// Tools with their plugins.
pub open spec fn all_annotated(
    provenance: ToolPluginProvenance,
    tools: Seq<ToolInfoModel>,
) -> Seq<ToolInfoModel> {
    tools.map_values(|info: ToolInfoModel| annotated(provenance, info))
}

/// A name between backquotes.
fn quote(name: &str) -> (text: String)
    ensures
        text@ == quoted(name@),
{
    let mut text = "`".to_owned();
    text.append(name);
    text.append("`");
    text
}

/// What a description says of the plugins of a tool.
fn plugin_source_note(plugins: &Vec<String>) -> (note: String)
    requires
        plugins@.len() > 0,
    ensures
        note@ == source_note(texts(plugins@)),
{
    let n: usize = plugins.len();
    if n == 1 {
        let mut note = "This tool is part of plugin ".to_owned();
        note.append(quote(plugins[0].as_str()).as_str());
        note.append(".");
        return note;
    }
    let mut names: Vec<String> = Vec::new();
    let mut i: usize = 0;
    while i < n
        invariant
            i <= n,
            n == plugins@.len(),
            names@.len() == i,
            forall|k: int| 0 <= k < i ==> (#[trigger] names@[k])@ == quoted(plugins@[k]@),
        decreases n - i,
    {
        names.push(quote(plugins[i].as_str()));
        i = i + 1;
    }
    assert(texts(names@) =~= texts(plugins@).map_values(|name: Seq<char>| quoted(name)));
    let mut note = "This tool is part of plugins ".to_owned();
    note.append(join(&names, ", ").as_str());
    note.append(".");
    note
}

/// A description followed by a note.
fn append_note(description: &Option<String>, note: &str) -> (text: String)
    ensures
        text@ == with_note(description.deep_view(), note@),
{
    let told: &str = match description {
        Some(text) => trim(text.as_str()),
        None => "",
    };
    proof {
        reveal_strlit("");
        assert(description is None ==> told@ =~= seq![]);
    }
    if told.is_empty() {
        return note.to_owned();
    }
    let last: char = told.get_char(told.unicode_len() - 1);
    let mut text = told.to_owned();
    if last == '.' || last == '!' || last == '?' {
        text.append(" ");
    } else {
        text.append(". ");
    }
    text.append(note);
    text
}

/// The tool with its plugins, which its description names.
fn annotate_tool(info: ToolInfo, provenance: &ToolPluginProvenance) -> (result: ToolInfo)
    ensures
        result@ == annotated(*provenance, info@),
{
    let plugins = match &info.connector_id {
        Some(id) => provenance.plugin_display_names_for_connector_id(id.as_str()),
        None => provenance.plugin_display_names_for_mcp_server_name(info.server_name.as_str()),
    };
    let mut result = info;
    if plugins.len() > 0 {
        let note = plugin_source_note(&plugins);
        result.tool.description = Some(append_note(&result.tool.description, note.as_str()));
    }
    result.plugin_display_names = plugins;
    assert(plugins@.len() == 0 ==> texts(plugins@) =~= seq![]);
    result
}

/// The tools with their plugins.
pub fn annotate_tools(tools: Vec<ToolInfo>, provenance: &ToolPluginProvenance) -> (result: Vec<
    ToolInfo,
>)
    ensures
        result.deep_view() == all_annotated(*provenance, tools.deep_view()),
{
    let ghost all = tools@;
    let mut result: Vec<ToolInfo> = Vec::new();
    for info in rest: tools
        invariant
            rest.seq() == all,
            result@.len() == rest.index(),
            forall|k: int|
                0 <= k < result@.len() ==> (#[trigger] result@[k])@ == annotated(
                    *provenance,
                    all[k]@,
                ),
    {
        result.push(annotate_tool(info, provenance));
    }
    assert(result.deep_view() =~= all_annotated(*provenance, tools.deep_view()));
    result
}

/// A copy of a list of tools.
fn copy_tools(tools: &Vec<ToolInfo>) -> (copy: Vec<ToolInfo>)
    ensures
        copy.deep_view() == tools.deep_view(),
{
    let n: usize = tools.len();
    let mut copy: Vec<ToolInfo> = Vec::new();
    let mut i: usize = 0;
    while i < n
        invariant
            i <= n,
            n == tools@.len(),
            copy@.len() == i,
            forall|k: int| 0 <= k < i ==> (#[trigger] copy@[k])@ == tools@[k]@,
        decreases n - i,
    {
        copy.push(tools[i].clone());
        i = i + 1;
    }
    assert(copy.deep_view() =~= tools.deep_view());
    copy
}

/// Whether the tools of a started client came from the cache; nothing where it has no cache.
#[derive(Debug, Clone, Copy, PartialEq, Eq, Structural)]
pub enum CacheUse {
    Hit,
    Miss,
    Uncached,
}

/// The tools of a client that has started.
#[derive(Debug)]
pub struct ManagedClient {
    /// The tools that the server listed at startup and the filter let through.
    pub tools: Vec<ToolInfo>,
    /// Whether there is a cache of the tools.
    pub has_cache: bool,
}

impl ManagedClient {
    /// The tools to list: those in the cache, as the filter lets them through, where there is a cache
    /// that holds any, else those from startup.
    pub fn listed_tools(&self, cached: Option<Vec<ToolInfo>>) -> (listed: (
        Vec<ToolInfo>,
        CacheUse,
    ))
        ensures
            match (self.has_cache, cached) {
                (true, Some(tools)) => listed.0.deep_view() == tools.deep_view() && listed.1
                    == CacheUse::Hit,
                (true, None) => listed.0.deep_view() == self.tools.deep_view() && listed.1
                    == CacheUse::Miss,
                (false, _) => listed.0.deep_view() == self.tools.deep_view() && listed.1
                    == CacheUse::Uncached,
            },
    {
        if !self.has_cache {
            return (copy_tools(&self.tools), CacheUse::Uncached);
        }
        match cached {
            Some(tools) => (tools, CacheUse::Hit),
            None => (copy_tools(&self.tools), CacheUse::Miss),
        }
    }
}

/// What a server answers when it is initialized.
#[derive(Debug)]
pub struct InitializedServer {
    pub experimental: Option<JsonObject>,
    pub instructions: Option<String>,
}

/// A tool that a server listed, and whether the filter lets it through.
#[derive(Debug)]
pub struct FilteredTool {
    pub info: ToolInfo,
    pub allowed: bool,
}

/// A client that has started, and what goes into the cache of its tools.
#[derive(Debug)]
pub struct StartedClient {
    pub client: ManagedClient,
    /// All tools that the server listed, whatever the filter says.
    pub tools_for_cache: Vec<ToolInfo>,
    pub tool_timeout_nanos: u64,
    pub server_instructions: Option<String>,
    pub server_supports_sandbox_state_meta_capability: bool,
}

/// All tools that a server listed.
pub open spec fn listed_infos(listed: Seq<FilteredTool>) -> Seq<ToolInfoModel> {
    listed.map_values(|tool: FilteredTool| tool.info@)
}

/// The listed tools that the filter lets through, in order.
pub open spec fn allowed_infos(listed: Seq<FilteredTool>) -> Seq<ToolInfoModel>
    decreases listed.len(),
{
    if listed.len() == 0 {
        seq![]
    } else if listed.last().allowed {
        allowed_infos(listed.drop_last()).push(listed.last().info@)
    } else {
        allowed_infos(listed.drop_last())
    }
}

/// The client of a server that was initialized and listed its tools. Where either failed there is
/// none, and the first failure is the reason.
pub fn finish_startup(
    initialized: Result<InitializedServer, McpError>,
    listed: Result<Vec<FilteredTool>, McpError>,
    tool_timeout_nanos: u64,
    has_cache: bool,
) -> (started: Result<StartedClient, StartupOutcomeError>)
    ensures
        match (initialized, listed, started) {
            (Err(error), _, Err(fault)) => fault@ == (StartupFault::Failed {
                error: error.message@,
            }),
            (Ok(_), Err(error), Err(fault)) => fault@ == (StartupFault::Failed {
                error: error.message@,
            }),
            (Ok(server), Ok(tools), Ok(s)) => {
                &&& s.client.tools.deep_view() == allowed_infos(tools@)
                &&& s.client.has_cache == has_cache
                &&& s.tools_for_cache.deep_view() == listed_infos(tools@)
                &&& s.tool_timeout_nanos == tool_timeout_nanos
                &&& s.server_instructions.deep_view() == server.instructions.deep_view()
                &&& s.server_supports_sandbox_state_meta_capability == (
                server.experimental matches Some(e) && e@.contains_key(
                    MCP_SANDBOX_STATE_META_CAPABILITY@,
                ))
            },
            _ => false,
        },
{
    let server = match initialized {
        Ok(server) => server,
        Err(error) => return Err(StartupOutcomeError::from(error)),
    };
    let tools = match listed {
        Ok(tools) => tools,
        Err(error) => return Err(StartupOutcomeError::from(error)),
    };
    let n: usize = tools.len();
    let mut allowed: Vec<ToolInfo> = Vec::new();
    let mut all: Vec<ToolInfo> = Vec::new();
    let mut i: usize = 0;
    assert(tools@.take(0) =~= seq![]);
    assert(allowed.deep_view() =~= seq![]);
    while i < n
        invariant
            i <= n,
            n == tools@.len(),
            all@.len() == i,
            forall|k: int| 0 <= k < i ==> (#[trigger] all@[k])@ == tools@[k].info@,
            allowed.deep_view() == allowed_infos(tools@.take(i as int)),
        decreases n - i,
    {
        let ghost before = allowed.deep_view();
        proof {
            let longer = tools@.take(i + 1);
            assert(longer.drop_last() =~= tools@.take(i as int));
            assert(longer.last() == tools@[i as int]);
        }
        all.push(tools[i].info.clone());
        if tools[i].allowed {
            let info = tools[i].info.clone();
            allowed.push(info);
            assert(allowed.deep_view() =~= before.push(info@));
        }
        i = i + 1;
    }
    assert(tools@.take(n as int) =~= tools@);
    assert(all.deep_view() =~= listed_infos(tools@));
    Ok(
        StartedClient {
            client: ManagedClient { tools: allowed, has_cache },
            tools_for_cache: all,
            tool_timeout_nanos,
            server_supports_sandbox_state_meta_capability: supports_sandbox_state_meta(
                &server.experimental,
            ),
            server_instructions: server.instructions,
        },
    )
}

/// A client that may still be starting.
#[derive(Debug)]
pub struct AsyncManagedClient {
    /// The tools known before the client has started, where there are any.
    pub startup_snapshot: Option<Vec<ToolInfo>>,
    /// Which plugins tools come from.
    pub tool_plugin_provenance: ToolPluginProvenance,
}

/// Optional tools, by what they are.
pub open spec fn optional_tools(tools: Option<Vec<ToolInfo>>) -> Option<Seq<ToolInfoModel>> {
    match tools {
        Some(list) => Some(list.deep_view()),
        None => None,
    }
}

impl AsyncManagedClient {
    /// The tools that stand in for those of the client while it starts.
    pub fn startup_snapshot_while_initializing(&self, startup_complete: bool) -> (tools: Option<
        Vec<ToolInfo>,
    >)
        ensures
            optional_tools(tools) == (if startup_complete {
                None
            } else {
                optional_tools(self.startup_snapshot)
            }),
    {
        if startup_complete {
            return None;
        }
        match &self.startup_snapshot {
            Some(tools) => Some(copy_tools(tools)),
            None => None,
        }
    }

    /// The tools to list without waiting for the client, with their plugins. Where there are none,
    /// the client is waited for.
    pub fn listed_tools_while_initializing(&self, startup_complete: bool) -> (tools: Option<
        Vec<ToolInfo>,
    >)
        ensures
            optional_tools(tools) == (if startup_complete {
                None
            } else {
                match optional_tools(self.startup_snapshot) {
                    Some(snapshot) => Some(all_annotated(self.tool_plugin_provenance, snapshot)),
                    None => None,
                }
            }),
    {
        match self.startup_snapshot_while_initializing(startup_complete) {
            Some(tools) => Some(annotate_tools(tools, &self.tool_plugin_provenance)),
            None => None,
        }
    }

    /// The tools to list once the client has started or failed to, with their plugins: its own, or
    /// those known before where it failed.
    pub fn listed_tools(&self, outcome: Result<Vec<ToolInfo>, StartupOutcomeError>) -> (tools:
        Option<Vec<ToolInfo>>)
        ensures
            optional_tools(tools) == (match outcome {
                Ok(own) => Some(all_annotated(self.tool_plugin_provenance, own.deep_view())),
                Err(_) => match optional_tools(self.startup_snapshot) {
                    Some(snapshot) => Some(all_annotated(self.tool_plugin_provenance, snapshot)),
                    None => None,
                },
            }),
    {
        let tools = match outcome {
            Ok(own) => Some(own),
            Err(_) => match &self.startup_snapshot {
                Some(tools) => Some(copy_tools(tools)),
                None => None,
            },
        };
        match tools {
            Some(tools) => Some(annotate_tools(tools, &self.tool_plugin_provenance)),
            None => None,
        }
    }
}

/// A server other than that of the apps can say nothing of connectors, and what else it says stays.
pub proof fn other_servers_say_nothing_of_connectors(
    server_name: Seq<char>,
    listed: ListedToolModel,
    key: Seq<char>,
)
    requires
        server_name != CODEX_APPS_MCP_SERVER_NAME@,
    ensures
        sanitized(server_name, listed).connector_id is None,
        sanitized(server_name, listed).connector_name is None,
        sanitized(server_name, listed).connector_description is None,
        is_connector_key(key) ==> (sanitized(server_name, listed).tool.meta matches Some(meta)
            ==> !meta.contains_key(key)),
        !is_connector_key(key) ==> match (listed.tool.meta, sanitized(server_name, listed).tool.meta) {
            (Some(before), Some(after)) => before.contains_key(key) == after.contains_key(key) && (
            before.contains_key(key) ==> before[key] == after[key]),
            (None, None) => true,
            _ => false,
        },
{
}

/// What the server of the apps says stays as it is.
pub proof fn the_apps_server_is_believed(listed: ListedToolModel)
    ensures
        sanitized(CODEX_APPS_MCP_SERVER_NAME@, listed) == listed,
{
}

/// Taking away twice what a server may not say takes away no more than once.
pub proof fn sanitizing_is_idempotent(server_name: Seq<char>, listed: ListedToolModel)
    ensures
        sanitized(server_name, sanitized(server_name, listed)) == sanitized(server_name, listed),
{
    match listed.tool.meta {
        Some(meta) => {
            assert(without_connector(without_connector(meta)) =~= without_connector(meta));
        },
        None => {},
    }
}

/// Listing a tool leaves its names and its metadata as they are: only its plugins and its
/// description change, and without plugins the description stays too.
pub proof fn listing_changes_plugins_and_description_only(
    provenance: ToolPluginProvenance,
    info: ToolInfoModel,
)
    ensures
        ({
            let after = annotated(provenance, info);
            &&& after.server_name == info.server_name
            &&& after.callable_name == info.callable_name
            &&& after.callable_namespace == info.callable_namespace
            &&& after.connector_id == info.connector_id
            &&& after.tool.name == info.tool.name
            &&& after.tool.title == info.tool.title
            &&& after.tool.meta == info.tool.meta
            &&& after.plugin_display_names == plugins_of(provenance, info)
            &&& plugins_of(provenance, info).len() == 0 ==> after.tool == info.tool
        }),
{
    if plugins_of(provenance, info).len() == 0 {
        assert(plugins_of(provenance, info) =~= seq![]);
    }
}

} // verus!
