//! Requests that control the local loop: their form, their limits and the tool that makes them.

use crate::channel_format::{push_member, push_text_if, text_tree_if, with_optional};
use crate::json::JsonModel;
use crate::json_text::{object_value, text_value, unsigned_value, value_tree};
use crate::text::{byte_len, utf8_len};
use vstd::prelude::*;

verus! {

broadcast use vstd::string::group_string_axioms;

/// The name of the tool that controls the local loop.
pub const LOOP_CONTROL_TOOL_NAME: &'static str = "loop_control";

/// The number of bytes that the prompt of a loop may take.
pub const MAX_LOOP_PROMPT_BYTES: usize = 1024;

/// The number of bytes that the reason of a request may take.
pub const MAX_LOOP_REASON_BYTES: usize = 512;

/// The longest interval of a timed loop that a request may ask for, in minutes.
pub const MAX_LOOP_INTERVAL_MINUTES: u64 = 525_600;

/// The time that a request may take, in milliseconds.
pub const LOOP_CONTROL_TIMEOUT_MS: u64 = 5000;

/// The complaint about a prompt or a reason that is too long.
pub const LOOP_SIZE_ERROR: &'static str = "Loop prompt or reason exceeds its size limit.";

/// The complaint about a loop of no iterations.
pub const LOOP_MAX_ERROR: &'static str = "Loop max must be greater than zero.";

/// The complaint about the interval of a timed loop.
pub const LOOP_INTERVAL_ERROR: &'static str = "Timed loops require interval_minutes between 1 and 525600.";

/// What a request asks of the loop.
#[derive(Debug, Clone, Copy, PartialEq, Eq, Structural)]
pub enum LoopControlAction {
    Start,
    Stop,
    Status,
}

/// How a loop goes from one iteration to the next.
#[derive(Debug, Clone, Copy, PartialEq, Eq, Structural)]
pub enum LoopControlMode {
    /// After a number of minutes.
    Timed,
    /// As soon as a turn is complete.
    Immediate,
    /// Not at all: there is one iteration.
    Once,
}

/// A request to the local loop.
#[derive(Debug)]
pub struct LoopControlEvent {
    pub action: LoopControlAction,
    pub mode: Option<LoopControlMode>,
    pub interval_minutes: Option<u64>,
    pub max_iterations: Option<usize>,
    pub prompt: Option<String>,
    pub reason: Option<String>,
}

/// A request to the local loop.
pub struct LoopRequestModel {
    pub action: LoopControlAction,
    pub mode: Option<LoopControlMode>,
    pub interval_minutes: Option<u64>,
    pub max_iterations: Option<usize>,
    pub prompt: Option<Seq<char>>,
    pub reason: Option<Seq<char>>,
}

impl View for LoopControlEvent {
    type V = LoopRequestModel;

    open spec fn view(&self) -> LoopRequestModel {
        LoopRequestModel {
            action: self.action,
            mode: self.mode,
            interval_minutes: self.interval_minutes,
            max_iterations: self.max_iterations,
            prompt: self.prompt.deep_view(),
            reason: self.reason.deep_view(),
        }
    }
}

/// Why a tool call failed.
#[derive(Debug)]
pub enum FunctionCallError {
    /// The model is told so, in these words.
    RespondToModel(String),
}

/// What a failed tool call tells the model.
pub open spec fn told(error: FunctionCallError) -> Seq<char> {
    match error {
        FunctionCallError::RespondToModel(words) => words@,
    }
}

/// The words told to the model, as an error.
fn respond_to_model(words: &str) -> (error: FunctionCallError)
    ensures
        told(error) == words@,
{
    FunctionCallError::RespondToModel(words.to_owned())
}

/// Whether a text, if there is one, takes more than `max` bytes.
pub open spec fn too_long(text: Option<Seq<char>>, max: nat) -> bool {
    text matches Some(t) && utf8_len(t) > max
}

/// Whether a text, if there is one, takes more than `max` bytes.
fn is_too_long(text: &Option<String>, max: usize) -> (long: bool)
    ensures
        long == too_long(text.deep_view(), max as nat),
{
    match text {
        Some(text) => byte_len(text.as_str()) > max,
        None => false,
    }
}

/// Whether an interval is one that a timed loop can have.
pub open spec fn interval_allowed(interval_minutes: Option<u64>) -> bool {
    interval_minutes matches Some(minutes) && 1 <= minutes <= MAX_LOOP_INTERVAL_MINUTES
}

/// What is wrong with a request, if anything.
pub open spec fn request_fault(request: LoopRequestModel) -> Option<Seq<char>> {
    if too_long(request.prompt, MAX_LOOP_PROMPT_BYTES as nat) || too_long(
        request.reason,
        MAX_LOOP_REASON_BYTES as nat,
    ) {
        Some(LOOP_SIZE_ERROR@)
    } else if request.action == LoopControlAction::Start && request.max_iterations == Some(0usize) {
        Some(LOOP_MAX_ERROR@)
    } else if request.action == LoopControlAction::Start && request.mode == Some(
        LoopControlMode::Timed,
    ) && !interval_allowed(request.interval_minutes) {
        Some(LOOP_INTERVAL_ERROR@)
    } else {
        None
    }
}

/// Refuses a request that is out of its limits.
pub fn validate_loop_control(event: &LoopControlEvent) -> (checked: Result<(), FunctionCallError>)
    ensures
        match checked {
            Ok(()) => request_fault(event@) is None,
            Err(error) => request_fault(event@) == Some(told(error)),
        },
{
    if is_too_long(&event.prompt, MAX_LOOP_PROMPT_BYTES) || is_too_long(
        &event.reason,
        MAX_LOOP_REASON_BYTES,
    ) {
        return Err(respond_to_model(LOOP_SIZE_ERROR));
    }
    if event.action == LoopControlAction::Start {
        match event.max_iterations {
            Some(max) => {
                if max == 0 {
                    return Err(respond_to_model(LOOP_MAX_ERROR));
                }
            },
            None => {},
        }
        let timed: bool = match event.mode {
            Some(mode) => mode == LoopControlMode::Timed,
            None => false,
        };
        let allowed: bool = match event.interval_minutes {
            Some(minutes) => 1 <= minutes && minutes <= MAX_LOOP_INTERVAL_MINUTES,
            None => false,
        };
        if timed && !allowed {
            return Err(respond_to_model(LOOP_INTERVAL_ERROR));
        }
    }
    Ok(())
}

/// The name of an action.
pub open spec fn action_name(action: LoopControlAction) -> Seq<char> {
    match action {
        LoopControlAction::Start => "start"@,
        LoopControlAction::Stop => "stop"@,
        LoopControlAction::Status => "status"@,
    }
}

/// The name of a mode.
pub open spec fn loop_mode_name(mode: LoopControlMode) -> Seq<char> {
    match mode {
        LoopControlMode::Timed => "timed"@,
        LoopControlMode::Immediate => "immediate"@,
        LoopControlMode::Once => "once"@,
    }
}

impl LoopControlAction {
    /// The name of the action.
    pub fn name(self) -> (name: &'static str)
        ensures
            name@ == action_name(self),
    {
        match self {
            LoopControlAction::Start => "start",
            LoopControlAction::Stop => "stop",
            LoopControlAction::Status => "status",
        }
    }
}

impl LoopControlMode {
    /// The name of the mode.
    pub fn name(self) -> (name: &'static str)
        ensures
            name@ == loop_mode_name(self),
    {
        match self {
            LoopControlMode::Timed => "timed",
            LoopControlMode::Immediate => "immediate",
            LoopControlMode::Once => "once",
        }
    }
}

/// The members of a request as JSON; what it does not say is left out.
pub open spec fn request_members(request: LoopRequestModel) -> Map<Seq<char>, JsonModel> {
    let m0 = Map::<Seq<char>, JsonModel>::empty().insert(
        "action"@,
        JsonModel::Text(action_name(request.action)),
    );
    let m1 = with_optional(
        m0,
        "mode"@,
        match request.mode {
            Some(mode) => Some(JsonModel::Text(loop_mode_name(mode))),
            None => None,
        },
    );
    let m2 = with_optional(
        m1,
        "interval_minutes"@,
        match request.interval_minutes {
            Some(n) => Some(JsonModel::Integer(n as int)),
            None => None,
        },
    );
    let m3 = with_optional(
        m2,
        "max_iterations"@,
        match request.max_iterations {
            Some(n) => Some(JsonModel::Integer(n as int)),
            None => None,
        },
    );
    let m4 = with_optional(m3, "prompt"@, text_tree_if(request.prompt));
    with_optional(m4, "reason"@, text_tree_if(request.reason))
}

/// The arguments that go to the local loop: the request and the time by which it must be served.
pub open spec fn request_arguments(request: LoopRequestModel, deadline_ms: u64) -> JsonModel {
    JsonModel::Object(
        request_members(request).insert(
            "_loop_deadline_ms"@,
            JsonModel::Integer(deadline_ms as int),
        ),
    )
}

/// The arguments that go to the local loop.
pub fn loop_control_arguments(event: &LoopControlEvent, deadline_ms: u64) -> (arguments:
    serde_json::Value)
    ensures
        value_tree(arguments) == request_arguments(event@, deadline_ms),
{
    let mut members: Vec<(String, serde_json::Value)> = Vec::new();
    push_member(&mut members, "action", text_value(event.action.name()));
    match event.mode {
        Some(mode) => push_member(&mut members, "mode", text_value(mode.name())),
        None => {},
    }
    match event.interval_minutes {
        Some(n) => push_member(&mut members, "interval_minutes", unsigned_value(n)),
        None => {},
    }
    match event.max_iterations {
        Some(n) => push_member(&mut members, "max_iterations", unsigned_value(n as u64)),
        None => {},
    }
    push_text_if(&mut members, "prompt", &event.prompt);
    push_text_if(&mut members, "reason", &event.reason);
    push_member(&mut members, "_loop_deadline_ms", unsigned_value(deadline_ms));
    object_value(members)
}

/// The time by which a request made at `now_ms` must be served, in the low 64 bits of the count of
/// milliseconds.
pub open spec fn deadline_after(now_ms: u128) -> int {
    let late = now_ms + LOOP_CONTROL_TIMEOUT_MS;
    let counted = if late > u128::MAX {
        u128::MAX as int
    } else {
        late
    };
    counted % 0x1_0000_0000_0000_0000
}

/// The time by which a request made at `now_ms` must be served.
pub fn loop_deadline_ms(now_ms: u128) -> (deadline_ms: u64)
    ensures
        deadline_ms == deadline_after(now_ms),
{
    let counted: u128 = now_ms.saturating_add(LOOP_CONTROL_TIMEOUT_MS as u128);
    assert(counted as u64 == counted % 0x1_0000_0000_0000_0000) by (bit_vector);
    #[verifier::truncate]
    let deadline_ms: u64 = counted as u64;
    deadline_ms
}

/// What a tool call holds.
#[derive(Debug)]
pub enum ToolPayload {
    /// The arguments of a function, as JSON text.
    Function { arguments: String },
    /// Anything else.
    Other,
}

/// A request on its way to the local loop.
#[derive(Debug)]
pub struct LoopControlCall {
    pub tool_name: String,
    pub arguments: serde_json::Value,
    pub timeout_ms: u64,
}

/// A piece of what a tool answers.
#[derive(Debug)]
pub enum ToolContentItem {
    InputText { text: String },
    InputImage { image_url: String },
}

/// A piece of what a tool answers.
pub enum ToolContentModel {
    InputText { text: Seq<char> },
    InputImage { image_url: Seq<char> },
}

impl View for ToolContentItem {
    type V = ToolContentModel;

    open spec fn view(&self) -> ToolContentModel {
        match self {
            ToolContentItem::InputText { text } => ToolContentModel::InputText { text: text@ },
            ToolContentItem::InputImage { image_url } => ToolContentModel::InputImage {
                image_url: image_url@,
            },
        }
    }
}

impl DeepView for ToolContentItem {
    type V = ToolContentModel;

    open spec fn deep_view(&self) -> ToolContentModel {
        self.view()
    }
}

/// What the local loop answers.
#[derive(Debug)]
pub struct DynamicToolResponse {
    pub content_items: Vec<ToolContentItem>,
    pub success: bool,
}

/// What the model is answered.
#[derive(Debug)]
pub struct FunctionToolOutput {
    pub body: Vec<ToolContentItem>,
    pub success: Option<bool>,
}

/// The complaint about a call that holds no function arguments.
pub const UNSUPPORTED_PAYLOAD_ERROR: &'static str = "loop_control handler received unsupported payload";

/// The complaint about a call from another agent than the root.
pub const ROOT_ONLY_ERROR: &'static str = "loop_control can only be used by the root thread";

/// The complaint about a request that was not served in time.
pub const NO_LOCAL_LOOP_ERROR: &'static str = "Local loop control requires an attached TUI; its response timed out or was cancelled.";

/// What is wrong with a call before its arguments are read, if anything.
pub open spec fn call_fault(payload: ToolPayload, non_root_agent: bool) -> Option<Seq<char>> {
    if payload is Other {
        Some(UNSUPPORTED_PAYLOAD_ERROR@)
    } else if non_root_agent {
        Some(ROOT_ONLY_ERROR@)
    } else {
        None
    }
}

/// The tool that controls the local loop.
#[derive(Debug)]
pub struct LoopControlHandler;

impl LoopControlHandler {
    /// The name of the tool.
    pub fn tool_name(&self) -> (name: &'static str)
        ensures
            name@ == LOOP_CONTROL_TOOL_NAME@,
    {
        LOOP_CONTROL_TOOL_NAME
    }

    /// The definition of the tool.
    pub fn spec(&self) -> (tool: ToolSpec)
        ensures
            tool@ == loop_control_tool(),
    {
        create_loop_control_tool()
    }

    /// The arguments of a call that the root agent made.
    pub fn accept_call(&self, payload: ToolPayload, non_root_agent: bool) -> (arguments: Result<
        String,
        FunctionCallError,
    >)
        ensures
            match arguments {
                Ok(text) => {
                    &&& call_fault(payload, non_root_agent) is None
                    &&& payload matches ToolPayload::Function { arguments: given } && text@ == given@
                },
                Err(error) => call_fault(payload, non_root_agent) == Some(told(error)),
            },
    {
        match payload {
            ToolPayload::Function { arguments } => {
                if non_root_agent {
                    Err(respond_to_model(ROOT_ONLY_ERROR))
                } else {
                    Ok(arguments)
                }
            },
            ToolPayload::Other => Err(respond_to_model(UNSUPPORTED_PAYLOAD_ERROR)),
        }
    }

    /// The request that goes to the local loop for `event`, at the time `now_ms`.
    pub fn request(&self, event: &LoopControlEvent, now_ms: u128) -> (call: Result<
        LoopControlCall,
        FunctionCallError,
    >)
        ensures
            match call {
                Ok(c) => {
                    &&& request_fault(event@) is None
                    &&& c.tool_name@ == LOOP_CONTROL_TOOL_NAME@
                    &&& value_tree(c.arguments) == request_arguments(
                        event@,
                        deadline_after(now_ms) as u64,
                    )
                    &&& c.timeout_ms == LOOP_CONTROL_TIMEOUT_MS
                },
                Err(error) => request_fault(event@) == Some(told(error)),
            },
    {
        match validate_loop_control(event) {
            Ok(()) => Ok(
                LoopControlCall {
                    tool_name: self.tool_name().to_owned(),
                    arguments: loop_control_arguments(event, loop_deadline_ms(now_ms)),
                    timeout_ms: LOOP_CONTROL_TIMEOUT_MS,
                },
            ),
            Err(error) => Err(error),
        }
    }

    /// What the model is answered once the local loop has answered, or has not.
    pub fn finish(&self, response: Option<DynamicToolResponse>) -> (output: Result<
        FunctionToolOutput,
        FunctionCallError,
    >)
        ensures
            match (response, output) {
                (Some(r), Ok(o)) => o.body.deep_view() == r.content_items.deep_view() && o.success
                    == Some(r.success),
                (None, Err(error)) => told(error) == NO_LOCAL_LOOP_ERROR@,
                _ => false,
            },
    {
        match response {
            Some(response) => Ok(
                FunctionToolOutput {
                    body: response.content_items,
                    success: Some(response.success),
                },
            ),
            None => Err(respond_to_model(NO_LOCAL_LOOP_ERROR)),
        }
    }
}

/// What a parameter of a tool can hold.
#[derive(Debug)]
pub enum JsonSchema {
    StringEnum { values: Vec<String>, description: Option<String> },
    Integer { description: Option<String> },
    Text { description: Option<String> },
}

/// What a parameter of a tool can hold.
pub enum SchemaModel {
    StringEnum { values: Seq<Seq<char>>, description: Option<Seq<char>> },
    Integer { description: Option<Seq<char>> },
    Text { description: Option<Seq<char>> },
}

impl View for JsonSchema {
    type V = SchemaModel;

    open spec fn view(&self) -> SchemaModel {
        match self {
            JsonSchema::StringEnum { values, description } => SchemaModel::StringEnum {
                values: values.deep_view(),
                description: description.deep_view(),
            },
            JsonSchema::Integer { description } => SchemaModel::Integer {
                description: description.deep_view(),
            },
            JsonSchema::Text { description } => SchemaModel::Text {
                description: description.deep_view(),
            },
        }
    }
}

/// A parameter of a tool.
#[derive(Debug)]
pub struct ToolParameter {
    pub name: String,
    pub schema: JsonSchema,
}

impl DeepView for ToolParameter {
    type V = (Seq<char>, SchemaModel);

    open spec fn deep_view(&self) -> (Seq<char>, SchemaModel) {
        (self.name@, self.schema@)
    }
}

/// A function that the model can call. Its parameters stand in the order of their names.
#[derive(Debug)]
pub struct ResponsesApiTool {
    pub name: String,
    pub description: String,
    pub strict: bool,
    pub defer_loading: Option<bool>,
    pub parameters: Vec<ToolParameter>,
    pub required: Option<Vec<String>>,
    pub additional_properties: Option<bool>,
}

/// A function that the model can call.
pub struct ToolModel {
    pub name: Seq<char>,
    pub description: Seq<char>,
    pub strict: bool,
    pub defer_loading: Option<bool>,
    pub parameters: Seq<(Seq<char>, SchemaModel)>,
    pub required: Option<Seq<Seq<char>>>,
    pub additional_properties: Option<bool>,
}

/// The definition of a tool.
#[derive(Debug)]
pub enum ToolSpec {
    Function(ResponsesApiTool),
}

impl View for ToolSpec {
    type V = ToolModel;

    open spec fn view(&self) -> ToolModel {
        match self {
            ToolSpec::Function(tool) => ToolModel {
                name: tool.name@,
                description: tool.description@,
                strict: tool.strict,
                defer_loading: tool.defer_loading,
                parameters: tool.parameters.deep_view(),
                required: tool.required.deep_view(),
                additional_properties: tool.additional_properties,
            },
        }
    }
}

/// What the tool tells the model of itself.
pub const LOOP_CONTROL_DESCRIPTION: &'static str = "Controls the local Codex loop runner.\nUse this tool, not a printed slash command, to start, stop, or inspect `/loop`.\nFor immediate autonomous continuation use action=start, mode=immediate, prompt=...\nFor timed continuation use action=start, mode=timed, interval_minutes=N, prompt=...\nThe tool returns a JSON loop_status snapshot with active, mode, completed_iterations, interval_minutes, max_iterations, timer_pending, prompt, last_reason, and summary.\nWhen the autonomous goal is complete or blocked, call action=stop with a short reason.";

/// The definition of the tool that controls the local loop.
pub open spec fn loop_control_tool() -> ToolModel {
    ToolModel {
        name: LOOP_CONTROL_TOOL_NAME@,
        description: LOOP_CONTROL_DESCRIPTION@,
        strict: false,
        defer_loading: None,
        parameters: seq![
            (
                "action"@,
                SchemaModel::StringEnum {
                    values: seq!["start"@, "stop"@, "status"@],
                    description: Some("Loop control action to apply."@),
                },
            ),
            (
                "interval_minutes"@,
                SchemaModel::Integer {
                    description: Some("Positive interval in minutes for timed loop mode."@),
                },
            ),
            (
                "max_iterations"@,
                SchemaModel::Integer {
                    description: Some("Optional positive maximum number of loop iterations."@),
                },
            ),
            (
                "mode"@,
                SchemaModel::StringEnum {
                    values: seq!["timed"@, "immediate"@, "once"@],
                    description: Some("Loop mode for start actions."@),
                },
            ),
            (
                "prompt"@,
                SchemaModel::Text {
                    description: Some("Autonomous follow-up prompt used for start actions."@),
                },
            ),
            (
                "reason"@,
                SchemaModel::Text { description: Some("Short reason for the loop control request."@) },
            ),
        ],
        required: Some(seq!["action"@]),
        additional_properties: Some(false),
    }
}

/// Three texts as a list.
fn three_texts(first: &str, second: &str, third: &str) -> (list: Vec<String>)
    ensures
        list.deep_view() == seq![first@, second@, third@],
{
    let mut list: Vec<String> = Vec::new();
    list.push(first.to_owned());
    list.push(second.to_owned());
    list.push(third.to_owned());
    assert(list.deep_view() =~= seq![first@, second@, third@]);
    list
}

/// A parameter under its name.
fn parameter(name: &str, schema: JsonSchema) -> (parameter: ToolParameter)
    ensures
        parameter.deep_view() == (name@, schema@),
{
    ToolParameter { name: name.to_owned(), schema }
}

/// The definition of the tool that controls the local loop.
pub fn create_loop_control_tool() -> (tool: ToolSpec)
    ensures
        tool@ == loop_control_tool(),
{
    let mut parameters: Vec<ToolParameter> = Vec::new();
    parameters.push(
        parameter(
            "action",
            JsonSchema::StringEnum {
                values: three_texts("start", "stop", "status"),
                description: Some("Loop control action to apply.".to_owned()),
            },
        ),
    );
    parameters.push(
        parameter(
            "interval_minutes",
            JsonSchema::Integer {
                description: Some("Positive interval in minutes for timed loop mode.".to_owned()),
            },
        ),
    );
    parameters.push(
        parameter(
            "max_iterations",
            JsonSchema::Integer {
                description: Some("Optional positive maximum number of loop iterations.".to_owned()),
            },
        ),
    );
    parameters.push(
        parameter(
            "mode",
            JsonSchema::StringEnum {
                values: three_texts("timed", "immediate", "once"),
                description: Some("Loop mode for start actions.".to_owned()),
            },
        ),
    );
    parameters.push(
        parameter(
            "prompt",
            JsonSchema::Text {
                description: Some("Autonomous follow-up prompt used for start actions.".to_owned()),
            },
        ),
    );
    parameters.push(
        parameter(
            "reason",
            JsonSchema::Text {
                description: Some("Short reason for the loop control request.".to_owned()),
            },
        ),
    );
    let mut required: Vec<String> = Vec::new();
    required.push("action".to_owned());
    assert(parameters.deep_view() =~= loop_control_tool().parameters);
    assert(required.deep_view() =~= seq!["action"@]);
    ToolSpec::Function(
        ResponsesApiTool {
            name: LOOP_CONTROL_TOOL_NAME.to_owned(),
            description: LOOP_CONTROL_DESCRIPTION.to_owned(),
            strict: false,
            defer_loading: None,
            parameters,
            required: Some(required),
            additional_properties: Some(false),
        },
    )
}

/// Whether a name is that of a parameter of the tool.
pub open spec fn is_parameter(name: Seq<char>) -> bool {
    exists|i: int|
        0 <= i < loop_control_tool().parameters.len() && (
        #[trigger] loop_control_tool().parameters[i]).0 == name
}

/// Every member of a request is a parameter that the tool describes, and the action that the tool
/// requires is always there.
pub proof fn requests_follow_the_tool(request: LoopRequestModel)
    ensures
        forall|name: Seq<char>|
            #![trigger request_members(request).contains_key(name)]
            request_members(request).contains_key(name) ==> is_parameter(name),
        request_members(request).contains_key("action"@),
{
    let parameters = loop_control_tool().parameters;
    assert(parameters[0].0 == "action"@);
    assert(parameters[1].0 == "interval_minutes"@);
    assert(parameters[2].0 == "max_iterations"@);
    assert(parameters[3].0 == "mode"@);
    assert(parameters[4].0 == "prompt"@);
    assert(parameters[5].0 == "reason"@);
}

} // verus!
