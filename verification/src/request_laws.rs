//! What a request to the loop does, in terms of what the request says.

use crate::chat_widget::{
    snapshot_of, start_command, EffectModel, LoopCommand, LoopStart, WidgetModel,
};
use crate::command_laws::runs;
use crate::display_laws::holds;
use crate::json::JsonModel;
use crate::loop_laws::{
    run, starts_none, step, submitted, submitted_by, the_limit_holds, WidgetEvent,
};
use crate::loop_protocol::{
    action_name, call_fault, deadline_after, loop_control_tool, loop_mode_name, request_arguments,
    request_fault, LoopControlAction, LoopControlMode, LoopRequestModel, ToolPayload,
    LOOP_CONTROL_TIMEOUT_MS, NO_LOCAL_LOOP_ERROR,
};
use crate::text::{trimmed, trimming_makes_no_text_longer, utf8_len};
use crate::text_laws::{blank, trimming_keeps_what_is_said};
use crate::window_laws::{is_stopped, only_says};
use vstd::prelude::*;

verus! {

broadcast use vstd::string::group_string_axioms;

/// Whether a text, if there is one, takes so many bytes at most.
pub open spec fn within(text: Option<Seq<char>>, bytes: nat) -> bool {
    text is None || utf8_len(text->Some_0) <= bytes
}

/// A request is in order if its prompt and its reason are short enough, and, where it starts a loop,
/// its limit is not zero and a timed loop has an interval from a minute to a year. What is wrong with
/// any other is said in the words for it.
pub proof fn requests_in_order_pass(request: LoopRequestModel)
    ensures
        ({
            let short = within(request.prompt, 1024) && within(request.reason, 512);
            let starts = request.action == LoopControlAction::Start;
            let zero = request.max_iterations == Some(0usize);
            let timed = request.mode == Some(LoopControlMode::Timed);
            let spaced = request.interval_minutes is Some && 1 <= request.interval_minutes->Some_0
                <= 525600;
            &&& request_fault(request) is None <==> short && (starts ==> !zero && (timed ==> spaced))
            &&& !short ==> request_fault(request) == Some(
                "Loop prompt or reason exceeds its size limit."@,
            )
            &&& short && starts && zero ==> request_fault(request) == Some(
                "Loop max must be greater than zero."@,
            )
            &&& short && starts && !zero && timed && !spaced ==> request_fault(request) == Some(
                "Timed loops require interval_minutes between 1 and 525600."@,
            )
        }),
{
}

/// The prompt that a request gives a loop: what it says, without the white space around it.
pub open spec fn prompts(request: LoopRequestModel, prompt: Seq<char>) -> bool {
    &&& request.prompt is Some ==> prompt == trimmed(request.prompt->Some_0)
    &&& request.prompt is None ==> prompt.len() == 0
}

/// Whether a request asks for a loop in a mode: by its name, or, without waits, by none.
pub open spec fn asks_for(request: LoopRequestModel, mode: LoopControlMode) -> bool {
    &&& request.action == LoopControlAction::Start
    &&& request.mode == Some(mode) || request.mode is None && mode == LoopControlMode::Immediate
}

proof fn lemma_request_starts(
    widget: WidgetModel,
    request: LoopRequestModel,
    start: LoopStart,
    events: Seq<WidgetEvent>,
)
    requires
        request.action == LoopControlAction::Start,
        start_command(request) == LoopCommand::Start(start),
        utf8_len(trimmed(start.prompt)) <= 1024,
        start.max_iterations != Some(0usize),
        starts_none(events),
    ensures
        runs(
            step(widget, WidgetEvent::Control(request)),
            start.interval_minutes,
            start.immediate,
            start.max_iterations,
            trimmed(start.prompt),
        ),
        step(widget, WidgetEvent::Control(request)) == widget.commanded(start_command(request)),
        start.max_iterations is Some ==> {
            &&& submitted_by(widget, WidgetEvent::Control(request)) + submitted(
                step(widget, WidgetEvent::Control(request)),
                events,
            ) <= start.max_iterations->Some_0
            &&& run(step(widget, WidgetEvent::Control(request)), events).ui.max_iterations
                == start.max_iterations
        },
{
    if start.max_iterations is Some {
        the_limit_holds(widget, WidgetEvent::Control(request), events);
    }
}

/// A request to start a loop that names a limit, in any mode but that of one iteration, starts a loop
/// with exactly that limit, and no more iterations are submitted until the next start, whatever
/// happens. It is timed by the interval that the request names, and without waits otherwise.
pub proof fn a_requested_limit_counts(
    widget: WidgetModel,
    request: LoopRequestModel,
    prompt: Seq<char>,
    events: Seq<WidgetEvent>,
)
    requires
        request.action == LoopControlAction::Start,
        request.mode != Some(LoopControlMode::Once),
        request.max_iterations is Some && request.max_iterations->Some_0 > 0,
        request.mode == Some(LoopControlMode::Timed) ==> request.interval_minutes is Some
            && request.interval_minutes->Some_0 > 0,
        within(request.prompt, 1024),
        prompts(request, prompt),
        starts_none(events),
    ensures
        ({
            let after = step(widget, WidgetEvent::Control(request));
            let max = request.max_iterations->Some_0;
            &&& after == widget.commanded(start_command(request))
            &&& after.ui.max_iterations == Some(max)
            &&& asks_for(request, LoopControlMode::Immediate) ==> runs(
                after,
                None,
                true,
                Some(max),
                prompt,
            )
            &&& asks_for(request, LoopControlMode::Timed) ==> runs(
                after,
                request.interval_minutes,
                false,
                Some(max),
                prompt,
            )
            &&& run(after, events).ui.max_iterations == Some(max)
            &&& submitted_by(widget, WidgetEvent::Control(request)) + submitted(after, events) <= max
        }),
{
    let said = match request.prompt {
        Some(text) => text,
        None => seq![],
    };
    trimming_makes_no_text_longer(said);
    trimming_keeps_what_is_said(said);
    assert(prompt =~= trimmed(said));
    let timed = request.mode == Some(LoopControlMode::Timed);
    let start = LoopStart {
        interval_minutes: if timed {
            request.interval_minutes
        } else {
            None
        },
        immediate: !timed,
        max_iterations: request.max_iterations,
        prompt: said,
    };
    assert(start_command(request) == LoopCommand::Start(start));
    assert(utf8_len(Seq::<char>::empty()) == 0);
    lemma_request_starts(widget, request, start, events);
}

/// A request to start a loop that names no limit starts one without.
pub proof fn a_request_needs_no_limit(
    widget: WidgetModel,
    request: LoopRequestModel,
    prompt: Seq<char>,
)
    requires
        request.action == LoopControlAction::Start,
        request.mode != Some(LoopControlMode::Once),
        request.max_iterations is None,
        request.mode == Some(LoopControlMode::Timed) ==> request.interval_minutes is Some
            && request.interval_minutes->Some_0 > 0,
        within(request.prompt, 1024),
        prompts(request, prompt),
    ensures
        ({
            let after = step(widget, WidgetEvent::Control(request));
            &&& asks_for(request, LoopControlMode::Immediate) ==> runs(
                after,
                None,
                true,
                None,
                prompt,
            )
            &&& asks_for(request, LoopControlMode::Timed) ==> runs(
                after,
                request.interval_minutes,
                false,
                None,
                prompt,
            )
        }),
{
    let said = match request.prompt {
        Some(text) => text,
        None => seq![],
    };
    trimming_makes_no_text_longer(said);
    trimming_keeps_what_is_said(said);
    assert(prompt =~= trimmed(said));
    assert(utf8_len(Seq::<char>::empty()) == 0);
    let timed = request.mode == Some(LoopControlMode::Timed);
    let start = LoopStart {
        interval_minutes: if timed {
            request.interval_minutes
        } else {
            None
        },
        immediate: !timed,
        max_iterations: None,
        prompt: said,
    };
    lemma_request_starts(widget, request, start, seq![]);
}

/// A request for one iteration starts a loop with a limit of one, whatever limit it names.
pub proof fn a_single_iteration_is_requested(
    widget: WidgetModel,
    request: LoopRequestModel,
    prompt: Seq<char>,
    events: Seq<WidgetEvent>,
)
    requires
        asks_for(request, LoopControlMode::Once),
        request.max_iterations != Some(0usize),
        within(request.prompt, 1024),
        prompts(request, prompt),
        starts_none(events),
    ensures
        ({
            let after = step(widget, WidgetEvent::Control(request));
            &&& runs(after, None, false, Some(1usize), prompt)
            &&& submitted_by(widget, WidgetEvent::Control(request)) + submitted(after, events) <= 1
        }),
{
    let said = match request.prompt {
        Some(text) => text,
        None => seq![],
    };
    trimming_makes_no_text_longer(said);
    trimming_keeps_what_is_said(said);
    assert(prompt =~= trimmed(said));
    assert(utf8_len(Seq::<char>::empty()) == 0);
    let start = LoopStart {
        interval_minutes: None,
        immediate: false,
        max_iterations: Some(1),
        prompt: said,
    };
    lemma_request_starts(widget, request, start, events);
}

/// A request to start a loop that cannot be met is answered in the words for it and changes nothing.
pub proof fn requests_that_cannot_be_met_are_refused(widget: WidgetModel, request: LoopRequestModel)
    requires
        request.action == LoopControlAction::Start,
    ensures
        ({
            let after = step(widget, WidgetEvent::Control(request));
            let zero = request.max_iterations == Some(0usize);
            let timed = request.mode == Some(LoopControlMode::Timed);
            let long = request.prompt is Some && utf8_len(trimmed(request.prompt->Some_0)) > 1024;
            &&& zero ==> only_says(
                widget,
                after,
                EffectModel::Error("Loop max must be greater than zero."@),
            )
            &&& !zero && timed && request.interval_minutes is None ==> only_says(
                widget,
                after,
                EffectModel::Error("loop_control start mode=timed requires interval_minutes."@),
            )
            &&& !zero && timed && request.interval_minutes == Some(0u64) ==> only_says(
                widget,
                after,
                EffectModel::Error("Loop interval must be greater than zero minutes."@),
            )
            &&& !zero && !(timed && (request.interval_minutes is None || request.interval_minutes
                == Some(0u64))) && long ==> only_says(
                widget,
                after,
                EffectModel::Error("Loop prompt or reason exceeds its size limit."@),
            )
        }),
{
}

/// A request to stop stops the loop, makes the reason known and says it; a blank reason is none.
pub proof fn a_request_stops_the_loop(widget: WidgetModel, request: LoopRequestModel)
    requires
        request.action == LoopControlAction::Stop,
    ensures
        ({
            let after = step(widget, WidgetEvent::Control(request));
            let why = request.reason is Some && !blank(request.reason->Some_0);
            let reason = trimmed(request.reason->Some_0);
            let first = widget.outbox.push(EffectModel::PublishStatus(snapshot_of(after.ui, None)));
            &&& is_stopped(widget, after)
            &&& why ==> after.outbox == first.push(
                EffectModel::PublishStatus(snapshot_of(after.ui, Some(reason))),
            ).push(EffectModel::Info("Loop stopped by loop_control."@ + " Reason: "@ + reason))
            &&& !why ==> after.outbox == first.push(
                EffectModel::PublishStatus(snapshot_of(after.ui, None)),
            ).push(EffectModel::Info("Loop stopped by loop_control."@))
        }),
{
    match request.reason {
        Some(text) => trimming_keeps_what_is_said(text),
        None => {},
    }
}

/// The arguments that go to the loop have what the request says, by name, and the time by which it must
/// be served, and nothing else.
pub proof fn the_arguments_say_what_the_request_says(request: LoopRequestModel, deadline_ms: u64)
    ensures
        ({
            let tree = request_arguments(request, deadline_ms);
            let members = tree->Object_0;
            &&& tree is Object
            &&& holds(members, "_loop_deadline_ms"@, Some(JsonModel::Integer(deadline_ms as int)))
            &&& request.action == LoopControlAction::Start ==> holds(
                members,
                "action"@,
                Some(JsonModel::Text("start"@)),
            )
            &&& request.action == LoopControlAction::Stop ==> holds(
                members,
                "action"@,
                Some(JsonModel::Text("stop"@)),
            )
            &&& request.action == LoopControlAction::Status ==> holds(
                members,
                "action"@,
                Some(JsonModel::Text("status"@)),
            )
            &&& request.mode is None ==> holds(members, "mode"@, None)
            &&& request.mode == Some(LoopControlMode::Timed) ==> holds(
                members,
                "mode"@,
                Some(JsonModel::Text("timed"@)),
            )
            &&& request.mode == Some(LoopControlMode::Immediate) ==> holds(
                members,
                "mode"@,
                Some(JsonModel::Text("immediate"@)),
            )
            &&& request.mode == Some(LoopControlMode::Once) ==> holds(
                members,
                "mode"@,
                Some(JsonModel::Text("once"@)),
            )
            &&& request.interval_minutes is None ==> holds(members, "interval_minutes"@, None)
            &&& request.interval_minutes is Some ==> holds(
                members,
                "interval_minutes"@,
                Some(JsonModel::Integer(request.interval_minutes->Some_0 as int)),
            )
            &&& request.max_iterations is None ==> holds(members, "max_iterations"@, None)
            &&& request.max_iterations is Some ==> holds(
                members,
                "max_iterations"@,
                Some(JsonModel::Integer(request.max_iterations->Some_0 as int)),
            )
            &&& request.prompt is None ==> holds(members, "prompt"@, None)
            &&& request.prompt is Some ==> holds(
                members,
                "prompt"@,
                Some(JsonModel::Text(request.prompt->Some_0)),
            )
            &&& request.reason is None ==> holds(members, "reason"@, None)
            &&& request.reason is Some ==> holds(
                members,
                "reason"@,
                Some(JsonModel::Text(request.reason->Some_0)),
            )
            &&& forall|key: Seq<char>| #[trigger]
                members.contains_key(key) ==> key == "action"@ || key == "mode"@ || key
                    == "interval_minutes"@ || key == "max_iterations"@ || key == "prompt"@ || key
                    == "reason"@ || key == "_loop_deadline_ms"@
        }),
{
    reveal_strlit("action");
    reveal_strlit("mode");
    reveal_strlit("interval_minutes");
    reveal_strlit("max_iterations");
    reveal_strlit("prompt");
    reveal_strlit("reason");
    reveal_strlit("_loop_deadline_ms");
    assert("action"@.len() == 6 && "prompt"@.len() == 6 && "reason"@.len() == 6);
    assert("action"@[0] == 'a' && "prompt"@[0] == 'p' && "reason"@[0] == 'r');
    assert("mode"@.len() == 4 && "interval_minutes"@.len() == 16);
    assert("max_iterations"@.len() == 14 && "_loop_deadline_ms"@.len() == 17);
}

/// A request has five seconds, counted in milliseconds.
pub proof fn a_request_has_five_seconds(now_ms: u128)
    ensures
        now_ms + 5000 < 0x1_0000_0000_0000_0000 ==> deadline_after(now_ms) == now_ms + 5000,
        0 <= deadline_after(now_ms) < 0x1_0000_0000_0000_0000,
        now_ms + 5000 <= u128::MAX ==> (now_ms + 5000 - deadline_after(now_ms))
            % 0x1_0000_0000_0000_0000 == 0,
        LOOP_CONTROL_TIMEOUT_MS == 5000,
{
}

/// Only function calls of the root agent are served.
pub proof fn only_the_root_controls_the_loop(payload: ToolPayload, non_root_agent: bool)
    ensures
        call_fault(payload, non_root_agent) is None <==> payload is Function && !non_root_agent,
        payload is Other ==> call_fault(payload, non_root_agent) == Some(
            "loop_control handler received unsupported payload"@,
        ),
        payload is Function && non_root_agent ==> call_fault(payload, non_root_agent) == Some(
            "loop_control can only be used by the root thread"@,
        ),
        NO_LOCAL_LOOP_ERROR@
            == "Local loop control requires an attached TUI; its response timed out or was cancelled."@,
{
}

/// The tool offers every action and every mode by its name, wants the action and nothing that it does
/// not describe.
pub proof fn the_tool_offers_what_the_loop_does(action: LoopControlAction, mode: LoopControlMode)
    ensures
        ({
            let tool = loop_control_tool();
            let p = tool.parameters;
            &&& tool.name == "loop_control"@
            &&& !tool.strict
            &&& tool.defer_loading is None
            &&& tool.required is Some && tool.required->Some_0 =~= seq!["action"@]
            &&& tool.additional_properties == Some(false)
            &&& p.len() == 6
            &&& p[0].0 == "action"@ && p[0].1 is StringEnum && p[0].1->values.len() == 3
                && p[0].1->values.contains(action_name(action))
            &&& p[1].0 == "interval_minutes"@ && p[1].1 is Integer
            &&& p[2].0 == "max_iterations"@ && p[2].1 is Integer
            &&& p[3].0 == "mode"@ && p[3].1 is StringEnum && p[3].1->values.len() == 3
                && p[3].1->values.contains(loop_mode_name(mode))
            &&& p[4].0 == "prompt"@ && p[4].1 is Text
            &&& p[5].0 == "reason"@ && p[5].1 is Text
        }),
{
    let tool = loop_control_tool();
    let actions = tool.parameters[0].1->values;
    let modes = tool.parameters[3].1->values;
    assert(actions[0] == "start"@ && actions[1] == "stop"@ && actions[2] == "status"@);
    assert(modes[0] == "timed"@ && modes[1] == "immediate"@ && modes[2] == "once"@);
}

} // verus!
