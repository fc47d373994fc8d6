use codex_channels::chat_widget::{
    ChatWidget, LoopAnswer, LoopStatusSnapshot, SessionStatus, ShellEscapePolicy, SubmissionOrigin, WidgetEffect,
    INTERVAL_MISSING_ERROR, INTERVAL_NUMBER_ERROR, INTERVAL_ZERO_ERROR, LOOP_USAGE,
    MAX_NUMBER_ERROR, TIMED_LOOP_USAGE,
};
use codex_channels::fragments::LOOP_CONTINUATION_TEXT;
use codex_channels::loop_protocol::{
    create_loop_control_tool, loop_control_arguments, loop_deadline_ms, validate_loop_control,
    DynamicToolResponse, FunctionCallError, JsonSchema, LoopControlAction, LoopControlEvent,
    LoopControlHandler, LoopControlMode, ToolContentItem, ToolPayload, ToolSpec,
    LOOP_CONTROL_TOOL_NAME, LOOP_MAX_ERROR, LOOP_SIZE_ERROR,
};
use codex_channels::text::PathStyle;
use serde_json::Value;

const IDLE: SessionStatus =
    SessionStatus { configured: true, turn_active: false, priority_work: false };
const BUSY: SessionStatus =
    SessionStatus { configured: true, turn_active: true, priority_work: false };

fn parse(text: &str) -> Value {
    serde_json::from_str(text).expect("valid JSON")
}

fn request(action: LoopControlAction) -> LoopControlEvent {
    LoopControlEvent {
        action,
        mode: None,
        interval_minutes: None,
        max_iterations: None,
        prompt: None,
        reason: None,
    }
}

fn widget(session: SessionStatus) -> ChatWidget {
    let mut widget = ChatWidget::new(PathStyle::Unix);
    widget.set_session_status(session);
    widget
}

fn submissions(effects: &[WidgetEffect]) -> Vec<(String, String)> {
    effects
        .iter()
        .filter_map(|effect| match effect {
            WidgetEffect::SubmitIteration { prompt, history_text, shell_escapes } => {
                assert_eq!(*shell_escapes, ShellEscapePolicy::Disallow);
                Some((prompt.clone(), history_text.clone()))
            }
            _ => None,
        })
        .collect()
}

fn timers(effects: &[WidgetEffect]) -> Vec<(u64, u64)> {
    effects
        .iter()
        .filter_map(|effect| match effect {
            WidgetEffect::StartTimer { seconds, generation } => Some((*seconds, *generation)),
            _ => None,
        })
        .collect()
}

fn infos(effects: &[WidgetEffect]) -> Vec<String> {
    effects
        .iter()
        .filter_map(|effect| match effect {
            WidgetEffect::Info(message) => Some(message.clone()),
            _ => None,
        })
        .collect()
}

fn errors(effects: &[WidgetEffect]) -> Vec<String> {
    effects
        .iter()
        .filter_map(|effect| match effect {
            WidgetEffect::Error(message) => Some(message.clone()),
            _ => None,
        })
        .collect()
}

fn published(effects: &[WidgetEffect]) -> Vec<&LoopStatusSnapshot> {
    effects
        .iter()
        .filter_map(|effect| match effect {
            WidgetEffect::PublishStatus(status) => Some(status),
            _ => None,
        })
        .collect()
}

fn told(error: FunctionCallError) -> String {
    let FunctionCallError::RespondToModel(words) = error;
    words
}

fn refusal(event: &LoopControlEvent) -> Option<String> {
    validate_loop_control(event).err().map(told)
}

#[test]
fn loop_control_round_trips_authoritative_client_status() {
    let handler = LoopControlHandler;
    let status = parse(
        r#"{"active": true, "mode":"once", "completed_iterations":0, "max_iterations":1, "timer_pending":false, "prompt":"inspect the project"}"#,
    );
    let mut start = request(LoopControlAction::Start);
    start.mode = Some(LoopControlMode::Once);
    start.prompt = Some("inspect the project".to_string());
    for (event, arguments) in [
        (start, parse(r#"{"action":"start", "mode":"once", "prompt":"inspect the project"}"#)),
        (request(LoopControlAction::Status), parse(r#"{"action":"status"}"#)),
    ] {
        let call = handler.request(&event, 1000).expect("valid request");
        let mut sent = call.arguments;
        assert!(sent.as_object_mut().expect("arguments").remove("_loop_deadline_ms").is_some());
        assert_eq!((call.tool_name.as_str(), sent), ("loop_control", arguments));
        let output = handler
            .finish(Some(DynamicToolResponse {
                content_items: vec![ToolContentItem::InputText { text: status.to_string() }],
                success: true,
            }))
            .expect("tool response");
        assert_eq!(output.success, Some(true));
        let ToolContentItem::InputText { text } = &output.body[0] else {
            panic!("expected text output");
        };
        assert_eq!(parse(text), status);
    }
}

#[test]
fn loop_control_without_attached_tui_times_out() {
    let output = told(LoopControlHandler.finish(None).expect_err("no response"));
    assert!(output.contains("requires an attached TUI"));
}

#[test]
fn only_function_calls_of_the_root_agent_are_accepted() {
    let handler = LoopControlHandler;
    let call = || ToolPayload::Function { arguments: "{}".to_string() };
    assert_eq!(handler.accept_call(call(), false).expect("accepted"), "{}");
    assert_eq!(
        told(handler.accept_call(call(), true).expect_err("refused")),
        "loop_control can only be used by the root thread"
    );
    assert_eq!(
        told(handler.accept_call(ToolPayload::Other, true).expect_err("refused")),
        "loop_control handler received unsupported payload"
    );
}

#[test]
fn requests_are_held_to_their_limits() {
    let mut event = request(LoopControlAction::Stop);
    event.max_iterations = Some(0);
    event.mode = Some(LoopControlMode::Timed);
    assert_eq!(refusal(&event), None);
    event.action = LoopControlAction::Start;
    assert_eq!(refusal(&event).as_deref(), Some("Loop max must be greater than zero."));
    event.max_iterations = Some(1);
    let interval = "Timed loops require interval_minutes between 1 and 525600.";
    assert_eq!(refusal(&event).as_deref(), Some(interval));
    event.interval_minutes = Some(0);
    assert_eq!(refusal(&event).as_deref(), Some(interval));
    event.interval_minutes = Some(525_601);
    assert_eq!(refusal(&event).as_deref(), Some(interval));
    event.interval_minutes = Some(525_600);
    assert_eq!(refusal(&event), None);
    event.prompt = Some("é".repeat(512));
    event.reason = Some("x".repeat(512));
    assert_eq!(refusal(&event), None);
    event.prompt = Some("é".repeat(512) + "x");
    assert_eq!(refusal(&event).as_deref(), Some(LOOP_SIZE_ERROR));
    event.prompt = None;
    event.reason = Some("x".repeat(513));
    assert_eq!(refusal(&event).as_deref(), Some("Loop prompt or reason exceeds its size limit."));
}

#[test]
fn arguments_carry_every_field_and_the_deadline() {
    let event = LoopControlEvent {
        action: LoopControlAction::Start,
        mode: Some(LoopControlMode::Timed),
        interval_minutes: Some(10),
        max_iterations: Some(6),
        prompt: Some("check".to_string()),
        reason: Some("asked".to_string()),
    };
    assert_eq!(
        loop_control_arguments(&event, 77),
        parse(
            r#"{"action":"start","mode":"timed","interval_minutes":10,"max_iterations":6,"prompt":"check","reason":"asked","_loop_deadline_ms":77}"#
        )
    );
    let call = LoopControlHandler.request(&event, 1000).expect("valid request");
    assert_eq!(call.arguments["_loop_deadline_ms"], Value::from(6000));
    assert_eq!(call.timeout_ms, 5000);
    assert_eq!(loop_deadline_ms(0), 5000);
    assert_eq!(loop_deadline_ms(u64::MAX as u128), 4999);
    assert_eq!(loop_deadline_ms(u128::MAX), u64::MAX);
}

#[test]
fn the_tool_describes_its_parameters() {
    let ToolSpec::Function(tool) = create_loop_control_tool();
    assert_eq!(tool.name, LOOP_CONTROL_TOOL_NAME);
    assert_eq!(tool.name, LoopControlHandler.tool_name());
    assert!(!tool.strict);
    assert!(tool.description.starts_with("Controls the local Codex loop runner.\nUse this tool,"));
    assert!(tool.description.ends_with("call action=stop with a short reason."));
    let names: Vec<&str> = tool.parameters.iter().map(|p| p.name.as_str()).collect();
    assert_eq!(
        names,
        vec!["action", "interval_minutes", "max_iterations", "mode", "prompt", "reason"]
    );
    assert!(matches!(&tool.parameters[0].schema, JsonSchema::StringEnum { values, .. }
        if *values == vec!["start".to_string(), "stop".to_string(), "status".to_string()]));
    assert!(matches!(&tool.parameters[1].schema, JsonSchema::Integer { .. }));
    assert_eq!(tool.required, Some(vec!["action".to_string()]));
    assert_eq!(tool.additional_properties, Some(false));
    let ToolSpec::Function(same) = LoopControlHandler.spec();
    assert_eq!(same.description, tool.description);
}

#[test]
fn an_immediate_loop_goes_on_after_each_turn_until_its_limit() {
    let mut widget = widget(IDLE);
    widget.handle_loop_command_args("now --max 2 Review the next failing test.");
    let effects = widget.take_effects();
    assert_eq!(
        submissions(&effects),
        vec![("Review the next failing test.".to_string(), "/loop iteration 1".to_string())]
    );
    assert_eq!(infos(&effects), vec!["Loop iteration 1 submitted.".to_string()]);
    assert_eq!(published(&effects).len(), 3);
    widget.finish_loop_submission(true);
    widget.set_session_status(BUSY);
    assert_eq!(widget.maybe_continue_loop_after_turn(), LoopAnswer::No);
    widget.set_session_status(IDLE);
    assert_eq!(widget.maybe_continue_loop_after_turn(), LoopAnswer::Pending);
    widget.finish_loop_submission(true);
    assert_eq!(submissions(&widget.take_effects()).len(), 1);
    assert_eq!(widget.maybe_continue_loop_after_turn(), LoopAnswer::No);
    let effects = widget.take_effects();
    assert_eq!(infos(&effects), vec!["Loop stopped after 2 iteration(s).".to_string()]);
    assert!(!widget.loop_status().active);
    assert_eq!(widget.maybe_continue_loop_after_turn(), LoopAnswer::No);
    assert!(widget.take_effects().is_empty());
}

#[test]
fn a_timed_loop_waits_between_iterations() {
    let mut widget = widget(IDLE);
    widget.handle_loop_command_args("10 Check the build status and report meaningful changes.");
    assert_eq!(submissions(&widget.take_effects()).len(), 1);
    widget.finish_loop_submission(true);
    assert_eq!(widget.maybe_continue_loop_after_turn(), LoopAnswer::Yes);
    let effects = widget.take_effects();
    assert_eq!(timers(&effects), vec![(600, 1)]);
    assert_eq!(
        infos(&effects),
        vec!["Loop scheduled next iteration in 10 minute(s).".to_string()]
    );
    assert!(widget.loop_status().timer_pending);
    assert_eq!(widget.maybe_continue_loop_after_turn(), LoopAnswer::No);
    assert!(!widget.schedule_loop_timer());
    widget.on_loop_timer_fired(1);
    assert_eq!(
        submissions(&widget.take_effects()),
        vec![(
            "Check the build status and report meaningful changes.".to_string(),
            "/loop iteration 2".to_string()
        )]
    );
}

#[test]
fn a_timer_that_finds_the_session_busy_waits_again() {
    let mut widget = widget(IDLE);
    widget.start_loop(Some(1), false, None, "go");
    widget.finish_loop_submission(true);
    assert_eq!(widget.maybe_continue_loop_after_turn(), LoopAnswer::Yes);
    let _ = widget.take_effects();
    widget.set_session_status(BUSY);
    widget.on_loop_timer_fired(1);
    let effects = widget.take_effects();
    assert!(submissions(&effects).is_empty());
    assert_eq!(timers(&effects), vec![(60, 1)]);
}

#[test]
fn a_failed_submission_of_a_timed_loop_waits_again() {
    let mut widget = widget(IDLE);
    widget.start_loop(Some(3), false, None, "go");
    widget.finish_loop_submission(true);
    widget.maybe_continue_loop_after_turn();
    let _ = widget.take_effects();
    widget.on_loop_timer_fired(1);
    assert_eq!(submissions(&widget.take_effects()).len(), 1);
    widget.finish_loop_submission(false);
    assert_eq!(timers(&widget.take_effects()), vec![(180, 1)]);
}

#[test]
fn refused_iterations_are_answered_with_no() {
    let mut once = widget(IDLE);
    once.start_one_shot_loop("go");
    let before = once.loop_status();
    assert!(!once.finish_loop_submission(false));
    assert!(before.active && once.loop_status().active);
    assert_eq!(once.loop_status().completed_iterations, 1);
    assert!(!once.finish_loop_submission(true));

    let mut immediate = widget(IDLE);
    immediate.start_loop(None, true, None, "go");
    assert!(immediate.finish_loop_submission(true));
    assert_eq!(immediate.maybe_continue_loop_after_turn(), LoopAnswer::Pending);
    let _ = immediate.take_effects();
    assert!(!immediate.finish_loop_submission(false));
    assert!(immediate.loop_status().active);
    assert_eq!(immediate.loop_status().completed_iterations, 2);
    assert!(immediate.take_effects().is_empty());

    let mut timed = widget(BUSY);
    timed.start_loop(Some(1), false, None, "go");
    timed.set_session_status(IDLE);
    assert_eq!(timed.maybe_continue_loop_after_turn(), LoopAnswer::Pending);
    assert!(timed.finish_loop_submission(false));
    assert!(timed.loop_status().timer_pending);
}

#[test]
fn the_limit_holds_while_effects_are_taken() {
    let mut widget = widget(IDLE);
    widget.start_loop(None, true, Some(3), "go");
    let mut total: usize = 0;
    for _ in 0..10 {
        total += submissions(&widget.take_effects()).len();
        widget.finish_loop_submission(true);
        widget.maybe_continue_loop_after_turn();
    }
    total += submissions(&widget.take_effects()).len();
    assert_eq!(total, 3);
    assert!(!widget.loop_status().active);
}

#[test]
fn endless_intervals_do_not_overflow() {
    let mut widget = widget(IDLE);
    widget.start_loop(Some(u64::MAX), false, None, "go");
    widget.finish_loop_submission(true);
    widget.maybe_continue_loop_after_turn();
    assert_eq!(timers(&widget.take_effects()), vec![(u64::MAX, 1)]);
}

#[test]
fn requests_hold_nothing_but_parameters_of_the_tool() {
    let ToolSpec::Function(tool) = create_loop_control_tool();
    let mut event = request(LoopControlAction::Start);
    event.mode = Some(LoopControlMode::Immediate);
    event.interval_minutes = Some(1);
    event.max_iterations = Some(1);
    event.prompt = Some("p".to_string());
    event.reason = Some("r".to_string());
    let arguments = loop_control_arguments(&event, 0);
    for key in arguments.as_object().expect("object").keys() {
        assert!(key == "_loop_deadline_ms" || tool.parameters.iter().any(|p| p.name == *key));
    }
}

#[test]
fn a_broken_turn_leaves_nothing_to_wait_for() {
    let mut widget = widget(IDLE);
    widget.start_loop(Some(1), false, None, "go");
    widget.stop_loop();
    let _ = widget.take_effects();
    widget.finish_loop_submission(false);
    widget.on_loop_timer_fired(1);
    assert_eq!(widget.maybe_continue_loop_after_turn(), LoopAnswer::No);
    assert!(widget.take_effects().is_empty());
}

#[test]
fn old_timers_do_nothing() {
    let mut widget = widget(IDLE);
    widget.start_loop(Some(1), false, None, "go");
    widget.finish_loop_submission(true);
    widget.maybe_continue_loop_after_turn();
    widget.handle_loop_command_args("stop");
    let _ = widget.take_effects();
    widget.on_loop_timer_fired(1);
    assert!(widget.take_effects().is_empty());
    for round in 0..5 {
        widget.start_loop(Some(2 + round), false, None, "other");
        widget.stop_loop();
        let _ = widget.take_effects();
        widget.on_loop_timer_fired(1);
        assert!(widget.take_effects().is_empty());
    }
}

#[test]
fn the_first_iteration_waits_for_an_idle_session() {
    for command in ["once go", "10 go", "now go"] {
        let mut widget = widget(BUSY);
        widget.handle_loop_command_args(command);
        assert!(submissions(&widget.take_effects()).is_empty());
        widget.set_session_status(SessionStatus { priority_work: true, ..IDLE });
        assert_eq!(widget.maybe_continue_loop_after_turn(), LoopAnswer::No);
        assert!(submissions(&widget.take_effects()).is_empty());
        widget.set_session_status(IDLE);
        assert_eq!(widget.maybe_continue_loop_after_turn(), LoopAnswer::Pending);
        assert_eq!(submissions(&widget.take_effects()).len(), 1);
    }
}

#[test]
fn once_is_over_after_one_submission() {
    let mut widget = widget(IDLE);
    widget.handle_loop_command_args("  ONCE   Recheck the current project state. ");
    assert_eq!(
        submissions(&widget.take_effects()),
        vec![("Recheck the current project state.".to_string(), "/loop iteration 1".to_string())]
    );
    let status = widget.loop_status();
    assert_eq!(status.mode, LoopControlMode::Once);
    assert_eq!(status.max_iterations, Some(1));
    widget.finish_loop_submission(true);
    assert!(!widget.loop_status().active);
    assert_eq!(widget.maybe_continue_loop_after_turn(), LoopAnswer::No);
}

#[test]
fn a_loop_without_a_prompt_says_the_default() {
    let mut widget = widget(IDLE);
    widget.handle_loop_command_args("--immediate");
    assert_eq!(
        submissions(&widget.take_effects()),
        vec![(LOOP_CONTINUATION_TEXT.to_string(), "/loop iteration 1".to_string())]
    );
    assert_eq!(widget.loop_status().prompt, "");
}

#[test]
fn status_shows_the_usage_and_changes_nothing() {
    let mut widget = widget(IDLE);
    for command in ["", "   ", "status", "Status now"] {
        widget.handle_loop_command_args(command);
        let effects = widget.take_effects();
        assert_eq!(effects.len(), 2);
        assert!(matches!(&effects[1], WidgetEffect::ShowStatus { status, hint }
            if !status.active && hint == LOOP_USAGE));
    }
    widget.on_loop_control(request(LoopControlAction::Status));
    assert_eq!(widget.take_effects().len(), 2);
}

#[test]
fn commands_that_are_wrong_are_explained() {
    let mut widget = widget(IDLE);
    for (command, message) in [
        ("later", LOOP_USAGE),
        ("0 go", INTERVAL_ZERO_ERROR),
        ("now --max", LOOP_USAGE),
        ("now --max x go", MAX_NUMBER_ERROR),
        ("5 --max 0 go", LOOP_MAX_ERROR),
        ("18446744073709551616 go", LOOP_USAGE),
        ("-5 go", LOOP_USAGE),
    ] {
        widget.handle_loop_command_args(command);
        let effects = widget.take_effects();
        assert_eq!(effects.len(), 1, "{command}");
        assert_eq!(errors(&effects), vec![message.to_string()]);
        assert!(!widget.loop_status().active);
    }
    widget.start_timed_loop_from_args("");
    assert_eq!(errors(&widget.take_effects()), vec![TIMED_LOOP_USAGE.to_string()]);
    widget.start_timed_loop_from_args("soon go");
    assert_eq!(errors(&widget.take_effects()), vec![INTERVAL_NUMBER_ERROR.to_string()]);
}

#[test]
fn options_are_read_before_the_prompt_only() {
    let mut widget = widget(BUSY);
    assert_eq!(
        widget.parse_loop_options("--max 3 --max 4 fix  the\tbug --max 5"),
        Some((Some(4), "fix the bug --max 5".to_string()))
    );
    assert_eq!(widget.parse_loop_options(""), Some((None, String::new())));
    assert_eq!(widget.parse_loop_options("--max +7"), Some((Some(7), String::new())));
    assert!(widget.take_effects().is_empty());
    assert_eq!(widget.parse_loop_options("--max zero"), None);
    assert_eq!(errors(&widget.take_effects()), vec![MAX_NUMBER_ERROR.to_string()]);
}

#[test]
fn prompts_are_limited_to_1024_bytes() {
    let mut widget = widget(BUSY);
    widget.start_one_shot_loop(&format!("  {}  ", "x".repeat(1024)));
    assert!(widget.loop_status().active);
    assert_eq!(widget.loop_status().prompt.len(), 1024);
    widget.stop_loop();
    let _ = widget.take_effects();
    widget.start_one_shot_loop(&"é".repeat(513));
    let effects = widget.take_effects();
    assert_eq!(effects.len(), 1);
    assert_eq!(errors(&effects), vec![LOOP_SIZE_ERROR.to_string()]);
    assert!(!widget.loop_status().active);
}

#[test]
fn requests_start_loops_of_each_mode() {
    let mut widget = widget(BUSY);
    let mut event = request(LoopControlAction::Start);
    event.prompt = Some(" go ".to_string());
    widget.on_loop_control(event);
    assert_eq!(widget.loop_status().mode, LoopControlMode::Immediate);
    assert_eq!(widget.loop_status().prompt, "go");

    let mut event = request(LoopControlAction::Start);
    event.mode = Some(LoopControlMode::Timed);
    event.interval_minutes = Some(10);
    event.max_iterations = Some(6);
    widget.on_loop_control(event);
    let status = widget.loop_status();
    assert_eq!(status.mode, LoopControlMode::Timed);
    assert_eq!((status.interval_minutes, status.max_iterations), (Some(10), Some(6)));

    let mut event = request(LoopControlAction::Start);
    event.mode = Some(LoopControlMode::Once);
    event.max_iterations = Some(6);
    widget.on_loop_control(event);
    assert_eq!(widget.loop_status().mode, LoopControlMode::Once);
    assert_eq!(widget.loop_status().max_iterations, Some(1));
}

#[test]
fn requests_that_are_wrong_are_explained() {
    let mut widget = widget(IDLE);
    let mut event = request(LoopControlAction::Start);
    event.max_iterations = Some(0);
    widget.on_loop_control(event);
    assert_eq!(errors(&widget.take_effects()), vec![LOOP_MAX_ERROR.to_string()]);
    let mut event = request(LoopControlAction::Start);
    event.mode = Some(LoopControlMode::Timed);
    widget.on_loop_control(event);
    assert_eq!(errors(&widget.take_effects()), vec![INTERVAL_MISSING_ERROR.to_string()]);
    let mut event = request(LoopControlAction::Start);
    event.mode = Some(LoopControlMode::Timed);
    event.interval_minutes = Some(0);
    widget.on_loop_control(event);
    assert_eq!(errors(&widget.take_effects()), vec![INTERVAL_ZERO_ERROR.to_string()]);
}

#[test]
fn a_stop_request_passes_its_reason_on() {
    let mut widget = widget(IDLE);
    widget.handle_loop_command_args("now go");
    let _ = widget.take_effects();
    let mut event = request(LoopControlAction::Stop);
    event.reason = Some("  goal reached \n".to_string());
    widget.on_loop_control(event);
    let effects = widget.take_effects();
    assert_eq!(
        infos(&effects),
        vec!["Loop stopped by loop_control. Reason: goal reached".to_string()]
    );
    let published = published(&effects);
    assert_eq!(published.len(), 2);
    assert_eq!(published[0].last_reason, None);
    assert_eq!(published[1].last_reason.as_deref(), Some("goal reached"));
    assert!(!published[1].active);

    let mut event = request(LoopControlAction::Stop);
    event.reason = Some("  ".to_string());
    widget.on_loop_control(event);
    assert_eq!(
        infos(&widget.take_effects()),
        vec!["Loop stopped by loop_control.".to_string()]
    );
}

#[test]
fn nothing_is_submitted_before_the_session_is_configured() {
    let mut widget = ChatWidget::new(PathStyle::Unix);
    widget.handle_loop_command_args("now go");
    assert!(submissions(&widget.take_effects()).is_empty());
    assert_eq!(
        widget.maybe_submit_loop_follow_up(SubmissionOrigin::TurnComplete),
        LoopAnswer::No
    );
    assert!(!widget.stop_loop_after_max_iterations());
    assert!(widget.loop_status().active);
}

#[test]
fn a_loop_of_no_iterations_stops_at_once() {
    let mut widget = widget(IDLE);
    widget.start_loop(None, true, Some(0), "go");
    let effects = widget.take_effects();
    assert!(submissions(&effects).is_empty());
    assert_eq!(infos(&effects), vec!["Loop stopped after 0 iteration(s).".to_string()]);
}
