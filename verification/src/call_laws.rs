//! What calls give back and change, in terms of what they are given.

use crate::channel_delivery::{
    nothing_seen, ChannelDeliveryDecision, ChannelDeliveryState, McpServerChannelConfig,
};
use crate::channel_event::{
    channel_message_event, fallback_id, is_channel_notification, message_from_params,
    AttachmentModel, ChannelMessageAttachment, ChannelMessageEvent, MessageModel,
};
use crate::channel_format::{
    attachment_line, attachment_lines, channel_message_local_images, display_text, envelope,
    envelope_text, envelope_value, format_channel_message_for_display,
    format_channel_message_for_model, is_channel_image_attachment, local_images, mark_message,
    model_text, LocalImageAttachment,
};
use crate::chat_widget::{
    snapshot_of, timed_command, ChatWidget, EffectModel, LoopAnswer, LoopStatusSnapshot, SessionStatus,
    ShellEscapePolicy, SubmissionOrigin, WidgetEffect, WidgetModel,
};
use crate::command_laws::{
    a_typed_limit_counts, immediate_arguments_start_a_loop, is_prompt, limit, runs,
    timed_arguments_are_a_command, typed,
};
use crate::delivery_laws::{
    among_the_last, delivered, on_time, remembered, what_was_delivered_decides, younger_than, Arrival,
};
use crate::fragments::{ChannelMessageContext, ContextualUserFragment, LoopContinuation};
use crate::json::{Json, JsonModel};
use crate::json_text::{json_text, value_tree};
use crate::loop_laws::{starts_none, step, submitted, submitted_by, WidgetEvent};
use crate::loop_protocol::{LoopControlAction, LoopControlEvent, LoopControlMode};
use crate::message_laws::{
    a_message_is_what_its_members_say, a_plain_text_is_a_message, announces, reads, says, speaks,
    the_text_is_whole,
};
use crate::numerals::decimal;
use crate::request_laws::{a_requested_limit_counts, prompts, within};
use crate::text::{trimmed, utf8_len, PathStyle};
use crate::text_laws::{blank, trimming_keeps_what_is_said};
use crate::window_laws::{
    a_timer_needs_a_timed_loop, an_attempt_needs_a_free_session, ends_at, follows, has_more, is_free,
    only_says, puts_out_the_next, the_limit_is_named, waits,
};
use vstd::prelude::*;

verus! {

broadcast use vstd::string::group_string_axioms;

/// Whether an optional text is another one.
pub open spec fn same_option(text: Option<String>, chars: Option<Seq<char>>) -> bool {
    match text {
        Some(t) => chars == Some(t@),
        None => chars is None,
    }
}

/// What is said of an attachment is what it holds.
pub proof fn attachments_are_seen_as_they_are(attachment: ChannelMessageAttachment)
    ensures
        attachment@.kind == attachment.kind@,
        same_option(attachment.path, attachment@.path),
        same_option(attachment.mime_type, attachment@.mime_type),
        same_option(attachment.file_name, attachment@.file_name),
        attachment@.file_size == attachment.file_size,
        attachment.metadata is Some ==> attachment@.metadata == Some(attachment.metadata->Some_0@),
        attachment.metadata is None ==> attachment@.metadata is None,
{
}

/// What is said of a message is what it holds.
pub proof fn messages_are_seen_as_they_are(event: ChannelMessageEvent, i: int)
    ensures
        event@.id == event.id@,
        event@.schema_version == event.schema_version,
        event@.server == event.server@,
        event@.text == event.text@,
        same_option(event.source, event@.source),
        same_option(event.sender, event@.sender),
        event@.attachments.len() == event.attachments@.len(),
        0 <= i < event.attachments@.len() ==> event@.attachments[i] == event.attachments@[i]@,
        event.metadata is Some ==> event@.metadata == Some(event.metadata->Some_0@),
        event.metadata is None ==> event@.metadata is None,
{
}

/// A method announces messages if it is one of the three, and otherwise not.
pub proof fn three_methods_announce(method: &str, peer: &str, answer: bool)
    requires
        call_ensures(is_channel_notification, (method, peer), answer),
    ensures
        answer <==> announces(method@, peer@),
{
}

/// The message that is read from a notification has all of its text, however long it is.
pub proof fn a_notification_is_read_whole(
    server: &str,
    method: &str,
    peer: &str,
    params: Option<serde_json::Value>,
    text: Seq<char>,
    result: Option<ChannelMessageEvent>,
)
    requires
        call_ensures(channel_message_event, (server, method, peer, params), result),
        announces(method@, peer@),
        params is Some && value_tree(params->Some_0) is Object,
        !blank(text),
        says(value_tree(params->Some_0)->Object_0, "text"@, text) || !speaks(
            value_tree(params->Some_0)->Object_0,
            "text"@,
        ) && says(value_tree(params->Some_0)->Object_0, "message"@, text),
    ensures
        result is Some,
        result->Some_0.text@ == text,
        result->Some_0.server@ == server@,
{
    let m = value_tree(params->Some_0)->Object_0;
    the_text_is_whole(server@, method@, peer@, m, text);
    a_message_is_what_its_members_say(server@, method@, peer@, m);
}

/// A notification is read as its members say, in every field, whichever way its parameters come.
pub proof fn a_notification_is_read_as_it_says(
    server: &str,
    method: &str,
    peer: &str,
    value: serde_json::Value,
    json: Json,
    from_value: Option<ChannelMessageEvent>,
    from_json: Option<ChannelMessageEvent>,
)
    requires
        call_ensures(channel_message_event, (server, method, peer, Some(value)), from_value),
        call_ensures(message_from_params, (server, method, peer, Some(json)), from_json),
        value_tree(value) is Object,
        json@ is Object,
    ensures
        from_value is Some ==> announces(method@, peer@) && !blank(from_value->Some_0.text@) && reads(
            server@,
            method@,
            value_tree(value)->Object_0,
            from_value->Some_0@,
        ),
        from_json is Some ==> announces(method@, peer@) && !blank(from_json->Some_0.text@) && reads(
            server@,
            method@,
            json@->Object_0,
            from_json->Some_0@,
        ),
{
    a_message_is_what_its_members_say(server@, method@, peer@, value_tree(value)->Object_0);
    a_message_is_what_its_members_say(server@, method@, peer@, json@->Object_0);
}

/// A notification that is a text is read as that text, and one without parameters is not read at all.
pub proof fn a_plain_notification_is_read_whole(
    server: &str,
    method: &str,
    peer: &str,
    value: serde_json::Value,
    text: Seq<char>,
    result: Option<ChannelMessageEvent>,
    nothing: Option<ChannelMessageEvent>,
)
    requires
        call_ensures(channel_message_event, (server, method, peer, Some(value)), result),
        call_ensures(channel_message_event, (server, method, peer, None), nothing),
        announces(method@, peer@),
        value_tree(value) == JsonModel::Text(text),
    ensures
        nothing is None,
        result is Some <==> !blank(text),
        result is Some ==> result->Some_0.text@ == text && result->Some_0.id@ == fallback_id(
            server@,
            method@,
            text,
        ) && result->Some_0.attachments@.len() == 0,
{
    a_plain_text_is_a_message(server@, method@, peer@, text);
    if result is Some {
        let event = result->Some_0;
        assert(event@.attachments.len() == event.attachments@.len());
    }
}

/// The lines of attachments around one of them.
proof fn lemma_line_at(attachments: Seq<AttachmentModel>, paths: PathStyle, i: int) -> (around: (
    Seq<char>,
    Seq<char>,
))
    requires
        0 <= i < attachments.len(),
    ensures
        attachment_lines(attachments, paths) == around.0 + attachment_line(attachments[i], paths)
            + around.1,
    decreases attachments.len(),
{
    let shorter = attachments.drop_last();
    if i == attachments.len() - 1 {
        let around = (attachment_lines(shorter, paths), Seq::<char>::empty());
        assert(attachment_lines(attachments, paths) =~= around.0 + attachment_line(
            attachments[i],
            paths,
        ) + around.1);
        around
    } else {
        let inner = lemma_line_at(shorter, paths, i);
        let around = (inner.0, inner.1 + attachment_line(attachments.last(), paths));
        assert(attachment_lines(attachments, paths) =~= around.0 + attachment_line(
            attachments[i],
            paths,
        ) + around.1);
        around
    }
}

/// Every attachment with a name of its own is shown by exactly that name, on a line of its own, with its
/// path behind it where it has one.
pub proof fn attachments_are_shown_by_name(
    event: &ChannelMessageEvent,
    paths: PathStyle,
    shown: String,
    i: int,
) -> (around: (Seq<char>, Seq<char>))
    requires
        call_ensures(format_channel_message_for_display, (event, paths), shown),
        0 <= i < event.attachments@.len(),
        event.attachments@[i].file_name is Some,
    ensures
        event.attachments@[i].path is None ==> shown@ == around.0 + ("\n- "@
            + event.attachments@[i].file_name->Some_0@) + around.1,
        event.attachments@[i].path is Some ==> shown@ == around.0 + ("\n- "@
            + event.attachments@[i].file_name->Some_0@ + ": "@
            + event.attachments@[i].path->Some_0@) + around.1,
{
    let all = event@.attachments;
    assert(all[i] == event.attachments@[i]@);
    let inner = lemma_line_at(all, paths, i);
    let line = attachment_line(all[i], paths);
    let head = display_text(MessageModel { attachments: seq![], ..event@ }, paths)
        + "\n\nAttachments:"@;
    assert(shown@ =~= head + attachment_lines(all, paths));
    let around = (head + inner.0, inner.1);
    assert(shown@ =~= around.0 + line + around.1);
    around
}

/// What the model reads, the images that it is handed and what counts as one are those of the message.
pub proof fn a_message_is_formatted_as_it_is(
    event: &ChannelMessageEvent,
    attachment: &ChannelMessageAttachment,
    text: String,
    images: Vec<LocalImageAttachment>,
    image: bool,
    i: int,
)
    requires
        call_ensures(format_channel_message_for_model, (event,), text),
        call_ensures(channel_message_local_images, (event,), images),
        call_ensures(is_channel_image_attachment, (attachment,), image),
    ensures
        text@ == model_text(event@),
        images@.len() == local_images(event@.attachments).len(),
        0 <= i < images@.len() ==> images@[i].path@ == local_images(event@.attachments)[i].path
            && images@[i].label_number == local_images(event@.attachments)[i].label_number,
        attachment.kind@ == "photo"@ || attachment.kind@ == "image"@ ==> image,
{
    assert(images.deep_view().len() == images@.len());
    if 0 <= i < images@.len() {
        assert(images.deep_view()[i] == images@[i]@);
    }
}

/// What a delivery decides on the next message, after messages came in by a clock that runs forward:
/// what those that it delivered decide, and no other.
pub proof fn a_delivery_decides_by_what_it_delivered(
    state: &mut ChannelDeliveryState,
    config: &McpServerChannelConfig,
    event: &ChannelMessageEvent,
    now: u128,
    verdict: ChannelDeliveryDecision,
    capacity: nat,
    arrivals: Seq<Arrival>,
)
    requires
        call_ensures(ChannelDeliveryState::accept_at, (state, config, event, now), verdict),
        old(state)@ == remembered(nothing_seen(capacity), arrivals),
        on_time(
            nothing_seen(capacity),
            arrivals.push(Arrival { config: *config, id: event.id@, now }),
        ),
    ensures
        ({
            let messages = delivered(nothing_seen(capacity), arrivals);
            let known = among_the_last(messages, capacity, event.id@);
            let crowded = 0 < config.queue_capacity <= younger_than(messages, now, 10_000_000_000);
            let hurried = 0 < config.rate_limit_per_minute <= younger_than(
                messages,
                now,
                60_000_000_000,
            );
            &&& verdict == ChannelDeliveryDecision::Disabled <==> !config.enabled
            &&& verdict == ChannelDeliveryDecision::Duplicate <==> config.enabled && known
            &&& verdict == ChannelDeliveryDecision::QueueFull <==> config.enabled && !known && crowded
            &&& verdict == ChannelDeliveryDecision::RateLimited <==> config.enabled && !known
                && !crowded && hurried
            &&& verdict == ChannelDeliveryDecision::Accept <==> config.enabled && !known && !crowded
                && !hurried
        }),
        final(state)@ == remembered(
            nothing_seen(capacity),
            arrivals.push(Arrival { config: *config, id: event.id@, now }),
        ),
{
    let next = Arrival { config: *config, id: event.id@, now };
    what_was_delivered_decides(capacity, arrivals, next);
    assert(arrivals.push(next).drop_last() =~= arrivals);
}

/// The loop command with minutes, a limit and a prompt starts a loop with that interval, that limit and
/// that prompt, and no more iterations are submitted until the next start.
pub proof fn a_command_sets_the_limit(
    widget: &mut ChatWidget,
    args: &str,
    minutes: nat,
    max: nat,
    rest: Seq<char>,
    prompt: Seq<char>,
    events: Seq<WidgetEvent>,
)
    requires
        call_ensures(ChatWidget::handle_loop_command_args, (widget, args), ()),
        args@ == decimal(minutes) + " --max "@ + decimal(max) + " "@ + rest,
        0 < minutes <= u64::MAX,
        0 < max <= usize::MAX,
        is_prompt(prompt, rest),
        starts_none(events),
    ensures
        runs(final(widget)@, Some(minutes as u64), false, Some(max as usize), prompt),
        submitted_by(old(widget)@, WidgetEvent::Command(args@)) + submitted(final(widget)@, events)
            <= max,
{
    a_typed_limit_counts(old(widget)@, minutes, max, rest, prompt, events);
}

/// Arguments of a timed loop with minutes, a limit and a prompt start a loop with that interval, that
/// limit and that prompt.
pub proof fn timed_arguments_set_the_limit(
    widget: &mut ChatWidget,
    args: &str,
    minutes: nat,
    max: nat,
    rest: Seq<char>,
    prompt: Seq<char>,
    events: Seq<WidgetEvent>,
)
    requires
        call_ensures(ChatWidget::start_timed_loop_from_args, (widget, args), ()),
        args@ == decimal(minutes) + " --max "@ + decimal(max) + " "@ + rest,
        0 < minutes <= u64::MAX,
        0 < max <= usize::MAX,
        is_prompt(prompt, rest),
        starts_none(events),
    ensures
        runs(final(widget)@, Some(minutes as u64), false, Some(max as usize), prompt),
        submitted_by(old(widget)@, WidgetEvent::Command(args@)) + submitted(final(widget)@, events)
            <= max,
{
    lemma_timed_arguments(old(widget)@, args@, minutes, max, rest);
    a_typed_limit_counts(old(widget)@, minutes, max, rest, prompt, events);
}

proof fn lemma_timed_arguments(
    widget: WidgetModel,
    args: Seq<char>,
    minutes: nat,
    max: nat,
    rest: Seq<char>,
)
    requires
        args == decimal(minutes) + " --max "@ + decimal(max) + " "@ + rest,
        0 < minutes <= u64::MAX,
    ensures
        widget.commanded(timed_command(args)) == step(widget, WidgetEvent::Command(args)),
{
    reveal_strlit(" --max ");
    reveal_strlit("--max ");
    reveal_strlit(" ");
    assert(" --max "@ =~= seq![' '] + "--max "@);
    assert(" "@ =~= seq![' ']);
    assert(args =~= typed(decimal(minutes), limit(max, rest)));
    timed_arguments_are_a_command(widget, minutes, limit(max, rest));
}

/// A request to start a loop that names a limit, in any mode but that of one iteration, starts a loop
/// with that limit, and no more iterations are submitted until the next start.
pub proof fn a_request_sets_the_limit(
    widget: &mut ChatWidget,
    request: LoopControlEvent,
    prompt: Seq<char>,
    events: Seq<WidgetEvent>,
)
    requires
        call_ensures(ChatWidget::on_loop_control, (widget, request), ()),
        request.action == LoopControlAction::Start,
        request.mode != Some(LoopControlMode::Once),
        request.max_iterations is Some && request.max_iterations->Some_0 > 0,
        request.mode == Some(LoopControlMode::Timed) ==> request.interval_minutes is Some
            && request.interval_minutes->Some_0 > 0,
        within(request@.prompt, 1024),
        prompts(request@, prompt),
        starts_none(events),
    ensures
        final(widget)@.ui.enabled,
        final(widget)@.ui.max_iterations == request.max_iterations,
        final(widget)@.ui.prompt == prompt,
        request.mode == Some(LoopControlMode::Timed) ==> final(widget)@.ui.interval_minutes
            == request.interval_minutes,
        request.mode != Some(LoopControlMode::Timed) ==> final(widget)@.ui.interval_minutes is None
            && final(widget)@.ui.immediate,
        submitted_by(old(widget)@, WidgetEvent::Control(request@)) + submitted(
            final(widget)@,
            events,
        ) <= request.max_iterations->Some_0,
{
    a_requested_limit_counts(old(widget)@, request@, prompt, events);
}

/// The same holds where the request is carried out as a start.
pub proof fn a_start_sets_the_limit(
    widget: &mut ChatWidget,
    request: LoopControlEvent,
    prompt: Seq<char>,
)
    requires
        call_ensures(ChatWidget::start_loop_from_control, (widget, request), ()),
        request.action == LoopControlAction::Start,
        request.mode != Some(LoopControlMode::Once),
        request.max_iterations is Some && request.max_iterations->Some_0 > 0,
        request.mode == Some(LoopControlMode::Timed) ==> request.interval_minutes is Some
            && request.interval_minutes->Some_0 > 0,
        within(request@.prompt, 1024),
        prompts(request@, prompt),
    ensures
        final(widget)@ == step(old(widget)@, WidgetEvent::Control(request@)),
        final(widget)@.ui.enabled,
        final(widget)@.ui.max_iterations == request.max_iterations,
        final(widget)@.ui.prompt == prompt,
        request.mode == Some(LoopControlMode::Timed) ==> final(widget)@.ui.interval_minutes
            == request.interval_minutes,
        request.mode != Some(LoopControlMode::Timed) ==> final(widget)@.ui.interval_minutes is None
            && final(widget)@.ui.immediate,
{
    a_requested_limit_counts(old(widget)@, request@, prompt, seq![]);
}

/// What is said of a request is what it holds.
pub proof fn requests_are_seen_as_they_are(request: LoopControlEvent)
    ensures
        request@.action == request.action,
        request@.mode == request.mode,
        request@.interval_minutes == request.interval_minutes,
        request@.max_iterations == request.max_iterations,
        same_option(request.prompt, request@.prompt),
        same_option(request.reason, request@.reason),
{
}

/// To carry out the loop command is the event of that command.
pub proof fn a_command_is_an_event(widget: &mut ChatWidget, args: &str)
    requires
        call_ensures(ChatWidget::handle_loop_command_args, (widget, args), ()),
    ensures
        final(widget)@ == step(old(widget)@, WidgetEvent::Command(args@)),
{
}

/// To carry out a request is the event of that request.
pub proof fn a_request_is_an_event(widget: &mut ChatWidget, request: LoopControlEvent)
    requires
        call_ensures(ChatWidget::on_loop_control, (widget, request), ()),
    ensures
        final(widget)@ == step(old(widget)@, WidgetEvent::Control(request@)),
{
}

/// To go on after a turn is the event of a complete turn.
pub proof fn a_complete_turn_is_an_event(widget: &mut ChatWidget, answer: LoopAnswer)
    requires
        call_ensures(ChatWidget::maybe_continue_loop_after_turn, (widget,), answer),
    ensures
        final(widget)@ == step(old(widget)@, WidgetEvent::TurnComplete),
        answer == old(widget)@.answer_after_turn(),
{
}

/// To stop the loop is the event of a broken turn.
pub proof fn a_stop_is_an_event(widget: &mut ChatWidget)
    requires
        call_ensures(ChatWidget::stop_loop, (widget,), ()),
    ensures
        final(widget)@ == step(old(widget)@, WidgetEvent::TurnBroken),
{
}

/// To go on after a timer is the event of that timer.
pub proof fn a_timer_is_an_event(widget: &mut ChatWidget, generation: u64)
    requires
        call_ensures(ChatWidget::on_loop_timer_fired, (widget, generation), ()),
    ensures
        final(widget)@ == step(old(widget)@, WidgetEvent::TimerFired(generation)),
{
}

/// To go on after the outcome of a submission is the event of that outcome.
pub proof fn an_outcome_is_an_event(widget: &mut ChatWidget, submitted: bool, continued: bool)
    requires
        call_ensures(ChatWidget::finish_loop_submission, (widget, submitted), continued),
    ensures
        final(widget)@ == step(old(widget)@, WidgetEvent::SubmissionFinished(submitted)),
        continued == old(widget)@.goes_on_after_submission(submitted),
{
}

/// To take note of the session changes nothing else.
pub proof fn a_session_is_an_event(widget: &mut ChatWidget, session: SessionStatus)
    requires
        call_ensures(ChatWidget::set_session_status, (widget, session), ()),
    ensures
        final(widget)@.session == session,
        final(widget)@.ui == old(widget)@.ui,
        final(widget)@.submission == old(widget)@.submission,
        final(widget)@.outbox == old(widget)@.outbox,
        final(widget)@.paths == old(widget)@.paths,
{
}

/// A message that comes in is the event of that message.
pub proof fn a_message_is_an_event(widget: &mut ChatWidget, event: ChannelMessageEvent)
    requires
        call_ensures(ChatWidget::on_channel_message, (widget, event), ()),
    ensures
        final(widget)@ == step(old(widget)@, WidgetEvent::Message(event@)),
{
}

/// What is to be done is handed out once, all of it and in its order, and nothing else changes.
pub proof fn effects_are_handed_out_once(
    widget: &mut ChatWidget,
    effects: Vec<WidgetEffect>,
    i: int,
)
    requires
        call_ensures(ChatWidget::take_effects, (widget,), effects),
    ensures
        effects@.len() == old(widget)@.outbox.len(),
        0 <= i < effects@.len() ==> effects@[i]@ == old(widget)@.outbox[i],
        final(widget)@.outbox.len() == 0,
        final(widget)@.ui == old(widget)@.ui,
        final(widget)@.submission == old(widget)@.submission,
        final(widget)@.session == old(widget)@.session,
{
    assert(effects.deep_view().len() == effects@.len());
    if 0 <= i < effects@.len() {
        assert(effects.deep_view()[i] == effects@[i]@);
    }
}

/// The status that is asked for is that of the loop.
pub proof fn the_status_can_be_asked_for(widget: &ChatWidget, status: LoopStatusSnapshot)
    requires
        call_ensures(ChatWidget::loop_status, (widget,), status),
    ensures
        status.active == widget@.ui.enabled,
        status.completed_iterations == widget@.ui.completed_iterations,
        status.interval_minutes == widget@.ui.interval_minutes,
        status.max_iterations == widget@.ui.max_iterations,
        status.timer_pending == widget@.ui.timer_pending,
        status.prompt@ == widget@.ui.prompt,
        status.last_reason is None,
        status.mode == LoopControlMode::Timed <==> widget@.ui.interval_minutes is Some,
        status.mode == LoopControlMode::Immediate <==> widget@.ui.interval_minutes is None
            && widget@.ui.immediate,
{
}

/// The arguments of an immediate loop are a prompt, with a limit in front of it or without.
pub proof fn immediate_arguments_set_the_limit(
    widget: &mut ChatWidget,
    args: &str,
    max: nat,
    rest: Seq<char>,
    prompt: Seq<char>,
)
    requires
        call_ensures(ChatWidget::start_immediate_loop_from_args, (widget, args), ()),
        0 < max <= usize::MAX,
        is_prompt(prompt, rest),
        args@ == rest || args@ == "--max "@ + decimal(max) + seq![' '] + rest,
    ensures
        args@ == rest ==> runs(final(widget)@, None, true, None, prompt),
        args@ == "--max "@ + decimal(max) + seq![' '] + rest ==> runs(
            final(widget)@,
            None,
            true,
            Some(max as usize),
            prompt,
        ),
{
    immediate_arguments_start_a_loop(old(widget)@, max, rest, prompt);
}

/// The options of a loop are read as they are typed, and the window is left alone.
pub proof fn options_are_read(
    widget: &mut ChatWidget,
    args: &str,
    max: nat,
    rest: Seq<char>,
    prompt: Seq<char>,
    options: Option<(Option<usize>, String)>,
)
    requires
        call_ensures(ChatWidget::parse_loop_options, (widget, args), options),
        0 < max <= usize::MAX,
        is_prompt(prompt, rest),
        args@ == rest || args@ == "--max "@ + decimal(max) + seq![' '] + rest,
    ensures
        options is Some,
        options->Some_0.1@ == prompt,
        args@ == rest ==> options->Some_0.0 is None,
        args@ == "--max "@ + decimal(max) + seq![' '] + rest ==> options->Some_0.0 == Some(
            max as usize,
        ),
        final(widget)@ == old(widget)@,
{
    immediate_arguments_start_a_loop(old(widget)@, max, rest, prompt);
}

/// A loop of one iteration has a limit of one and its prompt without the white space around it.
pub proof fn one_shot_loops_have_one_iteration(widget: &mut ChatWidget, prompt: &str)
    requires
        call_ensures(ChatWidget::start_one_shot_loop, (widget, prompt), ()),
        utf8_len(trimmed(prompt@)) <= 1024,
    ensures
        runs(final(widget)@, None, false, Some(1usize), trimmed(prompt@)),
{
}

/// A loop is started with the interval, the mode and the limit that it is given.
pub proof fn loops_start_as_they_are_given(
    widget: &mut ChatWidget,
    interval_minutes: Option<u64>,
    immediate: bool,
    max_iterations: Option<usize>,
    prompt: &str,
)
    requires
        call_ensures(
            ChatWidget::start_loop,
            (widget, interval_minutes, immediate, max_iterations, prompt),
            (),
        ),
        utf8_len(trimmed(prompt@)) <= 1024,
        max_iterations != Some(0usize),
    ensures
        runs(final(widget)@, interval_minutes, immediate, max_iterations, trimmed(prompt@)),
        follows(final(widget)@.ui.generation, old(widget)@.ui.generation),
{
}

/// An iteration is put out where the loop runs, has more to do and nothing goes before it.
pub proof fn iterations_are_put_out(
    widget: &mut ChatWidget,
    origin: SubmissionOrigin,
    answer: LoopAnswer,
)
    requires
        call_ensures(ChatWidget::maybe_submit_loop_follow_up, (widget, origin), answer),
    ensures
        ({
            let before = old(widget)@;
            let can = before.ui.enabled && is_free(before) && has_more(before.ui);
            &&& can ==> answer == LoopAnswer::Pending && puts_out_the_next(
                before,
                final(widget)@,
                origin,
            )
            &&& !can ==> answer == LoopAnswer::No
            &&& !before.ui.enabled || !is_free(before) ==> final(widget)@ == before
        }),
{
    an_attempt_needs_a_free_session(old(widget)@, origin);
}

/// A timer is started where the loop runs, is timed, has more to do and does not wait already.
pub proof fn timers_are_started(widget: &mut ChatWidget, scheduled: bool)
    requires
        call_ensures(ChatWidget::schedule_loop_timer, (widget,), scheduled),
    ensures
        ({
            let before = old(widget)@;
            let could_wait = before.ui.enabled && before.ui.interval_minutes is Some
                && !before.ui.timer_pending;
            &&& scheduled <==> could_wait && has_more(before.ui)
            &&& scheduled ==> waits(before, final(widget)@, before.ui.interval_minutes->Some_0)
            &&& !could_wait ==> final(widget)@ == before
        }),
{
    a_timer_needs_a_timed_loop(old(widget)@);
}

/// A loop ends at its limit, and not before.
pub proof fn loops_end_at_their_limit(widget: &mut ChatWidget, stopped: bool)
    requires
        call_ensures(ChatWidget::stop_loop_after_max_iterations, (widget,), stopped),
    ensures
        stopped <==> !has_more(old(widget)@.ui),
        stopped ==> ends_at(
            old(widget)@,
            final(widget)@,
            old(widget)@.ui.max_iterations->Some_0,
        ),
        !stopped ==> final(widget)@ == old(widget)@,
{
    a_timer_needs_a_timed_loop(old(widget)@);
    if !has_more(old(widget)@.ui) {
        the_limit_is_named(old(widget)@);
    }
}

/// A message that was written out is submitted as it was written, if its envelope is not too large.
pub proof fn written_messages_are_submitted(
    widget: &mut ChatWidget,
    envelope_json: &str,
    text: String,
    images: Vec<LocalImageAttachment>,
    history_text: String,
)
    requires
        call_ensures(
            ChatWidget::submit_channel_message,
            (widget, envelope_json, text, images, history_text),
            (),
        ),
    ensures
        utf8_len(envelope_json@) <= 8000 ==> only_says(
            old(widget)@,
            final(widget)@,
            EffectModel::SubmitMessage {
                text: text@,
                local_images: images.deep_view(),
                history_text: history_text@,
                shell_escapes: ShellEscapePolicy::Disallow,
            },
        ),
        utf8_len(envelope_json@) > 8000 ==> only_says(
            old(widget)@,
            final(widget)@,
            EffectModel::Error("Inbound channel message exceeds its size limit."@),
        ),
{
}

/// A message enters the context whole if it takes 8192 bytes with its marks, and otherwise not at all.
pub proof fn messages_enter_the_context_whole(
    event: &ChannelMessageEvent,
    context: Option<ChannelMessageContext>,
    body: String,
    made: Option<ChannelMessageContext>,
)
    requires
        call_ensures(ChannelMessageContext::new, (event,), context),
        call_ensures(ChannelMessageContext::from_json, (body,), made),
    ensures
        context is Some <==> utf8_len(
            "Inbound channel message:\n```json\n"@ + json_text(envelope(event@)) + "\n```"@,
        ) <= 8192,
        context is Some ==> context->Some_0.body_text() == json_text(envelope(event@)),
        made is Some <==> utf8_len("Inbound channel message:\n```json\n"@ + body@ + "\n```"@)
            <= 8192,
        made is Some ==> made->Some_0.body_text() == body@,
{
}

/// The fragments enter the context as the user's, between their marks.
pub proof fn fragments_have_their_marks(context: ChannelMessageContext, default: LoopContinuation)
    ensures
        context.role_name() == "user"@,
        context.kind_name() == "user.channel_message"@,
        ChannelMessageContext::marker_texts().0 == "Inbound channel message:\n```json\n"@,
        ChannelMessageContext::marker_texts().1 == "\n```"@,
        default.role_name() == "user"@,
        default.kind_name() == "loop.continuation"@,
        LoopContinuation::marker_texts().0 == ""@,
        LoopContinuation::marker_texts().1 == ""@,
        default.body_text()
            == "Continue working autonomously. Inspect the current project state, choose the next useful step toward the active goal, make progress, verify what you changed when possible, and report what you did. If there is no useful next step, explain that and wait for the user."@,
{
}

/// The envelope of a message is written as it is, and a text is marked as it is.
pub proof fn envelopes_are_written_as_they_are(
    event: &ChannelMessageEvent,
    value: serde_json::Value,
    text: String,
    json: &str,
    marked_text: String,
)
    requires
        call_ensures(envelope_value, (event,), value),
        call_ensures(envelope_text, (event,), text),
        call_ensures(mark_message, (json,), marked_text),
    ensures
        value_tree(value) == envelope(event@),
        text@ == json_text(envelope(event@)),
        marked_text@ == "Inbound channel message:\n```json\n"@ + json@ + "\n```"@,
{
}

/// What is said of a status is what it holds.
pub proof fn statuses_are_seen_as_they_are(status: LoopStatusSnapshot)
    ensures
        status@.active == status.active,
        status@.mode == status.mode,
        status@.completed_iterations == status.completed_iterations,
        status@.interval_minutes == status.interval_minutes,
        status@.max_iterations == status.max_iterations,
        status@.timer_pending == status.timer_pending,
        status@.prompt == status.prompt@,
        same_option(status.last_reason, status@.last_reason),
{
}

/// What is said of a thing to do is what it holds.
pub proof fn effects_are_seen_as_they_are(
    status: LoopStatusSnapshot,
    text: String,
    other: String,
    images: Vec<LocalImageAttachment>,
    policy: ShellEscapePolicy,
    seconds: u64,
    generation: u64,
    i: int,
)
    ensures
        WidgetEffect::PublishStatus(status)@ == EffectModel::PublishStatus(status@),
        (WidgetEffect::ShowStatus { status, hint: text })@ == (EffectModel::ShowStatus {
            status: status@,
            hint: text@,
        }),
        WidgetEffect::Info(text)@ == EffectModel::Info(text@),
        WidgetEffect::Error(text)@ == EffectModel::Error(text@),
        (WidgetEffect::SubmitIteration { prompt: text, history_text: other, shell_escapes: policy })@
            == (EffectModel::SubmitIteration {
            prompt: text@,
            history_text: other@,
            shell_escapes: policy,
        }),
        (WidgetEffect::SubmitMessage {
            text,
            local_images: images,
            history_text: other,
            shell_escapes: policy,
        })@ == (EffectModel::SubmitMessage {
            text: text@,
            local_images: images.deep_view(),
            history_text: other@,
            shell_escapes: policy,
        }),
        (WidgetEffect::StartTimer { seconds, generation })@ == (EffectModel::StartTimer {
            seconds,
            generation,
        }),
        images.deep_view().len() == images@.len(),
        0 <= i < images@.len() ==> images.deep_view()[i].path == images@[i].path@
            && images.deep_view()[i].label_number == images@[i].label_number,
{
}

/// The status is made known with the reason that is given, and nothing else changes.
pub proof fn the_status_is_made_known(widget: &mut ChatWidget, last_reason: Option<String>)
    requires
        call_ensures(ChatWidget::publish_loop_status, (widget, last_reason), ()),
    ensures
        last_reason is Some ==> only_says(
            old(widget)@,
            final(widget)@,
            EffectModel::PublishStatus(
                snapshot_of(old(widget)@.ui, Some(last_reason->Some_0@)),
            ),
        ),
        last_reason is None ==> only_says(
            old(widget)@,
            final(widget)@,
            EffectModel::PublishStatus(snapshot_of(old(widget)@.ui, None)),
        ),
{
}

/// To show the status is what the command for it does.
pub proof fn the_status_is_shown_on_request(widget: &mut ChatWidget, space: Seq<char>)
    requires
        call_ensures(ChatWidget::add_loop_status_output, (widget,), ()),
        blank(space),
    ensures
        final(widget)@ == step(old(widget)@, WidgetEvent::Command(space)),
        final(widget)@.ui == old(widget)@.ui,
{
    trimming_keeps_what_is_said(space);
}

/// A new window runs no loop and has nothing to do.
pub proof fn new_windows_are_quiet(paths: PathStyle, widget: ChatWidget)
    requires
        call_ensures(ChatWidget::new, (paths,), widget),
    ensures
        !widget@.ui.enabled,
        widget@.ui.max_iterations is None,
        widget@.ui.generation == 0,
        !widget@.session.configured,
        widget@.submission is None,
        widget@.outbox.len() == 0,
        widget@.paths == paths,
{
}

/// A delivery starts with nothing on record and the capacity that it is given.
pub proof fn deliveries_start_empty(dedupe_capacity: usize, state: ChannelDeliveryState)
    requires
        call_ensures(ChannelDeliveryState::new, (dedupe_capacity,), state),
    ensures
        state@ == remembered(nothing_seen(dedupe_capacity as nat), seq![]),
        state@.capacity == dedupe_capacity,
        state@.seen.len() == 0,
        state@.accepted.len() == 0,
        state@.burst.len() == 0,
{
}

} // verus!
