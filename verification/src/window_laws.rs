//! What each event does to the window, in terms of what the window shows.

use crate::channel_event::MessageModel;
use crate::channel_format::{display_text, envelope, local_images, model_text, LocalImageModel};
use crate::chat_widget::{
    active_prompt, new_window, snapshot_of, EffectModel, LoopAnswer, LoopModel, LoopStart,
    ShellEscapePolicy, SnapshotModel, SubmissionOrigin, WidgetModel,
};
use crate::json_text::json_text;
use crate::loop_laws::{step, WidgetEvent};
use crate::loop_protocol::LoopControlMode;
use crate::numerals::decimal;
use crate::text::{trimmed, utf8_len, PathStyle};
use vstd::prelude::*;

verus! {

broadcast use vstd::string::group_string_axioms;

/// Whether a window only says something more: nothing else about it is different.
pub open spec fn only_says(before: WidgetModel, after: WidgetModel, effect: EffectModel) -> bool {
    &&& after.outbox == before.outbox.push(effect)
    &&& after.ui == before.ui
    &&& after.session == before.session
    &&& after.submission == before.submission
    &&& after.paths == before.paths
}

/// Whether a generation is the one after another, which is the first one after the last.
pub open spec fn follows(generation: u64, before: u64) -> bool {
    if before == u64::MAX {
        generation == 0
    } else {
        generation == before + 1
    }
}

/// Whether a window is another with its loop stopped.
pub open spec fn is_stopped(before: WidgetModel, after: WidgetModel) -> bool {
    &&& !after.ui.enabled
    &&& !after.ui.timer_pending
    &&& follows(after.ui.generation, before.ui.generation)
    &&& after.ui.completed_iterations == before.ui.completed_iterations
    &&& after.ui.interval_minutes == before.ui.interval_minutes
    &&& after.ui.immediate == before.ui.immediate
    &&& after.ui.max_iterations == before.ui.max_iterations
    &&& after.ui.prompt == before.ui.prompt
    &&& after.submission is None
    &&& after.session == before.session
    &&& after.paths == before.paths
}

/// Whether a status says what a loop is: whether it runs, how it goes on, how far it is and what it
/// says.
pub open spec fn pictures(
    status: SnapshotModel,
    ui: LoopModel,
    last_reason: Option<Seq<char>>,
) -> bool {
    &&& status.active == ui.enabled
    &&& status.mode == LoopControlMode::Timed <==> ui.interval_minutes is Some
    &&& status.mode == LoopControlMode::Immediate <==> ui.interval_minutes is None && ui.immediate
    &&& status.mode == LoopControlMode::Once <==> ui.interval_minutes is None && !ui.immediate
    &&& status.completed_iterations == ui.completed_iterations
    &&& status.interval_minutes == ui.interval_minutes
    &&& status.max_iterations == ui.max_iterations
    &&& status.timer_pending == ui.timer_pending
    &&& status.prompt == ui.prompt
    &&& status.last_reason == last_reason
}

/// What others see of a loop is what it is.
pub proof fn the_status_is_true(ui: LoopModel, last_reason: Option<Seq<char>>)
    ensures
        pictures(snapshot_of(ui, last_reason), ui, last_reason),
{
}

/// An iteration says the prompt of the loop, and what a loop without a prompt says.
pub proof fn the_prompt_is_said(ui: LoopModel)
    ensures
        ui.prompt.len() > 0 ==> active_prompt(ui) == ui.prompt,
        ui.prompt.len() == 0 ==> active_prompt(ui)
            == "Continue working autonomously. Inspect the current project state, choose the next useful step toward the active goal, make progress, verify what you changed when possible, and report what you did. If there is no useful next step, explain that and wait for the user."@,
{
}

/// Whether nothing goes before an iteration of the loop.
pub open spec fn is_free(widget: WidgetModel) -> bool {
    &&& widget.session.configured
    &&& !widget.session.turn_active
    &&& !widget.session.priority_work
    &&& widget.submission is None
}

/// Whether a loop can make another iteration.
pub open spec fn has_more(ui: LoopModel) -> bool {
    ui.max_iterations is None || ui.completed_iterations < ui.max_iterations->Some_0
}

/// Whether a window puts out the next iteration of its loop, and does nothing else.
pub open spec fn puts_out_the_next(
    before: WidgetModel,
    after: WidgetModel,
    origin: SubmissionOrigin,
) -> bool {
    let count = after.ui.completed_iterations;
    &&& before.ui.completed_iterations < usize::MAX ==> count == before.ui.completed_iterations + 1
    &&& before.ui.completed_iterations == usize::MAX ==> count == usize::MAX
    &&& after.ui == (LoopModel { completed_iterations: count, ..before.ui })
    &&& after.submission == Some(origin)
    &&& after.session == before.session
    &&& after.paths == before.paths
    &&& after.outbox == before.outbox.push(
        EffectModel::PublishStatus(snapshot_of(after.ui, None)),
    ).push(EffectModel::Info("Loop iteration "@ + decimal(count as nat) + " submitted."@)).push(
        EffectModel::SubmitIteration {
            prompt: active_prompt(before.ui),
            history_text: "/loop iteration "@ + decimal(count as nat),
            shell_escapes: ShellEscapePolicy::Disallow,
        },
    )
}

/// Whether a number of seconds is as long as a number of minutes, as far as it goes.
pub open spec fn lasts(seconds: u64, minutes: u64) -> bool {
    &&& minutes * 60 <= u64::MAX ==> seconds == minutes * 60
    &&& minutes * 60 > u64::MAX ==> seconds == u64::MAX
}

/// Whether a window starts the timer of its loop, and does nothing else.
pub open spec fn waits(before: WidgetModel, after: WidgetModel, minutes: u64) -> bool {
    let n = before.outbox.len() as int;
    &&& after.ui == (LoopModel { timer_pending: true, ..before.ui })
    &&& after.submission == before.submission
    &&& after.session == before.session
    &&& after.paths == before.paths
    &&& after.outbox.len() == n + 3
    &&& after.outbox.take(n) == before.outbox
    &&& after.outbox[n] == EffectModel::PublishStatus(snapshot_of(after.ui, None))
    &&& after.outbox[n + 1] is StartTimer
    &&& lasts(after.outbox[n + 1]->seconds, minutes)
    &&& after.outbox[n + 1]->generation == before.ui.generation
    &&& after.outbox[n + 2] == EffectModel::Info(
        "Loop scheduled next iteration in "@ + decimal(minutes as nat) + " minute(s)."@,
    )
}

/// Whether a window ends its loop because of its limit, and does nothing else.
pub open spec fn ends_at(before: WidgetModel, after: WidgetModel, max: usize) -> bool {
    &&& is_stopped(before, after)
    &&& after.outbox == before.outbox.push(
        EffectModel::PublishStatus(snapshot_of(after.ui, None)),
    ).push(
        EffectModel::Info("Loop stopped after "@ + decimal(max as nat) + " iteration(s)."@),
    )
}

proof fn lemma_next(widget: WidgetModel, origin: SubmissionOrigin)
    requires
        widget.ui.enabled,
        is_free(widget),
        has_more(widget.ui),
    ensures
        puts_out_the_next(widget, widget.after_attempt(origin), origin),
{
}

proof fn lemma_waits(widget: WidgetModel)
    requires
        widget.ui.enabled,
        widget.ui.interval_minutes is Some,
        !widget.ui.timer_pending,
        has_more(widget.ui),
    ensures
        waits(widget, widget.scheduled(), widget.ui.interval_minutes->Some_0),
{
    let n = widget.outbox.len() as int;
    assert(widget.scheduled().outbox.take(n) =~= widget.outbox);
}

proof fn lemma_ends(widget: WidgetModel)
    requires
        widget.ui.max_iterations is Some,
    ensures
        ends_at(widget, widget.stopped_at_max(), widget.ui.max_iterations->Some_0),
{
}

/// What the end of a turn does: a loop without waits, or one that has not begun, goes on at once if
/// nothing goes before it; a timed loop starts its timer; a loop at its limit ends; and in every other
/// case nothing happens.
pub proof fn a_turn_moves_the_loop_on(widget: WidgetModel)
    ensures
        ({
            let after = step(widget, WidgetEvent::TurnComplete);
            let ui = widget.ui;
            let at_once = ui.immediate || ui.completed_iterations == 0;
            &&& !ui.enabled ==> after == widget
            &&& ui.enabled && !has_more(ui) ==> ends_at(widget, after, ui.max_iterations->Some_0)
            &&& ui.enabled && has_more(ui) && at_once && is_free(widget) ==> puts_out_the_next(
                widget,
                after,
                SubmissionOrigin::TurnComplete,
            )
            &&& ui.enabled && has_more(ui) && at_once && !is_free(widget) ==> after == widget
            &&& ui.enabled && has_more(ui) && !at_once && ui.interval_minutes is Some
                && !ui.timer_pending ==> waits(widget, after, ui.interval_minutes->Some_0)
            &&& ui.enabled && has_more(ui) && !at_once && (ui.interval_minutes is None
                || ui.timer_pending) ==> after == widget
        }),
{
    let ui = widget.ui;
    if ui.enabled {
        if !has_more(ui) {
            lemma_ends(widget);
        } else if ui.immediate || ui.completed_iterations == 0 {
            if is_free(widget) {
                lemma_next(widget, SubmissionOrigin::TurnComplete);
            }
        } else if ui.interval_minutes is Some && !ui.timer_pending {
            lemma_waits(widget);
        }
    }
}

/// What is answered at the end of a turn: that an iteration is on its way where one was put out, that
/// the loop goes on where its timer was started, and otherwise that it does not go on.
pub proof fn the_answer_after_a_turn_is_true(widget: WidgetModel)
    ensures
        ({
            let answer = widget.answer_after_turn();
            let ui = widget.ui;
            let at_once = ui.immediate || ui.completed_iterations == 0;
            &&& answer == LoopAnswer::Pending <==> ui.enabled && has_more(ui) && at_once && is_free(
                widget,
            )
            &&& answer == LoopAnswer::Yes <==> ui.enabled && has_more(ui) && !at_once
                && ui.interval_minutes is Some && !ui.timer_pending
        }),
{
}

/// A window whose timer has fired, before it does anything about it.
pub open spec fn has_fired(widget: WidgetModel) -> WidgetModel {
    let ui = LoopModel { timer_pending: false, ..widget.ui };
    WidgetModel {
        ui,
        outbox: widget.outbox.push(EffectModel::PublishStatus(snapshot_of(ui, None))),
        ..widget
    }
}

/// What a timer does: one of another generation nothing; otherwise the loop goes on if nothing goes
/// before it, waits again if something does, and ends at its limit.
pub proof fn a_timer_moves_the_loop_on(widget: WidgetModel, generation: u64)
    ensures
        ({
            let after = step(widget, WidgetEvent::TimerFired(generation));
            let fired = has_fired(widget);
            let ui = widget.ui;
            let mine = generation == ui.generation;
            &&& !mine ==> after == widget
            &&& mine && !ui.enabled ==> after == fired
            &&& mine && ui.enabled && has_more(ui) && is_free(widget) ==> puts_out_the_next(
                fired,
                after,
                SubmissionOrigin::Timer,
            )
            &&& mine && ui.enabled && has_more(ui) && !is_free(widget) && ui.interval_minutes is Some
                ==> waits(fired, after, ui.interval_minutes->Some_0)
            &&& mine && ui.enabled && !has_more(ui) && (is_free(widget) || ui.interval_minutes
                is Some) ==> ends_at(fired, after, ui.max_iterations->Some_0)
            &&& mine && ui.enabled && !is_free(widget) && ui.interval_minutes is None ==> after
                == fired
        }),
{
    let fired = has_fired(widget);
    let ui = widget.ui;
    if generation == ui.generation && ui.enabled {
        assert(fired.ui.enabled && !fired.ui.timer_pending);
        assert(has_more(fired.ui) == has_more(ui));
        assert(is_free(fired) == is_free(widget));
        if !has_more(ui) {
            lemma_ends(fired);
        } else if is_free(widget) {
            lemma_next(fired, SubmissionOrigin::Timer);
        } else if ui.interval_minutes is Some {
            lemma_waits(fired);
        }
    }
}

/// What the outcome of a submission does. Where the session took the iteration, a loop of one iteration
/// is over and any other goes on; where it did not, the loop is left as it is, except that one that did
/// not just start, and is not without waits after a turn, starts its timer.
pub proof fn an_outcome_moves_the_loop_on(widget: WidgetModel, submitted: bool)
    ensures
        ({
            let after = step(widget, WidgetEvent::SubmissionFinished(submitted));
            let done = WidgetModel { submission: None, ..widget };
            let ui = widget.ui;
            let timed = widget.submission == Some(SubmissionOrigin::Timer) || widget.submission
                == Some(SubmissionOrigin::TurnComplete) && !ui.immediate;
            let single = ui.interval_minutes is None && !ui.immediate;
            let could_wait = ui.enabled && ui.interval_minutes is Some && !ui.timer_pending;
            &&& widget.submission is None ==> after == widget && !widget.goes_on_after_submission(
                submitted,
            )
            &&& widget.submission is Some && submitted ==> widget.goes_on_after_submission(submitted)
            &&& widget.submission is Some && submitted && !single ==> after == done
            &&& widget.submission is Some && submitted && single ==> is_stopped(widget, after)
                && after.outbox == widget.outbox.push(
                EffectModel::PublishStatus(snapshot_of(after.ui, None)),
            )
            &&& widget.submission is Some && !submitted && !(timed && could_wait) ==> after == done
                && !widget.goes_on_after_submission(submitted)
            &&& widget.submission is Some && !submitted && timed && could_wait && has_more(ui)
                ==> waits(done, after, ui.interval_minutes->Some_0)
                && widget.goes_on_after_submission(submitted)
            &&& widget.submission is Some && !submitted && timed && could_wait && !has_more(ui)
                ==> ends_at(done, after, ui.max_iterations->Some_0)
                && !widget.goes_on_after_submission(submitted)
        }),
{
    let done = WidgetModel { submission: None, ..widget };
    let ui = widget.ui;
    if ui.enabled && ui.interval_minutes is Some && !ui.timer_pending {
        if has_more(ui) {
            lemma_waits(done);
        } else {
            lemma_ends(done);
        }
    }
}

/// A turn that was interrupted or failed stops the loop and makes that known, and does nothing else.
pub proof fn a_broken_turn_only_stops(widget: WidgetModel)
    ensures
        ({
            let after = step(widget, WidgetEvent::TurnBroken);
            &&& is_stopped(widget, after)
            &&& after.outbox == widget.outbox.push(
                EffectModel::PublishStatus(snapshot_of(after.ui, None)),
            )
        }),
{
}

/// A window with a loop that was just started, before it does anything about it.
pub open spec fn has_started(widget: WidgetModel, start: LoopStart, generation: u64) -> WidgetModel {
    let ui = LoopModel {
        enabled: true,
        completed_iterations: 0,
        interval_minutes: start.interval_minutes,
        immediate: start.immediate,
        max_iterations: start.max_iterations,
        timer_pending: false,
        generation,
        prompt: trimmed(start.prompt),
    };
    let status = snapshot_of(ui, None);
    WidgetModel {
        ui,
        submission: None,
        outbox: widget.outbox.push(EffectModel::PublishStatus(status)).push(
            EffectModel::PublishStatus(status),
        ).push(
            EffectModel::ShowStatus {
                status,
                hint: "Usage: /loop <minutes> [--max N] <prompt> | /loop now [--max N] <prompt> | /loop --immediate [--max N] <prompt> | /loop once <prompt> | /loop stop"@,
            },
        ),
        ..widget
    }
}

/// A start begins a new loop from nothing, under a new generation, shows it, and puts out its first
/// iteration if nothing goes before it. One with a prompt of more than 1024 bytes is refused.
pub proof fn a_start_begins_anew(widget: WidgetModel, start: LoopStart, generation: u64)
    requires
        follows(generation, widget.ui.generation),
    ensures
        ({
            let after = widget.started(start);
            let begun = has_started(widget, start, generation);
            let long = utf8_len(trimmed(start.prompt)) > 1024;
            let free = widget.session.configured && !widget.session.turn_active
                && !widget.session.priority_work;
            &&& long ==> only_says(
                widget,
                after,
                EffectModel::Error("Loop prompt or reason exceeds its size limit."@),
            )
            &&& !long && !free ==> after == begun
            &&& !long && free && start.max_iterations != Some(0usize) ==> puts_out_the_next(
                begun,
                after,
                SubmissionOrigin::Start,
            )
            &&& !long && free && start.max_iterations == Some(0usize) ==> ends_at(begun, after, 0)
        }),
{
    let begun = has_started(widget, start, generation);
    if start.max_iterations == Some(0usize) {
        lemma_ends(begun);
    } else if is_free(begun) {
        lemma_next(begun, SubmissionOrigin::Start);
    }
}

/// What an attempt to put out an iteration does: it puts one out where the loop runs, has more to do
/// and nothing goes before it; a loop that has no more to do ends.
pub proof fn an_attempt_needs_a_free_session(widget: WidgetModel, origin: SubmissionOrigin)
    ensures
        ({
            let after = widget.after_attempt(origin);
            let ui = widget.ui;
            &&& widget.submits() <==> ui.enabled && is_free(widget) && has_more(ui)
            &&& ui.enabled && is_free(widget) && has_more(ui) ==> puts_out_the_next(
                widget,
                after,
                origin,
            )
            &&& ui.enabled && is_free(widget) && !has_more(ui) ==> ends_at(
                widget,
                after,
                ui.max_iterations->Some_0,
            )
            &&& !ui.enabled || !is_free(widget) ==> after == widget
        }),
{
    if widget.ui.enabled && is_free(widget) {
        if has_more(widget.ui) {
            lemma_next(widget, origin);
        } else {
            lemma_ends(widget);
        }
    }
}

/// What an attempt to start the timer does: it starts it where the loop runs, is timed, has more to do
/// and does not wait already; a loop that has no more to do ends.
pub proof fn a_timer_needs_a_timed_loop(widget: WidgetModel)
    ensures
        ({
            let after = widget.scheduled();
            let ui = widget.ui;
            let could_wait = ui.enabled && ui.interval_minutes is Some && !ui.timer_pending;
            &&& widget.schedules() <==> could_wait && has_more(ui)
            &&& could_wait && has_more(ui) ==> waits(widget, after, ui.interval_minutes->Some_0)
            &&& could_wait && !has_more(ui) ==> ends_at(widget, after, ui.max_iterations->Some_0)
            &&& !could_wait ==> after == widget
            &&& widget.at_max() <==> !has_more(ui)
        }),
{
    let ui = widget.ui;
    if ui.enabled && ui.interval_minutes is Some && !ui.timer_pending {
        if has_more(ui) {
            lemma_waits(widget);
        } else {
            lemma_ends(widget);
        }
    }
}

/// A loop that is stopped because of its limit says how many iterations that was.
pub proof fn the_limit_is_named(widget: WidgetModel)
    requires
        widget.ui.max_iterations is Some,
    ensures
        ends_at(widget, widget.stopped_at_max(), widget.ui.max_iterations->Some_0),
{
}

/// The status is shown with how the command is used, after it is made known, and nothing else changes.
pub proof fn the_status_is_shown(widget: WidgetModel)
    ensures
        ({
            let after = widget.status_shown();
            let status = snapshot_of(widget.ui, None);
            &&& after.outbox == widget.outbox.push(EffectModel::PublishStatus(status)).push(
                EffectModel::ShowStatus {
                    status,
                    hint: "Usage: /loop <minutes> [--max N] <prompt> | /loop now [--max N] <prompt> | /loop --immediate [--max N] <prompt> | /loop once <prompt> | /loop stop"@,
                },
            )
            &&& after.ui == widget.ui
            &&& after.submission == widget.submission
            &&& after.session == widget.session
            &&& after.paths == widget.paths
        }),
{
}

/// A message that came in is submitted whole, never as a shell command, if its envelope takes 8000
/// bytes at most, and is otherwise refused; nothing else about the window is different.
pub proof fn a_message_is_submitted_or_refused(widget: WidgetModel, message: MessageModel)
    ensures
        ({
            let after = step(widget, WidgetEvent::Message(message));
            let size = utf8_len(json_text(envelope(message)));
            &&& size <= 8000 ==> only_says(
                widget,
                after,
                EffectModel::SubmitMessage {
                    text: model_text(message),
                    local_images: local_images(message.attachments),
                    history_text: display_text(message, widget.paths),
                    shell_escapes: ShellEscapePolicy::Disallow,
                },
            )
            &&& size > 8000 ==> only_says(
                widget,
                after,
                EffectModel::Error("Inbound channel message exceeds its size limit."@),
            )
        }),
{
}

/// A message that was written out is submitted as it was written, if its envelope takes 8000 bytes at
/// most.
pub proof fn what_was_written_is_submitted(
    widget: WidgetModel,
    envelope_json: Seq<char>,
    text: Seq<char>,
    images: Seq<LocalImageModel>,
    history_text: Seq<char>,
)
    ensures
        ({
            let after = widget.messaged_as(envelope_json, text, images, history_text);
            &&& utf8_len(envelope_json) <= 8000 ==> only_says(
                widget,
                after,
                EffectModel::SubmitMessage {
                    text,
                    local_images: images,
                    history_text,
                    shell_escapes: ShellEscapePolicy::Disallow,
                },
            )
            &&& utf8_len(envelope_json) > 8000 ==> only_says(
                widget,
                after,
                EffectModel::Error("Inbound channel message exceeds its size limit."@),
            )
        }),
{
}

/// A new window runs no loop, says nothing and submits nothing while its session is not configured.
pub proof fn a_new_window_is_quiet(paths: PathStyle)
    ensures
        ({
            let widget = new_window(paths);
            &&& widget.paths == paths
            &&& !widget.ui.enabled
            &&& widget.ui.completed_iterations == 0
            &&& widget.ui.interval_minutes is None
            &&& !widget.ui.immediate
            &&& widget.ui.max_iterations is None
            &&& !widget.ui.timer_pending
            &&& widget.ui.generation == 0
            &&& widget.ui.prompt.len() == 0
            &&& !widget.session.configured
            &&& widget.submission is None
            &&& widget.outbox.len() == 0
        }),
{
}

} // verus!
