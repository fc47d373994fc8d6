//! What holds of the loop whatever happens to it.

use crate::channel_event::MessageModel;
use crate::chat_widget::{
    active_prompt, interval_seconds, loop_command, mode_of, new_window, next_count, next_generation,
    start_command, EffectModel, LoopCommand, LoopModel, LoopStart, SessionStatus, ShellEscapePolicy,
    SubmissionOrigin, WidgetModel,
};
use crate::loop_protocol::{
    request_fault, LoopControlAction, LoopControlMode, LoopRequestModel, MAX_LOOP_PROMPT_BYTES,
};
use crate::text::{
    trimmed, trimmed_is_idempotent, trimming_makes_no_text_longer, utf8_len, PathStyle,
};
use vstd::prelude::*;

verus! {

broadcast use vstd::string::group_string_axioms;

/// What can happen to the window.
pub enum WidgetEvent {
    /// The user gave the loop command, with these arguments.
    Command(Seq<char>),
    /// The model made a request to the loop.
    Control(LoopRequestModel),
    /// A turn is complete.
    TurnComplete,
    /// A turn was interrupted or failed, which stops the loop.
    TurnBroken,
    /// The timer of this generation fired.
    TimerFired(u64),
    /// The outcome of submitting an iteration came back.
    SubmissionFinished(bool),
    /// The session changed.
    SessionChanged(SessionStatus),
    /// A message came in.
    Message(MessageModel),
    /// The surroundings took what was to be done.
    EffectsTaken,
}

/// The window after an event.
pub open spec fn step(widget: WidgetModel, event: WidgetEvent) -> WidgetModel {
    match event {
        WidgetEvent::Command(args) => widget.commanded(loop_command(args)),
        WidgetEvent::Control(request) => widget.controlled(request),
        WidgetEvent::TurnComplete => widget.after_turn(),
        WidgetEvent::TurnBroken => widget.stopped(),
        WidgetEvent::TimerFired(generation) => widget.after_timer(generation),
        WidgetEvent::SubmissionFinished(submitted) => widget.after_submission(submitted),
        WidgetEvent::SessionChanged(session) => WidgetModel { session, ..widget },
        WidgetEvent::Message(message) => widget.messaged(message),
        WidgetEvent::EffectsTaken => WidgetModel { outbox: seq![], ..widget },
    }
}

/// The window after events, one after the other.
pub open spec fn run(widget: WidgetModel, events: Seq<WidgetEvent>) -> WidgetModel
    decreases events.len(),
{
    if events.len() == 0 {
        widget
    } else {
        step(run(widget, events.drop_last()), events.last())
    }
}

/// How an event starts a loop, if it does.
pub open spec fn start_in(event: WidgetEvent) -> Option<LoopStart> {
    let command = match event {
        WidgetEvent::Command(args) => loop_command(args),
        WidgetEvent::Control(request) => if request.action == LoopControlAction::Start {
            start_command(request)
        } else {
            LoopCommand::Status
        },
        _ => LoopCommand::Status,
    };
    match command {
        LoopCommand::Start(start) => if utf8_len(trimmed(start.prompt)) <= MAX_LOOP_PROMPT_BYTES {
            Some(start)
        } else {
            None
        },
        _ => None,
    }
}

/// Whether none of the events starts a loop.
pub open spec fn starts_none(events: Seq<WidgetEvent>) -> bool {
    forall|i: int| 0 <= i < events.len() ==> start_in(#[trigger] events[i]) is None
}

/// The number of loop iterations among things to do.
pub open spec fn submissions(effects: Seq<EffectModel>) -> nat
    decreases effects.len(),
{
    if effects.len() == 0 {
        0
    } else if effects.last() is SubmitIteration {
        submissions(effects.drop_last()) + 1
    } else {
        submissions(effects.drop_last())
    }
}

/// The number of timers among things to do.
pub open spec fn timers(effects: Seq<EffectModel>) -> nat
    decreases effects.len(),
{
    if effects.len() == 0 {
        0
    } else if effects.last() is StartTimer {
        timers(effects.drop_last()) + 1
    } else {
        timers(effects.drop_last())
    }
}

/// The number of loop iterations that an event puts out.
pub open spec fn submitted_by(widget: WidgetModel, event: WidgetEvent) -> int {
    if event is EffectsTaken {
        0
    } else {
        submissions(step(widget, event).outbox) - submissions(widget.outbox)
    }
}

/// The number of timers that an event puts out.
pub open spec fn timers_by(widget: WidgetModel, event: WidgetEvent) -> int {
    if event is EffectsTaken {
        0
    } else {
        timers(step(widget, event).outbox) - timers(widget.outbox)
    }
}

/// The number of loop iterations that events put out, whether or not they were taken in between.
pub open spec fn submitted(widget: WidgetModel, events: Seq<WidgetEvent>) -> int
    decreases events.len(),
{
    if events.len() == 0 {
        0
    } else {
        submitted(widget, events.drop_last()) + submitted_by(
            run(widget, events.drop_last()),
            events.last(),
        )
    }
}

/// The number of timers that events put out, whether or not they were taken in between.
pub open spec fn timers_started(widget: WidgetModel, events: Seq<WidgetEvent>) -> int
    decreases events.len(),
{
    if events.len() == 0 {
        0
    } else {
        timers_started(widget, events.drop_last()) + timers_by(
            run(widget, events.drop_last()),
            events.last(),
        )
    }
}

proof fn lemma_emitted(widget: WidgetModel, effect: EffectModel)
    ensures
        submissions(widget.emitted(effect).outbox) == submissions(widget.outbox) + if effect is SubmitIteration {
            1nat
        } else {
            0nat
        },
        timers(widget.emitted(effect).outbox) == timers(widget.outbox) + if effect is StartTimer {
            1nat
        } else {
            0nat
        },
{
    assert(widget.outbox.push(effect).drop_last() =~= widget.outbox);
}

/// What every operation on the window keeps: the limit on the iterations, the limit on the prompt,
/// and that a timer runs for a timed loop only.
pub open spec fn sound(widget: WidgetModel) -> bool {
    &&& widget.ui.max_iterations matches Some(max) ==> widget.ui.completed_iterations <= max
    &&& utf8_len(widget.ui.prompt) <= MAX_LOOP_PROMPT_BYTES
    &&& trimmed(widget.ui.prompt) == widget.ui.prompt
    &&& widget.ui.timer_pending ==> widget.ui.enabled && widget.ui.interval_minutes is Some
    &&& widget.submission is Some ==> widget.ui.enabled
}

/// A new window is sound.
pub proof fn a_new_window_is_sound(paths: PathStyle)
    ensures
        sound(new_window(paths)),
{
}

/// Whatever happens, the window stays sound: a loop never counts more iterations than its limit, its
/// prompt is within its byte limit, a timer is pending for an enabled timed loop only, and only an
/// enabled loop waits for a submission.
pub proof fn the_window_stays_sound(widget: WidgetModel, event: WidgetEvent)
    requires
        sound(widget),
    ensures
        sound(step(widget, event)),
{
    match start_in(event) {
        Some(start) => {
            trimmed_is_idempotent(start.prompt);
        },
        None => {},
    }
}

/// Whatever happens one after the other, the window stays sound.
pub proof fn every_run_is_sound(widget: WidgetModel, events: Seq<WidgetEvent>)
    requires
        sound(widget),
    ensures
        sound(run(widget, events)),
    decreases events.len(),
{
    if events.len() > 0 {
        every_run_is_sound(widget, events.drop_last());
        the_window_stays_sound(run(widget, events.drop_last()), events.last());
    }
}

/// How many iterations and timers are put out on the way from one state of the window to another.
spec fn puts_out(
    before: WidgetModel,
    after: WidgetModel,
    iterations: nat,
    started: nat,
) -> bool {
    &&& submissions(after.outbox) == submissions(before.outbox) + iterations
    &&& timers(after.outbox) == timers(before.outbox) + started
}

proof fn lemma_status_shown(widget: WidgetModel)
    ensures
        puts_out(widget, widget.status_shown(), 0, 0),
{
    lemma_emitted(widget, widget.published(None).outbox.last());
    lemma_emitted(widget.published(None), widget.status_shown().outbox.last());
}

proof fn lemma_stopped(widget: WidgetModel)
    ensures
        puts_out(widget, widget.stopped(), 0, 0),
        puts_out(widget, widget.stopped_at_max(), 0, 0),
{
    let stopped = widget.stopped();
    assert(stopped.outbox.drop_last() =~= widget.outbox);
    assert(widget.stopped_at_max().outbox.drop_last() =~= stopped.outbox);
}

proof fn lemma_attempt(widget: WidgetModel, origin: SubmissionOrigin)
    ensures
        puts_out(
            widget,
            widget.after_attempt(origin),
            if widget.submits() {
                1
            } else {
                0
            },
            0,
        ),
{
    lemma_stopped(widget);
    if widget.submits() {
        let outbox = widget.after_attempt(origin).outbox;
        assert(outbox.drop_last().drop_last().drop_last() =~= widget.outbox);
        reveal_with_fuel(submissions, 4);
        reveal_with_fuel(timers, 4);
    }
}

proof fn lemma_scheduled(widget: WidgetModel)
    ensures
        puts_out(
            widget,
            widget.scheduled(),
            0,
            if widget.schedules() {
                1
            } else {
                0
            },
        ),
{
    lemma_stopped(widget);
    if widget.schedules() {
        let outbox = widget.scheduled().outbox;
        assert(outbox.drop_last().drop_last().drop_last() =~= widget.outbox);
        reveal_with_fuel(submissions, 4);
        reveal_with_fuel(timers, 4);
    }
}

/// A loop that was just started, before its first iteration.
spec fn just_started(widget: WidgetModel, start: LoopStart) -> WidgetModel {
    WidgetModel {
        ui: LoopModel {
            enabled: true,
            completed_iterations: 0,
            interval_minutes: start.interval_minutes,
            immediate: start.immediate,
            max_iterations: start.max_iterations,
            timer_pending: false,
            generation: next_generation(widget.ui.generation),
            prompt: trimmed(start.prompt),
        },
        submission: None,
        ..widget
    }.published(None).status_shown()
}

proof fn lemma_started(widget: WidgetModel, start: LoopStart)
    requires
        utf8_len(trimmed(start.prompt)) <= MAX_LOOP_PROMPT_BYTES,
    ensures
        widget.started(start) == just_started(widget, start).after_attempt(SubmissionOrigin::Start),
        puts_out(widget, just_started(widget, start), 0, 0),
        puts_out(
            widget,
            widget.started(start),
            if just_started(widget, start).submits() {
                1
            } else {
                0
            },
            0,
        ),
{
    let ready = just_started(widget, start);
    assert(ready.outbox.drop_last().drop_last().drop_last() =~= widget.outbox);
    assert(puts_out(widget, ready, 0, 0)) by {
        reveal_with_fuel(submissions, 4);
        reveal_with_fuel(timers, 4);
    }
    lemma_attempt(ready, SubmissionOrigin::Start);
}

/// Whether an event leads to an iteration of the loop that there is.
pub open spec fn submits_on(widget: WidgetModel, event: WidgetEvent) -> bool {
    match event {
        WidgetEvent::TurnComplete => widget.goes_on_at_once() && widget.submits(),
        WidgetEvent::TimerFired(generation) => generation == widget.ui.generation
            && widget.submits(),
        _ => false,
    }
}

/// Whether an event starts the timer of the loop that there is.
pub open spec fn waits_on(widget: WidgetModel, event: WidgetEvent) -> bool {
    match event {
        WidgetEvent::TurnComplete => !widget.goes_on_at_once() && widget.schedules(),
        WidgetEvent::TimerFired(generation) => {
            &&& generation == widget.ui.generation
            &&& widget.ui.enabled
            &&& widget.ui.interval_minutes is Some
            &&& !widget.idle()
            &&& !widget.at_max()
        },
        WidgetEvent::SubmissionFinished(submitted) => {
            &&& !submitted
            &&& match widget.submission {
                Some(SubmissionOrigin::TurnComplete) => !widget.ui.immediate,
                Some(SubmissionOrigin::Timer) => true,
                _ => false,
            }
            &&& widget.schedules()
        },
        _ => false,
    }
}

/// What an event that starts no loop puts out.
proof fn lemma_step_counts(widget: WidgetModel, event: WidgetEvent)
    requires
        start_in(event) is None,
    ensures
        submitted_by(widget, event) == if submits_on(widget, event) {
            1int
        } else {
            0int
        },
        timers_by(widget, event) == if waits_on(widget, event) {
            1int
        } else {
            0int
        },
{
    lemma_status_shown(widget);
    lemma_stopped(widget);
    lemma_status_shown(widget.stopped());
    match event {
        WidgetEvent::Command(args) => {
            match loop_command(args) {
                LoopCommand::Fail(message) => lemma_emitted(widget, EffectModel::Error(message)),
                LoopCommand::Start(start) => lemma_emitted(
                    widget,
                    widget.started(start).outbox.last(),
                ),
                _ => {},
            }
        },
        WidgetEvent::Control(request) => {
            match request.action {
                LoopControlAction::Stop => {
                    let after = step(widget, event);
                    assert(after.outbox.drop_last().drop_last() =~= widget.stopped().outbox);
                    reveal_with_fuel(submissions, 3);
                    reveal_with_fuel(timers, 3);
                },
                LoopControlAction::Status => {},
                LoopControlAction::Start => {
                    match start_command(request) {
                        LoopCommand::Fail(message) => lemma_emitted(
                            widget,
                            EffectModel::Error(message),
                        ),
                        LoopCommand::Start(start) => lemma_emitted(
                            widget,
                            widget.started(start).outbox.last(),
                        ),
                        _ => {},
                    }
                },
            }
        },
        WidgetEvent::TurnComplete => {
            lemma_attempt(widget, SubmissionOrigin::TurnComplete);
            lemma_scheduled(widget);
        },
        WidgetEvent::TimerFired(generation) => {
            let quiet = WidgetModel {
                ui: LoopModel { timer_pending: false, ..widget.ui },
                ..widget
            };
            let fired = quiet.published(None);
            lemma_emitted(quiet, fired.outbox.last());
            lemma_attempt(fired, SubmissionOrigin::Timer);
            lemma_scheduled(fired.after_attempt(SubmissionOrigin::Timer));
        },
        WidgetEvent::SubmissionFinished(submitted) => {
            let done = WidgetModel { submission: None, ..widget };
            lemma_stopped(done);
            lemma_scheduled(done);
        },
        WidgetEvent::TurnBroken => {},
        WidgetEvent::SessionChanged(session) => {},
        WidgetEvent::EffectsTaken => {},
        WidgetEvent::Message(message) => lemma_emitted(
            widget,
            widget.messaged(message).outbox.last(),
        ),
    }
}

/// An iteration is put out only where the session is configured, no turn is pending or running and
/// nothing goes before the loop.
pub proof fn iterations_wait_for_an_idle_session(widget: WidgetModel, event: WidgetEvent)
    requires
        submitted_by(widget, event) > 0,
    ensures
        widget.session.configured,
        !widget.session.turn_active,
        !widget.session.priority_work,
{
    match start_in(event) {
        Some(start) => lemma_started(widget, start),
        None => lemma_step_counts(widget, event),
    }
}

/// One event leads to one iteration at most.
pub proof fn an_event_submits_one_iteration_at_most(widget: WidgetModel, event: WidgetEvent)
    ensures
        0 <= submitted_by(widget, event) <= 1,
{
    match start_in(event) {
        Some(start) => lemma_started(widget, start),
        None => lemma_step_counts(widget, event),
    }
}

/// A start counts what it submits, and takes the limit over.
proof fn lemma_count_start(widget: WidgetModel, event: WidgetEvent)
    requires
        start_in(event) is Some,
    ensures
        step(widget, event).ui.max_iterations == start_in(event)->Some_0.max_iterations,
        step(widget, event).ui.completed_iterations == submitted_by(widget, event),
        step(widget, event).ui.max_iterations matches Some(max) ==> step(
            widget,
            event,
        ).ui.completed_iterations <= max,
{
    lemma_started(widget, start_in(event)->Some_0);
}

/// Another event counts what it submits, and never goes over the limit.
proof fn lemma_count_step(widget: WidgetModel, event: WidgetEvent)
    requires
        start_in(event) is None,
        widget.ui.max_iterations matches Some(max) && widget.ui.completed_iterations <= max,
    ensures
        step(widget, event).ui.max_iterations == widget.ui.max_iterations,
        step(widget, event).ui.completed_iterations == widget.ui.completed_iterations
            + submitted_by(widget, event),
        step(widget, event).ui.completed_iterations <= widget.ui.max_iterations->Some_0,
{
    lemma_step_counts(widget, event);
}

/// From the start of a loop with a limit until the next start, whatever happens in between, the
/// iterations that were submitted are those that the loop counts, and no more than the limit. It makes
/// no difference when the surroundings take what is to be done.
pub proof fn the_limit_holds(widget: WidgetModel, first: WidgetEvent, events: Seq<WidgetEvent>)
    requires
        start_in(first) matches Some(start) && start.max_iterations is Some,
        starts_none(events),
    ensures
        run(step(widget, first), events).ui.max_iterations == start_in(first)->Some_0.max_iterations,
        submitted_by(widget, first) + submitted(step(widget, first), events) == run(
            step(widget, first),
            events,
        ).ui.completed_iterations,
        run(step(widget, first), events).ui.completed_iterations
            <= start_in(first)->Some_0.max_iterations->Some_0,
        submitted_by(widget, first) + submitted(step(widget, first), events)
            <= start_in(first)->Some_0.max_iterations->Some_0,
    decreases events.len(),
{
    lemma_count_start(widget, first);
    if events.len() > 0 {
        let before = run(step(widget, first), events.drop_last());
        assert(starts_none(events.drop_last())) by {
            assert forall|i: int| 0 <= i < events.drop_last().len() implies start_in(
                #[trigger] events.drop_last()[i],
            ) is None by {
                assert(start_in(events[i]) is None);
            }
        }
        the_limit_holds(widget, first, events.drop_last());
        assert(start_in(events[events.len() - 1]) is None);
        lemma_count_step(before, events.last());
    }
}

/// A loop of one iteration submits one at most, and is over once that is submitted.
pub proof fn once_submits_one_iteration(
    widget: WidgetModel,
    first: WidgetEvent,
    events: Seq<WidgetEvent>,
)
    requires
        start_in(first) matches Some(start) && start.interval_minutes is None && !start.immediate
            && start.max_iterations == Some(1usize),
        starts_none(events),
    ensures
        submitted_by(widget, first) + submitted(step(widget, first), events) <= 1,
        step(widget, first).submission is Some ==> !step(
            step(widget, first),
            WidgetEvent::SubmissionFinished(true),
        ).ui.enabled,
{
    the_limit_holds(widget, first, events);
    lemma_started(widget, start_in(first)->Some_0);
}

/// An iteration that the session refuses leaves the loop enabled, in the same generation and as it
/// was, but for the count, and is answered with no. Where the timer is tried instead, the answer is
/// whether it was started.
pub proof fn a_refused_iteration_is_answered(widget: WidgetModel, origin: SubmissionOrigin)
    requires
        widget.submits(),
    ensures
        ({
            let asked = widget.after_attempt(origin);
            let refused = asked.after_submission(false);
            &&& asked.submission == Some(origin)
            &&& !asked.waits_if_refused() ==> {
                &&& !asked.goes_on_after_submission(false)
                &&& refused.ui == (LoopModel {
                    completed_iterations: next_count(widget.ui.completed_iterations),
                    ..widget.ui
                })
                &&& refused.submission is None
            }
            &&& asked.waits_if_refused() ==> asked.goes_on_after_submission(false)
                == asked.schedules()
            &&& asked.goes_on_after_submission(true)
            &&& origin is Start || widget.ui.immediate && origin is TurnComplete
                ==> !asked.waits_if_refused()
        }),
{
}

proof fn lemma_run_of_two(widget: WidgetModel, first: WidgetEvent, second: WidgetEvent)
    ensures
        run(widget, seq![first, second]) == step(step(widget, first), second),
        submitted(widget, seq![first, second]) == submitted_by(widget, first) + submitted_by(
            step(widget, first),
            second,
        ),
{
    let events = seq![first, second];
    assert(events.drop_last() =~= seq![first]);
    assert(events.drop_last().drop_last() =~= seq![]);
    reveal_with_fuel(run, 3);
    reveal_with_fuel(submitted, 3);
}

/// An idle session gets the first iteration of a loop at its start; another gets it when a turn
/// completes and the session is idle.
pub proof fn the_first_iteration_comes_when_idle(
    widget: WidgetModel,
    first: WidgetEvent,
    session: SessionStatus,
)
    requires
        start_in(first) matches Some(start) && start.max_iterations != Some(0usize),
        session.configured && !session.turn_active && !session.priority_work,
    ensures
        widget.session == session ==> submitted_by(widget, first) == 1,
        step(widget, first).submission is None ==> submitted_by(widget, first) + submitted(
            step(widget, first),
            seq![WidgetEvent::SessionChanged(session), WidgetEvent::TurnComplete],
        ) == 1,
{
    let started = step(widget, first);
    lemma_started(widget, start_in(first)->Some_0);
    lemma_run_of_two(started, WidgetEvent::SessionChanged(session), WidgetEvent::TurnComplete);
    let changed = WidgetModel { session, ..started };
    lemma_step_counts(changed, WidgetEvent::TurnComplete);
    assert(started.submission is None ==> started.ui.enabled && started.ui.completed_iterations == 0);
}

/// A start replaces the loop there was: its count is zero or one, it takes over nothing, and timers
/// from before are out of date.
pub proof fn a_start_replaces_the_loop(widget: WidgetModel, event: WidgetEvent)
    requires
        start_in(event) is Some,
    ensures
        ({
            let start = start_in(event)->Some_0;
            let ui = step(widget, event).ui;
            &&& ui.completed_iterations == submitted_by(widget, event)
            &&& ui.interval_minutes == start.interval_minutes
            &&& ui.immediate == start.immediate
            &&& ui.max_iterations == start.max_iterations
            &&& ui.prompt == trimmed(start.prompt)
            &&& !ui.timer_pending
            &&& ui.generation != widget.ui.generation
        }),
{
    lemma_started(widget, start_in(event)->Some_0);
}

/// How often an event starts or stops the loop. A start that allows no iteration stops at once in an
/// idle session.
pub open spec fn renewals(widget: WidgetModel, event: WidgetEvent) -> nat {
    match start_in(event) {
        Some(start) => if start.max_iterations == Some(0usize) && widget.session.configured
            && !widget.session.turn_active && !widget.session.priority_work {
            2
        } else {
            1
        },
        None => {
            let stops = match event {
                WidgetEvent::Command(args) => loop_command(args) is Stop,
                WidgetEvent::Control(request) => request.action == LoopControlAction::Stop,
                WidgetEvent::TurnComplete => widget.ui.enabled && widget.at_max(),
                WidgetEvent::TurnBroken => true,
                WidgetEvent::TimerFired(generation) => {
                    &&& generation == widget.ui.generation
                    &&& widget.ui.enabled
                    &&& widget.at_max()
                    &&& widget.idle() || widget.ui.interval_minutes is Some
                },
                WidgetEvent::SubmissionFinished(submitted) => match widget.submission {
                    None => false,
                    Some(origin) => if submitted {
                        mode_of(widget.ui) == LoopControlMode::Once
                    } else {
                        &&& match origin {
                            SubmissionOrigin::Start => false,
                            SubmissionOrigin::TurnComplete => !widget.ui.immediate,
                            SubmissionOrigin::Timer => true,
                        }
                        &&& widget.ui.interval_minutes is Some
                        &&& widget.ui.enabled
                        &&& !widget.ui.timer_pending
                        &&& widget.at_max()
                    },
                },
                _ => false,
            };
            if stops {
                1
            } else {
                0
            }
        },
    }
}

/// How often events start or stop the loop.
pub open spec fn all_renewals(widget: WidgetModel, events: Seq<WidgetEvent>) -> nat
    decreases events.len(),
{
    if events.len() == 0 {
        0
    } else {
        all_renewals(widget, events.drop_last()) + renewals(
            run(widget, events.drop_last()),
            events.last(),
        )
    }
}

/// The generation after a number of renewals.
pub open spec fn renewed(generation: u64, count: nat) -> int {
    (generation + count) % 0x1_0000_0000_0000_0000
}

proof fn lemma_renewed_step(generation: u64)
    ensures
        next_generation(generation) == renewed(generation, 1),
        next_generation(next_generation(generation)) == renewed(generation, 2),
        generation == renewed(generation, 0),
{
}

proof fn lemma_renewed_twice(first: u64, second: u64, a: nat, b: nat)
    requires
        second == renewed(first, a),
    ensures
        renewed(second, b) == renewed(first, a + b),
{
}

/// Each start and each stop moves the generation on by one.
proof fn lemma_generation_follows(widget: WidgetModel, event: WidgetEvent)
    ensures
        step(widget, event).ui.generation == renewed(
            widget.ui.generation,
            renewals(widget, event),
        ),
{
    lemma_renewed_step(widget.ui.generation);
    match start_in(event) {
        Some(start) => lemma_started(widget, start),
        None => {},
    }
}

/// Over any events the generation moves on by the number of starts and stops.
pub proof fn the_generation_counts_starts_and_stops(
    widget: WidgetModel,
    events: Seq<WidgetEvent>,
)
    ensures
        run(widget, events).ui.generation == renewed(
            widget.ui.generation,
            all_renewals(widget, events),
        ),
    decreases events.len(),
{
    if events.len() == 0 {
        lemma_renewed_step(widget.ui.generation);
    } else {
        the_generation_counts_starts_and_stops(widget, events.drop_last());
        let before = run(widget, events.drop_last());
        lemma_generation_follows(before, events.last());
        lemma_renewed_twice(
            widget.ui.generation,
            before.ui.generation,
            all_renewals(widget, events.drop_last()),
            renewals(before, events.last()),
        );
    }
}

/// Once the loop was stopped or replaced, a timer from before changes nothing, however much has
/// happened since, as long as there were fewer than 2^64 starts and stops.
pub proof fn old_timers_change_nothing(widget: WidgetModel, events: Seq<WidgetEvent>)
    requires
        0 < all_renewals(widget, events) < 0x1_0000_0000_0000_0000,
    ensures
        step(run(widget, events), WidgetEvent::TimerFired(widget.ui.generation)) == run(
            widget,
            events,
        ),
{
    the_generation_counts_starts_and_stops(widget, events);
}

/// Whether nothing that is submitted can escape to a shell.
pub open spec fn keeps_from_the_shell(effects: Seq<EffectModel>) -> bool {
    forall|i: int|
        0 <= i < effects.len() ==> match #[trigger] effects[i] {
            EffectModel::SubmitIteration { shell_escapes, .. } => shell_escapes
                == ShellEscapePolicy::Disallow,
            EffectModel::SubmitMessage { shell_escapes, .. } => shell_escapes
                == ShellEscapePolicy::Disallow,
            _ => true,
        }
}

proof fn lemma_kept_from_the_shell(widget: WidgetModel, effect: EffectModel)
    requires
        keeps_from_the_shell(widget.outbox),
        keeps_from_the_shell(seq![effect]),
    ensures
        keeps_from_the_shell(widget.emitted(effect).outbox),
{
    let effects = widget.outbox.push(effect);
    assert forall|i: int| 0 <= i < effects.len() implies match #[trigger] effects[i] {
        EffectModel::SubmitIteration { shell_escapes, .. } => shell_escapes
            == ShellEscapePolicy::Disallow,
        EffectModel::SubmitMessage { shell_escapes, .. } => shell_escapes
            == ShellEscapePolicy::Disallow,
        _ => true,
    } by {
        if i == widget.outbox.len() {
            assert(effects[i] == seq![effect][0]);
        } else {
            assert(effects[i] == widget.outbox[i]);
        }
    }
}

proof fn lemma_shell_status(widget: WidgetModel)
    requires
        keeps_from_the_shell(widget.outbox),
    ensures
        keeps_from_the_shell(widget.published(None).outbox),
        keeps_from_the_shell(widget.status_shown().outbox),
{
    let published = widget.published(None);
    lemma_kept_from_the_shell(widget, published.outbox.last());
    lemma_kept_from_the_shell(published, widget.status_shown().outbox.last());
}

proof fn lemma_shell_stopped(widget: WidgetModel)
    requires
        keeps_from_the_shell(widget.outbox),
    ensures
        keeps_from_the_shell(widget.stopped().outbox),
        keeps_from_the_shell(widget.stopped_at_max().outbox),
{
    let stopped = widget.stopped();
    lemma_kept_from_the_shell(widget, stopped.outbox.last());
    lemma_kept_from_the_shell(stopped, widget.stopped_at_max().outbox.last());
}

proof fn lemma_shell_attempt(widget: WidgetModel, origin: SubmissionOrigin)
    requires
        keeps_from_the_shell(widget.outbox),
    ensures
        keeps_from_the_shell(widget.after_attempt(origin).outbox),
{
    lemma_shell_stopped(widget);
    if widget.submits() {
        let effects = widget.after_attempt(origin).outbox;
        let n = widget.outbox.len() as int;
        let one = widget.emitted(effects[n]);
        let two = one.emitted(effects[n + 1]);
        lemma_kept_from_the_shell(widget, effects[n]);
        lemma_kept_from_the_shell(one, effects[n + 1]);
        lemma_kept_from_the_shell(two, effects[n + 2]);
        assert(effects =~= two.emitted(effects[n + 2]).outbox);
    }
}

proof fn lemma_shell_scheduled(widget: WidgetModel)
    requires
        keeps_from_the_shell(widget.outbox),
    ensures
        keeps_from_the_shell(widget.scheduled().outbox),
{
    lemma_shell_stopped(widget);
    if widget.schedules() {
        let effects = widget.scheduled().outbox;
        let n = widget.outbox.len() as int;
        let one = widget.emitted(effects[n]);
        let two = one.emitted(effects[n + 1]);
        lemma_kept_from_the_shell(widget, effects[n]);
        lemma_kept_from_the_shell(one, effects[n + 1]);
        lemma_kept_from_the_shell(two, effects[n + 2]);
        assert(effects =~= two.emitted(effects[n + 2]).outbox);
    }
}

proof fn lemma_shell_command(widget: WidgetModel, command: LoopCommand)
    requires
        keeps_from_the_shell(widget.outbox),
    ensures
        keeps_from_the_shell(widget.commanded(command).outbox),
{
    match command {
        LoopCommand::Status => lemma_shell_status(widget),
        LoopCommand::Stop => {
            lemma_shell_stopped(widget);
            lemma_shell_status(widget.stopped());
        },
        LoopCommand::Fail(message) => lemma_kept_from_the_shell(
            widget,
            EffectModel::Error(message),
        ),
        LoopCommand::Start(start) => {
            if utf8_len(trimmed(start.prompt)) <= MAX_LOOP_PROMPT_BYTES {
                let ready = just_started(widget, start);
                let n = widget.outbox.len() as int;
                let one = widget.emitted(ready.outbox[n]);
                let two = one.emitted(ready.outbox[n + 1]);
                lemma_kept_from_the_shell(widget, ready.outbox[n]);
                lemma_kept_from_the_shell(one, ready.outbox[n + 1]);
                lemma_kept_from_the_shell(two, ready.outbox[n + 2]);
                assert(ready.outbox =~= two.emitted(ready.outbox[n + 2]).outbox);
                lemma_shell_attempt(ready, SubmissionOrigin::Start);
            } else {
                lemma_kept_from_the_shell(widget, widget.started(start).outbox.last());
            }
        },
    }
}

proof fn lemma_shell_step(widget: WidgetModel, event: WidgetEvent)
    requires
        keeps_from_the_shell(widget.outbox),
    ensures
        keeps_from_the_shell(step(widget, event).outbox),
{
    match event {
        WidgetEvent::Command(args) => lemma_shell_command(widget, loop_command(args)),
        WidgetEvent::Control(request) => {
            match request.action {
                LoopControlAction::Status => lemma_shell_status(widget),
                LoopControlAction::Stop => {
                    let effects = step(widget, event).outbox;
                    let stopped = widget.stopped();
                    let n = stopped.outbox.len() as int;
                    let one = stopped.emitted(effects[n]);
                    lemma_shell_stopped(widget);
                    lemma_kept_from_the_shell(stopped, effects[n]);
                    lemma_kept_from_the_shell(one, effects[n + 1]);
                    assert(effects =~= one.emitted(effects[n + 1]).outbox);
                },
                LoopControlAction::Start => lemma_shell_command(widget, start_command(request)),
            }
        },
        WidgetEvent::TurnComplete => {
            lemma_shell_stopped(widget);
            lemma_shell_attempt(widget, SubmissionOrigin::TurnComplete);
            lemma_shell_scheduled(widget);
        },
        WidgetEvent::TurnBroken => lemma_shell_stopped(widget),
        WidgetEvent::TimerFired(generation) => {
            let quiet = WidgetModel {
                ui: LoopModel { timer_pending: false, ..widget.ui },
                ..widget
            };
            let fired = quiet.published(None);
            lemma_shell_status(quiet);
            lemma_shell_attempt(fired, SubmissionOrigin::Timer);
            lemma_shell_scheduled(fired.after_attempt(SubmissionOrigin::Timer));
        },
        WidgetEvent::SubmissionFinished(submitted) => {
            let done = WidgetModel { submission: None, ..widget };
            lemma_shell_stopped(done);
            lemma_shell_scheduled(done);
        },
        WidgetEvent::SessionChanged(session) => {},
        WidgetEvent::EffectsTaken => {},
        WidgetEvent::Message(message) => lemma_kept_from_the_shell(
            widget,
            widget.messaged(message).outbox.last(),
        ),
    }
}

/// Neither a loop iteration nor an inbound message is ever submitted with shell escapes allowed.
pub proof fn nothing_escapes_to_a_shell(widget: WidgetModel, events: Seq<WidgetEvent>)
    requires
        keeps_from_the_shell(widget.outbox),
    ensures
        keeps_from_the_shell(run(widget, events).outbox),
    decreases events.len(),
{
    if events.len() > 0 {
        nothing_escapes_to_a_shell(widget, events.drop_last());
        lemma_shell_step(run(widget, events.drop_last()), events.last());
    }
}

/// An interruption or an error stops the loop, and nothing of it is left to wait for.
pub proof fn a_broken_turn_stops_the_loop(widget: WidgetModel)
    ensures
        !step(widget, WidgetEvent::TurnBroken).ui.enabled,
        !step(widget, WidgetEvent::TurnBroken).ui.timer_pending,
        step(widget, WidgetEvent::TurnBroken).submission is None,
        step(widget, WidgetEvent::TurnBroken).ui.generation != widget.ui.generation,
{
}

/// A loop that is not enabled stays so, and puts out neither an iteration nor a timer, until one is
/// started.
pub proof fn a_stopped_loop_stays_stopped(widget: WidgetModel, events: Seq<WidgetEvent>)
    requires
        !widget.ui.enabled,
        starts_none(events),
    ensures
        !run(widget, events).ui.enabled,
        submitted(widget, events) == 0,
        timers_started(widget, events) == 0,
    decreases events.len(),
{
    if events.len() > 0 {
        assert(starts_none(events.drop_last())) by {
            assert forall|i: int| 0 <= i < events.drop_last().len() implies start_in(
                #[trigger] events.drop_last()[i],
            ) is None by {
                assert(start_in(events[i]) is None);
            }
        }
        a_stopped_loop_stays_stopped(widget, events.drop_last());
        assert(start_in(events[events.len() - 1]) is None);
        lemma_disabled_step(run(widget, events.drop_last()), events.last());
    }
}

proof fn lemma_disabled_step(widget: WidgetModel, event: WidgetEvent)
    requires
        !widget.ui.enabled,
        start_in(event) is None,
    ensures
        !step(widget, event).ui.enabled,
        submitted_by(widget, event) == 0,
        timers_by(widget, event) == 0,
{
    lemma_step_counts(widget, event);
}

/// After its first iteration a timed loop submits another only when its own timer fires.
pub proof fn timed_iterations_wait_for_the_timer(widget: WidgetModel, event: WidgetEvent)
    requires
        mode_of(widget.ui) == LoopControlMode::Timed,
        !widget.ui.immediate,
        widget.ui.completed_iterations > 0,
        start_in(event) is None,
        event != WidgetEvent::TimerFired(widget.ui.generation),
    ensures
        submitted_by(widget, event) == 0,
{
    lemma_step_counts(widget, event);
}

/// When a turn completes, a timed loop that has more iterations to make starts its timer, for the
/// interval it was given, unless the timer is running already.
pub proof fn a_timed_loop_waits_its_interval(widget: WidgetModel)
    requires
        widget.ui.enabled,
        widget.ui.interval_minutes is Some,
        !widget.ui.immediate,
        widget.ui.completed_iterations > 0,
        !widget.at_max(),
        !widget.ui.timer_pending,
    ensures
        step(widget, WidgetEvent::TurnComplete).ui.timer_pending,
        step(widget, WidgetEvent::TurnComplete).outbox.contains(
            EffectModel::StartTimer {
                seconds: interval_seconds(widget.ui.interval_minutes->Some_0),
                generation: widget.ui.generation,
            },
        ),
{
    let after = step(widget, WidgetEvent::TurnComplete);
    assert(after.outbox[after.outbox.len() - 2] == (EffectModel::StartTimer {
        seconds: interval_seconds(widget.ui.interval_minutes->Some_0),
        generation: widget.ui.generation,
    }));
}

/// While a timer is pending, no other is started for the same loop until it fires.
pub proof fn one_timer_at_a_time(widget: WidgetModel, event: WidgetEvent)
    requires
        widget.ui.timer_pending,
        event != WidgetEvent::TimerFired(widget.ui.generation),
    ensures
        timers_by(widget, event) == 0,
{
    match start_in(event) {
        Some(start) => lemma_started(widget, start),
        None => {
            lemma_step_counts(widget, event);
        },
    }
}

/// An iteration says the prompt of its loop, or the default continuation where there is none.
pub proof fn an_iteration_says_the_prompt(widget: WidgetModel, origin: SubmissionOrigin)
    requires
        widget.submits(),
    ensures
        widget.after_attempt(origin).outbox.last() matches EffectModel::SubmitIteration {
            prompt,
            ..
        } && prompt == active_prompt(widget.ui),
{
}

/// A request to start a loop that is within its limits starts one.
pub proof fn valid_requests_start_a_loop(request: LoopRequestModel)
    requires
        request.action == LoopControlAction::Start,
        request_fault(request) is None,
    ensures
        start_in(WidgetEvent::Control(request)) is Some,
{
    match request.prompt {
        Some(prompt) => trimming_makes_no_text_longer(prompt),
        None => {
            trimming_makes_no_text_longer(seq![]);
        },
    }
}

/// Asking for the status changes nothing of the loop.
pub proof fn status_changes_no_loop(widget: WidgetModel, request: LoopRequestModel)
    requires
        request.action == LoopControlAction::Status,
    ensures
        step(widget, WidgetEvent::Control(request)).ui == widget.ui,
        step(widget, WidgetEvent::Control(request)).submission == widget.submission,
{
}

} // verus!
