//! The chat window's part in local loops and inbound channel messages.
//!
//! The window decides; what it decides goes to its outbox as effects, which the surroundings carry
//! out in order. Only the outcome of submitting a loop iteration comes back, through
//! [`ChatWidget::finish_loop_submission`].

use crate::channel_event::{ChannelMessageEvent, MessageModel};
use crate::channel_format::{
    channel_message_local_images, display_text, envelope, envelope_text,
    format_channel_message_for_display, format_channel_message_for_model, local_images, model_text,
    LocalImageAttachment, LocalImageModel,
};
use crate::fragments::{ContextualUserFragment, LoopContinuation, LOOP_CONTINUATION_TEXT};
use crate::json_text::json_text;
use crate::loop_protocol::{
    LoopControlAction, LoopControlEvent, LoopControlMode, LoopRequestModel, LOOP_MAX_ERROR,
    LOOP_SIZE_ERROR, MAX_LOOP_PROMPT_BYTES,
};
use crate::numerals::{decimal, decimal_text, parse_unsigned, parsed};
use crate::text::{
    byte_len, join, joined, lowered, same_text, split_first_word, split_words, texts, to_lower,
    trim, trimmed, utf8_len, word_len, words, PathStyle,
};
use vstd::prelude::*;

verus! {

broadcast use vstd::string::group_string_axioms;

/// How the loop command is used.
pub const LOOP_USAGE: &'static str = "Usage: /loop <minutes> [--max N] <prompt> | /loop now [--max N] <prompt> | /loop --immediate [--max N] <prompt> | /loop once <prompt> | /loop stop";

/// How a timed loop is started.
pub const TIMED_LOOP_USAGE: &'static str = "Usage: /loop <minutes> <prompt>";

/// The complaint about an interval that is no number.
pub const INTERVAL_NUMBER_ERROR: &'static str = "Loop interval must be a positive number of minutes.";

/// The complaint about an interval of no minutes.
pub const INTERVAL_ZERO_ERROR: &'static str = "Loop interval must be greater than zero minutes.";

/// The complaint about a limit that is no number.
pub const MAX_NUMBER_ERROR: &'static str = "Loop max must be a positive number.";

/// The complaint about a timed loop without an interval.
pub const INTERVAL_MISSING_ERROR: &'static str = "loop_control start mode=timed requires interval_minutes.";

/// The complaint about an inbound message that is too large.
pub const MESSAGE_SIZE_ERROR: &'static str = "Inbound channel message exceeds its size limit.";

/// What is said when the loop is stopped on request.
pub const STOPPED_BY_CONTROL: &'static str = "Loop stopped by loop_control.";

/// The number of bytes that the envelope of an inbound message may take.
pub const MAX_CHANNEL_MESSAGE_BYTES: usize = 8000;

/// What the window knows of its session.
#[derive(Debug, Clone, Copy)]
pub struct SessionStatus {
    /// Whether the session is configured.
    pub configured: bool,
    /// Whether a turn of the user is pending or running.
    pub turn_active: bool,
    /// Whether anything goes before the loop: queued input, pending steers, the recovery from a rate
    /// limit or a goal that is actively continuing.
    pub priority_work: bool,
}

/// On what occasion a loop iteration was submitted.
#[derive(Debug, Clone, Copy)]
pub enum SubmissionOrigin {
    /// The loop was started.
    Start,
    /// A turn was complete.
    TurnComplete,
    /// The loop's timer fired.
    Timer,
}

/// Whether the loop goes on.
#[derive(Debug, Clone, Copy, PartialEq, Eq, Structural)]
pub enum LoopAnswer {
    /// It does not go on now.
    No,
    /// It goes on: its timer was started.
    Yes,
    /// An iteration was handed to the session. Whether the loop goes on is answered when the outcome
    /// comes back.
    Pending,
}

/// The state of the loop.
#[derive(Debug)]
struct LoopUi {
    enabled: bool,
    completed_iterations: usize,
    interval_minutes: Option<u64>,
    immediate: bool,
    max_iterations: Option<usize>,
    timer_pending: bool,
    generation: u64,
    prompt: String,
}

/// The state of the loop.
pub struct LoopModel {
    pub enabled: bool,
    pub completed_iterations: usize,
    pub interval_minutes: Option<u64>,
    pub immediate: bool,
    pub max_iterations: Option<usize>,
    pub timer_pending: bool,
    pub generation: u64,
    pub prompt: Seq<char>,
}

impl LoopUi {
    spec fn model(&self) -> LoopModel {
        LoopModel {
            enabled: self.enabled,
            completed_iterations: self.completed_iterations,
            interval_minutes: self.interval_minutes,
            immediate: self.immediate,
            max_iterations: self.max_iterations,
            timer_pending: self.timer_pending,
            generation: self.generation,
            prompt: self.prompt@,
        }
    }
}

/// What others see of the loop.
#[derive(Debug)]
pub struct LoopStatusSnapshot {
    pub active: bool,
    pub mode: LoopControlMode,
    pub completed_iterations: usize,
    pub interval_minutes: Option<u64>,
    pub max_iterations: Option<usize>,
    pub timer_pending: bool,
    pub prompt: String,
    pub last_reason: Option<String>,
}

/// What others see of the loop.
pub struct SnapshotModel {
    pub active: bool,
    pub mode: LoopControlMode,
    pub completed_iterations: usize,
    pub interval_minutes: Option<u64>,
    pub max_iterations: Option<usize>,
    pub timer_pending: bool,
    pub prompt: Seq<char>,
    pub last_reason: Option<Seq<char>>,
}

impl View for LoopStatusSnapshot {
    type V = SnapshotModel;

    open spec fn view(&self) -> SnapshotModel {
        SnapshotModel {
            active: self.active,
            mode: self.mode,
            completed_iterations: self.completed_iterations,
            interval_minutes: self.interval_minutes,
            max_iterations: self.max_iterations,
            timer_pending: self.timer_pending,
            prompt: self.prompt@,
            last_reason: self.last_reason.deep_view(),
        }
    }
}

/// Whether a submitted text that starts like a shell command is run as one.
#[derive(Debug, Clone, Copy, PartialEq, Eq, Structural)]
pub enum ShellEscapePolicy {
    Allow,
    Disallow,
}

/// What the surroundings of the window are to do.
#[derive(Debug)]
pub enum WidgetEffect {
    /// Make the loop's status known.
    PublishStatus(LoopStatusSnapshot),
    /// Show the loop's status to the user, with a hint.
    ShowStatus { status: LoopStatusSnapshot, hint: String },
    /// Tell the user something.
    Info(String),
    /// Tell the user that something went wrong.
    Error(String),
    /// Submit a loop iteration, and report the outcome.
    SubmitIteration { prompt: String, history_text: String, shell_escapes: ShellEscapePolicy },
    /// Submit an inbound message.
    SubmitMessage {
        text: String,
        local_images: Vec<LocalImageAttachment>,
        history_text: String,
        shell_escapes: ShellEscapePolicy,
    },
    /// Report, after so many seconds, that the timer of this generation has fired.
    StartTimer { seconds: u64, generation: u64 },
}

/// What the surroundings of the window are to do.
pub enum EffectModel {
    PublishStatus(SnapshotModel),
    ShowStatus { status: SnapshotModel, hint: Seq<char> },
    Info(Seq<char>),
    Error(Seq<char>),
    SubmitIteration {
        prompt: Seq<char>,
        history_text: Seq<char>,
        shell_escapes: ShellEscapePolicy,
    },
    SubmitMessage {
        text: Seq<char>,
        local_images: Seq<LocalImageModel>,
        history_text: Seq<char>,
        shell_escapes: ShellEscapePolicy,
    },
    StartTimer { seconds: u64, generation: u64 },
}

impl View for WidgetEffect {
    type V = EffectModel;

    open spec fn view(&self) -> EffectModel {
        match self {
            WidgetEffect::PublishStatus(status) => EffectModel::PublishStatus(status@),
            WidgetEffect::ShowStatus { status, hint } => EffectModel::ShowStatus {
                status: status@,
                hint: hint@,
            },
            WidgetEffect::Info(message) => EffectModel::Info(message@),
            WidgetEffect::Error(message) => EffectModel::Error(message@),
            WidgetEffect::SubmitIteration { prompt, history_text, shell_escapes } =>
                EffectModel::SubmitIteration {
                prompt: prompt@,
                history_text: history_text@,
                shell_escapes: *shell_escapes,
            },
            WidgetEffect::SubmitMessage { text, local_images, history_text, shell_escapes } =>
                EffectModel::SubmitMessage {
                text: text@,
                local_images: local_images.deep_view(),
                history_text: history_text@,
                shell_escapes: *shell_escapes,
            },
            WidgetEffect::StartTimer { seconds, generation } => EffectModel::StartTimer {
                seconds: *seconds,
                generation: *generation,
            },
        }
    }
}

impl DeepView for WidgetEffect {
    type V = EffectModel;

    open spec fn deep_view(&self) -> EffectModel {
        self.view()
    }
}

/// The chat window.
#[derive(Debug)]
pub struct ChatWidget {
    paths: PathStyle,
    loop_ui: LoopUi,
    session: SessionStatus,
    submission: Option<SubmissionOrigin>,
    outbox: Vec<WidgetEffect>,
}

/// The chat window.
pub struct WidgetModel {
    /// How the platform writes paths.
    pub paths: PathStyle,
    /// The state of the loop.
    pub ui: LoopModel,
    /// What the window knows of its session.
    pub session: SessionStatus,
    /// The iteration whose submission has not come back, by its occasion.
    pub submission: Option<SubmissionOrigin>,
    /// What is to be done, in order.
    pub outbox: Seq<EffectModel>,
}

impl View for ChatWidget {
    type V = WidgetModel;

    closed spec fn view(&self) -> WidgetModel {
        WidgetModel {
            paths: self.paths,
            ui: self.loop_ui.model(),
            session: self.session,
            submission: self.submission,
            outbox: self.outbox.deep_view(),
        }
    }
}

/// The mode of a loop.
pub open spec fn mode_of(ui: LoopModel) -> LoopControlMode {
    if ui.interval_minutes is Some {
        LoopControlMode::Timed
    } else if ui.immediate {
        LoopControlMode::Immediate
    } else {
        LoopControlMode::Once
    }
}

/// What others see of a loop.
pub open spec fn snapshot_of(ui: LoopModel, last_reason: Option<Seq<char>>) -> SnapshotModel {
    SnapshotModel {
        active: ui.enabled,
        mode: mode_of(ui),
        completed_iterations: ui.completed_iterations,
        interval_minutes: ui.interval_minutes,
        max_iterations: ui.max_iterations,
        timer_pending: ui.timer_pending,
        prompt: ui.prompt,
        last_reason,
    }
}

/// What an iteration of a loop says: its prompt, or the default where it has none.
pub open spec fn active_prompt(ui: LoopModel) -> Seq<char> {
    if ui.prompt.len() == 0 {
        LOOP_CONTINUATION_TEXT@
    } else {
        ui.prompt
    }
}

/// The generation after another; after the last one comes the first.
pub open spec fn next_generation(generation: u64) -> u64 {
    if generation == u64::MAX {
        0
    } else {
        (generation + 1) as u64
    }
}

/// The count of iterations after one more; it stays at the largest number.
pub open spec fn next_count(count: usize) -> usize {
    if count == usize::MAX {
        usize::MAX
    } else {
        (count + 1) as usize
    }
}

/// An interval in seconds; one that is too long for a number is the largest number.
pub open spec fn interval_seconds(minutes: u64) -> u64 {
    if minutes * 60 > u64::MAX {
        u64::MAX
    } else {
        (minutes * 60) as u64
    }
}

/// How a loop is started.
pub struct LoopStart {
    pub interval_minutes: Option<u64>,
    pub immediate: bool,
    pub max_iterations: Option<usize>,
    pub prompt: Seq<char>,
}

impl WidgetModel {
    /// The window with one more thing to do.
    pub open spec fn emitted(self, effect: EffectModel) -> WidgetModel {
        WidgetModel { outbox: self.outbox.push(effect), ..self }
    }

    /// The window after its loop's status is made known.
    pub open spec fn published(self, last_reason: Option<Seq<char>>) -> WidgetModel {
        self.emitted(EffectModel::PublishStatus(snapshot_of(self.ui, last_reason)))
    }

    /// The window after the user is told something.
    pub open spec fn informed(self, message: Seq<char>) -> WidgetModel {
        self.emitted(EffectModel::Info(message))
    }

    /// The window after the user is told that something went wrong.
    pub open spec fn complained(self, message: Seq<char>) -> WidgetModel {
        self.emitted(EffectModel::Error(message))
    }

    /// The window after the user is shown the loop's status.
    pub open spec fn status_shown(self) -> WidgetModel {
        self.published(None).emitted(
            EffectModel::ShowStatus { status: snapshot_of(self.ui, None), hint: LOOP_USAGE@ },
        )
    }

    /// The window after its loop is stopped. Timers of the loop are out of date from then on.
    pub open spec fn stopped(self) -> WidgetModel {
        WidgetModel {
            ui: LoopModel {
                enabled: false,
                timer_pending: false,
                generation: next_generation(self.ui.generation),
                ..self.ui
            },
            submission: None,
            ..self
        }.published(None)
    }

    /// Whether the loop has made all its iterations.
    pub open spec fn at_max(self) -> bool {
        self.ui.max_iterations matches Some(max) && self.ui.completed_iterations >= max
    }

    /// The window after its loop is stopped because it has made all its iterations.
    pub open spec fn stopped_at_max(self) -> WidgetModel {
        self.stopped().informed(
            "Loop stopped after "@ + decimal(self.ui.max_iterations->Some_0 as nat)
                + " iteration(s)."@,
        )
    }

    /// Whether a loop iteration can be submitted now.
    pub open spec fn idle(self) -> bool {
        &&& self.session.configured
        &&& !self.session.turn_active
        &&& !self.session.priority_work
        &&& self.submission is None
    }

    /// Whether an attempt to submit an iteration puts one out.
    pub open spec fn submits(self) -> bool {
        self.ui.enabled && self.idle() && !self.at_max()
    }

    /// The window after an attempt to submit an iteration.
    pub open spec fn after_attempt(self, origin: SubmissionOrigin) -> WidgetModel {
        if !self.ui.enabled || !self.idle() {
            self
        } else if self.at_max() {
            self.stopped_at_max()
        } else {
            let count = next_count(self.ui.completed_iterations);
            let counted = WidgetModel {
                ui: LoopModel { completed_iterations: count, ..self.ui },
                submission: Some(origin),
                ..self
            };
            counted.published(None).informed(
                "Loop iteration "@ + decimal(count as nat) + " submitted."@,
            ).emitted(
                EffectModel::SubmitIteration {
                    prompt: active_prompt(counted.ui),
                    history_text: "/loop iteration "@ + decimal(count as nat),
                    shell_escapes: ShellEscapePolicy::Disallow,
                },
            )
        }
    }

    /// Whether an attempt to start the timer starts it.
    pub open spec fn schedules(self) -> bool {
        &&& self.ui.interval_minutes is Some
        &&& self.ui.enabled
        &&& !self.ui.timer_pending
        &&& !self.at_max()
    }

    /// The window after an attempt to start the timer.
    pub open spec fn scheduled(self) -> WidgetModel {
        if self.ui.interval_minutes is None || !self.ui.enabled || self.ui.timer_pending {
            self
        } else if self.at_max() {
            self.stopped_at_max()
        } else {
            let minutes = self.ui.interval_minutes->Some_0;
            WidgetModel { ui: LoopModel { timer_pending: true, ..self.ui }, ..self }.published(
                None,
            ).emitted(
                EffectModel::StartTimer {
                    seconds: interval_seconds(minutes),
                    generation: self.ui.generation,
                },
            ).informed(
                "Loop scheduled next iteration in "@ + decimal(minutes as nat) + " minute(s)."@,
            )
        }
    }

    /// The window after an attempt to start a loop. A prompt that is too long starts none.
    pub open spec fn started(self, start: LoopStart) -> WidgetModel {
        if utf8_len(trimmed(start.prompt)) > MAX_LOOP_PROMPT_BYTES {
            self.complained(LOOP_SIZE_ERROR@)
        } else {
            WidgetModel {
                ui: LoopModel {
                    enabled: true,
                    completed_iterations: 0,
                    interval_minutes: start.interval_minutes,
                    immediate: start.immediate,
                    max_iterations: start.max_iterations,
                    timer_pending: false,
                    generation: next_generation(self.ui.generation),
                    prompt: trimmed(start.prompt),
                },
                submission: None,
                ..self
            }.published(None).status_shown().after_attempt(SubmissionOrigin::Start)
        }
    }

    /// Whether the loop goes on after a turn by submitting an iteration, not by waiting: it is
    /// immediate, or none of its iterations was submitted yet.
    pub open spec fn goes_on_at_once(self) -> bool {
        self.ui.immediate || self.ui.completed_iterations == 0
    }

    /// The window after a turn is complete.
    pub open spec fn after_turn(self) -> WidgetModel {
        if !self.ui.enabled {
            self
        } else if self.at_max() {
            self.stopped_at_max()
        } else if self.goes_on_at_once() {
            self.after_attempt(SubmissionOrigin::TurnComplete)
        } else {
            self.scheduled()
        }
    }

    /// Whether the loop goes on after a turn is complete.
    pub open spec fn answer_after_turn(self) -> LoopAnswer {
        if !self.ui.enabled || self.at_max() {
            LoopAnswer::No
        } else if self.goes_on_at_once() {
            if self.submits() {
                LoopAnswer::Pending
            } else {
                LoopAnswer::No
            }
        } else if self.schedules() {
            LoopAnswer::Yes
        } else {
            LoopAnswer::No
        }
    }

    /// The window after a timer fired.
    pub open spec fn after_timer(self, generation: u64) -> WidgetModel {
        if generation != self.ui.generation {
            self
        } else {
            let fired = WidgetModel {
                ui: LoopModel { timer_pending: false, ..self.ui },
                ..self
            }.published(None);
            let tried = fired.after_attempt(SubmissionOrigin::Timer);
            if fired.submits() || !tried.ui.enabled {
                tried
            } else {
                tried.scheduled()
            }
        }
    }

    /// Whether the timer is tried where the session refused the iteration: not for a loop that was
    /// just started, and not for an immediate one whose turn is over.
    pub open spec fn waits_if_refused(self) -> bool {
        match self.submission {
            None => false,
            Some(SubmissionOrigin::Start) => false,
            Some(SubmissionOrigin::TurnComplete) => !self.ui.immediate,
            Some(SubmissionOrigin::Timer) => true,
        }
    }

    /// Whether the loop goes on once the outcome of a submission came back: it does where the session
    /// took the iteration, and where it did not but the timer was started.
    pub open spec fn goes_on_after_submission(self, submitted: bool) -> bool {
        self.submission is Some && (submitted || self.waits_if_refused() && self.schedules())
    }

    /// The window after the outcome of a submission came back.
    pub open spec fn after_submission(self, submitted: bool) -> WidgetModel {
        let done = WidgetModel { submission: None, ..self };
        match self.submission {
            None => self,
            Some(origin) => if submitted {
                if mode_of(self.ui) == LoopControlMode::Once {
                    done.stopped()
                } else {
                    done
                }
            } else if self.waits_if_refused() {
                done.scheduled()
            } else {
                done
            },
        }
    }
}

/// A window without a loop, whose session is not configured yet.
pub open spec fn new_window(paths: PathStyle) -> WidgetModel {
    WidgetModel {
        paths,
        ui: LoopModel {
            enabled: false,
            completed_iterations: 0,
            interval_minutes: None,
            immediate: false,
            max_iterations: None,
            timer_pending: false,
            generation: 0,
            prompt: seq![],
        },
        session: SessionStatus { configured: false, turn_active: false, priority_work: false },
        submission: None,
        outbox: seq![],
    }
}

/// What a loop command asks for.
pub enum LoopCommand {
    Status,
    Stop,
    Start(LoopStart),
    /// Nothing that can be done; the user is told so in these words.
    Fail(Seq<char>),
}

/// The limit and the prompt that the words of a loop command give, or what is wrong with them.
pub open spec fn loop_options(tokens: Seq<Seq<char>>, max: Option<usize>) -> Result<
    (Option<usize>, Seq<char>),
    Seq<char>,
>
    decreases tokens.len(),
{
    if tokens.len() == 0 || tokens[0] != "--max"@ {
        Ok((max, joined(tokens, " "@)))
    } else if tokens.len() == 1 {
        Err(LOOP_USAGE@)
    } else {
        match parsed(tokens[1], usize::MAX as nat) {
            None => Err(MAX_NUMBER_ERROR@),
            Some(n) => if n == 0 {
                Err(LOOP_MAX_ERROR@)
            } else {
                loop_options(tokens.skip(2), Some(n as usize))
            },
        }
    }
}

/// What the arguments of an immediate loop ask for.
pub open spec fn immediate_command(args: Seq<char>) -> LoopCommand {
    match loop_options(words(args), None) {
        Ok(options) => LoopCommand::Start(
            LoopStart {
                interval_minutes: None,
                immediate: true,
                max_iterations: options.0,
                prompt: options.1,
            },
        ),
        Err(message) => LoopCommand::Fail(message),
    }
}

/// What the arguments of a timed loop ask for.
pub open spec fn timed_command(args: Seq<char>) -> LoopCommand {
    let minutes_text = args.take(word_len(args) as int);
    if minutes_text.len() == 0 {
        LoopCommand::Fail(TIMED_LOOP_USAGE@)
    } else {
        match parsed(minutes_text, u64::MAX as nat) {
            None => LoopCommand::Fail(INTERVAL_NUMBER_ERROR@),
            Some(minutes) => if minutes == 0 {
                LoopCommand::Fail(INTERVAL_ZERO_ERROR@)
            } else {
                match loop_options(words(trimmed(args.skip(word_len(args) as int))), None) {
                    Ok(options) => LoopCommand::Start(
                        LoopStart {
                            interval_minutes: Some(minutes as u64),
                            immediate: false,
                            max_iterations: options.0,
                            prompt: options.1,
                        },
                    ),
                    Err(message) => LoopCommand::Fail(message),
                }
            },
        }
    }
}

/// What the prompt of a loop of one iteration asks for.
pub open spec fn once_command(prompt: Seq<char>) -> LoopCommand {
    LoopCommand::Start(
        LoopStart { interval_minutes: None, immediate: false, max_iterations: Some(1), prompt },
    )
}

/// What the arguments of the loop command ask for.
pub open spec fn loop_command(args: Seq<char>) -> LoopCommand {
    let given = trimmed(args);
    let first = if given.len() == 0 {
        "status"@
    } else {
        lowered(given.take(word_len(given) as int))
    };
    let rest = trimmed(given.skip(word_len(given) as int));
    if first == "status"@ {
        LoopCommand::Status
    } else if first == "stop"@ || first == "pause"@ {
        LoopCommand::Stop
    } else if first == "once"@ {
        once_command(rest)
    } else if first == "now"@ || first == "immediate"@ || first == "--immediate"@ || first
        == "--now"@ {
        immediate_command(rest)
    } else if parsed(first, u64::MAX as nat) is Some {
        timed_command(given)
    } else {
        LoopCommand::Fail(LOOP_USAGE@)
    }
}

/// What a request to start a loop asks for.
pub open spec fn start_command(request: LoopRequestModel) -> LoopCommand {
    let prompt = match request.prompt {
        Some(prompt) => prompt,
        None => seq![],
    };
    let mode = match request.mode {
        Some(mode) => mode,
        None => LoopControlMode::Immediate,
    };
    if request.max_iterations == Some(0usize) {
        LoopCommand::Fail(LOOP_MAX_ERROR@)
    } else {
        match mode {
            LoopControlMode::Timed => match request.interval_minutes {
                None => LoopCommand::Fail(INTERVAL_MISSING_ERROR@),
                Some(minutes) => if minutes == 0 {
                    LoopCommand::Fail(INTERVAL_ZERO_ERROR@)
                } else {
                    LoopCommand::Start(
                        LoopStart {
                            interval_minutes: Some(minutes),
                            immediate: false,
                            max_iterations: request.max_iterations,
                            prompt,
                        },
                    )
                },
            },
            LoopControlMode::Immediate => LoopCommand::Start(
                LoopStart {
                    interval_minutes: None,
                    immediate: true,
                    max_iterations: request.max_iterations,
                    prompt,
                },
            ),
            LoopControlMode::Once => once_command(prompt),
        }
    }
}

/// The reason that a request gives, without the white space around it.
pub open spec fn given_reason(reason: Option<Seq<char>>) -> Option<Seq<char>> {
    match reason {
        Some(text) => if trimmed(text).len() > 0 {
            Some(trimmed(text))
        } else {
            None
        },
        None => None,
    }
}

impl WidgetModel {
    /// The window after a loop command is carried out.
    pub open spec fn commanded(self, command: LoopCommand) -> WidgetModel {
        match command {
            LoopCommand::Status => self.status_shown(),
            LoopCommand::Stop => self.stopped().status_shown(),
            LoopCommand::Start(start) => self.started(start),
            LoopCommand::Fail(message) => self.complained(message),
        }
    }

    /// The window after a request to the loop is carried out.
    pub open spec fn controlled(self, request: LoopRequestModel) -> WidgetModel {
        match request.action {
            LoopControlAction::Status => self.status_shown(),
            LoopControlAction::Stop => {
                let reason = given_reason(request.reason);
                let message = match reason {
                    Some(text) => STOPPED_BY_CONTROL@ + " Reason: "@ + text,
                    None => STOPPED_BY_CONTROL@,
                };
                self.stopped().published(reason).informed(message)
            },
            LoopControlAction::Start => self.commanded(start_command(request)),
        }
    }

    /// The window after an inbound message that was written out: its envelope, what the model reads,
    /// its images and what the reader sees. One whose envelope is too large is not submitted.
    pub open spec fn messaged_as(
        self,
        envelope_json: Seq<char>,
        text: Seq<char>,
        images: Seq<LocalImageModel>,
        history_text: Seq<char>,
    ) -> WidgetModel {
        if utf8_len(envelope_json) > MAX_CHANNEL_MESSAGE_BYTES {
            self.complained(MESSAGE_SIZE_ERROR@)
        } else {
            self.emitted(
                EffectModel::SubmitMessage {
                    text,
                    local_images: images,
                    history_text,
                    shell_escapes: ShellEscapePolicy::Disallow,
                },
            )
        }
    }

    /// The window after an inbound message.
    pub open spec fn messaged(self, message: MessageModel) -> WidgetModel {
        self.messaged_as(
            json_text(envelope(message)),
            model_text(message),
            local_images(message.attachments),
            display_text(message, self.paths),
        )
    }
}

impl LoopUi {
    /// What others see of the loop.
    fn snapshot(&self, last_reason: Option<String>) -> (snapshot: LoopStatusSnapshot)
        ensures
            snapshot@ == snapshot_of(self.model(), last_reason.deep_view()),
    {
        let mode = match self.interval_minutes {
            Some(_) => LoopControlMode::Timed,
            None => if self.immediate {
                LoopControlMode::Immediate
            } else {
                LoopControlMode::Once
            },
        };
        LoopStatusSnapshot {
            active: self.enabled,
            mode,
            completed_iterations: self.completed_iterations,
            interval_minutes: self.interval_minutes,
            max_iterations: self.max_iterations,
            timer_pending: self.timer_pending,
            prompt: self.prompt.clone(),
            last_reason,
        }
    }

    /// What an iteration of the loop says.
    fn active_prompt(&self) -> (prompt: String)
        ensures
            prompt@ == active_prompt(self.model()),
    {
        if self.prompt.as_str().is_empty() {
            LoopContinuation.body()
        } else {
            self.prompt.clone()
        }
    }
}

/// A text with a number in it.
fn numbered(before: &str, n: u64, after: &str) -> (text: String)
    ensures
        text@ == before@ + decimal(n as nat) + after@,
{
    let mut text = before.to_owned();
    text.append(decimal_text(n).as_str());
    text.append(after);
    text
}

impl ChatWidget {
    /// A window without a loop, whose session is not configured yet, on a platform that writes paths as
    /// `paths` says.
    pub fn new(paths: PathStyle) -> (widget: Self)
        ensures
            widget@ == new_window(paths),
    {
        let widget = ChatWidget {
            paths,
            loop_ui: LoopUi {
                enabled: false,
                completed_iterations: 0,
                interval_minutes: None,
                immediate: false,
                max_iterations: None,
                timer_pending: false,
                generation: 0,
                prompt: String::new(),
            },
            session: SessionStatus { configured: false, turn_active: false, priority_work: false },
            submission: None,
            outbox: Vec::new(),
        };
        assert(widget@.outbox =~= seq![]);
        assert(widget@.ui.prompt =~= seq![]);
        widget
    }

    /// Takes note of what the session is doing.
    pub fn set_session_status(&mut self, session: SessionStatus)
        ensures
            final(self)@ == (WidgetModel { session, ..old(self)@ }),
    {
        self.session = session;
    }

    /// What is to be done, in order. The outbox is empty afterwards.
    pub fn take_effects(&mut self) -> (effects: Vec<WidgetEffect>)
        ensures
            effects.deep_view() == old(self)@.outbox,
            final(self)@ == (WidgetModel { outbox: seq![], ..old(self)@ }),
    {
        let mut effects: Vec<WidgetEffect> = Vec::new();
        std::mem::swap(&mut effects, &mut self.outbox);
        assert(self@.outbox =~= seq![]);
        effects
    }

    /// What others see of the loop.
    pub fn loop_status(&self) -> (snapshot: LoopStatusSnapshot)
        ensures
            snapshot@ == snapshot_of(self@.ui, None),
    {
        self.loop_ui.snapshot(None)
    }

    /// Puts a thing to do into the outbox.
    fn emit(&mut self, effect: WidgetEffect)
        ensures
            final(self)@ == old(self)@.emitted(effect@),
    {
        self.outbox.push(effect);
        assert(self@.outbox =~= old(self)@.outbox.push(effect@));
    }

    /// Tells the user something.
    fn add_info_message(&mut self, message: String)
        ensures
            final(self)@ == old(self)@.informed(message@),
    {
        self.emit(WidgetEffect::Info(message));
    }

    /// Tells the user that something went wrong.
    fn add_error_message(&mut self, message: &str)
        ensures
            final(self)@ == old(self)@.complained(message@),
    {
        self.emit(WidgetEffect::Error(message.to_owned()));
    }

    /// Shows the loop's status to the user.
    pub fn add_loop_status_output(&mut self)
        ensures
            final(self)@ == old(self)@.status_shown(),
    {
        self.publish_loop_status(None);
        let status = self.loop_ui.snapshot(None);
        self.emit(WidgetEffect::ShowStatus { status, hint: LOOP_USAGE.to_owned() });
    }

    /// Makes the loop's status known.
    pub fn publish_loop_status(&mut self, last_reason: Option<String>)
        ensures
            final(self)@ == old(self)@.published(last_reason.deep_view()),
    {
        let status = self.loop_ui.snapshot(last_reason);
        self.emit(WidgetEffect::PublishStatus(status));
    }

    /// Carries out a request to the loop.
    pub fn on_loop_control(&mut self, event: LoopControlEvent)
        ensures
            final(self)@ == old(self)@.controlled(event@),
    {
        match event.action {
            LoopControlAction::Status => self.add_loop_status_output(),
            LoopControlAction::Stop => {
                self.stop_loop();
                let mut message = STOPPED_BY_CONTROL.to_owned();
                let mut last_reason: Option<String> = None;
                match &event.reason {
                    Some(text) => {
                        let reason = trim(text.as_str());
                        if !reason.is_empty() {
                            message.append(" Reason: ");
                            message.append(reason);
                            last_reason = Some(reason.to_owned());
                        }
                    },
                    None => {},
                }
                self.publish_loop_status(last_reason);
                self.add_info_message(message);
            },
            LoopControlAction::Start => self.start_loop_from_control(event),
        }
    }

    /// Carries out a request to start a loop.
    pub fn start_loop_from_control(&mut self, event: LoopControlEvent)
        ensures
            final(self)@ == old(self)@.commanded(start_command(event@)),
    {
        match event.max_iterations {
            Some(max) => {
                if max == 0 {
                    self.add_error_message(LOOP_MAX_ERROR);
                    return;
                }
            },
            None => {},
        }
        let mode = match event.mode {
            Some(mode) => mode,
            None => LoopControlMode::Immediate,
        };
        let prompt = match event.prompt {
            Some(prompt) => prompt,
            None => String::new(),
        };
        assert(event.prompt is None ==> prompt@ =~= seq![]);
        match mode {
            LoopControlMode::Timed => {
                match event.interval_minutes {
                    Some(minutes) => {
                        if minutes == 0 {
                            self.add_error_message(INTERVAL_ZERO_ERROR);
                            return;
                        }
                        self.start_loop(
                            Some(minutes),
                            false,
                            event.max_iterations,
                            prompt.as_str(),
                        );
                    },
                    None => self.add_error_message(INTERVAL_MISSING_ERROR),
                }
            },
            LoopControlMode::Immediate => {
                self.start_loop(None, true, event.max_iterations, prompt.as_str());
            },
            LoopControlMode::Once => {
                self.start_loop(None, false, Some(1), prompt.as_str());
            },
        }
    }

    /// Carries out the loop command.
    pub fn handle_loop_command_args(&mut self, args: &str)
        ensures
            final(self)@ == old(self)@.commanded(loop_command(args@)),
    {
        let given = trim(args);
        if given.is_empty() {
            self.add_loop_status_output();
            return;
        }
        let (word, after) = split_first_word(given);
        let rest = trim(after);
        let lower = to_lower(word);
        let command = lower.as_str();
        if same_text(command, "status") {
            self.add_loop_status_output();
        } else if same_text(command, "stop") || same_text(command, "pause") {
            self.stop_loop();
            self.add_loop_status_output();
        } else if same_text(command, "once") {
            self.start_one_shot_loop(rest);
        } else if same_text(command, "now") || same_text(command, "immediate") || same_text(
            command,
            "--immediate",
        ) || same_text(command, "--now") {
            self.start_immediate_loop_from_args(rest);
        } else if parse_unsigned(command, u64::MAX).is_some() {
            self.start_timed_loop_from_args(given);
        } else {
            self.add_error_message(LOOP_USAGE);
        }
    }

    /// Starts a timed loop from its arguments.
    pub fn start_timed_loop_from_args(&mut self, args: &str)
        ensures
            final(self)@ == old(self)@.commanded(timed_command(args@)),
    {
        let (minutes_text, after) = split_first_word(args);
        if minutes_text.is_empty() {
            self.add_error_message(TIMED_LOOP_USAGE);
            return;
        }
        match parse_unsigned(minutes_text, u64::MAX) {
            Some(minutes) => {
                if minutes == 0 {
                    self.add_error_message(INTERVAL_ZERO_ERROR);
                    return;
                }
                match self.parse_loop_options(trim(after)) {
                    Some((max_iterations, prompt)) => {
                        self.start_loop(Some(minutes), false, max_iterations, prompt.as_str());
                    },
                    None => {},
                }
            },
            None => self.add_error_message(INTERVAL_NUMBER_ERROR),
        }
    }

    /// Starts an immediate loop from its arguments.
    pub fn start_immediate_loop_from_args(&mut self, args: &str)
        ensures
            final(self)@ == old(self)@.commanded(immediate_command(args@)),
    {
        match self.parse_loop_options(args) {
            Some((max_iterations, prompt)) => {
                self.start_loop(None, true, max_iterations, prompt.as_str());
            },
            None => {},
        }
    }

    /// Starts a loop of one iteration.
    pub fn start_one_shot_loop(&mut self, prompt: &str)
        ensures
            final(self)@ == old(self)@.commanded(once_command(prompt@)),
    {
        self.start_loop(None, false, Some(1), prompt);
    }

    /// The limit and the prompt in the arguments of a loop. Where they are wrong, the user is told.
    pub fn parse_loop_options(&mut self, args: &str) -> (options: Option<(Option<usize>, String)>)
        ensures
            match loop_options(words(args@), None) {
                Ok(given) => {
                    &&& options matches Some(found) && found.0 == given.0 && found.1@ == given.1
                    &&& final(self)@ == old(self)@
                },
                Err(message) => options is None && final(self)@ == old(self)@.complained(message),
            },
    {
        let tokens = split_words(args);
        let n: usize = tokens.len();
        let ghost all = words(args@);
        let mut max_iterations: Option<usize> = None;
        let mut i: usize = 0;
        assert(all.skip(0) =~= all);
        while i < n && same_text(tokens[i].as_str(), "--max")
            invariant
                i <= n,
                n == tokens@.len(),
                texts(tokens@) == all,
                all == words(args@),
                *self == *old(self),
                loop_options(all, None) == loop_options(all.skip(i as int), max_iterations),
            decreases n - i,
        {
            let ghost rest = all.skip(i as int);
            assert(rest[0] == tokens@[i as int]@);
            if n - i < 2 {
                self.add_error_message(LOOP_USAGE);
                return None;
            }
            assert(rest[1] == tokens@[i + 1]@);
            match parse_unsigned(tokens[i + 1].as_str(), usize::MAX as u64) {
                Some(parsed) => {
                    if parsed == 0 {
                        self.add_error_message(LOOP_MAX_ERROR);
                        return None;
                    }
                    max_iterations = Some(parsed as usize);
                },
                None => {
                    self.add_error_message(MAX_NUMBER_ERROR);
                    return None;
                },
            }
            assert(rest.skip(2) =~= all.skip(i + 2));
            i = i + 2;
        }
        let mut prompt_parts: Vec<String> = Vec::new();
        let ghost rest = all.skip(i as int);
        assert(i < n ==> rest[0] == tokens@[i as int]@);
        let mut k: usize = i;
        while k < n
            invariant
                i <= k <= n,
                n == tokens@.len(),
                texts(tokens@) == all,
                texts(prompt_parts@) == all.subrange(i as int, k as int),
            decreases n - k,
        {
            let ghost before = texts(prompt_parts@);
            prompt_parts.push(tokens[k].clone());
            proof {
                assert(texts(prompt_parts@) =~= before.push(tokens@[k as int]@));
                assert(all[k as int] == tokens@[k as int]@);
                assert(all.subrange(i as int, k + 1) =~= all.subrange(i as int, k as int).push(
                    all[k as int],
                ));
            }
            k = k + 1;
        }
        assert(all.subrange(i as int, n as int) =~= rest);
        Some((max_iterations, join(&prompt_parts, " ")))
    }

    /// Starts a loop in place of the one there is.
    pub fn start_loop(
        &mut self,
        interval_minutes: Option<u64>,
        immediate: bool,
        max_iterations: Option<usize>,
        prompt: &str,
    )
        ensures
            final(self)@ == old(self)@.started(
                LoopStart { interval_minutes, immediate, max_iterations, prompt: prompt@ },
            ),
    {
        let prompt = trim(prompt);
        if byte_len(prompt) > MAX_LOOP_PROMPT_BYTES {
            self.add_error_message(LOOP_SIZE_ERROR);
            return;
        }
        self.loop_ui.enabled = true;
        self.loop_ui.completed_iterations = 0;
        self.loop_ui.interval_minutes = interval_minutes;
        self.loop_ui.immediate = immediate;
        self.loop_ui.max_iterations = max_iterations;
        self.loop_ui.timer_pending = false;
        self.loop_ui.generation = self.loop_ui.generation.wrapping_add(1);
        self.loop_ui.prompt = prompt.to_owned();
        self.submission = None;
        self.publish_loop_status(None);
        self.add_loop_status_output();
        let _submitted = self.maybe_submit_loop_follow_up(SubmissionOrigin::Start);
    }

    /// Stops the loop.
    pub fn stop_loop(&mut self)
        ensures
            final(self)@ == old(self)@.stopped(),
    {
        self.loop_ui.enabled = false;
        self.loop_ui.timer_pending = false;
        self.loop_ui.generation = self.loop_ui.generation.wrapping_add(1);
        self.submission = None;
        self.publish_loop_status(None);
    }

    /// Stops the loop where it has made all its iterations.
    pub fn stop_loop_after_max_iterations(&mut self) -> (stopped: bool)
        ensures
            stopped == old(self)@.at_max(),
            final(self)@ == (if old(self)@.at_max() {
                old(self)@.stopped_at_max()
            } else {
                old(self)@
            }),
    {
        let max_iterations: usize = match self.loop_ui.max_iterations {
            Some(max) => max,
            None => return false,
        };
        if self.loop_ui.completed_iterations < max_iterations {
            return false;
        }
        self.stop_loop();
        self.add_info_message(
            numbered("Loop stopped after ", max_iterations as u64, " iteration(s)."),
        );
        true
    }

    /// Goes on with the loop after a turn is complete: submits an iteration or starts the timer. Where
    /// an iteration was handed to the session, [`ChatWidget::finish_loop_submission`] answers whether
    /// the loop goes on.
    pub fn maybe_continue_loop_after_turn(&mut self) -> (answer: LoopAnswer)
        ensures
            final(self)@ == old(self)@.after_turn(),
            answer == old(self)@.answer_after_turn(),
    {
        if !self.loop_ui.enabled {
            return LoopAnswer::No;
        }
        if self.stop_loop_after_max_iterations() {
            return LoopAnswer::No;
        }
        if self.loop_ui.immediate || self.loop_ui.completed_iterations == 0 {
            return self.maybe_submit_loop_follow_up(SubmissionOrigin::TurnComplete);
        }
        if self.schedule_loop_timer() {
            LoopAnswer::Yes
        } else {
            LoopAnswer::No
        }
    }

    /// Starts the timer of a timed loop.
    pub fn schedule_loop_timer(&mut self) -> (scheduled: bool)
        ensures
            scheduled == old(self)@.schedules(),
            final(self)@ == old(self)@.scheduled(),
    {
        let interval_minutes: u64 = match self.loop_ui.interval_minutes {
            Some(minutes) => minutes,
            None => return false,
        };
        if !self.loop_ui.enabled || self.loop_ui.timer_pending {
            return false;
        }
        if self.stop_loop_after_max_iterations() {
            return false;
        }
        self.loop_ui.timer_pending = true;
        self.publish_loop_status(None);
        let seconds: u64 = match interval_minutes.checked_mul(60) {
            Some(seconds) => seconds,
            None => u64::MAX,
        };
        let generation: u64 = self.loop_ui.generation;
        self.emit(WidgetEffect::StartTimer { seconds, generation });
        self.add_info_message(
            numbered("Loop scheduled next iteration in ", interval_minutes, " minute(s)."),
        );
        true
    }

    /// Goes on with the loop after its timer fired. A timer of another generation changes nothing.
    pub fn on_loop_timer_fired(&mut self, generation: u64)
        ensures
            final(self)@ == old(self)@.after_timer(generation),
    {
        if generation != self.loop_ui.generation {
            return;
        }
        self.loop_ui.timer_pending = false;
        self.publish_loop_status(None);
        let answer = self.maybe_submit_loop_follow_up(SubmissionOrigin::Timer);
        if answer == LoopAnswer::No && self.loop_ui.enabled {
            let _scheduled = self.schedule_loop_timer();
        }
    }

    /// Hands an iteration of the loop to the session, where nothing else goes before it. Whether the
    /// session took it is answered by [`ChatWidget::finish_loop_submission`].
    pub fn maybe_submit_loop_follow_up(&mut self, origin: SubmissionOrigin) -> (answer: LoopAnswer)
        ensures
            answer == (if old(self)@.submits() {
                LoopAnswer::Pending
            } else {
                LoopAnswer::No
            }),
            final(self)@ == old(self)@.after_attempt(origin),
    {
        if !self.loop_ui.enabled || !self.session.configured || self.session.turn_active
            || self.session.priority_work || self.submission.is_some() {
            return LoopAnswer::No;
        }
        if self.stop_loop_after_max_iterations() {
            return LoopAnswer::No;
        }
        self.loop_ui.completed_iterations = self.loop_ui.completed_iterations.saturating_add(1);
        self.submission = Some(origin);
        self.publish_loop_status(None);
        let iteration: u64 = self.loop_ui.completed_iterations as u64;
        let prompt = self.loop_ui.active_prompt();
        self.add_info_message(numbered("Loop iteration ", iteration, " submitted."));
        let mut history_text = "/loop iteration ".to_owned();
        history_text.append(decimal_text(iteration).as_str());
        self.emit(
            WidgetEffect::SubmitIteration {
                prompt,
                history_text,
                shell_escapes: ShellEscapePolicy::Disallow,
            },
        );
        LoopAnswer::Pending
    }

    /// Goes on with the loop once the outcome of submitting an iteration is known, and answers whether
    /// it goes on. A refused iteration leaves the loop as it is, but for a timer that may be started.
    pub fn finish_loop_submission(&mut self, submitted: bool) -> (continued: bool)
        ensures
            final(self)@ == old(self)@.after_submission(submitted),
            continued == old(self)@.goes_on_after_submission(submitted),
    {
        let origin: SubmissionOrigin = match self.submission {
            Some(origin) => origin,
            None => return false,
        };
        self.submission = None;
        if submitted {
            if self.loop_ui.interval_minutes.is_none() && !self.loop_ui.immediate {
                self.stop_loop();
            }
            return true;
        }
        let wait: bool = match origin {
            SubmissionOrigin::Start => false,
            SubmissionOrigin::TurnComplete => !self.loop_ui.immediate,
            SubmissionOrigin::Timer => true,
        };
        if wait {
            return self.schedule_loop_timer();
        }
        false
    }

    /// Submits an inbound message. One that is too large is refused, and the user is told.
    pub fn on_channel_message(&mut self, ev: ChannelMessageEvent)
        ensures
            final(self)@ == old(self)@.messaged(ev@),
    {
        let history_text = format_channel_message_for_display(&ev, self.paths);
        let text = format_channel_message_for_model(&ev);
        let local_images = channel_message_local_images(&ev);
        self.submit_channel_message(envelope_text(&ev).as_str(), text, local_images, history_text);
    }

    /// Submits an inbound message that was written out, where its envelope is not too large.
    pub fn submit_channel_message(
        &mut self,
        envelope_json: &str,
        text: String,
        local_images: Vec<LocalImageAttachment>,
        history_text: String,
    )
        ensures
            final(self)@ == old(self)@.messaged_as(
                envelope_json@,
                text@,
                local_images.deep_view(),
                history_text@,
            ),
    {
        if byte_len(envelope_json) > MAX_CHANNEL_MESSAGE_BYTES {
            self.add_error_message(MESSAGE_SIZE_ERROR);
            return;
        }
        self.emit(
            WidgetEffect::SubmitMessage {
                text,
                local_images,
                history_text,
                shell_escapes: ShellEscapePolicy::Disallow,
            },
        );
    }
}

} // verus!
