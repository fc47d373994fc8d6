//! What the loop command does, in terms of the words that the user typed.

use crate::chat_widget::{
    immediate_command, loop_command, loop_options, timed_command, EffectModel, LoopCommand,
    LoopStart, WidgetModel,
};
use crate::loop_laws::{
    run, starts_none, step, submitted, submitted_by, the_limit_holds, WidgetEvent,
};
use crate::numerals::{decimal, is_digit, parsed};
use crate::text::{is_space, lowered, trimmed, utf8_len, word_len, words};
use crate::text_laws::{
    a_solid_text_is_one_word, blank, even_texts_survive_their_words, evenly_spaced,
    lemma_decimal_digits, numbers_survive_being_written, small_letters_only_replace_capitals, snug,
    solid, the_first_word_ends_at_white_space, trimming_finds_the_inside,
    trimming_takes_white_space_only, white_space_has_no_words, white_space_parts_words,
};
use crate::window_laws::{is_stopped, only_says};
use vstd::prelude::*;

verus! {

broadcast use vstd::string::group_string_axioms;

/// White space around a text makes no difference to what is left when it is trimmed.
pub proof fn white_space_around_is_trimmed(lead: Seq<char>, s: Seq<char>, trail: Seq<char>)
    requires
        blank(lead),
        blank(trail),
    ensures
        trimmed(lead + s + trail) == trimmed(s),
{
    let ends = trimming_takes_white_space_only(s);
    let before = lead + ends.0;
    let after = ends.1 + trail;
    assert(blank(before)) by {
        assert forall|i: int| 0 <= i < before.len() implies is_space(#[trigger] before[i]) by {
            if i < lead.len() {
                assert(before[i] == lead[i]);
            } else {
                assert(before[i] == ends.0[i - lead.len()]);
            }
        }
    }
    assert(blank(after)) by {
        assert forall|i: int| 0 <= i < after.len() implies is_space(#[trigger] after[i]) by {
            if i < ends.1.len() {
                assert(after[i] == ends.1[i]);
            } else {
                assert(after[i] == trail[i - ends.1.len()]);
            }
        }
    }
    trimming_finds_the_inside(before, trimmed(s), after);
    assert(before + trimmed(s) + after =~= lead + s + trail);
}

/// White space around a text makes no difference to its words.
pub proof fn white_space_around_adds_no_words(lead: Seq<char>, s: Seq<char>, trail: Seq<char>)
    requires
        blank(lead),
        blank(trail),
    ensures
        words(lead + s + trail) == words(s),
{
    let inner = s + trail;
    if lead.len() > 0 {
        let start = lead.drop_last();
        assert(blank(start)) by {
            assert forall|i: int| 0 <= i < start.len() implies is_space(#[trigger] start[i]) by {
                assert(start[i] == lead[i]);
            }
        }
        assert(is_space(lead[lead.len() - 1]));
        white_space_parts_words(start, lead.last(), inner);
        white_space_has_no_words(start);
        assert(start + seq![lead.last()] + inner =~= lead + s + trail);
        assert(words(lead + s + trail) =~= words(inner));
    } else {
        assert(lead + s + trail =~= inner);
    }
    if trail.len() > 0 {
        let end = trail.drop_first();
        assert(blank(end)) by {
            assert forall|i: int| 0 <= i < end.len() implies is_space(#[trigger] end[i]) by {
                assert(end[i] == trail[i + 1]);
            }
        }
        assert(is_space(trail[0]));
        white_space_parts_words(s, trail[0], end);
        white_space_has_no_words(end);
        assert(s + seq![trail[0]] + end =~= inner);
        assert(words(inner) =~= words(s));
    } else {
        assert(inner =~= s);
    }
}

/// A trimmed text has the same words.
pub proof fn trimming_keeps_the_words(s: Seq<char>)
    ensures
        words(trimmed(s)) == words(s),
{
    let ends = trimming_takes_white_space_only(s);
    white_space_around_adds_no_words(ends.0, trimmed(s), ends.1);
}

/// A text that is evenly spaced has no white space at its ends.
proof fn lemma_even_is_snug(s: Seq<char>)
    requires
        evenly_spaced(s),
    ensures
        snug(s),
        trimmed(s) == s,
{
    if s.len() > 0 {
        assert(!is_space(s[0]));
        assert(!is_space(s[s.len() - 1]));
    }
    let none = Seq::<char>::empty();
    trimming_finds_the_inside(none, s, none);
    assert(none + s + none =~= s);
}

/// What is typed starts with a word, and a blank and a text behind it.
pub open spec fn typed(first: Seq<char>, tail: Seq<char>) -> Seq<char> {
    first + seq![' '] + tail
}

/// The first word of what is typed, and the rest of it.
proof fn lemma_typed(first: Seq<char>, tail: Seq<char>)
    requires
        solid(first),
        first.len() > 0,
    ensures
        ({
            let given = trimmed(typed(first, tail));
            let n = word_len(given) as int;
            &&& given.len() > 0
            &&& given.take(n) == first
            &&& trimmed(given.skip(n)) == trimmed(tail)
            &&& words(trimmed(given.skip(n))) == words(tail)
        }),
        word_len(typed(first, tail)) == first.len(),
        typed(first, tail).take(first.len() as int) == first,
        words(trimmed(typed(first, tail).skip(first.len() as int))) == words(tail),
{
    let all = typed(first, tail);
    let given = trimmed(all);
    let ends = trimming_takes_white_space_only(all);
    let k = first.len() as int;
    assert(all[0] == first[0]);
    if ends.0.len() > 0 {
        assert(all[0] == ends.0[0]);
    }
    assert(all =~= given + ends.1);
    if given.len() < k {
        assert(all[given.len() as int] == ends.1[0]);
        assert(all[given.len() as int] == first[given.len() as int]);
    }
    let rest = given.skip(k);
    let behind = seq![' '] + tail;
    assert(all.skip(k) =~= behind);
    assert(given =~= first + rest) by {
        assert(given.take(k) =~= all.take(k));
        assert(all.take(k) =~= first);
    }
    assert(rest + ends.1 =~= behind);
    if rest.len() > 0 {
        assert(rest[0] == behind[0]);
    }
    the_first_word_ends_at_white_space(first, rest);
    the_first_word_ends_at_white_space(first, behind);
    assert(first + behind =~= all);
    assert(given.take(k) =~= first);
    let none = Seq::<char>::empty();
    let blank_one = seq![' '];
    assert(blank(blank_one));
    white_space_around_is_trimmed(none, rest, ends.1);
    white_space_around_is_trimmed(blank_one, tail, none);
    assert(none + rest + ends.1 =~= behind);
    assert(blank_one + tail + none =~= behind);
    trimming_keeps_the_words(tail);
    assert(all.take(k) =~= first);
}

/// The first word of what is typed where there is no other.
proof fn lemma_typed_alone(first: Seq<char>)
    requires
        solid(first),
        first.len() > 0,
    ensures
        trimmed(first) == first,
        word_len(first) == first.len(),
        trimmed(first.skip(first.len() as int)) == Seq::<char>::empty(),
{
    let none = Seq::<char>::empty();
    trimming_finds_the_inside(none, first, none);
    assert(none + first + none =~= first);
    the_first_word_ends_at_white_space(first, none);
    assert(first + none =~= first);
    assert(first.skip(first.len() as int) =~= none);
    trimming_finds_the_inside(none, none, none);
    assert(none + none + none =~= none);
}

/// The words that a loop command can start with are different, and none of them starts with a digit.
proof fn lemma_keywords()
    ensures
        forall|i: int, j: int|
            0 <= i < keywords().len() && 0 <= j < keywords().len() && i != j
                ==> #[trigger] keywords()[i] != #[trigger] keywords()[j],
        forall|i: int|
            0 <= i < keywords().len() ==> (#[trigger] keywords()[i]).len() > 0 && !is_digit(
                keywords()[i][0],
            ) && keywords()[i][0] != '+',
{
    reveal_strlit("status");
    reveal_strlit("stop");
    reveal_strlit("pause");
    reveal_strlit("once");
    reveal_strlit("now");
    reveal_strlit("immediate");
    reveal_strlit("--immediate");
    reveal_strlit("--now");
    assert("status"@.len() == 6 && "stop"@.len() == 4 && "pause"@.len() == 5);
    assert("once"@.len() == 4 && "now"@.len() == 3 && "immediate"@.len() == 9);
    assert("--immediate"@.len() == 11 && "--now"@.len() == 5);
    assert("status"@[0] == 's' && "stop"@[0] == 's' && "pause"@[0] == 'p' && "once"@[0] == 'o');
    assert("now"@[0] == 'n' && "immediate"@[0] == 'i' && "--immediate"@[0] == '-' && "--now"@[0]
        == '-');
}

/// The words that a loop command can start with, but for a number.
pub open spec fn keywords() -> Seq<Seq<char>> {
    seq![
        "status"@,
        "stop"@,
        "pause"@,
        "once"@,
        "now"@,
        "immediate"@,
        "--immediate"@,
        "--now"@,
    ]
}

/// Digits have no small letters.
proof fn lemma_lowered_digits(d: Seq<char>)
    requires
        forall|i: int| 0 <= i < d.len() ==> is_digit(#[trigger] d[i]),
    ensures
        lowered(d) == d,
{
    assert forall|i: int| 0 <= i < d.len() implies lowered(d)[i] == d[i] by {
        small_letters_only_replace_capitals(d, i);
    }
    assert(lowered(d) =~= d);
}

/// Whether the first word of a text sets a limit.
pub open spec fn sets_a_limit(text: Seq<char>) -> bool {
    words(text).len() > 0 && words(text)[0] == "--max"@
}

/// Whether a text can be the prompt that was typed: the same words with one blank between them, none of
/// which sets a limit first, and at most 1024 bytes.
pub open spec fn is_prompt(prompt: Seq<char>, text: Seq<char>) -> bool {
    &&& evenly_spaced(prompt)
    &&& words(prompt) == words(text)
    &&& !sets_a_limit(text)
    &&& utf8_len(prompt) <= 1024
}

/// Words that set no limit are the prompt.
proof fn lemma_prompt_option(prompt: Seq<char>, text: Seq<char>, max: Option<usize>)
    requires
        evenly_spaced(prompt),
        words(prompt) == words(text),
        !sets_a_limit(text),
    ensures
        loop_options(words(text), max) == Ok::<(Option<usize>, Seq<char>), Seq<char>>((max, prompt)),
{
    reveal_strlit(" ");
    assert(" "@ =~= seq![' ']);
    even_texts_survive_their_words(prompt);
}

/// What a limit looks like when it is typed.
pub open spec fn limit(n: nat, rest: Seq<char>) -> Seq<char> {
    "--max "@ + decimal(n) + seq![' '] + rest
}

proof fn lemma_limit_words(word: Seq<char>, rest: Seq<char>)
    requires
        solid(word),
        word.len() > 0,
    ensures
        words("--max "@ + word + seq![' '] + rest) == seq!["--max"@, word] + words(rest),
        words("--max "@ + word) == seq!["--max"@, word],
        words("--max"@) == seq!["--max"@],
{
    reveal_strlit("--max ");
    reveal_strlit("--max");
    assert("--max"@.len() == 5);
    assert(solid("--max"@)) by {
        let m = "--max"@;
        assert(m[0] == '-' && m[1] == '-' && m[2] == 'm' && m[3] == 'a' && m[4] == 'x');
    }
    assert("--max "@ =~= "--max"@ + seq![' ']);
    let tail = word + seq![' '] + rest;
    a_solid_text_is_one_word("--max"@);
    a_solid_text_is_one_word(word);
    white_space_parts_words(word, ' ', rest);
    white_space_parts_words("--max"@, ' ', tail);
    white_space_parts_words("--max"@, ' ', word);
    assert("--max "@ + word + seq![' '] + rest =~= "--max"@ + seq![' '] + tail);
    assert("--max "@ + word =~= "--max"@ + seq![' '] + word);
    assert(seq!["--max"@] + (seq![word] + words(rest)) =~= seq!["--max"@, word] + words(rest));
    assert(seq!["--max"@] + seq![word] =~= seq!["--max"@, word]);
}

/// A limit that is typed counts, unless another one follows.
proof fn lemma_limit_option(n: nat, rest: Seq<char>, max: Option<usize>)
    requires
        0 < n <= usize::MAX,
    ensures
        loop_options(words(limit(n, rest)), max) == loop_options(words(rest), Some(n as usize)),
{
    lemma_decimal_digits(n);
    lemma_limit_words(decimal(n), rest);
    numbers_survive_being_written(n, usize::MAX as nat);
    let tokens = seq!["--max"@, decimal(n)] + words(rest);
    assert(tokens.skip(2) =~= words(rest));
    assert(tokens[0] == "--max"@ && tokens[1] == decimal(n));
}

/// What a command that starts with a number of minutes asks for.
proof fn lemma_timed(minutes: nat, tail: Seq<char>)
    requires
        0 < minutes <= u64::MAX,
    ensures
        loop_command(typed(decimal(minutes), tail)) == timed_ask(minutes as u64, words(tail)),
        timed_command(typed(decimal(minutes), tail)) == timed_ask(minutes as u64, words(tail)),
{
    let first = decimal(minutes);
    lemma_decimal_digits(minutes);
    lemma_lowered_digits(first);
    lemma_keywords();
    numbers_survive_being_written(minutes, u64::MAX as nat);
    lemma_typed(first, tail);
    assert(is_digit(first[0]));
    assert forall|i: int| 0 <= i < keywords().len() implies #[trigger] keywords()[i] != first by {}
    assert(keywords()[0] == "status"@ && keywords()[1] == "stop"@ && keywords()[2] == "pause"@
        && keywords()[3] == "once"@ && keywords()[4] == "now"@ && keywords()[5] == "immediate"@
        && keywords()[6] == "--immediate"@ && keywords()[7] == "--now"@);
}

/// What the words behind the minutes ask for.
spec fn timed_ask(minutes: u64, tokens: Seq<Seq<char>>) -> LoopCommand {
    match loop_options(tokens, None) {
        Ok(options) => LoopCommand::Start(
            LoopStart {
                interval_minutes: Some(minutes),
                immediate: false,
                max_iterations: options.0,
                prompt: options.1,
            },
        ),
        Err(message) => LoopCommand::Fail(message),
    }
}

/// Whether a window runs a loop that was just started: with this interval, this limit and this prompt.
pub open spec fn runs(
    widget: WidgetModel,
    interval_minutes: Option<u64>,
    immediate: bool,
    max_iterations: Option<usize>,
    prompt: Seq<char>,
) -> bool {
    &&& widget.ui.enabled
    &&& widget.ui.interval_minutes == interval_minutes
    &&& widget.ui.immediate == immediate
    &&& widget.ui.max_iterations == max_iterations
    &&& widget.ui.prompt == prompt
    &&& !widget.ui.timer_pending
}

/// A start with a prompt that is evenly spaced and short enough runs a loop.
proof fn lemma_runs(widget: WidgetModel, start: LoopStart)
    requires
        trimmed(start.prompt) == start.prompt,
        utf8_len(start.prompt) <= 1024,
        start.max_iterations != Some(0usize),
    ensures
        runs(
            widget.started(start),
            start.interval_minutes,
            start.immediate,
            start.max_iterations,
            start.prompt,
        ),
{
}

/// Minutes, a limit and a prompt start a loop with that interval, that limit and that prompt, and no
/// more iterations than the limit are submitted until the next start, whatever happens.
pub proof fn a_typed_limit_counts(
    widget: WidgetModel,
    minutes: nat,
    max: nat,
    rest: Seq<char>,
    prompt: Seq<char>,
    events: Seq<WidgetEvent>,
)
    requires
        0 < minutes <= u64::MAX,
        0 < max <= usize::MAX,
        is_prompt(prompt, rest),
        starts_none(events),
    ensures
        ({
            let args = decimal(minutes) + " --max "@ + decimal(max) + " "@ + rest;
            let command = WidgetEvent::Command(args);
            let after = step(widget, command);
            &&& runs(after, Some(minutes as u64), false, Some(max as usize), prompt)
            &&& runs(
                widget.commanded(timed_command(args)),
                Some(minutes as u64),
                false,
                Some(max as usize),
                prompt,
            )
            &&& run(after, events).ui.max_iterations == Some(max as usize)
            &&& submitted_by(widget, command) + submitted(after, events) <= max
        }),
{
    reveal_strlit(" --max ");
    reveal_strlit("--max ");
    reveal_strlit(" ");
    let args = decimal(minutes) + " --max "@ + decimal(max) + " "@ + rest;
    let tail = limit(max, rest);
    assert(" --max "@ =~= seq![' '] + "--max "@);
    assert(" "@ =~= seq![' ']);
    assert(args =~= typed(decimal(minutes), tail));
    lemma_timed(minutes, tail);
    lemma_limit_option(max, rest, None);
    lemma_prompt_option(prompt, rest, Some(max as usize));
    lemma_even_is_snug(prompt);
    let start = LoopStart {
        interval_minutes: Some(minutes as u64),
        immediate: false,
        max_iterations: Some(max as usize),
        prompt,
    };
    assert(loop_command(args) == LoopCommand::Start(start));
    lemma_runs(widget, start);
    the_limit_holds(widget, WidgetEvent::Command(args), events);
}

/// Arguments that start with minutes are those of a timed loop.
pub proof fn timed_arguments_are_a_command(widget: WidgetModel, minutes: nat, tail: Seq<char>)
    requires
        0 < minutes <= u64::MAX,
    ensures
        widget.commanded(timed_command(typed(decimal(minutes), tail))) == step(
            widget,
            WidgetEvent::Command(typed(decimal(minutes), tail)),
        ),
{
    lemma_timed(minutes, tail);
}

/// Minutes and a prompt start a loop with that interval, that prompt and no limit.
pub proof fn a_timed_loop_needs_no_limit(
    widget: WidgetModel,
    minutes: nat,
    rest: Seq<char>,
    prompt: Seq<char>,
)
    requires
        0 < minutes <= u64::MAX,
        is_prompt(prompt, rest),
    ensures
        ({
            let args = decimal(minutes) + " "@ + rest;
            &&& runs(
                step(widget, WidgetEvent::Command(args)),
                Some(minutes as u64),
                false,
                None,
                prompt,
            )
            &&& runs(
                widget.commanded(timed_command(args)),
                Some(minutes as u64),
                false,
                None,
                prompt,
            )
        }),
{
    reveal_strlit(" ");
    let args = decimal(minutes) + " "@ + rest;
    assert(" "@ =~= seq![' ']);
    assert(args =~= typed(decimal(minutes), rest));
    lemma_timed(minutes, rest);
    lemma_prompt_option(prompt, rest, None);
    lemma_even_is_snug(prompt);
    lemma_runs(
        widget,
        LoopStart {
            interval_minutes: Some(minutes as u64),
            immediate: false,
            max_iterations: None,
            prompt,
        },
    );
}

/// Where two limits are typed the second one counts.
pub proof fn the_last_limit_counts(
    widget: WidgetModel,
    minutes: nat,
    first: nat,
    second: nat,
    rest: Seq<char>,
    prompt: Seq<char>,
)
    requires
        0 < minutes <= u64::MAX,
        0 < first <= usize::MAX,
        0 < second <= usize::MAX,
        is_prompt(prompt, rest),
    ensures
        runs(
            step(
                widget,
                WidgetEvent::Command(typed(decimal(minutes), limit(first, limit(second, rest)))),
            ),
            Some(minutes as u64),
            false,
            Some(second as usize),
            prompt,
        ),
{
    lemma_timed(minutes, limit(first, limit(second, rest)));
    lemma_limit_option(first, limit(second, rest), None);
    lemma_limit_option(second, rest, Some(first as usize));
    lemma_prompt_option(prompt, rest, Some(second as usize));
    lemma_even_is_snug(prompt);
    lemma_runs(
        widget,
        LoopStart {
            interval_minutes: Some(minutes as u64),
            immediate: false,
            max_iterations: Some(second as usize),
            prompt,
        },
    );
}

/// What a command with this first word, in any mixture of capitals and small letters, asks for.
proof fn lemma_keyword(first: Seq<char>, tail: Seq<char>)
    requires
        solid(first),
        first.len() > 0,
    ensures
        lowered(first) == "status"@ ==> loop_command(typed(first, tail)) is Status,
        lowered(first) == "status"@ ==> loop_command(first) is Status,
        lowered(first) == "stop"@ || lowered(first) == "pause"@ ==> loop_command(typed(first, tail))
            is Stop && loop_command(first) is Stop,
        lowered(first) == "once"@ ==> loop_command(typed(first, tail)) == LoopCommand::Start(
            LoopStart {
                interval_minutes: None,
                immediate: false,
                max_iterations: Some(1),
                prompt: trimmed(tail),
            },
        ),
        lowered(first) == "once"@ ==> loop_command(first) == LoopCommand::Start(
            LoopStart {
                interval_minutes: None,
                immediate: false,
                max_iterations: Some(1),
                prompt: seq![],
            },
        ),
        at_once(first) ==> loop_command(typed(first, tail)) == at_once_ask(words(tail)),
        at_once(first) ==> loop_command(first) == at_once_ask(seq![]),
{
    lemma_keywords();
    assert(keywords()[0] == "status"@ && keywords()[1] == "stop"@ && keywords()[2] == "pause"@
        && keywords()[3] == "once"@ && keywords()[4] == "now"@ && keywords()[5] == "immediate"@
        && keywords()[6] == "--immediate"@ && keywords()[7] == "--now"@);
    lemma_typed(first, tail);
    lemma_typed_alone(first);
    assert(first.take(first.len() as int) =~= first);
    white_space_has_no_words(seq![]);
}

/// Whether a word asks for iterations without a wait between them.
pub open spec fn at_once(word: Seq<char>) -> bool {
    ||| lowered(word) == "now"@
    ||| lowered(word) == "immediate"@
    ||| lowered(word) == "--immediate"@
    ||| lowered(word) == "--now"@
}

/// What the words behind such a word ask for.
spec fn at_once_ask(tokens: Seq<Seq<char>>) -> LoopCommand {
    match loop_options(tokens, None) {
        Ok(options) => LoopCommand::Start(
            LoopStart {
                interval_minutes: None,
                immediate: true,
                max_iterations: options.0,
                prompt: options.1,
            },
        ),
        Err(message) => LoopCommand::Fail(message),
    }
}

/// One of the words for it and a prompt start a loop without waits and without a limit; with a limit in
/// front of the prompt it has that limit, and no more iterations are submitted until the next start.
pub proof fn an_immediate_loop_is_typed(
    widget: WidgetModel,
    word: Seq<char>,
    max: nat,
    rest: Seq<char>,
    prompt: Seq<char>,
    events: Seq<WidgetEvent>,
)
    requires
        at_once(word),
        solid(word),
        word.len() > 0,
        0 < max <= usize::MAX,
        is_prompt(prompt, rest),
        starts_none(events),
    ensures
        runs(step(widget, WidgetEvent::Command(word + " "@ + rest)), None, true, None, prompt),
        ({
            let command = WidgetEvent::Command(word + " --max "@ + decimal(max) + " "@ + rest);
            let after = step(widget, command);
            &&& runs(after, None, true, Some(max as usize), prompt)
            &&& submitted_by(widget, command) + submitted(after, events) <= max
        }),
{
    reveal_strlit(" --max ");
    reveal_strlit("--max ");
    reveal_strlit(" ");
    assert(" --max "@ =~= seq![' '] + "--max "@);
    assert(" "@ =~= seq![' ']);
    let args = word + " --max "@ + decimal(max) + " "@ + rest;
    assert(args =~= typed(word, limit(max, rest)));
    assert(word + " "@ + rest =~= typed(word, rest));
    lemma_keyword(word, rest);
    lemma_keyword(word, limit(max, rest));
    lemma_limit_option(max, rest, None);
    lemma_prompt_option(prompt, rest, Some(max as usize));
    lemma_prompt_option(prompt, rest, None);
    lemma_even_is_snug(prompt);
    let free = LoopStart { interval_minutes: None, immediate: true, max_iterations: None, prompt };
    let start = LoopStart { max_iterations: Some(max as usize), ..free };
    assert(loop_command(args) == LoopCommand::Start(start));
    lemma_runs(widget, free);
    lemma_runs(widget, start);
    the_limit_holds(widget, WidgetEvent::Command(args), events);
}

/// The arguments of an immediate loop are a prompt, with a limit in front of it or without.
pub proof fn immediate_arguments_start_a_loop(
    widget: WidgetModel,
    max: nat,
    rest: Seq<char>,
    prompt: Seq<char>,
)
    requires
        0 < max <= usize::MAX,
        is_prompt(prompt, rest),
    ensures
        runs(widget.commanded(immediate_command(rest)), None, true, None, prompt),
        runs(
            widget.commanded(immediate_command(limit(max, rest))),
            None,
            true,
            Some(max as usize),
            prompt,
        ),
        loop_options(words(rest), None) == Ok::<(Option<usize>, Seq<char>), Seq<char>>(
            (None, prompt),
        ),
        loop_options(words(limit(max, rest)), None) == Ok::<(Option<usize>, Seq<char>), Seq<char>>(
            (Some(max as usize), prompt),
        ),
{
    lemma_limit_option(max, rest, None);
    lemma_prompt_option(prompt, rest, Some(max as usize));
    lemma_prompt_option(prompt, rest, None);
    lemma_even_is_snug(prompt);
    let free = LoopStart { interval_minutes: None, immediate: true, max_iterations: None, prompt };
    lemma_runs(widget, free);
    lemma_runs(widget, LoopStart { max_iterations: Some(max as usize), ..free });
}

/// A loop of one iteration keeps its prompt as it was typed, but for the white space around it, and has
/// a limit of one.
pub proof fn a_single_iteration_is_typed(
    widget: WidgetModel,
    word: Seq<char>,
    prompt: Seq<char>,
    events: Seq<WidgetEvent>,
)
    requires
        lowered(word) == "once"@,
        solid(word),
        word.len() > 0,
        snug(prompt),
        utf8_len(prompt) <= 1024,
        starts_none(events),
    ensures
        ({
            let command = WidgetEvent::Command(word + " "@ + prompt);
            let after = step(widget, command);
            &&& runs(after, None, false, Some(1usize), prompt)
            &&& submitted_by(widget, command) + submitted(after, events) <= 1
        }),
{
    reveal_strlit(" ");
    assert(" "@ =~= seq![' ']);
    assert(word + " "@ + prompt =~= typed(word, prompt));
    lemma_keyword(word, prompt);
    let none = Seq::<char>::empty();
    trimming_finds_the_inside(none, prompt, none);
    assert(none + prompt + none =~= prompt);
    let start = LoopStart {
        interval_minutes: None,
        immediate: false,
        max_iterations: Some(1),
        prompt,
    };
    lemma_runs(widget, start);
    the_limit_holds(widget, WidgetEvent::Command(word + " "@ + prompt), events);
}

/// A prompt of more than 1024 bytes starts no loop, in none of the ways to type it.
pub proof fn a_long_prompt_is_refused(
    widget: WidgetModel,
    minutes: nat,
    word: Seq<char>,
    once: Seq<char>,
    rest: Seq<char>,
    prompt: Seq<char>,
)
    requires
        0 < minutes <= u64::MAX,
        at_once(word),
        lowered(once) == "once"@,
        solid(word),
        word.len() > 0,
        solid(once),
        once.len() > 0,
        evenly_spaced(prompt),
        words(prompt) == words(rest),
        !sets_a_limit(rest),
        utf8_len(prompt) > 1024,
    ensures
        ({
            let refusal = EffectModel::Error("Loop prompt or reason exceeds its size limit."@);
            let timed = WidgetEvent::Command(decimal(minutes) + " "@ + rest);
            let immediate = WidgetEvent::Command(word + " "@ + rest);
            let single = WidgetEvent::Command(once + " "@ + prompt);
            &&& only_says(widget, step(widget, timed), refusal)
            &&& only_says(widget, step(widget, immediate), refusal)
            &&& only_says(widget, step(widget, single), refusal)
        }),
{
    reveal_strlit(" ");
    assert(" "@ =~= seq![' ']);
    assert(decimal(minutes) + " "@ + rest =~= typed(decimal(minutes), rest));
    assert(word + " "@ + rest =~= typed(word, rest));
    assert(once + " "@ + prompt =~= typed(once, prompt));
    lemma_timed(minutes, rest);
    lemma_keyword(word, rest);
    lemma_keyword(once, prompt);
    lemma_prompt_option(prompt, rest, None);
    lemma_even_is_snug(prompt);
}

/// White space around the arguments makes no difference.
pub proof fn white_space_around_a_command_is_ignored(
    widget: WidgetModel,
    lead: Seq<char>,
    args: Seq<char>,
    trail: Seq<char>,
)
    requires
        blank(lead),
        blank(trail),
    ensures
        step(widget, WidgetEvent::Command(lead + args + trail)) == step(
            widget,
            WidgetEvent::Command(args),
        ),
{
    white_space_around_is_trimmed(lead, args, trail);
}

/// A command that starts with none of its words and no number says how the command is used, and does
/// nothing else.
pub proof fn an_unknown_word_is_answered_with_the_usage(
    widget: WidgetModel,
    word: Seq<char>,
    tail: Seq<char>,
)
    requires
        solid(word),
        word.len() > 0,
        !keywords().contains(lowered(word)),
        parsed(lowered(word), u64::MAX as nat) is None,
    ensures
        ({
            let usage = EffectModel::Error(
                "Usage: /loop <minutes> [--max N] <prompt> | /loop now [--max N] <prompt> | /loop --immediate [--max N] <prompt> | /loop once <prompt> | /loop stop"@,
            );
            &&& only_says(widget, step(widget, WidgetEvent::Command(word)), usage)
            &&& only_says(widget, step(widget, WidgetEvent::Command(typed(word, tail))), usage)
        }),
{
    lemma_typed(word, tail);
    lemma_typed_alone(word);
    assert(word.take(word.len() as int) =~= word);
    assert(keywords()[0] == "status"@ && keywords()[1] == "stop"@ && keywords()[2] == "pause"@
        && keywords()[3] == "once"@ && keywords()[4] == "now"@ && keywords()[5] == "immediate"@
        && keywords()[6] == "--immediate"@ && keywords()[7] == "--now"@);
}

/// An interval of no minutes is refused.
pub proof fn no_minutes_are_refused(widget: WidgetModel, tail: Seq<char>)
    ensures
        only_says(
            widget,
            step(widget, WidgetEvent::Command(seq!['0', ' '] + tail)),
            EffectModel::Error("Loop interval must be greater than zero minutes."@),
        ),
        only_says(
            widget,
            widget.commanded(timed_command(seq!['0', ' '] + tail)),
            EffectModel::Error("Loop interval must be greater than zero minutes."@),
        ),
{
    let first = decimal(0);
    assert(first =~= seq!['0']);
    assert(seq!['0', ' '] + tail =~= typed(first, tail));
    lemma_decimal_digits(0);
    lemma_lowered_digits(first);
    lemma_keywords();
    numbers_survive_being_written(0, u64::MAX as nat);
    lemma_typed(first, tail);
    assert(is_digit(first[0]));
    assert forall|i: int| 0 <= i < keywords().len() implies #[trigger] keywords()[i] != first by {}
    assert(keywords()[0] == "status"@ && keywords()[1] == "stop"@ && keywords()[2] == "pause"@
        && keywords()[3] == "once"@ && keywords()[4] == "now"@ && keywords()[5] == "immediate"@
        && keywords()[6] == "--immediate"@ && keywords()[7] == "--now"@);
}

/// A timed loop whose first word is no number, or that has no word at all, is refused.
pub proof fn other_intervals_are_refused(widget: WidgetModel, word: Seq<char>, tail: Seq<char>)
    requires
        solid(word),
        word.len() > 0,
        parsed(word, u64::MAX as nat) is None,
    ensures
        only_says(
            widget,
            widget.commanded(timed_command(typed(word, tail))),
            EffectModel::Error("Loop interval must be a positive number of minutes."@),
        ),
        only_says(
            widget,
            widget.commanded(timed_command(seq![])),
            EffectModel::Error("Usage: /loop <minutes> <prompt>"@),
        ),
{
    lemma_typed(word, tail);
    assert(Seq::<char>::empty().take(0) =~= Seq::<char>::empty());
}

/// A limit of zero, a limit that is no number and a limit without a number are refused, each in its own
/// words.
pub proof fn other_limits_are_refused(
    widget: WidgetModel,
    minutes: nat,
    word: Seq<char>,
    rest: Seq<char>,
)
    requires
        0 < minutes <= u64::MAX,
        solid(word),
        word.len() > 0,
        parsed(word, usize::MAX as nat) is None,
    ensures
        only_says(
            widget,
            step(widget, WidgetEvent::Command(typed(decimal(minutes), limit(0, rest)))),
            EffectModel::Error("Loop max must be greater than zero."@),
        ),
        only_says(
            widget,
            step(
                widget,
                WidgetEvent::Command(
                    typed(decimal(minutes), "--max "@ + word + seq![' '] + rest),
                ),
            ),
            EffectModel::Error("Loop max must be a positive number."@),
        ),
        only_says(
            widget,
            step(widget, WidgetEvent::Command(typed(decimal(minutes), "--max"@))),
            EffectModel::Error(
                "Usage: /loop <minutes> [--max N] <prompt> | /loop now [--max N] <prompt> | /loop --immediate [--max N] <prompt> | /loop once <prompt> | /loop stop"@,
            ),
        ),
{
    lemma_timed(minutes, limit(0, rest));
    lemma_timed(minutes, "--max "@ + word + seq![' '] + rest);
    lemma_timed(minutes, "--max"@);
    lemma_decimal_digits(0);
    numbers_survive_being_written(0, usize::MAX as nat);
    lemma_limit_words(decimal(0), rest);
    lemma_limit_words(word, rest);
    let zero = seq!["--max"@, decimal(0)] + words(rest);
    assert(zero[0] == "--max"@ && zero[1] == decimal(0));
    let other = seq!["--max"@, word] + words(rest);
    assert(other[0] == "--max"@ && other[1] == word);
    assert(seq!["--max"@][0] == "--max"@);
}

/// The words for it stop the loop and submit nothing; the word for the status, or no word at all, leaves
/// the loop as it is.
pub proof fn stopping_and_asking_are_typed(
    widget: WidgetModel,
    word: Seq<char>,
    tail: Seq<char>,
    space: Seq<char>,
)
    requires
        solid(word),
        word.len() > 0,
        blank(space),
    ensures
        lowered(word) == "stop"@ || lowered(word) == "pause"@ ==> is_stopped(
            widget,
            step(widget, WidgetEvent::Command(typed(word, tail))),
        ) && is_stopped(widget, step(widget, WidgetEvent::Command(word))),
        lowered(word) == "status"@ ==> step(widget, WidgetEvent::Command(typed(word, tail))).ui
            == widget.ui,
        lowered(word) == "status"@ ==> step(widget, WidgetEvent::Command(word)) == step(
            widget,
            WidgetEvent::Command(space),
        ),
        step(widget, WidgetEvent::Command(space)).ui == widget.ui,
        step(widget, WidgetEvent::Command(space)).submission == widget.submission,
{
    lemma_keyword(word, tail);
    let none = Seq::<char>::empty();
    trimming_finds_the_inside(space, none, none);
    assert(space + none + none =~= space);
}

} // verus!
