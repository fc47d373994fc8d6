//! What holds of all the messages that one server's channel delivers, one after the other. The policy
//! may change from one message to the next.

use crate::channel_delivery::{
    after, decision, lemma_recent_twice, memory_stays_bounded, newest, nothing_seen, recent,
    record_holds_the_window, ChannelDeliveryDecision, DeliveryModel, McpServerChannelConfig,
    BURST_WINDOW_NANOS, RATE_WINDOW_NANOS,
};
use vstd::prelude::*;

verus! {

/// A message that comes in: its id, the time, and the policy of its server then.
pub struct Arrival {
    pub config: McpServerChannelConfig,
    pub id: Seq<char>,
    pub now: u128,
}

/// What becomes of a message that comes in.
pub open spec fn verdict_on(state: DeliveryModel, arrival: Arrival) -> ChannelDeliveryDecision {
    decision(state, arrival.config, arrival.id, arrival.now)
}

/// What a delivery remembers after a message came in.
pub open spec fn after_arrival(state: DeliveryModel, arrival: Arrival) -> DeliveryModel {
    after(state, arrival.config, arrival.id, arrival.now)
}

/// Whether messages come in by a clock that does not run backwards.
pub open spec fn clock_runs_forward(arrivals: Seq<Arrival>) -> bool {
    forall|i: int, j: int|
        0 <= i <= j < arrivals.len() ==> (#[trigger] arrivals[i]).now <= (#[trigger] arrivals[j]).now
}

/// What a delivery remembers after messages came in.
pub open spec fn remembered(start: DeliveryModel, arrivals: Seq<Arrival>) -> DeliveryModel
    decreases arrivals.len(),
{
    if arrivals.len() == 0 {
        start
    } else {
        after_arrival(remembered(start, arrivals.drop_last()), arrivals.last())
    }
}

/// What becomes of messages that come in, one after the other.
pub open spec fn verdicts(start: DeliveryModel, arrivals: Seq<Arrival>) -> Seq<
    ChannelDeliveryDecision,
>
    decreases arrivals.len(),
{
    if arrivals.len() == 0 {
        seq![]
    } else {
        verdicts(start, arrivals.drop_last()).push(
            verdict_on(remembered(start, arrivals.drop_last()), arrivals.last()),
        )
    }
}

/// The messages that are accepted among those that come in, in order.
pub open spec fn delivered(start: DeliveryModel, arrivals: Seq<Arrival>) -> Seq<Arrival>
    decreases arrivals.len(),
{
    if arrivals.len() == 0 {
        seq![]
    } else {
        let before = delivered(start, arrivals.drop_last());
        if verdict_on(remembered(start, arrivals.drop_last()), arrivals.last())
            == ChannelDeliveryDecision::Accept {
            before.push(arrivals.last())
        } else {
            before
        }
    }
}

/// Whether no message comes in before a time at which a limit was looked at. The deliveries that
/// read the clock see to that.
pub open spec fn on_time(start: DeliveryModel, arrivals: Seq<Arrival>) -> bool
    decreases arrivals.len(),
{
    arrivals.len() > 0 ==> {
        &&& on_time(start, arrivals.drop_last())
        &&& remembered(start, arrivals.drop_last()).clock <= arrivals.last().now
    }
}

/// By a clock that does not run backwards, all messages come in on time.
pub proof fn a_forward_clock_is_on_time(capacity: nat, arrivals: Seq<Arrival>)
    requires
        clock_runs_forward(arrivals),
    ensures
        on_time(nothing_seen(capacity), arrivals),
        arrivals.len() > 0 ==> remembered(nothing_seen(capacity), arrivals).clock
            <= arrivals.last().now,
        arrivals.len() == 0 ==> remembered(nothing_seen(capacity), arrivals).clock == 0,
    decreases arrivals.len(),
{
    if arrivals.len() > 0 {
        let rest = arrivals.drop_last();
        assert(clock_runs_forward(rest)) by {
            assert forall|i: int, j: int| 0 <= i <= j < rest.len() implies (
            #[trigger] rest[i]).now <= (#[trigger] rest[j]).now by {
                assert(arrivals[i].now <= arrivals[j].now);
            }
        }
        a_forward_clock_is_on_time(capacity, rest);
        if rest.len() > 0 {
            assert(arrivals[rest.len() - 1].now <= arrivals[arrivals.len() - 1].now);
        }
    }
}

/// The times of messages.
spec fn times_of(arrivals: Seq<Arrival>) -> Seq<u128> {
    arrivals.map_values(|a: Arrival| a.now)
}

/// The ids of messages.
pub open spec fn ids_of(arrivals: Seq<Arrival>) -> Seq<Seq<char>> {
    arrivals.map_values(|a: Arrival| a.id)
}

/// Whether a record of times is what is left of all of them after those at the front that are a
/// window or more before `now` were dropped.
spec fn is_record(record: Seq<u128>, all: Seq<u128>, now: u128, window: u128) -> bool {
    &&& record.len() <= all.len()
    &&& record == all.skip(all.len() - record.len())
    &&& forall|i: int|
        0 <= i < all.len() - record.len() ==> now - #[trigger] all[i] >= window
}

proof fn lemma_record_pruned(record: Seq<u128>, all: Seq<u128>, now: u128, window: u128)
    requires
        is_record(record, all, now, window),
    ensures
        is_record(recent(record, now, window), all, now, window),
    decreases record.len(),
{
    if record.len() > 0 && now - record[0] >= window {
        let rest = record.drop_first();
        let gone = all.len() - record.len();
        assert(record[0] == all[gone]);
        assert(rest =~= all.skip(gone + 1));
        lemma_record_pruned(rest, all, now, window);
    }
}

proof fn lemma_record_later(record: Seq<u128>, all: Seq<u128>, now: u128, later: u128, window: u128)
    requires
        is_record(record, all, now, window),
        now <= later,
    ensures
        is_record(record, all, later, window),
{
    assert forall|i: int| 0 <= i < all.len() - record.len() implies later - #[trigger] all[i]
        >= window by {
        assert(now - all[i] >= window);
    }
}

proof fn lemma_record_grows(record: Seq<u128>, all: Seq<u128>, now: u128, window: u128)
    requires
        is_record(record, all, now, window),
    ensures
        is_record(record.push(now), all.push(now), now, window),
{
    let more = all.push(now);
    assert(record.push(now) =~= more.skip(more.len() - record.push(now).len()));
    assert forall|i: int| 0 <= i < more.len() - record.push(now).len() implies now
        - #[trigger] more[i] >= window by {
        assert(now - all[i] >= window);
    }
}

/// How many deliveries a policy allows in a minute; zero stands for any number.
pub open spec fn rate_limit(config: McpServerChannelConfig) -> nat {
    config.rate_limit_per_minute as nat
}

/// How many deliveries a policy allows in a burst; zero stands for any number.
pub open spec fn burst_limit(config: McpServerChannelConfig) -> nat {
    config.queue_capacity as nat
}

/// Whether each message is a window or more after those that came as many deliveries before it as the
/// limit of its own policy allows, or more.
spec fn spread_out(
    messages: Seq<Arrival>,
    limit: spec_fn(McpServerChannelConfig) -> nat,
    window: u128,
) -> bool {
    forall|i: int, j: int|
        0 <= i < j < messages.len() && 0 < limit((#[trigger] messages[j]).config) <= j - i
            ==> messages[j].now - (#[trigger] messages[i]).now >= window
}

proof fn lemma_spread_grows(
    record: Seq<u128>,
    messages: Seq<Arrival>,
    last: Arrival,
    limit: spec_fn(McpServerChannelConfig) -> nat,
    window: u128,
)
    requires
        is_record(record, times_of(messages), last.now, window),
        limit(last.config) > 0 ==> record.len() < limit(last.config),
        spread_out(messages, limit, window),
    ensures
        spread_out(messages.push(last), limit, window),
{
    let more = messages.push(last);
    let all = times_of(messages);
    assert forall|i: int, j: int|
        0 <= i < j < more.len() && 0 < limit((#[trigger] more[j]).config) <= j - i implies more[j].now
        - (#[trigger] more[i]).now >= window by {
        if j == messages.len() {
            assert(last.now - all[i] >= window);
        } else {
            assert(messages[j].now - messages[i].now >= window);
        }
    }
}

/// The two records are what is left of the times of the delivered messages, and those are spread
/// out as the limits ask.
proof fn lemma_records(capacity: nat, arrivals: Seq<Arrival>)
    requires
        on_time(nothing_seen(capacity), arrivals),
    ensures
        ({
            let state = remembered(nothing_seen(capacity), arrivals);
            let messages = delivered(nothing_seen(capacity), arrivals);
            &&& is_record(state.accepted, times_of(messages), state.clock, RATE_WINDOW_NANOS)
            &&& is_record(state.burst, times_of(messages), state.clock, BURST_WINDOW_NANOS)
            &&& spread_out(messages, |c: McpServerChannelConfig| rate_limit(c), RATE_WINDOW_NANOS)
            &&& spread_out(messages, |c: McpServerChannelConfig| burst_limit(c), BURST_WINDOW_NANOS)
        }),
    decreases arrivals.len(),
{
    let start = nothing_seen(capacity);
    if arrivals.len() == 0 {
        let all = times_of(delivered(start, arrivals));
        assert(all =~= seq![]);
        assert(all.skip(0) =~= seq![]);
    } else {
        let rest = arrivals.drop_last();
        let last = arrivals.last();
        lemma_records(capacity, rest);
        let state = remembered(start, rest);
        let messages = delivered(start, rest);
        let before = times_of(messages);
        lemma_record_later(state.accepted, before, state.clock, last.now, RATE_WINDOW_NANOS);
        lemma_record_later(state.burst, before, state.clock, last.now, BURST_WINDOW_NANOS);
        lemma_record_pruned(state.accepted, before, last.now, RATE_WINDOW_NANOS);
        lemma_record_pruned(state.burst, before, last.now, BURST_WINDOW_NANOS);
        if verdict_on(state, last) == ChannelDeliveryDecision::Accept {
            let accepted = recent(state.accepted, last.now, RATE_WINDOW_NANOS);
            let burst = recent(state.burst, last.now, BURST_WINDOW_NANOS);
            lemma_record_grows(accepted, before, last.now, RATE_WINDOW_NANOS);
            lemma_record_grows(burst, before, last.now, BURST_WINDOW_NANOS);
            lemma_spread_grows(
                accepted,
                messages,
                last,
                |c: McpServerChannelConfig| rate_limit(c),
                RATE_WINDOW_NANOS,
            );
            lemma_spread_grows(
                burst,
                messages,
                last,
                |c: McpServerChannelConfig| burst_limit(c),
                BURST_WINDOW_NANOS,
            );
            assert(times_of(delivered(start, arrivals)) =~= before.push(last.now));
        }
    }
}

/// Within one minute no more messages are delivered than the rate limit allows: a message and one
/// that came as many deliveries before it as its limit, or more, are a minute apart.
pub proof fn the_rate_limit_holds(capacity: nat, arrivals: Seq<Arrival>, i: int, j: int)
    requires
        on_time(nothing_seen(capacity), arrivals),
        0 <= i < j < delivered(nothing_seen(capacity), arrivals).len(),
        0 < rate_limit(delivered(nothing_seen(capacity), arrivals)[j].config) <= j - i,
    ensures
        delivered(nothing_seen(capacity), arrivals)[j].now - delivered(
            nothing_seen(capacity),
            arrivals,
        )[i].now >= RATE_WINDOW_NANOS,
{
    lemma_records(capacity, arrivals);
}

/// Within ten seconds no more messages are delivered than the burst capacity allows.
pub proof fn the_burst_capacity_holds(capacity: nat, arrivals: Seq<Arrival>, i: int, j: int)
    requires
        on_time(nothing_seen(capacity), arrivals),
        0 <= i < j < delivered(nothing_seen(capacity), arrivals).len(),
        0 < burst_limit(delivered(nothing_seen(capacity), arrivals)[j].config) <= j - i,
    ensures
        delivered(nothing_seen(capacity), arrivals)[j].now - delivered(
            nothing_seen(capacity),
            arrivals,
        )[i].now >= BURST_WINDOW_NANOS,
{
    lemma_records(capacity, arrivals);
}

/// Whatever comes in, under whatever policies, the ids that are remembered are exactly those of the
/// newest delivered messages, as many as there is room for, oldest first, and none of them twice.
pub proof fn the_newest_delivered_ids_are_remembered(capacity: nat, arrivals: Seq<Arrival>)
    ensures
        remembered(nothing_seen(capacity), arrivals).capacity == capacity,
        remembered(nothing_seen(capacity), arrivals).seen == newest(
            ids_of(delivered(nothing_seen(capacity), arrivals)),
            capacity,
        ),
        remembered(nothing_seen(capacity), arrivals).seen.no_duplicates(),
        remembered(nothing_seen(capacity), arrivals).seen.len() <= capacity,
        remembered(nothing_seen(capacity), arrivals).well_formed(),
    decreases arrivals.len(),
{
    let start = nothing_seen(capacity);
    if arrivals.len() == 0 {
        assert(ids_of(delivered(start, arrivals)) =~= seq![]);
    } else {
        let rest = arrivals.drop_last();
        let last = arrivals.last();
        the_newest_delivered_ids_are_remembered(capacity, rest);
        let state = remembered(start, rest);
        let before = ids_of(delivered(start, rest));
        memory_stays_bounded(state, last.config, last.id, last.now);
        if verdict_on(state, last) == ChannelDeliveryDecision::Accept {
            let more = before.push(last.id);
            assert(ids_of(delivered(start, arrivals)) =~= more);
            if capacity > 0 {
                assert(newest(newest(before, capacity).push(last.id), capacity) =~= newest(
                    more,
                    capacity,
                ));
            } else {
                assert(newest(before, 0) =~= seq![]);
                assert(newest(more, 0) =~= seq![]);
            }
        }
    }
}

/// A message is a duplicate exactly when its server may send messages and its id is among those of
/// the newest delivered messages. Without room for ids there are no duplicates.
pub proof fn duplicates_are_the_newest_delivered(
    capacity: nat,
    arrivals: Seq<Arrival>,
    next: Arrival,
)
    ensures
        verdict_on(remembered(nothing_seen(capacity), arrivals), next)
            == ChannelDeliveryDecision::Duplicate <==> next.config.enabled && newest(
            ids_of(delivered(nothing_seen(capacity), arrivals)),
            capacity,
        ).contains(next.id),
        capacity == 0 ==> verdict_on(remembered(nothing_seen(capacity), arrivals), next)
            != ChannelDeliveryDecision::Duplicate,
{
    the_newest_delivered_ids_are_remembered(capacity, arrivals);
}

/// A message is delivered once as long as it is remembered: between two deliveries of one id lie at
/// least as many others as are remembered.
pub proof fn duplicates_are_far_apart(capacity: nat, arrivals: Seq<Arrival>, i: int, j: int)
    requires
        0 <= i < j < delivered(nothing_seen(capacity), arrivals).len(),
        delivered(nothing_seen(capacity), arrivals)[i].id == delivered(
            nothing_seen(capacity),
            arrivals,
        )[j].id,
    ensures
        j - i > capacity,
    decreases arrivals.len(),
{
    let rest = arrivals.drop_last();
    let before = delivered(nothing_seen(capacity), rest);
    if j < before.len() {
        duplicates_are_far_apart(capacity, rest, i, j);
    } else {
        the_newest_delivered_ids_are_remembered(capacity, rest);
        let ids = ids_of(before);
        let seen = newest(ids, capacity);
        assert(ids[i] == arrivals.last().id);
        if j - i <= capacity {
            let gone = ids.len() - seen.len();
            assert(seen[i - gone] == ids[i]);
            assert(seen.contains(arrivals.last().id));
        }
    }
}

/// Every delivered message came in while channels were on for its server.
pub proof fn nothing_is_delivered_while_channels_are_off(
    start: DeliveryModel,
    arrivals: Seq<Arrival>,
    i: int,
)
    requires
        0 <= i < delivered(start, arrivals).len(),
    ensures
        delivered(start, arrivals)[i].config.enabled,
    decreases arrivals.len(),
{
    let before = delivered(start, arrivals.drop_last());
    if i < before.len() {
        nothing_is_delivered_while_channels_are_off(start, arrivals.drop_last(), i);
    }
}

/// Whether two states decide alike on every message from a time on.
spec fn decide_alike(a: DeliveryModel, b: DeliveryModel, from: u128) -> bool {
    &&& a.capacity == b.capacity
    &&& a.seen == b.seen
    &&& forall|later: u128|
        from <= later ==> #[trigger] recent(a.accepted, later, RATE_WINDOW_NANOS) == recent(
            b.accepted,
            later,
            RATE_WINDOW_NANOS,
        )
    &&& forall|later: u128|
        from <= later ==> #[trigger] recent(a.burst, later, BURST_WINDOW_NANOS) == recent(
            b.burst,
            later,
            BURST_WINDOW_NANOS,
        )
}

proof fn lemma_alike_runs(
    a: DeliveryModel,
    b: DeliveryModel,
    from: u128,
    arrivals: Seq<Arrival>,
)
    requires
        decide_alike(a, b, from),
        from <= a.clock,
        on_time(a, arrivals),
    ensures
        verdicts(a, arrivals) == verdicts(b, arrivals),
        delivered(a, arrivals) == delivered(b, arrivals),
        decide_alike(remembered(a, arrivals), remembered(b, arrivals), from),
        from <= remembered(a, arrivals).clock,
    decreases arrivals.len(),
{
    if arrivals.len() > 0 {
        let rest = arrivals.drop_last();
        let last = arrivals.last();
        lemma_alike_runs(a, b, from, rest);
        let x = remembered(a, rest);
        let y = remembered(b, rest);
        assert(recent(x.accepted, last.now, RATE_WINDOW_NANOS) == recent(
            y.accepted,
            last.now,
            RATE_WINDOW_NANOS,
        ));
        assert(recent(x.burst, last.now, BURST_WINDOW_NANOS) == recent(
            y.burst,
            last.now,
            BURST_WINDOW_NANOS,
        ));
    }
}

/// However many messages come in after one that was refused, and under whatever policies, they are
/// decided on, and delivered, as if it had not come in.
pub proof fn a_refused_message_changes_no_later_delivery(
    state: DeliveryModel,
    refused: Arrival,
    arrivals: Seq<Arrival>,
)
    requires
        verdict_on(state, refused) != ChannelDeliveryDecision::Accept,
        on_time(after_arrival(state, refused), arrivals),
    ensures
        after_arrival(state, refused).seen == state.seen,
        verdicts(after_arrival(state, refused), arrivals) == verdicts(state, arrivals),
        delivered(after_arrival(state, refused), arrivals) == delivered(state, arrivals),
{
    let left = after_arrival(state, refused);
    if left != state {
        assert forall|later: u128| refused.now <= later implies #[trigger] recent(
            left.accepted,
            later,
            RATE_WINDOW_NANOS,
        ) == recent(state.accepted, later, RATE_WINDOW_NANOS) by {
            lemma_recent_twice(state.accepted, refused.now, later, RATE_WINDOW_NANOS);
        }
        assert forall|later: u128| refused.now <= later implies #[trigger] recent(
            left.burst,
            later,
            BURST_WINDOW_NANOS,
        ) == recent(state.burst, later, BURST_WINDOW_NANOS) by {
            lemma_recent_twice(state.burst, refused.now, later, BURST_WINDOW_NANOS);
        }
        lemma_alike_runs(left, state, refused.now, arrivals);
    }
}

/// How many messages are less than a window old.
pub open spec fn younger_than(messages: Seq<Arrival>, now: u128, window: int) -> nat {
    messages.filter(|m: Arrival| now - m.now < window).len()
}

/// Whether one of the last `count` messages has an id.
pub open spec fn among_the_last(messages: Seq<Arrival>, count: nat, id: Seq<char>) -> bool {
    exists|k: int|
        0 <= k < messages.len() && messages.len() - count <= k && (#[trigger] messages[k]).id == id
}

/// Delivered messages are in the order of their times, and none is after the clock.
pub proof fn deliveries_are_in_order(capacity: nat, arrivals: Seq<Arrival>)
    requires
        on_time(nothing_seen(capacity), arrivals),
    ensures
        clock_runs_forward(delivered(nothing_seen(capacity), arrivals)),
        forall|i: int|
            0 <= i < delivered(nothing_seen(capacity), arrivals).len() ==> (
            #[trigger] delivered(nothing_seen(capacity), arrivals)[i]).now <= remembered(
                nothing_seen(capacity),
                arrivals,
            ).clock,
    decreases arrivals.len(),
{
    let start = nothing_seen(capacity);
    if arrivals.len() > 0 {
        let rest = arrivals.drop_last();
        deliveries_are_in_order(capacity, rest);
        let before = delivered(start, rest);
        let all = delivered(start, arrivals);
        let clock = remembered(start, arrivals).clock;
        assert(remembered(start, rest).clock <= clock);
        assert forall|i: int, j: int| 0 <= i <= j < all.len() implies (#[trigger] all[i]).now <= (
        #[trigger] all[j]).now by {
            if j < before.len() {
                assert(before[i].now <= before[j].now);
            } else if i < before.len() {
                assert(before[i].now <= remembered(start, rest).clock);
            }
        }
        assert forall|i: int| 0 <= i < all.len() implies (#[trigger] all[i]).now <= clock by {
            if i < before.len() {
                assert(before[i].now <= remembered(start, rest).clock);
            }
        }
    }
}

proof fn lemma_filtered_times(messages: Seq<Arrival>, now: u128, window: u128)
    ensures
        times_of(messages).filter(|t: u128| now - t < window).len() == younger_than(
            messages,
            now,
            window as int,
        ),
    decreases messages.len(),
{
    reveal(Seq::filter);
    if messages.len() > 0 {
        assert(times_of(messages).drop_last() =~= times_of(messages.drop_last()));
        lemma_filtered_times(messages.drop_last(), now, window);
    }
}

/// What is left of a record at a time is as long as there are messages younger than the window.
proof fn lemma_record_len(
    record: Seq<u128>,
    messages: Seq<Arrival>,
    clock: u128,
    now: u128,
    window: u128,
)
    requires
        is_record(record, times_of(messages), clock, window),
        clock <= now,
        clock_runs_forward(messages),
        forall|i: int| 0 <= i < messages.len() ==> (#[trigger] messages[i]).now <= clock,
    ensures
        recent(record, now, window).len() == younger_than(messages, now, window as int),
{
    let all = times_of(messages);
    let gone = all.len() - record.len();
    let pred = |t: u128| now - t < window;
    assert forall|i: int, j: int| 0 <= i <= j < record.len() implies record[i] <= record[j] by {
        assert(record[i] == messages[i + gone].now);
        assert(record[j] == messages[j + gone].now);
    }
    assert forall|i: int| 0 <= i < record.len() implies #[trigger] record[i] <= now by {
        assert(record[i] == messages[i + gone].now);
    }
    record_holds_the_window(record, now, window);
    let old = all.take(gone);
    assert(all =~= old + record);
    Seq::filter_distributes_over_add(old, record, pred);
    assert(old.filter(pred) =~= seq![]) by {
        assert forall|i: int| 0 <= i < old.len() implies !pred(#[trigger] old[i]) by {
            assert(clock - all[i] >= window);
        }
        lemma_filter_nothing(old, pred);
    }
    assert(all.filter(pred) =~= record.filter(pred));
    lemma_filtered_times(messages, now, window);
}

proof fn lemma_filter_nothing(times: Seq<u128>, pred: spec_fn(u128) -> bool)
    requires
        forall|i: int| 0 <= i < times.len() ==> !pred(#[trigger] times[i]),
    ensures
        times.filter(pred) == Seq::<u128>::empty(),
    decreases times.len(),
{
    reveal(Seq::filter);
    if times.len() > 0 {
        let rest = times.drop_last();
        assert forall|i: int| 0 <= i < rest.len() implies !pred(#[trigger] rest[i]) by {
            assert(rest[i] == times[i]);
        }
        lemma_filter_nothing(rest, pred);
        assert(!pred(times[times.len() - 1]));
    }
}

/// What becomes of a message is decided by what was delivered before it, and by nothing else.
///
/// It is refused where channels are off, where one of the messages that are remembered has its id,
/// where as many messages as the burst capacity are less than ten seconds old, or as many as the rate
/// limit are less than a minute old; a limit of zero refuses nothing. In every other case it is
/// accepted.
pub proof fn what_was_delivered_decides(capacity: nat, arrivals: Seq<Arrival>, next: Arrival)
    requires
        on_time(nothing_seen(capacity), arrivals.push(next)),
    ensures
        ({
            let start = nothing_seen(capacity);
            let messages = delivered(start, arrivals);
            let verdict = verdict_on(remembered(start, arrivals), next);
            let known = among_the_last(messages, capacity, next.id);
            let burst = younger_than(messages, next.now, 10_000_000_000);
            let minute = younger_than(messages, next.now, 60_000_000_000);
            let crowded = 0 < next.config.queue_capacity <= burst;
            let hurried = 0 < next.config.rate_limit_per_minute <= minute;
            &&& verdict == ChannelDeliveryDecision::Disabled <==> !next.config.enabled
            &&& verdict == ChannelDeliveryDecision::Duplicate <==> next.config.enabled && known
            &&& verdict == ChannelDeliveryDecision::QueueFull <==> next.config.enabled && !known
                && crowded
            &&& verdict == ChannelDeliveryDecision::RateLimited <==> next.config.enabled && !known
                && !crowded && hurried
            &&& verdict == ChannelDeliveryDecision::Accept <==> next.config.enabled && !known
                && !crowded && !hurried
            &&& verdict == ChannelDeliveryDecision::Accept <==> delivered(
                start,
                arrivals.push(next),
            ) == messages.push(next)
            &&& verdict != ChannelDeliveryDecision::Accept <==> delivered(
                start,
                arrivals.push(next),
            ) == messages
        }),
{
    let start = nothing_seen(capacity);
    let messages = delivered(start, arrivals);
    let state = remembered(start, arrivals);
    assert(arrivals.push(next).drop_last() =~= arrivals);
    assert(on_time(start, arrivals));
    lemma_records(capacity, arrivals);
    deliveries_are_in_order(capacity, arrivals);
    lemma_record_len(state.accepted, messages, state.clock, next.now, RATE_WINDOW_NANOS);
    lemma_record_len(state.burst, messages, state.clock, next.now, BURST_WINDOW_NANOS);
    the_newest_delivered_ids_are_remembered(capacity, arrivals);
    let ids = ids_of(messages);
    if state.seen.contains(next.id) {
        let i = choose|i: int| 0 <= i < state.seen.len() && state.seen[i] == next.id;
        let k = i + ids.len() - state.seen.len();
        assert(ids[k] == next.id);
        assert(messages[k].id == next.id);
    }
    if among_the_last(messages, capacity, next.id) {
        let k = choose|k: int|
            0 <= k < messages.len() && messages.len() - capacity <= k && (#[trigger] messages[k]).id
                == next.id;
        assert(ids[k] == next.id);
        let i = k - (ids.len() - state.seen.len());
        assert(state.seen[i] == next.id);
    }
    assert(messages.push(next).len() != messages.len());
}

/// A message is never lost to a limit that is not reached: whenever channels are on, its id is not
/// among those that are remembered, and neither limit is reached, it is delivered.
pub proof fn no_message_is_lost_below_the_limits(
    capacity: nat,
    arrivals: Seq<Arrival>,
    next: Arrival,
)
    requires
        clock_runs_forward(arrivals.push(next)),
        next.config.enabled,
        !among_the_last(
            delivered(nothing_seen(capacity), arrivals),
            capacity,
            next.id,
        ),
        next.config.queue_capacity == 0 || younger_than(
            delivered(nothing_seen(capacity), arrivals),
            next.now,
            10_000_000_000,
        ) < next.config.queue_capacity,
        next.config.rate_limit_per_minute == 0 || younger_than(
            delivered(nothing_seen(capacity), arrivals),
            next.now,
            60_000_000_000,
        ) < next.config.rate_limit_per_minute,
    ensures
        verdict_on(remembered(nothing_seen(capacity), arrivals), next)
            == ChannelDeliveryDecision::Accept,
{
    a_forward_clock_is_on_time(capacity, arrivals.push(next));
    what_was_delivered_decides(capacity, arrivals, next);
}

/// A clock that runs backwards makes no message on record older: all of them count against the limits,
/// and none is forgotten.
pub proof fn a_clock_that_runs_back_forgets_nothing(
    state: DeliveryModel,
    config: McpServerChannelConfig,
    id: Seq<char>,
    now: u128,
)
    requires
        config.enabled,
        !state.seen.contains(id),
        forall|i: int| 0 <= i < state.burst.len() ==> #[trigger] state.burst[i] >= now,
        forall|i: int| 0 <= i < state.accepted.len() ==> #[trigger] state.accepted[i] >= now,
    ensures
        ({
            let verdict = decision(state, config, id, now);
            let next = after(state, config, id, now);
            let crowded = 0 < config.queue_capacity <= state.burst.len();
            let hurried = 0 < config.rate_limit_per_minute <= state.accepted.len();
            &&& verdict == ChannelDeliveryDecision::QueueFull <==> crowded
            &&& verdict == ChannelDeliveryDecision::RateLimited <==> !crowded && hurried
            &&& verdict == ChannelDeliveryDecision::Accept <==> !crowded && !hurried
            &&& verdict == ChannelDeliveryDecision::Accept ==> next.burst == state.burst.push(now)
                && next.accepted == state.accepted.push(now)
            &&& verdict != ChannelDeliveryDecision::Accept ==> next.burst == state.burst
                && next.accepted == state.accepted && next.seen == state.seen
        }),
{
}

} // verus!
