//! Which channel messages are delivered: opt-in, duplicates, bursts and the rate per minute.

use crate::channel_event::ChannelMessageEvent;
use crate::text::same_text;
use std::collections::VecDeque;
use std::time::{Duration, Instant};
use vstd::prelude::*;

verus! {

/// How a channel server asks for its messages to be handled. The mode is announced to the server
/// and changes nothing in the delivery.
#[derive(Debug, Clone, Copy, PartialEq, Eq, Structural)]
pub enum McpServerChannelMode {
    Ask,
    Queue,
    Immediate,
    Context,
}

/// The channel policy of one server.
#[derive(Debug, Clone, Copy, PartialEq, Eq, Structural)]
pub struct McpServerChannelConfig {
    pub enabled: bool,
    pub mode: McpServerChannelMode,
    pub queue_capacity: usize,
    pub dedupe_capacity: usize,
    pub rate_limit_per_minute: u32,
}

impl Default for McpServerChannelConfig {
    /// Channels are off unless they are turned on.
    fn default() -> (config: Self)
        ensures
            config == (McpServerChannelConfig {
                enabled: false,
                mode: McpServerChannelMode::Queue,
                queue_capacity: 50,
                dedupe_capacity: 200,
                rate_limit_per_minute: 30,
            }),
    {
        McpServerChannelConfig {
            enabled: false,
            mode: McpServerChannelMode::Queue,
            queue_capacity: 50,
            dedupe_capacity: 200,
            rate_limit_per_minute: 30,
        }
    }
}

/// What becomes of a message.
#[derive(Debug, Clone, Copy, PartialEq, Eq, Structural)]
pub enum ChannelDeliveryDecision {
    Accept,
    Disabled,
    Duplicate,
    QueueFull,
    RateLimited,
}

/// The window in which accepted messages count as a burst, in nanoseconds.
pub const BURST_WINDOW_NANOS: u128 = 10_000_000_000;

/// The window of the rate limit, in nanoseconds.
pub const RATE_WINDOW_NANOS: u128 = 60_000_000_000;

/// A point in time of the monotonic clock.
#[verifier::external_type_specification]
#[verifier::external_body]
pub struct ExInstant(Instant);

/// `Instant::now`: the clock as it stands; nothing is known of the reading.
pub assume_specification[ Instant::now ]() -> (now: Instant)
;

/// `Instant::elapsed`: the time since `start`; nothing is known of the reading.
pub assume_specification[ Instant::elapsed ](start: &Instant) -> (time: Duration)
;

/// `Duration::as_nanos`: the whole of a duration in nanoseconds. The reading of the clock that it
/// measures is not determined, so nothing is stated of the number.
pub assume_specification[ Duration::as_nanos ](time: &Duration) -> (nanos: u128)
;

/// What the delivery of one server remembers. Times are in nanoseconds.
pub struct ChannelDeliveryState {
    dedupe_capacity: usize,
    seen_order: VecDeque<String>,
    accepted_times: VecDeque<u128>,
    burst_times: VecDeque<u128>,
    clock: u128,
    started: Instant,
}

/// What the delivery of one server remembers: the ids that count as seen, oldest first, when
/// messages were accepted, and the latest time at which a limit was looked at.
#[verifier::ext_equal]
pub struct DeliveryModel {
    pub capacity: nat,
    pub seen: Seq<Seq<char>>,
    pub accepted: Seq<u128>,
    pub burst: Seq<u128>,
    pub clock: u128,
}

/// What a delivery with room for `capacity` ids remembers at its start.
pub open spec fn nothing_seen(capacity: nat) -> DeliveryModel {
    DeliveryModel { capacity, seen: seq![], accepted: seq![], burst: seq![], clock: 0 }
}

impl View for ChannelDeliveryState {
    type V = DeliveryModel;

    closed spec fn view(&self) -> DeliveryModel {
        DeliveryModel {
            capacity: self.dedupe_capacity as nat,
            seen: self.seen_order@.map_values(|id: String| id@),
            accepted: self.accepted_times@,
            burst: self.burst_times@,
            clock: self.clock,
        }
    }
}

impl DeliveryModel {
    /// Whether the state is one that deliveries lead to: no id is remembered twice, no more ids than
    /// there is room for, and no time on record is after the latest one that was looked at.
    pub open spec fn well_formed(self) -> bool {
        &&& self.seen.len() <= self.capacity
        &&& self.seen.no_duplicates()
        &&& forall|i: int| 0 <= i < self.accepted.len() ==> #[trigger] self.accepted[i] <= self.clock
        &&& forall|i: int| 0 <= i < self.burst.len() ==> #[trigger] self.burst[i] <= self.clock
    }
}

/// The times without those at the front that are `window` or more before `now`.
pub open spec fn recent(times: Seq<u128>, now: u128, window: u128) -> Seq<u128>
    decreases times.len(),
{
    if times.len() > 0 && now - times[0] >= window {
        recent(times.drop_first(), now, window)
    } else {
        times
    }
}

/// The last `capacity` ids.
pub open spec fn newest(ids: Seq<Seq<char>>, capacity: nat) -> Seq<Seq<char>> {
    if ids.len() > capacity {
        ids.skip(ids.len() - capacity)
    } else {
        ids
    }
}

/// What becomes of a message with an id that comes in at a given time.
pub open spec fn decision(
    state: DeliveryModel,
    config: McpServerChannelConfig,
    id: Seq<char>,
    now: u128,
) -> ChannelDeliveryDecision {
    if !config.enabled {
        ChannelDeliveryDecision::Disabled
    } else if state.seen.contains(id) {
        ChannelDeliveryDecision::Duplicate
    } else if 0 < config.queue_capacity <= recent(state.burst, now, BURST_WINDOW_NANOS).len() {
        ChannelDeliveryDecision::QueueFull
    } else if 0 < config.rate_limit_per_minute <= recent(
        state.accepted,
        now,
        RATE_WINDOW_NANOS,
    ).len() {
        ChannelDeliveryDecision::RateLimited
    } else {
        ChannelDeliveryDecision::Accept
    }
}

/// The later of two times.
pub open spec fn later_of(a: u128, b: u128) -> u128 {
    if a < b {
        b
    } else {
        a
    }
}

/// What is remembered after a message with an id that came in at a given time.
pub open spec fn after(
    state: DeliveryModel,
    config: McpServerChannelConfig,
    id: Seq<char>,
    now: u128,
) -> DeliveryModel {
    let burst = recent(state.burst, now, BURST_WINDOW_NANOS);
    let accepted = recent(state.accepted, now, RATE_WINDOW_NANOS);
    let clock = later_of(state.clock, now);
    match decision(state, config, id, now) {
        ChannelDeliveryDecision::Disabled => state,
        ChannelDeliveryDecision::Duplicate => state,
        ChannelDeliveryDecision::QueueFull => DeliveryModel { burst, clock, ..state },
        ChannelDeliveryDecision::RateLimited => DeliveryModel { burst, accepted, clock, ..state },
        ChannelDeliveryDecision::Accept => DeliveryModel {
            capacity: state.capacity,
            seen: if state.capacity > 0 {
                newest(state.seen.push(id), state.capacity)
            } else {
                state.seen
            },
            accepted: accepted.push(now),
            burst: burst.push(now),
            clock,
        },
    }
}

/// Drops the times at the front that are `window` or more before `now`.
fn drop_expired(times: &mut VecDeque<u128>, now: u128, window: u128)
    ensures
        final(times)@ == recent(old(times)@, now, window),
{
    let mut expired: bool = times.len() > 0 && now >= times[0] && now - times[0] >= window;
    while expired
        invariant
            recent(times@, now, window) == recent(old(times)@, now, window),
            expired == (times@.len() > 0 && now - times@[0] >= window),
        decreases times@.len(),
    {
        let ghost before = times@;
        times.pop_front();
        assert(times@ =~= before.drop_first());
        expired = times.len() > 0 && now >= times[0] && now - times[0] >= window;
    }
}

impl ChannelDeliveryState {
    /// A state in which nothing was seen yet.
    pub fn new(dedupe_capacity: usize) -> (state: Self)
        ensures
            state@ == nothing_seen(dedupe_capacity as nat),
            state@.well_formed(),
    {
        let state = ChannelDeliveryState {
            dedupe_capacity,
            seen_order: VecDeque::new(),
            accepted_times: VecDeque::new(),
            burst_times: VecDeque::new(),
            clock: 0,
            started: Instant::now(),
        };
        assert(state@.seen =~= seq![]);
        state
    }

    /// Whether an id counts as seen.
    fn has_seen(&self, id: &str) -> (seen: bool)
        ensures
            seen == self@.seen.contains(id@),
    {
        let n: usize = self.seen_order.len();
        let mut i: usize = 0;
        while i < n
            invariant
                i <= n,
                n == self.seen_order@.len(),
                forall|k: int| 0 <= k < i ==> #[trigger] self@.seen[k] != id@,
            decreases n - i,
        {
            assert(self@.seen[i as int] == self.seen_order@[i as int]@);
            if same_text(self.seen_order[i].as_str(), id) {
                return true;
            }
            i = i + 1;
        }
        false
    }

    /// Remembers an id as seen.
    fn remember(&mut self, id: &str)
        ensures
            final(self)@ == (DeliveryModel {
                seen: newest(old(self)@.seen.push(id@), old(self)@.capacity),
                ..old(self)@
            }),
    {
        let owned = id.to_owned();
        let ghost order = self.seen_order@.push(owned);
        let ghost mut dropped: int = 0;
        self.seen_order.push_back(owned);
        assert(order.skip(0) =~= order);
        while self.seen_order.len() > self.dedupe_capacity
            invariant
                0 <= dropped <= order.len(),
                self.seen_order@ == order.skip(dropped),
                self.dedupe_capacity == old(self).dedupe_capacity,
                self.accepted_times == old(self).accepted_times,
                self.burst_times == old(self).burst_times,
                self.clock == old(self).clock,
                dropped > 0 ==> order.len() - dropped >= self.dedupe_capacity,
            decreases self.seen_order@.len(),
        {
            self.seen_order.pop_front();
            proof {
                assert(self.seen_order@ =~= order.skip(dropped + 1));
                dropped = dropped + 1;
            }
        }
        proof {
            let all = old(self)@.seen.push(id@);
            assert(self@.seen =~= all.skip(dropped));
            assert(all.skip(0) =~= all);
        }
    }

    /// Decides on a message that comes in `now`, a time in nanoseconds.
    pub fn accept_at(
        &mut self,
        config: &McpServerChannelConfig,
        event: &ChannelMessageEvent,
        now: u128,
    ) -> (verdict: ChannelDeliveryDecision)
        ensures
            verdict == decision(old(self)@, *config, event@.id, now),
            final(self)@ == after(old(self)@, *config, event@.id, now),
            old(self)@.well_formed() ==> final(self)@.well_formed(),
    {
        proof {
            if old(self)@.well_formed() {
                memory_stays_bounded(old(self)@, *config, event@.id, now);
            }
        }
        if !config.enabled {
            return ChannelDeliveryDecision::Disabled;
        }
        if self.has_seen(event.id.as_str()) {
            return ChannelDeliveryDecision::Duplicate;
        }
        if self.clock < now {
            self.clock = now;
        }
        drop_expired(&mut self.burst_times, now, BURST_WINDOW_NANOS);
        if config.queue_capacity > 0 && self.burst_times.len() >= config.queue_capacity {
            return ChannelDeliveryDecision::QueueFull;
        }
        drop_expired(&mut self.accepted_times, now, RATE_WINDOW_NANOS);
        if config.rate_limit_per_minute > 0 && self.accepted_times.len() as u64
            >= config.rate_limit_per_minute as u64 {
            return ChannelDeliveryDecision::RateLimited;
        }
        if self.dedupe_capacity > 0 {
            self.remember(event.id.as_str());
        }
        self.accepted_times.push_back(now);
        self.burst_times.push_back(now);
        ChannelDeliveryDecision::Accept
    }

    /// Decides on a message that comes in as the clock stands. The time that is used is never before
    /// one that was used earlier.
    pub fn accept(&mut self, config: &McpServerChannelConfig, event: &ChannelMessageEvent) -> (verdict:
        ChannelDeliveryDecision)
        ensures
            exists|now: u128|
                {
                    &&& verdict == #[trigger] decision(old(self)@, *config, event@.id, now)
                    &&& final(self)@ == after(old(self)@, *config, event@.id, now)
                    &&& old(self)@.clock <= now
                },
            old(self)@.well_formed() ==> final(self)@.well_formed(),
    {
        let elapsed: u128 = self.started.elapsed().as_nanos();
        let now: u128 = if elapsed < self.clock {
            self.clock
        } else {
            elapsed
        };
        self.accept_at(config, event, now)
    }
}

/// While channels are off for a server, nothing is delivered and nothing is remembered.
pub proof fn disabled_server_delivers_nothing(
    state: DeliveryModel,
    config: McpServerChannelConfig,
    id: Seq<char>,
    now: u128,
)
    requires
        !config.enabled,
    ensures
        decision(state, config, id, now) == ChannelDeliveryDecision::Disabled,
        after(state, config, id, now) == state,
{
}

/// The mode of a channel changes nothing in the delivery.
pub proof fn the_mode_changes_no_delivery(
    state: DeliveryModel,
    config: McpServerChannelConfig,
    mode: McpServerChannelMode,
    id: Seq<char>,
    now: u128,
)
    ensures
        decision(state, McpServerChannelConfig { mode, ..config }, id, now) == decision(
            state,
            config,
            id,
            now,
        ),
        after(state, McpServerChannelConfig { mode, ..config }, id, now) == after(
            state,
            config,
            id,
            now,
        ),
{
}

/// What deliveries lead to is kept by every further message: ids stay distinct, there are never more
/// of them than the capacity, and no time on record is after the clock, which never runs backwards.
pub proof fn memory_stays_bounded(
    state: DeliveryModel,
    config: McpServerChannelConfig,
    id: Seq<char>,
    now: u128,
)
    requires
        state.well_formed(),
    ensures
        after(state, config, id, now).well_formed(),
        after(state, config, id, now).capacity == state.capacity,
        state.clock <= after(state, config, id, now).clock,
{
    lemma_recent_is_bounded(state.accepted, now, RATE_WINDOW_NANOS, state.clock);
    lemma_recent_is_bounded(state.burst, now, BURST_WINDOW_NANOS, state.clock);
}

/// What bounds all times bounds those that are left.
proof fn lemma_recent_is_bounded(times: Seq<u128>, now: u128, window: u128, bound: u128)
    requires
        forall|i: int| 0 <= i < times.len() ==> #[trigger] times[i] <= bound,
    ensures
        forall|i: int|
            0 <= i < recent(times, now, window).len() ==> #[trigger] recent(times, now, window)[i]
                <= bound,
    decreases times.len(),
{
    if times.len() > 0 && now - times[0] >= window {
        let rest = times.drop_first();
        assert forall|i: int| 0 <= i < rest.len() implies #[trigger] rest[i] <= bound by {
            assert(rest[i] == times[i + 1]);
        }
        lemma_recent_is_bounded(rest, now, window, bound);
        assert(recent(times, now, window) == recent(rest, now, window));
    } else {
        assert(recent(times, now, window) == times);
    }
    let left = recent(times, now, window);
    assert forall|i: int| 0 <= i < left.len() implies #[trigger] left[i] <= bound by {}
}

/// A message that was accepted is a duplicate when it comes in again, at whatever time.
pub proof fn accepted_message_is_then_a_duplicate(
    state: DeliveryModel,
    first: McpServerChannelConfig,
    again: McpServerChannelConfig,
    id: Seq<char>,
    now: u128,
    later: u128,
)
    requires
        state.capacity > 0,
        decision(state, first, id, now) == ChannelDeliveryDecision::Accept,
        again.enabled,
    ensures
        decision(after(state, first, id, now), again, id, later)
            == ChannelDeliveryDecision::Duplicate,
{
    let seen = after(state, first, id, now).seen;
    assert(seen.last() == id);
    assert(seen.contains(id));
}

/// A message that is not accepted leaves no trace: its id is not remembered, and every later message
/// is decided on as if it had not come in.
pub proof fn refused_message_leaves_no_trace(
    state: DeliveryModel,
    config: McpServerChannelConfig,
    id: Seq<char>,
    now: u128,
    again: McpServerChannelConfig,
    other: Seq<char>,
    later: u128,
)
    requires
        decision(state, config, id, now) != ChannelDeliveryDecision::Accept,
        now <= later,
    ensures
        after(state, config, id, now).seen == state.seen,
        decision(after(state, config, id, now), again, other, later) == decision(
            state,
            again,
            other,
            later,
        ),
{
    lemma_recent_twice(state.accepted, now, later, RATE_WINDOW_NANOS);
    lemma_recent_twice(state.burst, now, later, BURST_WINDOW_NANOS);
}

/// What was dropped earlier would be dropped later too.
pub proof fn lemma_recent_twice(times: Seq<u128>, now: u128, later: u128, window: u128)
    requires
        now <= later,
    ensures
        recent(recent(times, now, window), later, window) == recent(times, later, window),
    decreases times.len(),
{
    if times.len() > 0 && now - times[0] >= window {
        lemma_recent_twice(times.drop_first(), now, later, window);
    }
}

proof fn lemma_recent_is_no_longer(times: Seq<u128>, now: u128, window: u128)
    ensures
        recent(times, now, window).len() <= times.len(),
    decreases times.len(),
{
    if times.len() > 0 && now - times[0] >= window {
        lemma_recent_is_no_longer(times.drop_first(), now, window);
    }
}

/// An id is forgotten only when it is the oldest, there is no room, and another one is accepted.
pub proof fn only_the_oldest_id_is_forgotten(
    state: DeliveryModel,
    config: McpServerChannelConfig,
    id: Seq<char>,
    now: u128,
    known: Seq<char>,
)
    requires
        state.well_formed(),
        state.seen.contains(known),
        !after(state, config, id, now).seen.contains(known),
    ensures
        decision(state, config, id, now) == ChannelDeliveryDecision::Accept,
        state.seen.len() == state.capacity,
        state.seen[0] == known,
{
    let at = choose|i: int| 0 <= i < state.seen.len() && state.seen[i] == known;
    let all = state.seen.push(id);
    assert(all[at] == known);
    let seen = after(state, config, id, now).seen;
    if all.len() > state.capacity {
        if at > 0 {
            assert(seen[at - 1] == known);
        }
    } else {
        assert(seen[at] == known);
    }
}

/// The limits of a policy: no more accepted messages are on record than it allows.
pub open spec fn within_limits(state: DeliveryModel, config: McpServerChannelConfig) -> bool {
    &&& config.queue_capacity > 0 ==> state.burst.len() <= config.queue_capacity
    &&& config.rate_limit_per_minute > 0 ==> state.accepted.len() <= config.rate_limit_per_minute
}

/// Under one policy the record never holds more messages than the burst capacity and the rate limit
/// allow.
pub proof fn limits_are_kept(
    state: DeliveryModel,
    config: McpServerChannelConfig,
    id: Seq<char>,
    now: u128,
)
    requires
        within_limits(state, config),
    ensures
        within_limits(after(state, config, id, now), config),
{
    lemma_recent_is_no_longer(state.accepted, now, RATE_WINDOW_NANOS);
    lemma_recent_is_no_longer(state.burst, now, BURST_WINDOW_NANOS);
}

/// Times in the order of a clock that does not run backwards.
pub open spec fn in_order(times: Seq<u128>) -> bool {
    forall|i: int, j: int| 0 <= i <= j < times.len() ==> times[i] <= times[j]
}

/// As long as the clock does not run backwards, the messages on record are those of the window, no
/// more and no fewer.
pub proof fn record_holds_the_window(times: Seq<u128>, now: u128, window: u128)
    requires
        in_order(times),
        forall|i: int| 0 <= i < times.len() ==> #[trigger] times[i] <= now,
    ensures
        recent(times, now, window) == times.filter(|t: u128| now - t < window),
        in_order(recent(times, now, window).push(now)),
    decreases times.len(),
{
    let pred = |t: u128| now - t < window;
    if times.len() > 0 && now - times[0] >= window {
        let rest = times.drop_first();
        assert forall|i: int| 0 <= i < rest.len() implies #[trigger] rest[i] <= now by {
            assert(rest[i] == times[i + 1]);
        }
        record_holds_the_window(rest, now, window);
        assert(times =~= seq![times[0]] + rest);
        Seq::filter_distributes_over_add(seq![times[0]], rest, pred);
        assert(seq![times[0]].filter(pred) =~= seq![]) by {
            reveal_with_fuel(Seq::filter, 2);
            assert(seq![times[0]].drop_last() =~= seq![]);
            assert(!pred(times[0]));
        }
        assert(times.filter(pred) =~= rest.filter(pred));
    } else {
        assert forall|i: int| 0 <= i < times.len() implies pred(#[trigger] times[i]) by {
            assert(times[0] <= times[i]);
        }
        lemma_filter_all(times, pred);
    }
}

proof fn lemma_filter_all(times: Seq<u128>, pred: spec_fn(u128) -> bool)
    requires
        forall|i: int| 0 <= i < times.len() ==> pred(#[trigger] times[i]),
    ensures
        times.filter(pred) == times,
    decreases times.len(),
{
    reveal(Seq::filter);
    if times.len() > 0 {
        let rest = times.drop_last();
        assert forall|i: int| 0 <= i < rest.len() implies pred(#[trigger] rest[i]) by {
            assert(rest[i] == times[i]);
        }
        lemma_filter_all(rest, pred);
        assert(pred(times[times.len() - 1]));
        assert(rest.push(times.last()) =~= times);
    } else {
        assert(times.filter(pred) =~= times);
    }
}

} // verus!
