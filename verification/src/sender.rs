//! When the sender of a cyclic frame sends.
//!
//! A sender waits for its offset, then sends at every tick of its period until it is stopped.
use crate::timing::Span;
use vstd::prelude::*;

verus! {

/// When a sender sends for the first time, once its offset has passed.
#[derive(Clone, Copy, Debug, PartialEq, Eq, Structural)]
pub enum FirstSend {
    /// At once. The ticks that follow are one period apart, the first of them after one period.
    AtOnce,
    /// After one period. The ticks are one period apart, the first of them comes at once and is
    /// consumed.
    AfterOnePeriod,
}

/// What a sender waits for.
#[derive(Clone, Copy, Debug, PartialEq, Eq, Structural)]
pub enum SenderState {
    /// The end of the offset, or to be stopped.
    Offset,
    /// The first tick, which is consumed.
    Settling,
    /// The next tick, or to be stopped.
    Cycling,
    /// Nothing.
    Stopped,
}

/// What a sender learns.
#[derive(Clone, Copy, Debug, PartialEq, Eq, Structural)]
pub enum SenderEvent {
    OffsetElapsed,
    Tick,
    Stop,
}

/// What a sender does before it waits again.
#[derive(Clone, Copy, Debug, PartialEq, Eq, Structural)]
pub enum SenderAction {
    /// Start to sleep for the offset.
    Sleep,
    /// Start the ticks.
    StartTicks,
    /// Start the ticks and send the frame.
    StartTicksAndSend,
    /// Send the frame.
    Send,
    /// Nothing.
    Wait,
    /// End.
    Exit,
}

impl SenderAction {
    /// The frame is sent.
    pub open spec fn sends(self) -> bool {
        self is Send || self is StartTicksAndSend
    }
}

/// What follows the offset.
pub open spec fn cycle_start(first: FirstSend) -> (SenderState, SenderAction) {
    match first {
        FirstSend::AtOnce => (SenderState::Cycling, SenderAction::StartTicksAndSend),
        FirstSend::AfterOnePeriod => (SenderState::Settling, SenderAction::StartTicks),
    }
}

/// What a sender begins with.
pub open spec fn beginning(first: FirstSend, offset: Span) -> (SenderState, SenderAction) {
    if offset.spec_total_nanos() > 0 {
        (SenderState::Offset, SenderAction::Sleep)
    } else {
        cycle_start(first)
    }
}

/// What follows an event. An event that the sender does not wait for changes nothing.
pub open spec fn following(first: FirstSend, state: SenderState, event: SenderEvent) -> (
    SenderState,
    SenderAction,
) {
    match (state, event) {
        (SenderState::Offset, SenderEvent::OffsetElapsed) => cycle_start(first),
        (SenderState::Offset, SenderEvent::Stop) => (SenderState::Stopped, SenderAction::Exit),
        (SenderState::Settling, SenderEvent::Tick) => (SenderState::Cycling, SenderAction::Wait),
        (SenderState::Cycling, SenderEvent::Tick) => (SenderState::Cycling, SenderAction::Send),
        (SenderState::Cycling, SenderEvent::Stop) => (SenderState::Stopped, SenderAction::Exit),
        (SenderState::Stopped, _) => (SenderState::Stopped, SenderAction::Exit),
        _ => (state, SenderAction::Wait),
    }
}

/// Begins to send.
pub fn begin(first: FirstSend, offset: Span) -> (res: (SenderState, SenderAction))
    ensures
        res == beginning(first, offset),
{
    if !offset.is_zero() {
        (SenderState::Offset, SenderAction::Sleep)
    } else {
        start_cycle(first)
    }
}

fn start_cycle(first: FirstSend) -> (res: (SenderState, SenderAction))
    ensures
        res == cycle_start(first),
{
    match first {
        FirstSend::AtOnce => (SenderState::Cycling, SenderAction::StartTicksAndSend),
        FirstSend::AfterOnePeriod => (SenderState::Settling, SenderAction::StartTicks),
    }
}

/// Goes on after an event.
pub fn advance(first: FirstSend, state: SenderState, event: SenderEvent) -> (res: (
    SenderState,
    SenderAction,
))
    ensures
        res == following(first, state, event),
{
    match (state, event) {
        (SenderState::Offset, SenderEvent::OffsetElapsed) => start_cycle(first),
        (SenderState::Offset, SenderEvent::Stop) => (SenderState::Stopped, SenderAction::Exit),
        (SenderState::Settling, SenderEvent::Tick) => (SenderState::Cycling, SenderAction::Wait),
        (SenderState::Cycling, SenderEvent::Tick) => (SenderState::Cycling, SenderAction::Send),
        (SenderState::Cycling, SenderEvent::Stop) => (SenderState::Stopped, SenderAction::Exit),
        (SenderState::Stopped, _) => (SenderState::Stopped, SenderAction::Exit),
        _ => (state, SenderAction::Wait),
    }
}

/// The state after some events.
pub open spec fn state_after(
    first: FirstSend,
    state: SenderState,
    events: Seq<SenderEvent>,
) -> SenderState
    decreases events.len(),
{
    if events.len() == 0 {
        state
    } else {
        following(first, state_after(first, state, events.drop_last()), events.last()).0
    }
}

/// How often the frame is sent in reply to some events.
pub open spec fn sends_during(
    first: FirstSend,
    state: SenderState,
    events: Seq<SenderEvent>,
) -> nat
    decreases events.len(),
{
    if events.len() == 0 {
        0
    } else {
        let before = state_after(first, state, events.drop_last());
        let action = following(first, before, events.last()).1;
        sends_during(first, state, events.drop_last()) + (if action.sends() {
            1nat
        } else {
            0nat
        })
    }
}

/// How often the frame is sent from the beginning on.
pub open spec fn sends_in_all(first: FirstSend, offset: Span, events: Seq<SenderEvent>) -> nat {
    let (state, action) = beginning(first, offset);
    sends_during(first, state, events) + (if action.sends() {
        1nat
    } else {
        0nat
    })
}

/// A number of ticks.
pub open spec fn ticks(n: nat) -> Seq<SenderEvent> {
    Seq::new(n, |i: int| SenderEvent::Tick)
}

/// Once it is stopped, a sender stays stopped and sends nothing.
pub proof fn nothing_is_sent_once_stopped(first: FirstSend, events: Seq<SenderEvent>)
    ensures
        state_after(first, SenderState::Stopped, events) == SenderState::Stopped,
        sends_during(first, SenderState::Stopped, events) == 0,
    decreases events.len(),
{
    if events.len() > 0 {
        nothing_is_sent_once_stopped(first, events.drop_last());
    }
}

/// Before its offset has elapsed, a sender sends nothing.
pub proof fn nothing_is_sent_before_the_offset_elapsed(
    first: FirstSend,
    offset: Span,
    events: Seq<SenderEvent>,
)
    requires
        offset.spec_total_nanos() > 0,
        !events.contains(SenderEvent::OffsetElapsed),
    ensures
        sends_in_all(first, offset, events) == 0,
{
    offset_is_waited_for(first, events);
}

proof fn offset_is_waited_for(first: FirstSend, events: Seq<SenderEvent>)
    requires
        !events.contains(SenderEvent::OffsetElapsed),
    ensures
        ({
            let state = state_after(first, SenderState::Offset, events);
            state == SenderState::Offset || state == SenderState::Stopped
        }),
        sends_during(first, SenderState::Offset, events) == 0,
    decreases events.len(),
{
    if events.len() > 0 {
        let front = events.drop_last();
        assert(events.last() == events[events.len() - 1]);
        assert(events.contains(events.last()));
        assert forall|e: SenderEvent| front.contains(e) implies events.contains(e) by {
            let i = front.index_of(e);
            assert(events[i] == e);
        }
        offset_is_waited_for(first, front);
    }
}

/// Where a sender waits for the end of its offset or for a tick to send at, a stop ends it.
pub proof fn stop_ends_the_sender(first: FirstSend, state: SenderState)
    requires
        state == SenderState::Offset || state == SenderState::Cycling,
    ensures
        following(first, state, SenderEvent::Stop) == (SenderState::Stopped, SenderAction::Exit),
{
}

proof fn cycling_sends_at_every_tick(first: FirstSend, n: nat)
    ensures
        state_after(first, SenderState::Cycling, ticks(n)) == SenderState::Cycling,
        sends_during(first, SenderState::Cycling, ticks(n)) == n,
    decreases n,
{
    if n > 0 {
        assert(ticks(n).drop_last() == ticks((n - 1) as nat));
        cycling_sends_at_every_tick(first, (n - 1) as nat);
    }
}

proof fn settling_consumes_one_tick(first: FirstSend, n: nat)
    ensures
        state_after(first, SenderState::Settling, ticks(n)) == (if n == 0 {
            SenderState::Settling
        } else {
            SenderState::Cycling
        }),
        sends_during(first, SenderState::Settling, ticks(n)) == (if n == 0 {
            0
        } else {
            n - 1
        }),
    decreases n,
{
    if n > 0 {
        assert(ticks(n).drop_last() == ticks((n - 1) as nat));
        settling_consumes_one_tick(first, (n - 1) as nat);
    }
}

proof fn events_after_the_first(
    first: FirstSend,
    state: SenderState,
    event: SenderEvent,
    rest: Seq<SenderEvent>,
)
    ensures
        ({
            let (next, action) = following(first, state, event);
            let all = seq![event] + rest;
            &&& state_after(first, state, all) == state_after(first, next, rest)
            &&& sends_during(first, state, all) == sends_during(first, next, rest) + (
            if action.sends() {
                1nat
            } else {
                0nat
            })
        }),
    decreases rest.len(),
{
    let all = seq![event] + rest;
    if rest.len() == 0 {
        assert(all.drop_last() == Seq::<SenderEvent>::empty());
        assert(all.last() == event);
        reveal_with_fuel(state_after, 2);
        reveal_with_fuel(sends_during, 2);
    } else {
        assert(all.drop_last() == seq![event] + rest.drop_last());
        assert(all.last() == rest.last());
        events_after_the_first(first, state, event, rest.drop_last());
    }
}

/// The events of a sender that runs for `n` ticks.
pub open spec fn undisturbed(offset: Span, n: nat) -> Seq<SenderEvent> {
    if offset.spec_total_nanos() > 0 {
        seq![SenderEvent::OffsetElapsed] + ticks(n)
    } else {
        ticks(n)
    }
}

/// After its offset and `n` ticks, a sender that sends at once has sent `n + 1` times, and one
/// that sends after one period has sent once for every tick but the first.
pub proof fn sends_are_counted_by_ticks(first: FirstSend, offset: Span, n: nat)
    ensures
        sends_in_all(first, offset, undisturbed(offset, n)) == (match first {
            FirstSend::AtOnce => n + 1,
            FirstSend::AfterOnePeriod => if n == 0 {
                0
            } else {
                (n - 1) as nat
            },
        }),
{
    events_after_the_first(first, SenderState::Offset, SenderEvent::OffsetElapsed, ticks(n));
    cycling_sends_at_every_tick(first, n);
    settling_consumes_one_tick(first, n);
}

/// How long after the start of the ticks the first of them comes.
pub open spec fn first_tick_delay(first: FirstSend, period: Span) -> Span {
    match first {
        FirstSend::AtOnce => period,
        FirstSend::AfterOnePeriod => Span::spec_zero(),
    }
}

/// Tells how long after the start of the ticks the first of them is to come. The others follow one
/// period after the other.
pub fn first_tick_after(first: FirstSend, period: Span) -> (res: Span)
    ensures
        res == first_tick_delay(first, period),
        first == FirstSend::AtOnce ==> res == period,
        first == FirstSend::AfterOnePeriod ==> res.spec_total_nanos() == 0,
{
    match first {
        FirstSend::AtOnce => period,
        FirstSend::AfterOnePeriod => Span::zero(),
    }
}

/// When the tick number `k`, from zero, is due, in nanoseconds after the beginning.
pub open spec fn tick_due(first: FirstSend, offset: Span, period: Span, k: nat) -> nat {
    offset.spec_total_nanos() + first_tick_delay(first, period).spec_total_nanos() + k
        * period.spec_total_nanos()
}

/// The events of a sender that runs for `n` ticks, each with the nanoseconds after the beginning at
/// which it is due.
pub open spec fn timed_events(
    first: FirstSend,
    offset: Span,
    period: Span,
    n: nat,
) -> Seq<(SenderEvent, nat)> {
    let timed_ticks = Seq::new(
        n,
        |k: int| (SenderEvent::Tick, tick_due(first, offset, period, k as nat)),
    );
    if offset.spec_total_nanos() > 0 {
        seq![(SenderEvent::OffsetElapsed, offset.spec_total_nanos())] + timed_ticks
    } else {
        timed_ticks
    }
}

/// The events without their times.
pub open spec fn untimed(events: Seq<(SenderEvent, nat)>) -> Seq<SenderEvent> {
    events.map_values(|event: (SenderEvent, nat)| event.0)
}

/// The times of the events in reply to which the frame is sent.
pub open spec fn send_times_during(
    first: FirstSend,
    state: SenderState,
    events: Seq<(SenderEvent, nat)>,
) -> Seq<nat>
    decreases events.len(),
{
    if events.len() == 0 {
        Seq::empty()
    } else {
        let before = state_after(first, state, untimed(events.drop_last()));
        let times = send_times_during(first, state, events.drop_last());
        if following(first, before, events.last().0).1.sends() {
            times.push(events.last().1)
        } else {
            times
        }
    }
}

/// The times at which the frame is sent, in nanoseconds after the beginning.
pub open spec fn send_times(
    first: FirstSend,
    offset: Span,
    events: Seq<(SenderEvent, nat)>,
) -> Seq<nat> {
    let (state, action) = beginning(first, offset);
    let times = send_times_during(first, state, events);
    if action.sends() {
        seq![0nat] + times
    } else {
        times
    }
}

/// The number of the first send: it is due so many periods after the offset.
pub open spec fn first_number(first: FirstSend) -> nat {
    match first {
        FirstSend::AtOnce => 0,
        FirstSend::AfterOnePeriod => 1,
    }
}

proof fn timed_run(first: FirstSend, offset: Span, period: Span, n: nat)
    ensures
        ({
            let events = timed_events(first, offset, period, n);
            let start = beginning(first, offset).0;
            let times = send_times(first, offset, events);
            &&& state_after(first, start, untimed(events)) == (if n == 0 {
                cycle_start(first).0
            } else {
                SenderState::Cycling
            })
            &&& times.len() == (match first {
                FirstSend::AtOnce => n + 1,
                FirstSend::AfterOnePeriod => if n == 0 {
                    0
                } else {
                    (n - 1) as nat
                },
            })
            &&& forall|i: int|
                0 <= i < times.len() ==> #[trigger] times[i] == offset.spec_total_nanos() + (i
                    + first_number(first)) * period.spec_total_nanos()
        }),
    decreases n,
{
    let events = timed_events(first, offset, period, n);
    let start = beginning(first, offset).0;
    let p = period.spec_total_nanos() as int;
    if n == 0 {
        assert(0 * p == 0);
        if offset.spec_total_nanos() > 0 {
            assert(events.drop_last() == Seq::<(SenderEvent, nat)>::empty());
            assert(untimed(events).drop_last() == Seq::<SenderEvent>::empty());
            assert(untimed(events).last() == SenderEvent::OffsetElapsed);
            reveal_with_fuel(state_after, 2);
            reveal_with_fuel(send_times_during, 2);
        }
    } else {
        let m = (n - 1) as nat;
        let front = timed_events(first, offset, period, m);
        timed_run(first, offset, period, m);
        assert(events.drop_last() == front);
        assert(events.last() == (SenderEvent::Tick, tick_due(first, offset, period, m)));
        assert(untimed(events).drop_last() == untimed(front));
        assert(untimed(events).last() == SenderEvent::Tick);
        let before = send_times(first, offset, front);
        let times = send_times(first, offset, events);
        let sends = following(first, state_after(first, start, untimed(front)), SenderEvent::Tick).1;
        if sends.sends() {
            assert(times == before.push(tick_due(first, offset, period, m)));
            assert(p + m * p == (m + 1) * p) by (nonlinear_arith);
        } else {
            assert(times == before);
        }
    }
}

/// A frame is sent at its configured period after its offset: send number `n` is due `n` periods
/// after the offset. The numbers begin with zero for a sender that sends at once, and with one for
/// a sender that sends after one period.
pub proof fn sends_are_due_at_the_period(
    first: FirstSend,
    offset: Span,
    period: Span,
    n_ticks: nat,
    n: nat,
)
    requires
        first_number(first) <= n,
        n - first_number(first) < send_times(
            first,
            offset,
            timed_events(first, offset, period, n_ticks),
        ).len(),
    ensures
        send_times(first, offset, timed_events(first, offset, period, n_ticks))[n - first_number(
            first,
        )] == offset.spec_total_nanos() + n * period.spec_total_nanos(),
{
    timed_run(first, offset, period, n_ticks);
}

/// The times at which the frame is sent are as many as the sends.
pub proof fn every_send_has_its_time(
    first: FirstSend,
    offset: Span,
    period: Span,
    n_ticks: nat,
)
    ensures
        untimed(timed_events(first, offset, period, n_ticks)) == undisturbed(offset, n_ticks),
        send_times(first, offset, timed_events(first, offset, period, n_ticks)).len()
            == sends_in_all(first, offset, undisturbed(offset, n_ticks)),
{
    timed_run(first, offset, period, n_ticks);
    sends_are_counted_by_ticks(first, offset, n_ticks);
}

/// When the ticks were started, in nanoseconds after the beginning: at the last action that started
/// them. An action is taken at the time of the event that it answers, the first one at the
/// beginning.
pub open spec fn ticks_started(
    first: FirstSend,
    offset: Span,
    events: Seq<(SenderEvent, nat)>,
) -> Option<nat>
    decreases events.len(),
{
    let (start, begun) = beginning(first, offset);
    if events.len() == 0 {
        if begun is StartTicks || begun is StartTicksAndSend {
            Some(0)
        } else {
            None
        }
    } else {
        let before = state_after(first, start, untimed(events.drop_last()));
        let action = following(first, before, events.last().0).1;
        if action is StartTicks || action is StartTicksAndSend {
            Some(events.last().1)
        } else {
            ticks_started(first, offset, events.drop_last())
        }
    }
}

/// How many of the events are the given one.
pub open spec fn occurrences(events: Seq<(SenderEvent, nat)>, event: SenderEvent) -> nat
    decreases events.len(),
{
    if events.len() == 0 {
        0
    } else {
        occurrences(events.drop_last(), event) + (if events.last().0 == event {
            1nat
        } else {
            0nat
        })
    }
}

/// `next` can come after the events. A stop can always come. The offset elapses once, where the
/// sender began to sleep for it. A tick comes only where the ticks were started, and its time is
/// counted from then.
pub open spec fn may_come(
    first: FirstSend,
    offset: Span,
    period: Span,
    events: Seq<(SenderEvent, nat)>,
    next: (SenderEvent, nat),
) -> bool {
    match next.0 {
        SenderEvent::Stop => true,
        SenderEvent::OffsetElapsed => {
            &&& beginning(first, offset).1 is Sleep
            &&& occurrences(events, SenderEvent::OffsetElapsed) == 0
            &&& next.1 == offset.spec_total_nanos()
        },
        SenderEvent::Tick => {
            &&& ticks_started(first, offset, events) matches Some(start)
            &&& next.1 == start + first_tick_delay(first, period).spec_total_nanos() + occurrences(
                events,
                SenderEvent::Tick,
            ) * period.spec_total_nanos()
        },
    }
}

/// Each of the events can come after those before it.
pub open spec fn is_run(
    first: FirstSend,
    offset: Span,
    period: Span,
    events: Seq<(SenderEvent, nat)>,
) -> bool
    decreases events.len(),
{
    events.len() > 0 ==> {
        &&& is_run(first, offset, period, events.drop_last())
        &&& may_come(first, offset, period, events.drop_last(), events.last())
    }
}

proof fn undisturbed_run(first: FirstSend, offset: Span, period: Span, n: nat)
    ensures
        ({
            let events = timed_events(first, offset, period, n);
            &&& is_run(first, offset, period, events)
            &&& ticks_started(first, offset, events) == Some(offset.spec_total_nanos())
            &&& occurrences(events, SenderEvent::Tick) == n
        }),
    decreases n,
{
    let events = timed_events(first, offset, period, n);
    timed_run(first, offset, period, n);
    if n == 0 {
        if offset.spec_total_nanos() > 0 {
            assert(events.drop_last() == Seq::<(SenderEvent, nat)>::empty());
            assert(untimed(events.drop_last()) == Seq::<SenderEvent>::empty());
            assert(events.last().0 == SenderEvent::OffsetElapsed);
            reveal_with_fuel(state_after, 2);
            reveal_with_fuel(is_run, 2);
            reveal_with_fuel(occurrences, 2);
        }
    } else {
        let m = (n - 1) as nat;
        undisturbed_run(first, offset, period, m);
        timed_run(first, offset, period, m);
        let front = timed_events(first, offset, period, m);
        assert(events.drop_last() == front);
        assert(events.last() == (SenderEvent::Tick, tick_due(first, offset, period, m)));
    }
}

/// A sender that is not stopped goes on for ever: it starts the ticks that it waits for once its
/// offset has passed, so that for any number of ticks there is a run in which they come, one period
/// apart, counted from that start.
pub proof fn ticks_go_on_from_the_end_of_the_offset(
    first: FirstSend,
    offset: Span,
    period: Span,
    n: nat,
)
    ensures
        is_run(first, offset, period, timed_events(first, offset, period, n)),
        ticks_started(first, offset, timed_events(first, offset, period, n)) == Some(
            offset.spec_total_nanos(),
        ),
        occurrences(timed_events(first, offset, period, n), SenderEvent::Tick) == n,
{
    undisturbed_run(first, offset, period, n);
}

/// A sender that begins to wait for ticks starts them, and a sender that waits for its offset sleeps
/// for it. It waits for its offset if and only if it has one.
pub proof fn what_is_waited_for_is_started_at_the_beginning(
    first: FirstSend,
    offset: Span,
    res: (SenderState, SenderAction),
)
    requires
        call_ensures(begin, (first, offset), res),
    ensures
        offset.secs > 0 || offset.nanos > 0 ==> res.0 is Offset && res.1 is Sleep,
        offset.secs == 0 && offset.nanos == 0 ==> res.0 is Settling || res.0 is Cycling,
        res.0 is Settling || res.0 is Cycling ==> res.1 is StartTicks || res.1 is StartTicksAndSend,
        res.0 is Settling ==> first is AfterOnePeriod && res.1 is StartTicks,
        res.0 is Cycling ==> first is AtOnce && res.1 is StartTicksAndSend,
{
}

/// Where the offset has passed, a sender does what it would have begun with had it had no offset.
pub proof fn offset_only_delays(
    first: FirstSend,
    none: Span,
    begun: (SenderState, SenderAction),
    elapsed: (SenderState, SenderAction),
)
    requires
        none.secs == 0 && none.nanos == 0,
        call_ensures(begin, (first, none), begun),
        call_ensures(advance, (first, SenderState::Offset, SenderEvent::OffsetElapsed), elapsed),
    ensures
        elapsed == begun,
        elapsed.1 is StartTicks || elapsed.1 is StartTicksAndSend,
{
}

/// What a sender does in reply to an event. It starts the ticks only as it leaves the offset, sends
/// only as it leaves the offset or at a tick while it cycles, and ends if and only if it is stopped.
/// A stop ends it while it waits for the offset or cycles. An event that it does not wait for leaves
/// it in its state, and nothing is sent.
pub proof fn each_event_is_answered(
    first: FirstSend,
    state: SenderState,
    event: SenderEvent,
    res: (SenderState, SenderAction),
)
    requires
        call_ensures(advance, (first, state, event), res),
    ensures
        !(res.1 is Sleep),
        res.1 is StartTicks || res.1 is StartTicksAndSend <==> state is Offset
            && event is OffsetElapsed,
        res.1 is Send <==> state is Cycling && event is Tick,
        res.1 is StartTicksAndSend <==> first is AtOnce && state is Offset
            && event is OffsetElapsed,
        res.1 is Exit <==> res.0 is Stopped,
        res.0 is Stopped <==> state is Stopped || (event is Stop && (state is Offset
            || state is Cycling)),
        state is Offset && event is OffsetElapsed ==> !(res.0 is Offset),
        state is Settling && event is Tick ==> res.0 is Cycling,
        state is Cycling && event is Tick ==> res.0 is Cycling,
        state is Offset && event is Tick ==> res.0 is Offset,
        state is Settling && !(event is Tick) ==> res.0 is Settling,
        state is Cycling && event is OffsetElapsed ==> res.0 is Cycling,
{
}

/// Nothing is sent after a stop that the sender waits for, whatever comes then.
pub proof fn nothing_is_sent_after_a_stop(
    first: FirstSend,
    offset: Span,
    before: Seq<SenderEvent>,
    after: Seq<SenderEvent>,
)
    requires
        ({
            let state = state_after(first, beginning(first, offset).0, before);
            state is Offset || state is Cycling
        }),
    ensures
        sends_in_all(first, offset, before.push(SenderEvent::Stop) + after) == sends_in_all(
            first,
            offset,
            before,
        ),
        state_after(
            first,
            beginning(first, offset).0,
            before.push(SenderEvent::Stop) + after,
        ) is Stopped,
    decreases after.len(),
{
    let all = before.push(SenderEvent::Stop) + after;
    if after.len() == 0 {
        assert(all == before.push(SenderEvent::Stop));
        assert(all.drop_last() == before);
    } else {
        assert(all.drop_last() == before.push(SenderEvent::Stop) + after.drop_last());
        nothing_is_sent_after_a_stop(first, offset, before, after.drop_last());
    }
}

/// The first tick comes at once where the first send is to be one period later, and one period after
/// the start of the ticks where the frame is sent at once.
pub proof fn first_tick_makes_up_for_the_first_send(first: FirstSend, period: Span, res: Span)
    requires
        call_ensures(first_tick_after, (first, period), res),
    ensures
        first is AtOnce ==> res.secs == period.secs && res.nanos == period.nanos,
        first is AfterOnePeriod ==> res.secs == 0 && res.nanos == 0,
{
}

} // verus!
