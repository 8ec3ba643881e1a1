//! What holds of the engine whatever it is fed.
//!
//! The laws speak of the engine's states and answers as mathematics, the way
//! the contract of `Ping::handle_input` does; so they hold of every engine
//! that is driven through `handle_input`.

use crate::addr::Ipv4Addr;
use crate::message::{Error, EventView, InputView, OutputView};
use crate::model::{
    expires_no_later, lemma_earliest_found, lemma_earliest_is_unique, lemma_probe_keeps_wf,
    lemma_release_keeps_wf, slot_of, PingView, RequestView, CADENCE, CAPACITY, IDENTIFIER,
};
use crate::time::elapsed;
use crate::wire::{
    be16, echo_reply_in, echo_request, ipv4_destination, ipv4_payload, ipv4_protocol,
    ipv4_source, ECHO_LEN, ECHO_REPLY, ICMP_PROTOCOL, IPV4_MIN_LEN,
};
use vstd::prelude::*;

verus! {

/// The answer that reports the probe `seq_num` lost.
pub open spec fn loss_of(seq_num: u16) -> Result<OutputView, Error> {
    Ok(OutputView::Event(EventView::Response { seq_num, rtt: None }))
}

/// The answer that reports a reply to the probe `seq_num`, `rtt` after the
/// probe.
pub open spec fn reply_to(seq_num: u16, rtt: nat) -> Result<OutputView, Error> {
    Ok(OutputView::Event(EventView::Response { seq_num, rtt: Some(rtt) }))
}

/// Whether an answer reports the probe `seq_num`, lost or answered.
pub open spec fn reports(answer: Result<OutputView, Error>, seq_num: u16) -> bool {
    match answer {
        Ok(OutputView::Event(EventView::Response { seq_num: reported, rtt })) => reported
            == seq_num,
        _ => false,
    }
}

/// Whether an answer is a probe to transmit.
pub open spec fn sends(answer: Result<OutputView, Error>) -> bool {
    match answer {
        Ok(OutputView::Send(_)) => true,
        _ => false,
    }
}

/// Whether an answer is a probe to transmit that takes the slot of the
/// probe `seq_num`, given the state that the answer was made in.
pub open spec fn sends_over(
    state: PingView,
    answer: Result<OutputView, Error>,
    seq_num: u16,
) -> bool {
    sends(answer) && slot_of(state.next_seq_num) == slot_of(seq_num)
}

/// Readings of the clock, `count` of them, all at the instant `now`.
pub open spec fn ticks(now: nat, count: nat) -> Seq<InputView> {
    Seq::new(count, |i: int| InputView::Time(now))
}

/// How many of the first `upto` slots hold a probe.
pub open spec fn occupied(pending: Seq<Option<RequestView>>, upto: int) -> nat
    decreases upto,
{
    if upto <= 0 {
        0
    } else {
        occupied(pending, upto - 1) + if pending[upto - 1] is Some {
            1nat
        } else {
            0nat
        }
    }
}

/// Every input leaves a well-formed state well formed.
pub proof fn law_step_keeps_wf(state: PingView, input: InputView)
    requires
        state.wf(),
    ensures
        state.step(input).0.wf(),
{
    match input {
        InputView::Datagram(frame, now) => {
            if let Ok(seq_num) = echo_reply_in(frame, state.target, state.identifier) {
                if state.holds(seq_num) {
                    lemma_release_keeps_wf(state, slot_of(seq_num));
                }
            }
        },
        InputView::Time(now) => {
            if state.next_send_at(now) <= now {
                lemma_probe_keeps_wf(state, now);
            } else if let Some(slot) = state.earliest() {
                lemma_release_keeps_wf(state, slot);
            }
        },
    }
}

/// Every sequence of inputs leaves a well-formed state well formed.
pub proof fn law_run_keeps_wf(state: PingView, inputs: Seq<InputView>)
    requires
        state.wf(),
    ensures
        state.run(inputs).wf(),
    decreases inputs.len(),
{
    if inputs.len() > 0 {
        law_run_keeps_wf(state, inputs.drop_last());
        law_step_keeps_wf(state.run(inputs.drop_last()), inputs.last());
    }
}

/// No input changes whom the engine probes, under which identifier, or how
/// long it waits.
pub proof fn law_settings_never_change(state: PingView, inputs: Seq<InputView>)
    ensures
        state.run(inputs).target == state.target,
        state.run(inputs).identifier == state.identifier,
        state.run(inputs).timeout == state.timeout,
    decreases inputs.len(),
{
    if inputs.len() > 0 {
        law_settings_never_change(state, inputs.drop_last());
    }
}

/// The state before the input at `index + 1` is what the input at `index`
/// made of the state before it.
pub proof fn lemma_run_unfolds(state: PingView, inputs: Seq<InputView>, index: int)
    requires
        0 <= index < inputs.len(),
    ensures
        state.run(inputs.take(index + 1)) == state.run(inputs.take(index)).step(inputs[index]).0,
{
    assert(inputs.take(index + 1).drop_last() =~= inputs.take(index));
}

/// An engine that has sent nothing sends the probe with sequence number 0
/// at its first reading of the clock, whenever that is.
pub proof fn law_first_tick_sends_probe_zero(target: Ipv4Addr, timeout: nat, now: nat)
    ensures
        PingView::initial(target, timeout).tick(now) == (
            PingView::initial(target, timeout).probe(now),
            OutputView::Send(echo_request(IDENTIFIER, 0)),
        ),
{
}

/// Datagrams alone leave a new engine as it was.
proof fn lemma_datagrams_leave_new_engine(
    target: Ipv4Addr,
    timeout: nat,
    inputs: Seq<InputView>,
    upto: int,
)
    requires
        0 <= upto <= inputs.len(),
        forall|earlier: int| 0 <= earlier < upto ==> (#[trigger] inputs[earlier]) is Datagram,
    ensures
        PingView::initial(target, timeout).run(inputs.take(upto)) == PingView::initial(
            target,
            timeout,
        ),
    decreases upto,
{
    if upto > 0 {
        lemma_datagrams_leave_new_engine(target, timeout, inputs, upto - 1);
        lemma_run_unfolds(PingView::initial(target, timeout), inputs, upto - 1);
    }
}

/// Whatever datagrams arrive before the first reading of the clock, that
/// reading makes a new engine send the probe with sequence number 0.
pub proof fn law_first_tick_after_datagrams(
    target: Ipv4Addr,
    timeout: nat,
    inputs: Seq<InputView>,
    index: int,
)
    requires
        0 <= index < inputs.len(),
        inputs[index] is Time,
        forall|earlier: int| 0 <= earlier < index ==> (#[trigger] inputs[earlier]) is Datagram,
    ensures
        PingView::initial(target, timeout).answer(inputs, index) == Ok::<OutputView, Error>(
            OutputView::Send(echo_request(IDENTIFIER, 0)),
        ),
{
    lemma_datagrams_leave_new_engine(target, timeout, inputs, index);
}

/// A reply to a probe in flight is answered with the time from the probe to
/// the reply, and takes the probe out of flight.
pub proof fn law_reply_is_matched(state: PingView, frame: Seq<u8>, seq_num: u16, now: nat)
    requires
        state.wf(),
        echo_reply_in(frame, state.target, state.identifier) == Ok::<u16, Error>(seq_num),
        state.holds(seq_num),
    ensures
        state.receive(frame, now).1 == reply_to(
            seq_num,
            elapsed(state.pending[slot_of(seq_num)]->0.sent_at, now),
        ),
        !state.receive(frame, now).0.holds(seq_num),
{
}

/// A reply to a probe that is not in flight reports nothing and changes
/// nothing: the engine asks to be called again one timeout later.
pub proof fn law_unmatched_reply_is_no_event(
    state: PingView,
    frame: Seq<u8>,
    seq_num: u16,
    now: nat,
)
    requires
        echo_reply_in(frame, state.target, state.identifier) == Ok::<u16, Error>(seq_num),
        !state.holds(seq_num),
    ensures
        state.receive(frame, now) == (
            state,
            Ok::<OutputView, Error>(OutputView::Timeout(now + state.timeout)),
        ),
{
}

/// A probe sent at `t0` and answered at `t1`, no earlier than `t0`, is
/// reported with the round-trip time `t1 - t0`; the same reply once more, at
/// any time `t2`, is matched to nothing.
pub proof fn law_round_trip(state: PingView, t0: nat, frame: Seq<u8>, t1: nat, t2: nat)
    requires
        state.wf(),
        state.next_send_at(t0) <= t0,
        echo_reply_in(frame, state.target, state.identifier) == Ok::<u16, Error>(
            state.next_seq_num,
        ),
        t0 <= t1,
    ensures
        state.tick(t0).1 == OutputView::Send(echo_request(state.identifier, state.next_seq_num)),
        state.tick(t0).0.receive(frame, t1).1 == reply_to(state.next_seq_num, (t1 - t0) as nat),
        state.tick(t0).0.receive(frame, t1).0.receive(frame, t2) == (
            state.tick(t0).0.receive(frame, t1).0,
            Ok::<OutputView, Error>(OutputView::Timeout(t2 + state.timeout)),
        ),
{
    lemma_probe_keeps_wf(state, t0);
}

/// A probe in flight stays as it is unless the input reports it or sends a
/// probe into its slot.
pub proof fn law_flight_goes_on(state: PingView, input: InputView, seq_num: u16)
    requires
        state.wf(),
        state.holds(seq_num),
        !reports(state.step(input).1, seq_num),
        !sends_over(state, state.step(input).1, seq_num),
    ensures
        state.step(input).0.pending[slot_of(seq_num)] == state.pending[slot_of(seq_num)],
{
}

/// A probe that was sent is still in flight, as it was sent, after any
/// inputs that neither report it nor send a probe into its slot.
proof fn lemma_probe_stays_in_flight(
    state: PingView,
    inputs: Seq<InputView>,
    sent: int,
    later: int,
    seq_num: u16,
)
    requires
        state.wf(),
        0 <= sent < later <= inputs.len(),
        sends(state.answer(inputs, sent)),
        state.run(inputs.take(sent)).next_seq_num == seq_num,
        forall|between: int|
            sent < between < later ==> !reports(#[trigger] state.answer(inputs, between), seq_num)
                && !sends_over(
                state.run(inputs.take(between)),
                state.answer(inputs, between),
                seq_num,
            ),
    ensures
        state.run(inputs.take(later)).pending[slot_of(seq_num)] == Some(
            RequestView {
                sent_at: inputs[sent].now(),
                expires_at: inputs[sent].now() + state.timeout,
                seq_num,
            },
        ),
    decreases later - sent,
{
    let before = state.run(inputs.take(later - 1));
    lemma_run_unfolds(state, inputs, later - 1);
    law_run_keeps_wf(state, inputs.take(later - 1));
    law_settings_never_change(state, inputs.take(later - 1));
    if sent == later - 1 {
        law_send_waits_for_cadence(before, inputs[sent]);
    } else {
        lemma_probe_stays_in_flight(state, inputs, sent, later - 1, seq_num);
        assert(!reports(state.answer(inputs, later - 1), seq_num));
        law_flight_goes_on(before, inputs[later - 1], seq_num);
    }
}

/// A reply to a probe is answered with the time from the probe to the
/// reply, whatever came in between, as long as nothing in between reported
/// the probe or sent another into its slot.
pub proof fn law_reply_finds_its_probe(
    state: PingView,
    inputs: Seq<InputView>,
    sent: int,
    replied: int,
    seq_num: u16,
)
    requires
        state.wf(),
        0 <= sent < replied < inputs.len(),
        sends(state.answer(inputs, sent)),
        state.run(inputs.take(sent)).next_seq_num == seq_num,
        inputs[replied] matches InputView::Datagram(frame, _) && echo_reply_in(
            frame,
            state.target,
            state.identifier,
        ) == Ok::<u16, Error>(seq_num),
        forall|between: int|
            sent < between < replied ==> !reports(
                #[trigger] state.answer(inputs, between),
                seq_num,
            ) && !sends_over(
                state.run(inputs.take(between)),
                state.answer(inputs, between),
                seq_num,
            ),
    ensures
        state.answer(inputs, replied) == reply_to(
            seq_num,
            elapsed(inputs[sent].now(), inputs[replied].now()),
        ),
{
    lemma_probe_stays_in_flight(state, inputs, sent, replied, seq_num);
    law_settings_never_change(state, inputs.take(replied));
}

/// A reading of the clock reports the loss of the probe `seq_num` exactly
/// when no probe is due, the probe that expires first is `seq_num`, and its
/// time is up. The probe is then out of flight.
pub proof fn law_loss_is_reported(state: PingView, seq_num: u16, now: nat)
    requires
        state.wf(),
    ensures
        Ok::<OutputView, Error>(state.tick(now).1) == loss_of(seq_num) <==> (state.next_send_at(
            now,
        ) > now && state.holds(seq_num) && state.is_earliest(slot_of(seq_num))
            && state.pending[slot_of(seq_num)]->0.expires_at <= now),
        Ok::<OutputView, Error>(state.tick(now).1) == loss_of(seq_num) ==> !state.tick(
            now,
        ).0.holds(seq_num),
{
    if state.next_send_at(now) > now {
        match state.earliest() {
            Some(slot) => {
                assert(state.slot_wf(slot));
                if state.holds(seq_num) && state.is_earliest(slot_of(seq_num)) {
                    lemma_earliest_is_unique(state, slot, slot_of(seq_num));
                }
            },
            None => {
                if state.is_earliest(slot_of(seq_num)) {
                    lemma_earliest_found(state, slot_of(seq_num));
                }
            },
        }
    }
}

/// An unanswered probe that was sent at `t0` is reported lost by a reading
/// of the clock at `t0` plus the timeout or later, if no probe is due at that
/// reading and no other probe in flight expires before it or with it in a
/// lower slot.
pub proof fn law_timeout_is_reported(state: PingView, seq_num: u16, now: nat)
    requires
        state.wf(),
        state.holds(seq_num),
        state.pending[slot_of(seq_num)]->0.sent_at + state.timeout <= now,
        state.next_send_at(now) > now,
        state.is_earliest(slot_of(seq_num)),
    ensures
        Ok::<OutputView, Error>(state.tick(now).1) == loss_of(seq_num),
        !state.tick(now).0.holds(seq_num),
{
    assert(state.slot_wf(slot_of(seq_num)));
    law_loss_is_reported(state, seq_num, now);
}

/// No more slots are occupied than there are.
proof fn lemma_occupied_is_bounded(pending: Seq<Option<RequestView>>, upto: int)
    requires
        0 <= upto,
    ensures
        occupied(pending, upto) <= upto,
    decreases upto,
{
    if upto > 0 {
        lemma_occupied_is_bounded(pending, upto - 1);
    }
}

/// Emptying an occupied slot leaves one slot less occupied.
proof fn lemma_release_frees_a_slot(pending: Seq<Option<RequestView>>, slot: int, upto: int)
    requires
        0 <= slot < pending.len(),
        0 <= upto <= pending.len(),
        pending[slot] is Some,
    ensures
        occupied(pending.update(slot, None), upto) + (if slot < upto {
            1nat
        } else {
            0nat
        }) == occupied(pending, upto),
    decreases upto,
{
    if upto > 0 {
        lemma_release_frees_a_slot(pending, slot, upto - 1);
    }
}

/// Among the first `upto` slots, if any holds a probe, one holds the probe
/// that expires first of them, and in the lowest slot of those that do.
proof fn lemma_first_to_expire(state: PingView, upto: int) -> (best: int)
    requires
        0 <= upto <= state.pending.len(),
        exists|slot: int| 0 <= slot < upto && (#[trigger] state.pending[slot]) is Some,
    ensures
        0 <= best < upto,
        state.pending[best] is Some,
        forall|other: int|
            0 <= other < upto && (#[trigger] state.pending[other]) is Some ==> expires_no_later(
                state.pending[best]->0,
                best,
                state.pending[other]->0,
                other,
            ),
    decreases upto,
{
    let last = upto - 1;
    if exists|slot: int| 0 <= slot < last && (#[trigger] state.pending[slot]) is Some {
        let before = lemma_first_to_expire(state, last);
        if state.pending[last] is Some && state.pending[last]->0.expires_at
            < state.pending[before]->0.expires_at {
            last
        } else {
            before
        }
    } else {
        last
    }
}

/// While a probe is in flight, some probe expires first.
pub proof fn lemma_earliest_exists(state: PingView, seq_num: u16)
    requires
        state.wf(),
        state.holds(seq_num),
    ensures
        state.earliest() is Some,
        state.is_earliest(state.earliest()->0),
{
    let best = lemma_first_to_expire(state, CAPACITY as int);
    lemma_earliest_found(state, best);
}

/// Readings of the clock at one instant at which no probe is due bring the
/// losses to light one by one: that of a probe whose time is up comes no
/// later than after as many readings as there are probes in flight.
proof fn lemma_losses_drain(
    state: PingView,
    inputs: Seq<InputView>,
    from: int,
    seq_num: u16,
    now: nat,
)
    requires
        state.wf(),
        0 <= from <= inputs.len(),
        forall|index: int|
            from <= index < inputs.len() ==> #[trigger] inputs[index] == InputView::Time(now),
        state.run(inputs.take(from)).holds(seq_num),
        state.run(inputs.take(from)).pending[slot_of(seq_num)]->0.expires_at <= now,
        state.run(inputs.take(from)).next_send_at(now) > now,
        from + occupied(state.run(inputs.take(from)).pending, CAPACITY as int) <= inputs.len(),
    ensures
        exists|index: int|
            from <= index < inputs.len() && #[trigger] state.answer(inputs, index) == loss_of(
                seq_num,
            ),
    decreases inputs.len() - from,
{
    let here = state.run(inputs.take(from));
    law_run_keeps_wf(state, inputs.take(from));
    lemma_earliest_exists(here, seq_num);
    let first = here.earliest()->0;
    lemma_release_frees_a_slot(here.pending, first, CAPACITY as int);
    if first == slot_of(seq_num) {
        assert(state.answer(inputs, from) == loss_of(seq_num));
    } else {
        lemma_run_unfolds(state, inputs, from);
        lemma_losses_drain(state, inputs, from + 1, seq_num, now);
    }
}

/// A probe whose time is up is reported lost when the driver keeps reading
/// the clock: at an instant `now` no earlier than the probe's expiry, the
/// loss comes among the first readings, one more of them than there are
/// slots. The one exception is a probe that is due at `now` and takes the
/// slot of the expired one, which is then forgotten without a word.
pub proof fn law_loss_comes_to_light(state: PingView, seq_num: u16, now: nat)
    requires
        state.wf(),
        state.holds(seq_num),
        state.pending[slot_of(seq_num)]->0.sent_at + state.timeout <= now,
        !(state.next_send_at(now) <= now && slot_of(state.next_seq_num) == slot_of(seq_num)),
    ensures
        exists|index: int|
            0 <= index <= CAPACITY && #[trigger] state.answer(
                ticks(now, (CAPACITY + 1) as nat),
                index,
            ) == loss_of(seq_num),
{
    let inputs = ticks(now, (CAPACITY + 1) as nat);
    assert(state.slot_wf(slot_of(seq_num)));
    let from: int = if state.next_send_at(now) <= now {
        lemma_run_unfolds(state, inputs, 0);
        1
    } else {
        0
    };
    lemma_occupied_is_bounded(state.run(inputs.take(from)).pending, CAPACITY as int);
    lemma_losses_drain(state, inputs, from, seq_num, now);
}

/// The engine reports a probe only while it is in flight, and the report
/// takes it out of flight.
pub proof fn law_report_ends_flight(state: PingView, input: InputView, seq_num: u16)
    requires
        state.wf(),
        reports(state.step(input).1, seq_num),
    ensures
        state.holds(seq_num),
        !state.step(input).0.holds(seq_num),
{
    if let InputView::Time(now) = input {
        if let Some(slot) = state.earliest() {
            assert(state.slot_wf(slot));
        }
    }
}

/// A probe comes into flight only by being sent.
pub proof fn law_flight_starts_with_send(state: PingView, input: InputView, seq_num: u16)
    requires
        state.wf(),
        !state.holds(seq_num),
        state.step(input).0.holds(seq_num),
    ensures
        sends(state.step(input).1),
        state.next_seq_num == seq_num,
{
}

/// If a probe is out of flight before the input at `from` and in flight
/// before the input at `to`, it was sent in between.
proof fn lemma_flight_needs_send(
    state: PingView,
    inputs: Seq<InputView>,
    from: int,
    to: int,
    seq_num: u16,
)
    requires
        state.wf(),
        0 <= from <= to <= inputs.len(),
        !state.run(inputs.take(from)).holds(seq_num),
        state.run(inputs.take(to)).holds(seq_num),
    ensures
        exists|between: int|
            from <= between < to && sends(#[trigger] state.answer(inputs, between))
                && state.run(inputs.take(between)).next_seq_num == seq_num,
    decreases to - from,
{
    if from < to {
        let before = state.run(inputs.take(to - 1));
        lemma_run_unfolds(state, inputs, to - 1);
        if before.holds(seq_num) {
            lemma_flight_needs_send(state, inputs, from, to - 1, seq_num);
        } else {
            law_run_keeps_wf(state, inputs.take(to - 1));
            law_flight_starts_with_send(before, inputs[to - 1], seq_num);
            assert(sends(state.answer(inputs, to - 1)));
        }
    }
}

/// No probe is reported twice: between two reports of the sequence number
/// `seq_num`, in any sequence of inputs, a probe with that number was sent.
pub proof fn law_no_report_twice(
    state: PingView,
    inputs: Seq<InputView>,
    first: int,
    second: int,
    seq_num: u16,
)
    requires
        state.wf(),
        0 <= first < second < inputs.len(),
        reports(state.answer(inputs, first), seq_num),
        reports(state.answer(inputs, second), seq_num),
    ensures
        exists|between: int|
            first < between < second && sends(#[trigger] state.answer(inputs, between))
                && state.run(inputs.take(between)).next_seq_num == seq_num,
{
    law_run_keeps_wf(state, inputs.take(first));
    law_report_ends_flight(state.run(inputs.take(first)), inputs[first], seq_num);
    lemma_run_unfolds(state, inputs, first);
    law_run_keeps_wf(state, inputs.take(second));
    law_report_ends_flight(state.run(inputs.take(second)), inputs[second], seq_num);
    lemma_flight_needs_send(state, inputs, first + 1, second, seq_num);
}

/// A probe is sent only by a reading of the clock at least one cadence
/// after the last probe, and that reading becomes the time of the last probe.
/// No other input changes the time of the last probe.
pub proof fn law_send_waits_for_cadence(state: PingView, input: InputView)
    requires
        state.wf(),
    ensures
        sends(state.step(input).1) ==> input is Time,
        sends(state.step(input).1) && state.last_send is Some ==> state.last_send->0 + CADENCE
            <= input.now(),
        sends(state.step(input).1) ==> state.step(input).0.last_send == Some(input.now()),
        !sends(state.step(input).1) ==> state.step(input).0.last_send == state.last_send,
{
}

/// After a probe was sent, the time of the last probe is never earlier than
/// the time of that probe.
proof fn lemma_last_send_never_goes_back(
    state: PingView,
    inputs: Seq<InputView>,
    first: int,
    later: int,
)
    requires
        state.wf(),
        0 <= first < later <= inputs.len(),
        sends(state.answer(inputs, first)),
    ensures
        state.run(inputs.take(later)).last_send matches Some(last) && inputs[first].now() <= last,
    decreases later - first,
{
    let before = state.run(inputs.take(later - 1));
    lemma_run_unfolds(state, inputs, later - 1);
    law_run_keeps_wf(state, inputs.take(later - 1));
    law_send_waits_for_cadence(before, inputs[later - 1]);
    if first < later - 1 {
        lemma_last_send_never_goes_back(state, inputs, first, later - 1);
    }
}

/// Probes are never closer than the cadence: of any two that the engine
/// sends in a sequence of inputs, the later is sent at least one cadence
/// after the earlier.
pub proof fn law_probes_keep_cadence(
    state: PingView,
    inputs: Seq<InputView>,
    first: int,
    second: int,
)
    requires
        state.wf(),
        0 <= first < second < inputs.len(),
        sends(state.answer(inputs, first)),
        sends(state.answer(inputs, second)),
    ensures
        inputs[first].now() + CADENCE <= inputs[second].now(),
{
    lemma_last_send_never_goes_back(state, inputs, first, second);
    law_run_keeps_wf(state, inputs.take(second));
    law_send_waits_for_cadence(state.run(inputs.take(second)), inputs[second]);
}

/// A frame that does not come from the target is refused for that, with
/// the target and the frame's destination in the error, and changes nothing.
pub proof fn law_foreign_source_is_refused(state: PingView, frame: Seq<u8>, now: nat)
    requires
        frame.len() >= IPV4_MIN_LEN,
        ipv4_source(frame) != state.target,
    ensures
        state.receive(frame, now) == (
            state,
            Err::<OutputView, Error>(Error::IncorrectTarget(state.target, ipv4_destination(frame))),
        ),
{
}

/// An echo reply from the target under another identifier than the
/// engine's is refused for that and changes nothing, whatever its sequence
/// number is.
pub proof fn law_foreign_identifier_is_refused(state: PingView, frame: Seq<u8>, now: nat)
    requires
        frame.len() >= IPV4_MIN_LEN,
        ipv4_source(frame) == state.target,
        ipv4_protocol(frame) == ICMP_PROTOCOL,
        ipv4_payload(frame).len() >= ECHO_LEN,
        ipv4_payload(frame)[0] == ECHO_REPLY,
        be16(ipv4_payload(frame)[4], ipv4_payload(frame)[5]) != state.identifier,
    ensures
        state.receive(frame, now) == (state, Err::<OutputView, Error>(Error::UnexpectedIdentifier)),
{
}

} // verus!
