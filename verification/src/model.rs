//! The engine as mathematics: its state as numbers and sequences, and what
//! each input makes of it.

use crate::addr::Ipv4Addr;
use crate::message::{Error, EventView, InputView, OutputView};
use crate::time::NANOS_PER_SEC;
use crate::wire::{echo_reply_in, echo_request};
use vstd::prelude::*;

verus! {

/// How many probes can be in flight at once.
///
/// The table of probes in flight has this many slots and never grows, so
/// the engine's memory is bounded. The price: a probe is kept in the slot that
/// its sequence number picks, and a new probe takes its slot over from
/// whatever is there. With more than this many in flight the oldest is pushed
/// out, and is then neither matched nor reported lost.
pub const CAPACITY: usize = 10;

/// The session tag that every probe carries.
pub const IDENTIFIER: u16 = 0x1337;

/// Nanoseconds from one probe to the next.
pub const CADENCE: u64 = NANOS_PER_SEC;

/// A probe in flight.
pub struct RequestView {
    /// When the probe was sent.
    pub sent_at: nat,
    /// When it is given up.
    pub expires_at: nat,
    /// Its sequence number.
    pub seq_num: u16,
}

/// The state of an engine.
pub struct PingView {
    /// The peer that is probed.
    pub target: Ipv4Addr,
    /// The session tag of the probes.
    pub identifier: u16,
    /// How long a probe waits for its reply.
    pub timeout: nat,
    /// Sequence number of the next probe.
    pub next_seq_num: u16,
    /// When the last probe was sent, if any was.
    pub last_send: Option<nat>,
    /// The probes in flight, each in its slot.
    pub pending: Seq<Option<RequestView>>,
}

/// The slot that keeps the probe with this sequence number.
pub open spec fn slot_of(seq_num: u16) -> int {
    seq_num as int % CAPACITY as int
}

/// The sequence number after `seq_num`: it starts over after 65535.
pub open spec fn seq_after(seq_num: u16) -> u16 {
    if seq_num == u16::MAX {
        0
    } else {
        (seq_num + 1) as u16
    }
}

/// Whether the probe `mine` in the slot `slot` goes before the probe `theirs`
/// in the slot `other` when the first to expire is looked for: it expires no
/// later, and earlier if the other is in a lower slot.
pub open spec fn expires_no_later(
    mine: RequestView,
    slot: int,
    theirs: RequestView,
    other: int,
) -> bool {
    mine.expires_at <= theirs.expires_at && (other < slot ==> mine.expires_at < theirs.expires_at)
}

/// The earlier of two instants.
pub open spec fn earlier_of(a: nat, b: nat) -> nat {
    if a <= b {
        a
    } else {
        b
    }
}

impl PingView {
    /// An engine that has sent nothing yet.
    pub open spec fn initial(target: Ipv4Addr, timeout: nat) -> PingView {
        PingView {
            target,
            identifier: IDENTIFIER,
            timeout,
            next_seq_num: 0,
            last_send: None,
            pending: Seq::new(CAPACITY as nat, |i: int| None::<RequestView>),
        }
    }

    /// A slot is empty, or holds a probe whose sequence number picks this
    /// slot and which expires one timeout after it was sent.
    pub open spec fn slot_wf(self, slot: int) -> bool {
        match self.pending[slot] {
            Some(request) => slot_of(request.seq_num) == slot && request.expires_at
                == request.sent_at + self.timeout,
            None => true,
        }
    }

    /// What holds of every state that an engine reaches.
    pub open spec fn wf(self) -> bool {
        &&& self.pending.len() == CAPACITY
        &&& forall|slot: int| 0 <= slot < CAPACITY ==> #[trigger] self.slot_wf(slot)
    }

    /// Whether the engine's clock can still count one timeout and one
    /// cadence past `now`.
    pub open spec fn in_horizon(self, now: nat) -> bool {
        now + self.timeout <= u64::MAX && now + CADENCE <= u64::MAX
    }

    /// When the next probe is due: one cadence after the last, and at once
    /// if there was none.
    pub open spec fn next_send_at(self, now: nat) -> nat {
        match self.last_send {
            Some(last) => last + CADENCE as nat,
            None => now,
        }
    }

    /// Whether the probe with this sequence number is in flight.
    pub open spec fn holds(self, seq_num: u16) -> bool {
        match self.pending[slot_of(seq_num)] {
            Some(request) => request.seq_num == seq_num,
            None => false,
        }
    }

    /// The state with one slot emptied.
    pub open spec fn release(self, slot: int) -> PingView {
        PingView { pending: self.pending.update(slot, None), ..self }
    }

    /// The state after a probe was sent at `now`. The probe takes its slot
    /// over from whatever was there.
    pub open spec fn probe(self, now: nat) -> PingView {
        PingView {
            next_seq_num: seq_after(self.next_seq_num),
            last_send: Some(now),
            pending: self.pending.update(
                slot_of(self.next_seq_num),
                Some(
                    RequestView {
                        sent_at: now,
                        expires_at: now + self.timeout,
                        seq_num: self.next_seq_num,
                    },
                ),
            ),
            ..self
        }
    }

    /// Whether `slot` holds the probe that expires first. Of several that
    /// expire together it is the one in the lowest slot.
    pub open spec fn is_earliest(self, slot: int) -> bool {
        &&& 0 <= slot < self.pending.len()
        &&& self.pending[slot] is Some
        &&& forall|other: int|
            0 <= other < self.pending.len() && (#[trigger] self.pending[other]) is Some
                ==> expires_no_later(self.pending[slot]->0, slot, self.pending[other]->0, other)
    }

    /// The slot of the probe that expires first, if any probe is in flight.
    pub open spec fn earliest(self) -> Option<int> {
        if exists|slot: int| self.is_earliest(slot) {
            Some(choose|slot: int| self.is_earliest(slot))
        } else {
            None
        }
    }

    /// What the engine makes of a reading of the clock.
    ///
    /// A probe that is due is sent. If none is due, the probe that expires
    /// first is reported lost once its time is up; until then the engine
    /// asks to be called again when that time or the time of the next probe
    /// comes, whichever is first.
    pub open spec fn tick(self, now: nat) -> (PingView, OutputView) {
        let next_send = self.next_send_at(now);
        if next_send <= now {
            (self.probe(now), OutputView::Send(echo_request(self.identifier, self.next_seq_num)))
        } else {
            match self.earliest() {
                None => (self, OutputView::Timeout(next_send)),
                Some(slot) => {
                    let request = self.pending[slot]->0;
                    if request.expires_at > now {
                        (self, OutputView::Timeout(earlier_of(request.expires_at, next_send)))
                    } else {
                        (
                            self.release(slot),
                            OutputView::Event(
                                EventView::Response { seq_num: request.seq_num, rtt: None },
                            ),
                        )
                    }
                },
            }
        }
    }

    /// What the engine makes of a datagram.
    ///
    /// A datagram that is no echo reply to this session is an error and
    /// changes nothing. A reply to a probe in flight takes the probe out and
    /// reports its round-trip time. A reply to anything else changes nothing
    /// and asks to be called again one timeout from `now`.
    pub open spec fn receive(self, frame: Seq<u8>, now: nat) -> (
        PingView,
        Result<OutputView, Error>,
    ) {
        match echo_reply_in(frame, self.target, self.identifier) {
            Err(error) => (self, Err(error)),
            Ok(seq_num) => if self.holds(seq_num) {
                let slot = slot_of(seq_num);
                let sent_at = self.pending[slot]->0.sent_at;
                (
                    self.release(slot),
                    Ok(
                        OutputView::Event(
                            EventView::Response {
                                seq_num,
                                rtt: Some(crate::time::elapsed(sent_at, now)),
                            },
                        ),
                    ),
                )
            } else {
                (self, Ok(OutputView::Timeout(now + self.timeout)))
            },
        }
    }

    /// What the engine makes of an input: the state it goes to, and its
    /// answer.
    pub open spec fn step(self, input: InputView) -> (PingView, Result<OutputView, Error>) {
        match input {
            InputView::Datagram(frame, now) => self.receive(frame, now),
            InputView::Time(now) => (self.tick(now).0, Ok(self.tick(now).1)),
        }
    }

    /// The state that a sequence of inputs leaves behind, each taken in
    /// its turn.
    pub open spec fn run(self, inputs: Seq<InputView>) -> PingView
        decreases inputs.len(),
    {
        if inputs.len() == 0 {
            self
        } else {
            self.run(inputs.drop_last()).step(inputs.last()).0
        }
    }

    /// The engine's answer to the input at `index` of a sequence of inputs.
    pub open spec fn answer(self, inputs: Seq<InputView>, index: int) -> Result<
        OutputView,
        Error,
    > {
        self.run(inputs.take(index)).step(inputs[index]).1
    }
}

/// Emptying a slot keeps a state well formed.
pub proof fn lemma_release_keeps_wf(state: PingView, slot: int)
    requires
        state.wf(),
        0 <= slot < CAPACITY,
    ensures
        state.release(slot).wf(),
{
    let after = state.release(slot);
    assert forall|other: int| 0 <= other < CAPACITY implies #[trigger] after.slot_wf(other) by {
        assert(state.slot_wf(other));
    }
}

/// Sending a probe keeps a state well formed.
pub proof fn lemma_probe_keeps_wf(state: PingView, now: nat)
    requires
        state.wf(),
    ensures
        state.probe(now).wf(),
{
    let after = state.probe(now);
    assert forall|other: int| 0 <= other < CAPACITY implies #[trigger] after.slot_wf(other) by {
        assert(state.slot_wf(other));
    }
}

/// At most one slot holds the probe that expires first.
pub proof fn lemma_earliest_is_unique(state: PingView, a: int, b: int)
    requires
        state.is_earliest(a),
        state.is_earliest(b),
    ensures
        a == b,
{
}

/// The slot that `is_earliest` singles out is the one that `earliest` gives.
pub proof fn lemma_earliest_found(state: PingView, slot: int)
    requires
        state.is_earliest(slot),
    ensures
        state.earliest() == Some(slot),
{
    let chosen = choose|other: int| state.is_earliest(other);
    lemma_earliest_is_unique(state, slot, chosen);
}

/// With no probe in flight there is no earliest one.
pub proof fn lemma_earliest_of_none(state: PingView)
    requires
        forall|slot: int|
            0 <= slot < state.pending.len() ==> (#[trigger] state.pending[slot]) is None,
    ensures
        state.earliest() is None,
{
}

} // verus!
