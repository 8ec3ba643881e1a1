//! The engine.

use crate::addr::Ipv4Addr;
use crate::context::Context;
use crate::message::{answer_view, Error, Event, Input, Output, OutputView};
use crate::model::{
    lemma_earliest_found, lemma_earliest_of_none, lemma_probe_keeps_wf, lemma_release_keeps_wf,
    slot_of, PingView, RequestView, CADENCE, CAPACITY, IDENTIFIER,
};
use crate::time::{Duration, Instant};
use crate::wire::{echo_request, encode_echo_request, parse_echo_reply, ECHO_LEN};
use vstd::prelude::*;

verus! {

/// A probe in flight.
#[derive(Clone, Copy)]
struct Request {
    sent_at: Instant,
    expires_at: Instant,
    seq_num: u16,
}

impl View for Request {
    type V = RequestView;

    closed spec fn view(&self) -> RequestView {
        RequestView {
            sent_at: self.sent_at@,
            expires_at: self.expires_at@,
            seq_num: self.seq_num,
        }
    }
}

/// The mathematical content of a slot.
spec fn slot_view(slot: Option<Request>) -> Option<RequestView> {
    match slot {
        Some(request) => Some(request@),
        None => None,
    }
}

/// The decision core of an ICMP echo client.
pub struct Ping {
    target: Ipv4Addr,
    identifier: u16,
    timeout: Duration,
    next_seq_num: u16,
    last_send: Option<Instant>,
    requests: [Option<Request>; CAPACITY],
}

impl View for Ping {
    type V = PingView;

    closed spec fn view(&self) -> PingView {
        PingView {
            target: self.target,
            identifier: self.identifier,
            timeout: self.timeout@,
            next_seq_num: self.next_seq_num,
            last_send: match self.last_send {
                Some(last) => Some(last@),
                None => None,
            },
            pending: Seq::new(CAPACITY as nat, |i: int| slot_view(self.requests@[i])),
        }
    }
}

impl Ping {
    /// What holds of every engine: its state is well formed, and its clock
    /// can count to the time of the next probe.
    pub closed spec fn wf(&self) -> bool {
        &&& self@.wf()
        &&& match self.last_send {
            Some(last) => last@ + CADENCE <= u64::MAX,
            None => true,
        }
    }

    /// The state of a well-formed engine is well formed, so that the laws
    /// of the states hold of it.
    pub proof fn lemma_state_is_wf(&self)
        requires
            self.wf(),
        ensures
            self@.wf(),
    {
    }

    /// An engine that probes `target` and gives a probe up after `timeout`.
    pub fn new(target: Ipv4Addr, timeout: Duration) -> (ping: Ping)
        ensures
            ping.wf(),
            ping@ == PingView::initial(target, timeout@),
    {
        let ping = Ping {
            target,
            identifier: IDENTIFIER,
            timeout,
            next_seq_num: 0,
            last_send: None,
            requests: [None; CAPACITY],
        };
        assert(ping@.pending =~= PingView::initial(target, timeout@).pending);
        ping
    }

    /// Whether the clock can count one timeout and one cadence past `now`:
    /// what `handle_input` asks of the time of an input.
    pub fn accepts(&self, now: Instant) -> (ok: bool)
        ensures
            ok == self@.in_horizon(now@),
    {
        now.nanos <= u64::MAX - self.timeout.nanos && now.nanos <= u64::MAX - CADENCE
    }

    /// Takes one input and gives the one thing to do about it.
    ///
    /// A `Send` holds the first bytes of the region that `context` handed
    /// out; `context` is asked for a region only then.
    pub fn handle_input<'s: 'b, 'b>(
        &'s mut self,
        input: Input,
        context: &'b mut impl Context,
    ) -> (answer: Result<Output<'b>, Error>)
        requires
            old(self).wf(),
            old(self)@.in_horizon(input@.now()),
        ensures
            final(self).wf(),
            final(self)@ == old(self)@.step(input@).0,
            answer_view(answer) == old(self)@.step(input@).1,
            !(answer matches Ok(Output::Send(_))) ==> *final(context) == *old(context),
    {
        match input {
            Input::Datagram(frame, now) => self.handle_datagram(frame, now),
            Input::Time(now) => Ok(self.handle_timeout(now, context)),
        }
    }

    /// Takes a datagram: refuses what is no reply to this session, reports
    /// the round-trip time of the probe that a reply answers, and otherwise
    /// asks to be called again one timeout from `now`.
    fn handle_datagram<'b>(&mut self, frame: &[u8], now: Instant) -> (answer: Result<
        Output<'b>,
        Error,
    >)
        requires
            old(self).wf(),
            old(self)@.in_horizon(now@),
        ensures
            final(self).wf(),
            final(self)@ == old(self)@.receive(frame@, now@).0,
            answer_view(answer) == old(self)@.receive(frame@, now@).1,
    {
        let seq_num = match parse_echo_reply(frame, self.target, self.identifier) {
            Ok(seq_num) => seq_num,
            Err(error) => {
                return Err(error);
            },
        };
        match self.claim_request(seq_num) {
            Some(request) => {
                let rtt = Some(now.duration_since(request.sent_at));
                Ok(Output::Event(Event::Response { seq_num, rtt }))
            },
            None => Ok(Output::Timeout(Instant { nanos: now.nanos + self.timeout.nanos })),
        }
    }

    /// Takes a reading of the clock: sends the probe that is due, or reports
    /// the loss of the probe whose time is up first, or says when to call next.
    fn handle_timeout<'b>(&mut self, now: Instant, context: &'b mut impl Context) -> (out: Output<
        'b,
    >)
        requires
            old(self).wf(),
            old(self)@.in_horizon(now@),
        ensures
            final(self).wf(),
            final(self)@ == old(self)@.tick(now@).0,
            out@ == old(self)@.tick(now@).1,
            !(out is Send) ==> *final(context) == *old(context),
    {
        let next_send = self.next_send_at(now);
        if next_send.nanos <= now.nanos {
            return self.emit_ping(now, context);
        }
        let (idx, request) = match self.next_expiry() {
            Some(found) => found,
            None => {
                return Output::Timeout(next_send);
            },
        };
        if request.expires_at.nanos > now.nanos {
            let deadline = if request.expires_at.nanos <= next_send.nanos {
                request.expires_at
            } else {
                next_send
            };
            return Output::Timeout(deadline);
        }
        self.clear_request(idx);
        Output::Event(Event::Response { seq_num: request.seq_num, rtt: None })
    }

    /// When the next probe is due.
    fn next_send_at(&self, now: Instant) -> (due: Instant)
        requires
            self.wf(),
        ensures
            due@ == self@.next_send_at(now@),
    {
        match self.last_send {
            Some(last) => Instant { nanos: last.nanos + CADENCE },
            None => now,
        }
    }

    /// Sends the next probe: notes it as in flight from `now` and writes it
    /// into the first bytes of a region that `context` hands out.
    fn emit_ping<'b>(&mut self, now: Instant, context: &'b mut impl Context) -> (out: Output<'b>)
        requires
            old(self).wf(),
            old(self)@.in_horizon(now@),
        ensures
            final(self).wf(),
            final(self)@ == old(self)@.probe(now@),
            out@ == OutputView::Send(
                echo_request(old(self)@.identifier, old(self)@.next_seq_num),
            ),
    {
        let seq_num = self.next_seq_num;
        self.next_seq_num = if seq_num == u16::MAX {
            0
        } else {
            seq_num + 1
        };
        self.last_send = Some(now);
        self.requests[seq_num as usize % CAPACITY] = Some(
            Request {
                sent_at: now,
                expires_at: Instant { nanos: now.nanos + self.timeout.nanos },
                seq_num,
            },
        );
        proof {
            assert(self@.pending =~= old(self)@.probe(now@).pending);
            lemma_probe_keeps_wf(old(self)@, now@);
        }
        let region = context.buffer(ECHO_LEN);
        let (frame, _) = region.split_at_mut(ECHO_LEN);
        encode_echo_request(frame, self.identifier, seq_num);
        Output::Send(frame)
    }

    /// Takes the probe with this sequence number out of flight, if it is in
    /// flight.
    fn claim_request(&mut self, seq_num: u16) -> (claimed: Option<Request>)
        requires
            old(self).wf(),
        ensures
            final(self).wf(),
            claimed is Some <==> old(self)@.holds(seq_num),
            claimed matches Some(request) ==> old(self)@.pending[slot_of(seq_num)] == Some(
                request@,
            ),
            claimed is Some ==> final(self)@ == old(self)@.release(slot_of(seq_num)),
            claimed is None ==> final(self)@ == old(self)@,
    {
        let mut idx: usize = 0;
        while idx < CAPACITY
            invariant
                idx <= CAPACITY,
                *self == *old(self),
                self.wf(),
                forall|i: int| 0 <= i < idx ==> !slot_has(#[trigger] self.requests@[i], seq_num),
            decreases CAPACITY - idx,
        {
            match self.requests[idx] {
                Some(request) => {
                    if request.seq_num == seq_num {
                        self.requests[idx] = None;
                        proof {
                            assert(old(self)@.slot_wf(idx as int));
                            assert(self@.pending =~= old(self)@.release(idx as int).pending);
                            lemma_release_keeps_wf(old(self)@, idx as int);
                        }
                        return Some(request);
                    }
                },
                None => {},
            }
            idx += 1;
        }
        None
    }

    /// The probe in flight that expires first, with its slot.
    fn next_expiry(&self) -> (found: Option<(usize, Request)>)
        requires
            self.wf(),
        ensures
            found matches Some((slot, _)) ==> self@.earliest() == Some(slot as int),
            found matches Some((slot, request)) ==> self@.pending[slot as int] == Some(request@),
            found is None ==> self@.earliest() == None::<int>,
    {
        let mut best: Option<(usize, Request)> = None;
        let mut idx: usize = 0;
        while idx < CAPACITY
            invariant
                idx <= CAPACITY,
                self.first_to_expire(idx as int, best),
            decreases CAPACITY - idx,
        {
            match self.requests[idx] {
                Some(request) => {
                    let better = match best {
                        Some((_, current)) => request.expires_at.nanos < current.expires_at.nanos,
                        None => true,
                    };
                    if better {
                        best = Some((idx, request));
                    }
                },
                None => {},
            }
            idx += 1;
        }
        proof {
            match best {
                Some((slot, _)) => lemma_earliest_found(self@, slot as int),
                None => lemma_earliest_of_none(self@),
            }
        }
        best
    }

    /// Whether `best` is what `next_expiry` looks for, as far as the slots
    /// before `upto` go.
    spec fn first_to_expire(&self, upto: int, best: Option<(usize, Request)>) -> bool {
        match best {
            Some((slot, request)) => {
                &&& slot < upto
                &&& self.requests@[slot as int] == Some(request)
                &&& forall|other: int|
                    0 <= other < upto && (#[trigger] self.requests@[other]) is Some ==> {
                        let theirs = self.requests@[other]->0.expires_at.nanos;
                        request.expires_at.nanos <= theirs && (other < slot
                            ==> request.expires_at.nanos < theirs)
                    }
            },
            None => forall|other: int|
                0 <= other < upto ==> (#[trigger] self.requests@[other]) is None,
        }
    }

    /// Empties a slot.
    fn clear_request(&mut self, idx: usize)
        requires
            old(self).wf(),
            idx < CAPACITY,
        ensures
            final(self).wf(),
            final(self)@ == old(self)@.release(idx as int),
    {
        self.requests[idx] = None;
        proof {
            assert(self@.pending =~= old(self)@.release(idx as int).pending);
            lemma_release_keeps_wf(old(self)@, idx as int);
        }
    }
}

/// Whether a slot holds the probe with this sequence number.
spec fn slot_has(slot: Option<Request>, seq_num: u16) -> bool {
    match slot {
        Some(request) => request.seq_num == seq_num,
        None => false,
    }
}

} // verus!
