//! What the driver hands to the engine and what the engine answers.

use crate::addr::Ipv4Addr;
use crate::time::{Duration, Instant};
use vstd::prelude::*;

verus! {

/// One input to the engine.
pub enum Input<'p> {
    /// A datagram that arrived, and when it did.
    Datagram(&'p [u8], Instant),
    /// The clock moved on and nothing arrived.
    Time(Instant),
}

/// The one thing the engine asks of the driver in answer to an input.
#[derive(Debug)]
pub enum Output<'b> {
    /// Something happened that the application wants to hear of.
    Event(Event),
    /// Bytes to transmit as they are.
    Send(&'b [u8]),
    /// Nothing to do until a datagram arrives or this instant is reached.
    Timeout(Instant),
}

/// What the engine reports to the application.
#[derive(Clone, Copy, Debug, PartialEq, Eq)]
pub enum Event {
    /// How one probe ended.
    Response {
        /// Sequence number of the probe.
        seq_num: u16,
        /// Time from the probe to its reply; `None` if none came in time.
        rtt: Option<Duration>,
    },
}

/// Why a datagram was not taken for a reply to one of the engine's probes.
#[derive(Clone, Copy, Debug, PartialEq, Eq)]
pub enum Error {
    /// Too short to be an IPv4 frame, or to hold an ICMP message.
    InvalidPacket,
    /// The IPv4 frame carries another protocol than ICMP.
    NotICMP,
    /// An ICMP message of the given type, which is no echo reply.
    UnhandledICMPType(u8),
    /// An echo reply to somebody else's probe.
    UnexpectedIdentifier,
    /// The frame does not come from the target. Holds the target and, of the
    /// frame, the address it is sent to: not the one it comes from.
    IncorrectTarget(Ipv4Addr, Ipv4Addr),
}

/// An [`Input`] with its bytes as a sequence and its time as a number.
pub enum InputView {
    Datagram(Seq<u8>, nat),
    Time(nat),
}

impl InputView {
    /// The reading of the clock that the input brings.
    pub open spec fn now(self) -> nat {
        match self {
            InputView::Datagram(_, now) => now,
            InputView::Time(now) => now,
        }
    }
}

/// An [`Event`] with its times as numbers.
pub enum EventView {
    Response { seq_num: u16, rtt: Option<nat> },
}

/// An [`Output`] with its bytes as a sequence and its times as numbers.
pub enum OutputView {
    Event(EventView),
    Send(Seq<u8>),
    Timeout(nat),
}

impl<'p> View for Input<'p> {
    type V = InputView;

    open spec fn view(&self) -> InputView {
        match *self {
            Input::Datagram(frame, now) => InputView::Datagram(frame@, now@),
            Input::Time(now) => InputView::Time(now@),
        }
    }
}

/// The engine's answer to an input, seen as mathematics.
pub open spec fn answer_view(answer: Result<Output<'_>, Error>) -> Result<OutputView, Error> {
    match answer {
        Ok(output) => Ok(output@),
        Err(error) => Err(error),
    }
}

impl View for Event {
    type V = EventView;

    open spec fn view(&self) -> EventView {
        match *self {
            Event::Response { seq_num, rtt } => EventView::Response {
                seq_num,
                rtt: match rtt {
                    Some(span) => Some(span@),
                    None => None,
                },
            },
        }
    }
}

impl<'b> View for Output<'b> {
    type V = OutputView;

    open spec fn view(&self) -> OutputView {
        match *self {
            Output::Event(event) => OutputView::Event(event@),
            Output::Send(bytes) => OutputView::Send(bytes@),
            Output::Timeout(deadline) => OutputView::Timeout(deadline@),
        }
    }
}

impl<'b> Output<'b> {
    /// The bytes of a `Send`.
    pub fn unwrap_send(self) -> (bytes: &'b [u8])
        requires
            self is Send,
        ensures
            self == Output::Send(bytes),
    {
        match self {
            Output::Send(bytes) => bytes,
            _ => unreached(),
        }
    }

    /// The event of an `Event`.
    pub fn unwrap_event(self) -> (event: Event)
        requires
            self is Event,
        ensures
            self == Output::Event(event),
    {
        match self {
            Output::Event(event) => event,
            _ => unreached(),
        }
    }
}

impl Event {
    /// The sequence number and the round-trip time of a `Response`.
    pub fn unwrap_result(self) -> (result: (u16, Option<Duration>))
        ensures
            self == (Event::Response { seq_num: result.0, rtt: result.1 }),
    {
        match self {
            Event::Response { seq_num, rtt } => (seq_num, rtt),
        }
    }
}

} // verus!
