//! The wire format: ICMPv4 echo messages inside IPv4 frames.
//!
//! Frames are taken apart and put together by the `pnet` crate. What this
//! module states of `pnet` is stated in the contracts of the functions marked
//! `external_body`; everything else here is proved from those.

use crate::addr::Ipv4Addr;
use crate::message::Error;
use pnet::packet::icmp::echo_reply::EchoReplyPacket;
use pnet::packet::icmp::echo_request::MutableEchoRequestPacket;
use pnet::packet::icmp::{IcmpCode, IcmpPacket, IcmpType};
use pnet::packet::ipv4::Ipv4Packet;
use pnet::packet::Packet;
use vstd::prelude::*;

verus! {

/// Length of an IPv4 header without options, the least an IPv4 frame can be.
pub const IPV4_MIN_LEN: usize = 20;

/// Length of the part that all ICMP messages share: type, code, checksum.
pub const ICMP_MIN_LEN: usize = 4;

/// Length of an echo message without data.
pub const ECHO_LEN: usize = 8;

/// The most bytes a checksum is taken of: no IPv4 frame holds more.
pub const CHECKSUM_MAX_LEN: usize = 65535;

/// The IPv4 protocol number of ICMP.
pub const ICMP_PROTOCOL: u8 = 1;

/// ICMP type of an echo request.
pub const ECHO_REQUEST: u8 = 8;

/// ICMP type of an echo reply.
pub const ECHO_REPLY: u8 = 0;

/// The 16-bit number that two bytes spell in network order.
pub open spec fn be16(hi: u8, lo: u8) -> u16 {
    (hi as int * 256 + lo as int) as u16
}

/// The first of the two bytes that spell `value` in network order.
pub open spec fn hi_byte(value: u16) -> u8 {
    (value / 256) as u8
}

/// The second of the two bytes that spell `value` in network order.
pub open spec fn lo_byte(value: u16) -> u8 {
    (value % 256) as u8
}

/// The address that the four bytes from `at` on spell.
pub open spec fn address_at(bytes: Seq<u8>, at: int) -> Ipv4Addr {
    Ipv4Addr { a: bytes[at], b: bytes[at + 1], c: bytes[at + 2], d: bytes[at + 3] }
}

/// Source address of an IPv4 frame.
pub open spec fn ipv4_source(frame: Seq<u8>) -> Ipv4Addr {
    address_at(frame, 12)
}

/// Destination address of an IPv4 frame.
pub open spec fn ipv4_destination(frame: Seq<u8>) -> Ipv4Addr {
    address_at(frame, 16)
}

/// Protocol number of what an IPv4 frame carries.
pub open spec fn ipv4_protocol(frame: Seq<u8>) -> u8 {
    frame[9]
}

/// Length in bytes that an IPv4 frame gives for its header.
pub open spec fn ipv4_header_len(frame: Seq<u8>) -> int {
    (frame[0] % 16) * 4
}

/// Length in bytes that an IPv4 frame gives for itself.
pub open spec fn ipv4_total_len(frame: Seq<u8>) -> int {
    frame[2] * 256 + frame[3]
}

/// What an IPv4 frame carries: the bytes behind the header and its options,
/// as many as the frame's total length leaves and the frame really has.
pub open spec fn ipv4_payload(frame: Seq<u8>) -> Seq<u8> {
    let header = ipv4_header_len(frame);
    let start = if header > IPV4_MIN_LEN { header } else { IPV4_MIN_LEN as int };
    let announced = if ipv4_total_len(frame) > header { ipv4_total_len(frame) - header } else { 0 };
    let end = if start + announced < frame.len() { start + announced } else { frame.len() as int };
    if frame.len() <= start {
        Seq::empty()
    } else {
        frame.subrange(start, end)
    }
}

/// The eight bytes of an echo message without data.
pub open spec fn echo_message(
    kind: u8,
    code: u8,
    checksum: u16,
    identifier: u16,
    sequence_number: u16,
) -> Seq<u8> {
    seq![
        kind,
        code,
        hi_byte(checksum),
        lo_byte(checksum),
        hi_byte(identifier),
        lo_byte(identifier),
        hi_byte(sequence_number),
        lo_byte(sequence_number),
    ]
}

/// The Internet checksum of an ICMP message as `pnet` computes it.
pub uninterp spec fn icmp_checksum(message: Seq<u8>) -> u16;

/// The probe with the given identifier and sequence number: an echo request
/// without data, whose checksum is taken with the checksum field at zero.
pub open spec fn echo_request(identifier: u16, sequence_number: u16) -> Seq<u8> {
    echo_message(
        ECHO_REQUEST,
        0,
        icmp_checksum(echo_message(ECHO_REQUEST, 0, 0, identifier, sequence_number)),
        identifier,
        sequence_number,
    )
}

/// What the engine reads of an IPv4 frame.
struct Ipv4Parts {
    source: Ipv4Addr,
    destination: Ipv4Addr,
    protocol: u8,
    payload: Vec<u8>,
}

/// `Ipv4Packet::new` with `get_source`, `get_destination`,
/// `get_next_level_protocol` and `payload`.
///
/// Claimed of `pnet`: a buffer is taken for a frame if and only if it has the 20
/// bytes of a header without options; the addresses are the bytes 12 to 15 and
/// 16 to 19, the protocol is byte 9; the payload starts behind the header
/// length that the low half of byte 0 gives in words of four bytes, but not
/// before byte 20, and has as many bytes as the total length in bytes 2 and 3
/// exceeds that header length, cut off where the buffer ends.
#[verifier::external_body]
fn read_ipv4(frame: &[u8]) -> (parts: Option<Ipv4Parts>)
    ensures
        parts is Some <==> frame@.len() >= IPV4_MIN_LEN,
        parts matches Some(p) ==> p.source == ipv4_source(frame@),
        parts matches Some(p) ==> p.destination == ipv4_destination(frame@),
        parts matches Some(p) ==> p.protocol == ipv4_protocol(frame@),
        parts matches Some(p) ==> p.payload@ == ipv4_payload(frame@),
{
    match Ipv4Packet::new(frame) {
        None => None,
        Some(packet) => {
            let [a, b, c, d] = packet.get_source().octets();
            let [e, f, g, h] = packet.get_destination().octets();
            Some(Ipv4Parts {
                source: Ipv4Addr { a, b, c, d },
                destination: Ipv4Addr { a: e, b: f, c: g, d: h },
                protocol: packet.get_next_level_protocol().0,
                payload: packet.payload().to_vec(),
            })
        },
    }
}

/// `IcmpPacket::new` with `get_icmp_type`.
///
/// Claimed of `pnet`: a buffer is taken for an ICMP message if and only if it
/// has the 4 bytes of type, code and checksum; the type is byte 0.
#[verifier::external_body]
fn read_icmp_type(message: &[u8]) -> (icmp_type: Option<u8>)
    ensures
        icmp_type is Some <==> message@.len() >= ICMP_MIN_LEN,
        icmp_type matches Some(kind) ==> kind == message@[0],
{
    match IcmpPacket::new(message) {
        None => None,
        Some(packet) => Some(packet.get_icmp_type().0),
    }
}

/// `EchoReplyPacket::new` with `get_identifier` and `get_sequence_number`.
///
/// Claimed of `pnet`: a buffer is taken for an echo reply if and only if it has
/// the 8 bytes of an echo message, whatever its type byte says; the identifier
/// is spelled by the bytes 4 and 5, the sequence number by the bytes 6 and 7,
/// both in network order.
#[verifier::external_body]
fn read_echo_reply(message: &[u8]) -> (fields: Option<(u16, u16)>)
    ensures
        fields is Some <==> message@.len() >= ECHO_LEN,
        fields matches Some((identifier, _)) ==> identifier == be16(message@[4], message@[5]),
        fields matches Some((_, sequence_number)) ==> sequence_number == be16(
            message@[6],
            message@[7],
        ),
{
    match EchoReplyPacket::new(message) {
        None => None,
        Some(packet) => Some((packet.get_identifier(), packet.get_sequence_number())),
    }
}

/// `MutableEchoRequestPacket::new` with `set_icmp_type`, `set_icmp_code`,
/// `set_checksum`, `set_identifier` and `set_sequence_number`.
///
/// Claimed of `pnet`: a buffer of 8 bytes is taken for an echo request, and
/// the five setters write its 8 bytes: type, code, and the three 16-bit fields
/// in network order.
#[verifier::external_body]
fn set_echo_fields(
    frame: &mut [u8],
    kind: u8,
    code: u8,
    checksum: u16,
    identifier: u16,
    sequence_number: u16,
)
    requires
        old(frame)@.len() == ECHO_LEN,
    ensures
        final(frame)@ == echo_message(kind, code, checksum, identifier, sequence_number),
{
    let mut packet = MutableEchoRequestPacket::new(frame).unwrap();
    packet.set_icmp_type(IcmpType(kind));
    packet.set_icmp_code(IcmpCode(code));
    packet.set_checksum(checksum);
    packet.set_identifier(identifier);
    packet.set_sequence_number(sequence_number);
}

/// `IcmpPacket::new` with `pnet::packet::icmp::checksum`.
///
/// Claimed of `pnet`: the checksum of a message depends on its bytes alone.
/// Messages under 4 bytes are left out because `pnet` takes none for an ICMP
/// message, and those over 65535 bytes because its 32-bit sum could overflow.
#[verifier::external_body]
fn checksum_of(message: &[u8]) -> (sum: u16)
    requires
        ICMP_MIN_LEN <= message@.len() <= CHECKSUM_MAX_LEN,
    ensures
        sum == icmp_checksum(message@),
{
    pnet::packet::icmp::checksum(&IcmpPacket::new(message).unwrap())
}

/// What a datagram is to an engine that probes `target` under `identifier`:
/// the sequence number of the echo reply that it brings, or the reason why it
/// brings none. The tests are made in this order, and the first that fails
/// decides.
pub open spec fn echo_reply_in(frame: Seq<u8>, target: Ipv4Addr, identifier: u16) -> Result<
    u16,
    Error,
> {
    let message = ipv4_payload(frame);
    if frame.len() < IPV4_MIN_LEN {
        Err(Error::InvalidPacket)
    } else if ipv4_source(frame) != target {
        Err(Error::IncorrectTarget(target, ipv4_destination(frame)))
    } else if ipv4_protocol(frame) != ICMP_PROTOCOL {
        Err(Error::NotICMP)
    } else if message.len() < ICMP_MIN_LEN {
        Err(Error::InvalidPacket)
    } else if message.len() < ECHO_LEN || message[0] != ECHO_REPLY {
        Err(Error::UnhandledICMPType(message[0]))
    } else if be16(message[4], message[5]) != identifier {
        Err(Error::UnexpectedIdentifier)
    } else {
        Ok(be16(message[6], message[7]))
    }
}

/// Takes a datagram for an echo reply from `target` to a probe sent under
/// `identifier`, and gives the sequence number that the reply names.
pub fn parse_echo_reply(frame: &[u8], target: Ipv4Addr, identifier: u16) -> (reply: Result<
    u16,
    Error,
>)
    ensures
        reply == echo_reply_in(frame@, target, identifier),
{
    let parts = match read_ipv4(frame) {
        Some(parts) => parts,
        None => {
            return Err(Error::InvalidPacket);
        },
    };
    if parts.source != target {
        return Err(Error::IncorrectTarget(target, parts.destination));
    }
    if parts.protocol != ICMP_PROTOCOL {
        return Err(Error::NotICMP);
    }
    let message = parts.payload.as_slice();
    let kind = match read_icmp_type(message) {
        Some(kind) => kind,
        None => {
            return Err(Error::InvalidPacket);
        },
    };
    let (reply_identifier, sequence_number) = match read_echo_reply(message) {
        Some(fields) => fields,
        None => {
            return Err(Error::UnhandledICMPType(kind));
        },
    };
    if kind != ECHO_REPLY {
        return Err(Error::UnhandledICMPType(kind));
    }
    if reply_identifier != identifier {
        return Err(Error::UnexpectedIdentifier);
    }
    Ok(sequence_number)
}

/// Writes an echo request without data that carries the given checksum.
pub fn write_echo_request(
    frame: &mut [u8],
    checksum: u16,
    identifier: u16,
    sequence_number: u16,
)
    requires
        old(frame)@.len() == ECHO_LEN,
    ensures
        final(frame)@ == echo_message(ECHO_REQUEST, 0, checksum, identifier, sequence_number),
{
    set_echo_fields(frame, ECHO_REQUEST, 0, checksum, identifier, sequence_number);
}

/// Writes the probe with the given identifier and sequence number: the echo
/// request is written with its checksum field at zero, the checksum is taken
/// of that, and written in its place.
pub fn encode_echo_request(frame: &mut [u8], identifier: u16, sequence_number: u16)
    requires
        old(frame)@.len() == ECHO_LEN,
    ensures
        final(frame)@ == echo_request(identifier, sequence_number),
{
    write_echo_request(frame, 0, identifier, sequence_number);
    let checksum = checksum_of(frame);
    write_echo_request(frame, checksum, identifier, sequence_number);
}

} // verus!
