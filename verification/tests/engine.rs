use ping_core::{
    BasicContext, Context, Duration, Error, Event, Input, Instant, Ipv4Addr, Output, Ping,
};
use pnet::packet::icmp::echo_request::{EchoRequestPacket, MutableEchoRequestPacket};
use pnet::packet::icmp::{checksum, IcmpCode, IcmpType, MutableIcmpPacket};
use pnet::packet::ip::IpNextHeaderProtocol;
use pnet::packet::ipv4::MutableIpv4Packet;

struct TestContext {
    buffer: Vec<u8>,
}

impl Context for TestContext {
    fn buffer(&mut self, size: usize) -> &mut [u8] {
        self.buffer.resize(size, 0);
        &mut self.buffer
    }
}

fn setup() -> (Ping, TestContext, Instant) {
    let ping = Ping::new(Ipv4Addr::new(8, 8, 8, 8), Duration::from_secs(1));
    let context = TestContext { buffer: Vec::new() };
    let now = Instant::from_nanos(7_000_000_000);
    (ping, context, now)
}

fn ms(ms: u64) -> Duration {
    Duration::from_millis(ms)
}

fn after(now: Instant, span: Duration) -> Instant {
    now.checked_add(span).unwrap()
}

fn validate_echo_request(buf: &[u8]) {
    let echo_request = EchoRequestPacket::new(buf).unwrap();
    assert_eq!(echo_request.get_icmp_type(), IcmpType(8));
    assert_eq!(echo_request.get_icmp_code(), IcmpCode(0));
    assert_eq!(echo_request.get_identifier(), 0x1337);
    assert_eq!(echo_request.get_sequence_number(), 0);
}

fn make_echo_reply(identifier: u16, seq_num: u16) -> Vec<u8> {
    let mut buf = vec![0_u8; 28];
    // IP header and ICMP echo reply
    {
        let mut packet = MutableIpv4Packet::new(&mut buf).expect("buffer is big enough");
        packet.set_version(4);
        packet.set_header_length(5);
        packet.set_dscp(0);
        packet.set_ecn(0);
        packet.set_total_length(20);
        packet.set_identification(0);
        packet.set_flags(0);
        packet.set_fragment_offset(0);
        packet.set_ttl(64);
        packet.set_next_level_protocol(IpNextHeaderProtocol(1));
        packet.set_source([8, 8, 8, 8].into());
        packet.set_destination([192, 168, 1, 37].into());
    }

    {
        let mut packet =
            MutableEchoRequestPacket::new(&mut buf[20..]).expect("buffer is big enough");
        packet.set_icmp_type(IcmpType(0));
        packet.set_icmp_code(IcmpCode(0));
        packet.set_identifier(identifier);
        packet.set_sequence_number(seq_num);
    }
    // Now we have a buffer with the ICMP packet, compute and set the checksum
    let mut icmp_packet = MutableIcmpPacket::new(&mut buf).expect("buffer is big enough");
    let checksum = checksum(&icmp_packet.to_immutable());
    icmp_packet.set_checksum(checksum);

    buf
}

#[test]
fn test_starts_by_returning_echo() {
    let (mut ping, mut context, now) = setup();
    let input = Input::Time(now);
    let output = ping.handle_input(input, &mut context).unwrap();
    assert!(matches!(output, Output::Send(_)));
    let data = output.unwrap_send();
    validate_echo_request(&data);
}

#[test]
fn test_handles_response() {
    let (mut ping, mut context, now) = setup();
    let input = Input::Time(now);
    let output = ping.handle_input(input, &mut context).unwrap();
    assert!(matches!(output, Output::Send(_)));
    let reply = make_echo_reply(0x1337, 0);

    let input = Input::Datagram(&reply, after(now, ms(23)));
    let output = ping
        .handle_input(input, &mut context)
        .expect("should handle the response");
    let event = output.unwrap_event();
    let (seq_num, rtt) = event.unwrap_result();
    assert_eq!(seq_num, 0);
    assert_eq!(rtt, Some(ms(23)));
}

#[test]
fn test_handle_response_timeout() {
    let (mut ping, mut context, now) = setup();
    let input = Input::Time(now);
    let output = ping.handle_input(input, &mut context).unwrap();
    assert!(matches!(output, Output::Send(_)));

    let input = Input::Time(after(now, ms(999)));
    let output = ping.handle_input(input, &mut context).unwrap();
    assert!(
        matches!(output, Output::Timeout(_)),
        "No response or timeout after 999ms"
    );

    let input = Input::Time(after(now, ms(1000)));
    let output = ping.handle_input(input, &mut context).unwrap();
    assert!(
        matches!(output, Output::Send(_)),
        "Should send another ping first"
    );

    let input = Input::Time(after(now, ms(1000)));
    let output = ping.handle_input(input, &mut context).unwrap();
    let event = output.unwrap_event();
    let (seq_num, rtt) = event.unwrap_result();
    assert_eq!(seq_num, 0);
    assert_eq!(rtt, None, "Should have timed out");
}

#[test]
fn first_tick_sends_probe_zero_with_its_checksum() {
    let (mut ping, mut context, now) = setup();
    let output = ping.handle_input(Input::Time(now), &mut context).unwrap();
    // 0x0800 + 0x1337 + 0x0000 = 0x1b37, and its complement is 0xe4c8.
    assert_eq!(
        output.unwrap_send(),
        &[0x08, 0x00, 0xe4, 0xc8, 0x13, 0x37, 0x00, 0x00][..]
    );
}

#[test]
fn round_trip_scenario() {
    let (mut ping, mut context, now) = setup();
    let output = ping.handle_input(Input::Time(now), &mut context).unwrap();
    validate_echo_request(output.unwrap_send());

    let reply = make_echo_reply(0x1337, 0);
    let output = ping
        .handle_input(Input::Datagram(&reply, after(now, ms(23))), &mut context)
        .unwrap();
    assert_eq!(
        output.unwrap_event(),
        Event::Response { seq_num: 0, rtt: Some(ms(23)) }
    );

    let output = ping
        .handle_input(Input::Time(after(now, ms(999))), &mut context)
        .unwrap();
    match output {
        Output::Timeout(deadline) => assert_eq!(deadline, after(now, ms(1000))),
        other => panic!("expected a deadline, got {:?}", other),
    }

    let output = ping
        .handle_input(Input::Time(after(now, ms(1000))), &mut context)
        .unwrap();
    let sent = EchoRequestPacket::new(output.unwrap_send()).unwrap();
    assert_eq!(sent.get_sequence_number(), 1);

    // Probe 0 was answered: the same instant brings no loss of it, only the
    // deadline of probe 1.
    let output = ping
        .handle_input(Input::Time(after(now, ms(1000))), &mut context)
        .unwrap();
    match output {
        Output::Timeout(deadline) => assert_eq!(deadline, after(now, ms(2000))),
        other => panic!("expected a deadline, got {:?}", other),
    }
}

#[test]
fn second_identical_reply_matches_nothing() {
    let (mut ping, mut context, now) = setup();
    ping.handle_input(Input::Time(now), &mut context).unwrap();
    let reply = make_echo_reply(0x1337, 0);
    let first = ping
        .handle_input(Input::Datagram(&reply, after(now, ms(5))), &mut context)
        .unwrap();
    assert_eq!(
        first.unwrap_event().unwrap_result(),
        (0, Some(ms(5)))
    );
    let second = ping
        .handle_input(Input::Datagram(&reply, after(now, ms(6))), &mut context)
        .unwrap();
    match second {
        Output::Timeout(deadline) => assert_eq!(deadline, after(now, ms(1006))),
        other => panic!("expected a deadline, got {:?}", other),
    }
}

#[test]
fn reply_before_its_probe_has_zero_round_trip() {
    let (mut ping, mut context, now) = setup();
    ping.handle_input(Input::Time(now), &mut context).unwrap();
    let reply = make_echo_reply(0x1337, 0);
    let output = ping
        .handle_input(Input::Datagram(&reply, Instant::from_nanos(1)), &mut context)
        .unwrap();
    assert_eq!(
        output.unwrap_event(),
        Event::Response { seq_num: 0, rtt: Some(Duration::from_nanos(0)) }
    );
}

#[test]
fn loss_is_reported_once() {
    let ping = Ping::new(Ipv4Addr::new(8, 8, 8, 8), ms(300));
    let (mut ping, mut context, now) = (ping, TestContext { buffer: Vec::new() }, setup().2);
    ping.handle_input(Input::Time(now), &mut context).unwrap();

    let output = ping
        .handle_input(Input::Time(after(now, ms(299))), &mut context)
        .unwrap();
    match output {
        Output::Timeout(deadline) => assert_eq!(deadline, after(now, ms(300))),
        other => panic!("expected a deadline, got {:?}", other),
    }

    let output = ping
        .handle_input(Input::Time(after(now, ms(300))), &mut context)
        .unwrap();
    assert_eq!(
        output.unwrap_event(),
        Event::Response { seq_num: 0, rtt: None }
    );

    let output = ping
        .handle_input(Input::Time(after(now, ms(300))), &mut context)
        .unwrap();
    match output {
        Output::Timeout(deadline) => assert_eq!(deadline, after(now, ms(1000))),
        other => panic!("expected a deadline, got {:?}", other),
    }

    // The reply comes too late to be matched.
    let reply = make_echo_reply(0x1337, 0);
    let output = ping
        .handle_input(Input::Datagram(&reply, after(now, ms(400))), &mut context)
        .unwrap();
    match output {
        Output::Timeout(deadline) => assert_eq!(deadline, after(now, ms(700))),
        other => panic!("expected a deadline, got {:?}", other),
    }
}

#[test]
fn probes_keep_the_cadence() {
    let (mut ping, mut context, now) = setup();
    let mut sent_at: Vec<u64> = Vec::new();
    let mut step = 0;
    while step <= 3500 {
        let at = after(now, ms(step));
        let output = ping.handle_input(Input::Time(at), &mut context).unwrap();
        if matches!(output, Output::Send(_)) {
            sent_at.push(step);
        }
        step += 50;
    }
    assert_eq!(sent_at, vec![0, 1000, 2000, 3000]);
}

#[test]
fn late_tick_sends_one_probe_only() {
    let (mut ping, mut context, now) = setup();
    ping.handle_input(Input::Time(now), &mut context).unwrap();
    let late = after(now, ms(5000));
    let output = ping.handle_input(Input::Time(late), &mut context).unwrap();
    assert!(matches!(output, Output::Send(_)));
    let output = ping.handle_input(Input::Time(late), &mut context).unwrap();
    assert_eq!(
        output.unwrap_event(),
        Event::Response { seq_num: 0, rtt: None }
    );
    let output = ping.handle_input(Input::Time(late), &mut context).unwrap();
    match output {
        Output::Timeout(deadline) => assert_eq!(deadline, after(now, ms(6000))),
        other => panic!("expected a deadline, got {:?}", other),
    }
}

#[test]
fn earliest_of_several_losses_comes_first() {
    let mut ping = Ping::new(Ipv4Addr::new(8, 8, 8, 8), ms(2500));
    let mut context = TestContext { buffer: Vec::new() };
    let now = Instant::from_nanos(0);
    for second in 0..3 {
        let output = ping
            .handle_input(Input::Time(after(now, ms(1000 * second))), &mut context)
            .unwrap();
        assert!(matches!(output, Output::Send(_)));
    }
    // Probes 0, 1 and 2 expire at 2500, 3500 and 4500 ms.
    let output = ping
        .handle_input(Input::Time(after(now, ms(2400))), &mut context)
        .unwrap();
    match output {
        Output::Timeout(deadline) => assert_eq!(deadline, after(now, ms(2500))),
        other => panic!("expected a deadline, got {:?}", other),
    }
    let output = ping
        .handle_input(Input::Time(after(now, ms(2999))), &mut context)
        .unwrap();
    assert_eq!(
        output.unwrap_event(),
        Event::Response { seq_num: 0, rtt: None }
    );
    let output = ping
        .handle_input(Input::Time(after(now, ms(2999))), &mut context)
        .unwrap();
    match output {
        Output::Timeout(deadline) => assert_eq!(deadline, after(now, ms(3000))),
        other => panic!("expected a deadline, got {:?}", other),
    }
}

#[test]
fn deadline_is_the_next_probe_when_that_comes_first() {
    let mut ping = Ping::new(Ipv4Addr::new(8, 8, 8, 8), ms(2500));
    let mut context = TestContext { buffer: Vec::new() };
    let now = Instant::from_nanos(42);
    ping.handle_input(Input::Time(now), &mut context).unwrap();
    let output = ping
        .handle_input(Input::Time(after(now, ms(500))), &mut context)
        .unwrap();
    match output {
        Output::Timeout(deadline) => assert_eq!(deadline, after(now, ms(1000))),
        other => panic!("expected a deadline, got {:?}", other),
    }
}

#[test]
fn eleventh_probe_pushes_the_first_out() {
    let mut ping = Ping::new(Ipv4Addr::new(8, 8, 8, 8), Duration::from_secs(60));
    let mut context = TestContext { buffer: Vec::new() };
    let now = Instant::from_nanos(0);
    for second in 0..11 {
        let output = ping
            .handle_input(Input::Time(after(now, ms(1000 * second))), &mut context)
            .unwrap();
        let sent = EchoRequestPacket::new(output.unwrap_send()).unwrap();
        assert_eq!(u64::from(sent.get_sequence_number()), second);
    }
    let at = after(now, ms(10_500));
    let reply = make_echo_reply(0x1337, 0);
    let output = ping
        .handle_input(Input::Datagram(&reply, at), &mut context)
        .unwrap();
    match output {
        Output::Timeout(deadline) => assert_eq!(deadline, after(at, Duration::from_secs(60))),
        other => panic!("expected a deadline, got {:?}", other),
    }
    let reply = make_echo_reply(0x1337, 10);
    let output = ping
        .handle_input(Input::Datagram(&reply, at), &mut context)
        .unwrap();
    assert_eq!(
        output.unwrap_event(),
        Event::Response { seq_num: 10, rtt: Some(ms(500)) }
    );
    // Probe 11 is due first and takes the slot of probe 1. Neither probe 0
    // nor probe 1 is ever reported: the first loss is that of probe 2.
    let output = ping
        .handle_input(Input::Time(after(now, ms(61_500))), &mut context)
        .unwrap();
    let sent = EchoRequestPacket::new(output.unwrap_send()).unwrap();
    assert_eq!(sent.get_sequence_number(), 11);
    let output = ping
        .handle_input(Input::Time(after(now, ms(61_500))), &mut context)
        .unwrap();
    match output {
        Output::Timeout(deadline) => assert_eq!(deadline, after(now, ms(62_000))),
        other => panic!("expected a deadline, got {:?}", other),
    }
    let output = ping
        .handle_input(Input::Time(after(now, ms(62_000))), &mut context)
        .unwrap();
    assert_eq!(
        output.unwrap_event(),
        Event::Response { seq_num: 2, rtt: None }
    );
}

#[test]
fn sequence_numbers_start_over_after_65535() {
    let mut ping = Ping::new(Ipv4Addr::new(8, 8, 8, 8), ms(1));
    let mut context = TestContext { buffer: Vec::new() };
    let mut seen_last: u16 = 0;
    for second in 0..65537u64 {
        let at = Instant::from_nanos(second * 1_000_000_000);
        assert!(ping.accepts(at));
        let output = ping.handle_input(Input::Time(at), &mut context).unwrap();
        let sent = EchoRequestPacket::new(output.unwrap_send()).unwrap();
        seen_last = sent.get_sequence_number();
        if second == 65535 {
            assert_eq!(seen_last, 65535);
        }
        // Let the probe expire so that it is out of the way.
        let output = ping
            .handle_input(Input::Time(after(at, ms(1))), &mut context)
            .unwrap();
        assert!(matches!(output, Output::Event(_)));
    }
    assert_eq!(seen_last, 0);
}

#[test]
fn foreign_source_is_refused_with_the_destination() {
    let (mut ping, mut context, now) = setup();
    ping.handle_input(Input::Time(now), &mut context).unwrap();
    let mut reply = make_echo_reply(0x1337, 0);
    reply[12..16].copy_from_slice(&[8, 8, 4, 4]);
    let answer = ping.handle_input(Input::Datagram(&reply, now), &mut context);
    match answer {
        Err(error) => assert_eq!(
            error,
            Error::IncorrectTarget(Ipv4Addr::new(8, 8, 8, 8), Ipv4Addr::new(192, 168, 1, 37))
        ),
        Ok(other) => panic!("expected an error, got {:?}", other),
    }
    // The probe is still in flight.
    let reply = make_echo_reply(0x1337, 0);
    let output = ping
        .handle_input(Input::Datagram(&reply, after(now, ms(1))), &mut context)
        .unwrap();
    assert_eq!(output.unwrap_event().unwrap_result(), (0, Some(ms(1))));
}

#[test]
fn foreign_identifier_is_refused_even_with_a_pending_sequence_number() {
    let (mut ping, mut context, now) = setup();
    ping.handle_input(Input::Time(now), &mut context).unwrap();
    let reply = make_echo_reply(0x1338, 0);
    let answer = ping.handle_input(Input::Datagram(&reply, now), &mut context);
    assert!(matches!(answer, Err(Error::UnexpectedIdentifier)));
    let reply = make_echo_reply(0x1337, 0);
    let output = ping
        .handle_input(Input::Datagram(&reply, after(now, ms(2))), &mut context)
        .unwrap();
    assert_eq!(output.unwrap_event().unwrap_result(), (0, Some(ms(2))));
}

#[test]
fn datagrams_before_the_first_tick_change_nothing() {
    let (mut ping, mut context, now) = setup();
    let reply = make_echo_reply(0x1337, 0);
    let output = ping
        .handle_input(Input::Datagram(&reply, now), &mut context)
        .unwrap();
    match output {
        Output::Timeout(deadline) => assert_eq!(deadline, after(now, ms(1000))),
        other => panic!("expected a deadline, got {:?}", other),
    }
    let answer = ping.handle_input(Input::Datagram(&[0u8; 3], now), &mut context);
    assert!(matches!(answer, Err(Error::InvalidPacket)));
    let output = ping.handle_input(Input::Time(now), &mut context).unwrap();
    validate_echo_request(output.unwrap_send());
}

#[test]
fn send_takes_eight_bytes_of_a_larger_region() {
    struct Wide {
        storage: [u8; 64],
    }
    impl Context for Wide {
        fn buffer(&mut self, _size: usize) -> &mut [u8] {
            &mut self.storage
        }
    }
    let mut ping = Ping::new(Ipv4Addr::new(8, 8, 8, 8), ms(1000));
    let mut context = Wide { storage: [0xaa; 64] };
    let output = ping
        .handle_input(Input::Time(Instant::from_nanos(0)), &mut context)
        .unwrap();
    assert_eq!(
        output.unwrap_send(),
        &[0x08, 0x00, 0xe4, 0xc8, 0x13, 0x37, 0x00, 0x00][..]
    );
    assert_eq!(context.storage[8], 0xaa);
}

#[test]
fn basic_context_carries_one_probe_after_the_other() {
    let mut ping = Ping::new(Ipv4Addr::new(8, 8, 8, 8), ms(1000));
    let mut context = BasicContext::default();
    let now = Instant::from_nanos(0);
    let output = ping.handle_input(Input::Time(now), &mut context).unwrap();
    assert_eq!(
        output.unwrap_send(),
        &[0x08, 0x00, 0xe4, 0xc8, 0x13, 0x37, 0x00, 0x00][..]
    );
    // The buffer still holds the first probe when the second is written.
    let output = ping
        .handle_input(Input::Time(after(now, ms(1000))), &mut context)
        .unwrap();
    assert_eq!(
        output.unwrap_send(),
        &[0x08, 0x00, 0xe4, 0xc7, 0x13, 0x37, 0x00, 0x01][..]
    );
    assert_eq!(
        context.buffer(8),
        &[0x08, 0x00, 0xe4, 0xc7, 0x13, 0x37, 0x00, 0x01][..]
    );
}

#[test]
fn accepts_says_how_far_the_clock_counts() {
    let ping = Ping::new(Ipv4Addr::new(8, 8, 8, 8), Duration::from_secs(2));
    assert!(ping.accepts(Instant::from_nanos(0)));
    assert!(ping.accepts(Instant::from_nanos(u64::MAX - 2_000_000_000)));
    assert!(!ping.accepts(Instant::from_nanos(u64::MAX - 1_999_999_999)));
    let ping = Ping::new(Ipv4Addr::new(8, 8, 8, 8), ms(1));
    assert!(ping.accepts(Instant::from_nanos(u64::MAX - 1_000_000_000)));
    assert!(!ping.accepts(Instant::from_nanos(u64::MAX - 999_999_999)));
}
