use mcscan::client::{
    build_status_request_frame, Action, Event, StatusClient, DEFAULT_PORT, PROTOCOL_VERSION,
};
use mcscan::errors::{ConnectionError, ParseError, PayloadFault, ProtocolError, ScanError};
use mcscan::filter::MatchCriteria;
use mcscan::packet::frame_packet;
use mcscan::scan::{evaluate_host, partition_lanes};
use mcscan::status::StatusResponse;
use mcscan::varint::encode_varint;
use mcscan::Ip;

fn check_partition(n: usize, w: usize) {
    let lanes = partition_lanes(n, w);
    assert_eq!(lanes.len(), w.min(n));
    // Union covers 0..n exactly once, in order, with no duplicates.
    let mut next = 0usize;
    for &(start, end) in &lanes {
        assert_eq!(start, next);
        assert!(start < end);
        next = end;
    }
    assert_eq!(next, if lanes.is_empty() { 0 } else { n });
    // Lane sizes differ by at most one and favour the first lanes.
    if !lanes.is_empty() {
        let k = lanes.len();
        for (i, &(start, end)) in lanes.iter().enumerate() {
            let expected = n / k + if i < n % k { 1 } else { 0 };
            assert_eq!(end - start, expected);
        }
    }
}

#[test]
fn partition_empty_list() {
    check_partition(0, 64);
}

#[test]
fn partition_fewer_hosts_than_lanes() {
    check_partition(10, 64);
    check_partition(1, 64);
}

#[test]
fn partition_uneven_remainder() {
    check_partition(10, 3);
    check_partition(100, 64);
    check_partition(65, 64);
}

#[test]
fn partition_exact_division() {
    check_partition(64, 64);
    check_partition(128, 64);
}

const STATUS_JSON: &[u8] = br#"{"description":"A Minecraft Server","players":{"max":35,"online":2,"sample":[{"name":"Alice","id":"uuid-1"}]},"version":{"name":"1.20","protocol":763}}"#;

fn criteria() -> MatchCriteria {
    MatchCriteria { target_slot_count: 35, target_motd: "A Minecraft Server".to_string() }
}

fn response_frame(json: &[u8]) -> Vec<u8> {
    let mut payload = encode_varint(json.len() as u32);
    payload.extend_from_slice(json);
    frame_packet(0, &payload)
}

/// Drives one simulated exchange up to the point where the host answers.
fn drive_to_receiving(client: &mut StatusClient) {
    match client.step(Event::Begin) {
        Action::Connect => {}
        _ => panic!("expected a connect action"),
    }
    let handshake = match client.step(Event::Connected) {
        Action::Send(f) => f,
        _ => panic!("expected the handshake frame"),
    };
    // Exact wire bytes for "host1":25565 at protocol 578.
    assert_eq!(
        handshake,
        vec![12, 0, 0xC2, 0x04, 5, b'h', b'o', b's', b't', b'1', 0x63, 0xDD, 0x01]
    );
    let request = match client.step(Event::Sent) {
        Action::Send(f) => f,
        _ => panic!("expected the status request frame"),
    };
    assert_eq!(request, vec![1, 0]);
    assert_eq!(request, build_status_request_frame());
    match client.step(Event::Sent) {
        Action::Recv => {}
        _ => panic!("expected a read action"),
    }
}

fn finish(client: &mut StatusClient, bytes: Vec<u8>) -> Result<StatusResponse, ScanError> {
    match client.step(Event::Received(bytes)) {
        Action::Finish(r) => r,
        _ => panic!("expected the exchange to finish"),
    }
}

#[test]
fn end_to_end_simulated_host_yields_one_match() {
    let mut client = StatusClient::new("host1".to_string(), DEFAULT_PORT, PROTOCOL_VERSION);
    drive_to_receiving(&mut client);
    let outcome = finish(&mut client, response_frame(STATUS_JSON));
    let address = "host1".to_string();
    let record = evaluate_host(&address, outcome, &criteria())
        .expect("the simulated host should match");
    assert_eq!(record.address, "host1");
    assert_eq!(record.motd, "A Minecraft Server");
    assert_eq!(record.max_players, 35);
    assert_eq!(record.sample.len(), 1);
    assert_eq!(record.sample[0].name, "Alice");
    assert_eq!(record.sample[0].id, "uuid-1");
}

#[test]
fn end_to_end_response_delivered_in_pieces() {
    let mut client = StatusClient::new("host1".to_string(), DEFAULT_PORT, PROTOCOL_VERSION);
    drive_to_receiving(&mut client);
    let frame = response_frame(STATUS_JSON);
    let (a, b) = frame.split_at(7);
    match client.step(Event::Received(a.to_vec())) {
        Action::Recv => {}
        _ => panic!("an incomplete frame should ask for more bytes"),
    }
    let outcome = finish(&mut client, b.to_vec());
    let st = outcome.expect("the reassembled response should parse");
    assert_eq!(st.players.max, 35);
    assert_eq!(st.players.online, 2);
}

#[test]
fn end_to_end_reset_after_handshake_yields_no_match_and_lane_continues() {
    // First host resets right after the handshake was sent.
    let mut client = StatusClient::new("host1".to_string(), DEFAULT_PORT, PROTOCOL_VERSION);
    match client.step(Event::Begin) {
        Action::Connect => {}
        _ => panic!("expected a connect action"),
    }
    match client.step(Event::Connected) {
        Action::Send(_) => {}
        _ => panic!("expected the handshake frame"),
    }
    let outcome = match client.step(Event::Reset) {
        Action::Finish(r) => r,
        _ => panic!("a reset must finish the exchange"),
    };
    match outcome {
        Err(ScanError::Connection(ConnectionError::Reset)) => {}
        other => panic!("expected a classified reset, got {:?}", other.err()),
    }
    let address = "host1".to_string();
    assert!(evaluate_host(&address, Err(ScanError::Connection(ConnectionError::Reset)), &criteria())
        .is_none());

    // The lane goes on: the next host completes and matches.
    let mut second = StatusClient::new("host1".to_string(), DEFAULT_PORT, PROTOCOL_VERSION);
    drive_to_receiving(&mut second);
    let outcome = finish(&mut second, response_frame(STATUS_JSON));
    let address = "host2".to_string();
    assert!(evaluate_host(&address, outcome, &criteria()).is_some());
}

#[test]
fn unreachable_and_timeout_are_classified() {
    let mut client = StatusClient::new("h".to_string(), DEFAULT_PORT, PROTOCOL_VERSION);
    let _ = client.step(Event::Begin);
    match client.step(Event::Unreachable) {
        Action::Finish(Err(ScanError::Connection(ConnectionError::Unreachable))) => {}
        _ => panic!("expected an unreachable classification"),
    }
    let mut client = StatusClient::new("h".to_string(), DEFAULT_PORT, PROTOCOL_VERSION);
    let _ = client.step(Event::Begin);
    match client.step(Event::TimedOut) {
        Action::Finish(Err(ScanError::Connection(ConnectionError::Timeout))) => {}
        _ => panic!("expected a timeout classification"),
    }
}

#[test]
fn wrong_packet_id_is_classified() {
    let mut client = StatusClient::new("host1".to_string(), DEFAULT_PORT, PROTOCOL_VERSION);
    drive_to_receiving(&mut client);
    let mut payload = encode_varint(STATUS_JSON.len() as u32);
    payload.extend_from_slice(STATUS_JSON);
    let bad = frame_packet(1, &payload);
    match finish(&mut client, bad) {
        Err(ScanError::Protocol(ProtocolError::UnexpectedPacketId)) => {}
        other => panic!("expected an unexpected-id failure, got {:?}", other.err()),
    }
}

#[test]
fn closed_mid_response_is_truncation() {
    let mut client = StatusClient::new("host1".to_string(), DEFAULT_PORT, PROTOCOL_VERSION);
    drive_to_receiving(&mut client);
    let frame = response_frame(STATUS_JSON);
    match client.step(Event::Received(frame[..4].to_vec())) {
        Action::Recv => {}
        _ => panic!("an incomplete frame should ask for more bytes"),
    }
    match client.step(Event::Closed) {
        Action::Finish(Err(ScanError::Protocol(ProtocolError::Truncated))) => {}
        _ => panic!("expected a truncation"),
    }
}

#[test]
fn unparseable_status_is_classified_as_parse_error() {
    let mut client = StatusClient::new("host1".to_string(), DEFAULT_PORT, PROTOCOL_VERSION);
    drive_to_receiving(&mut client);
    match finish(&mut client, response_frame(b"[]")) {
        Err(ScanError::Parse(ParseError::InvalidPayload(PayloadFault::NotObject))) => {}
        other => panic!("expected a parse failure, got {:?}", other.err()),
    }
}

#[test]
fn ip_holds_its_address() {
    let ip = Ip { address: "198.51.100.7".to_string() };
    let copy = ip.clone();
    assert_eq!(copy.address, "198.51.100.7");
}
