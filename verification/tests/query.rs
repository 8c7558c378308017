use ntp_monitor::query::{
    read_response, reply_from, request_packet, server_address, NtpQuery, QueryAction, QueryError,
    QueryEvent, QueryStage, ServerAnswer,
};
use ntp_monitor::server::Reply;
use ntp_monitor::time::Timestamp;

fn response(since_1900: u32, stratum: u8) -> [u8; 48] {
    let mut bytes = [0xAAu8; 48];
    bytes[1] = stratum;
    bytes[40..44].copy_from_slice(&since_1900.to_be_bytes());
    bytes
}

fn finish(events: Vec<QueryEvent>) -> Result<ServerAnswer, String> {
    let mut query = NtpQuery::new("10.0.0.1");
    for event in events {
        query.advance(event);
    }
    match query.action() {
        QueryAction::Finish { outcome } => outcome,
        other => panic!("unexpected {:?}", other),
    }
}

#[test]
fn request_bytes() {
    let packet = request_packet();
    assert_eq!(packet.len(), 48);
    assert_eq!(packet[0], 0x1B);
    assert!(packet[1..].iter().all(|b| *b == 0));
}

#[test]
fn response_is_read() {
    let answer = read_response(&response(3_908_988_800, 3));
    assert_eq!(answer.time, Timestamp { secs: 1_700_000_000, nanos: 0 });
    assert_eq!(answer.stratum, 3);
}

#[test]
fn response_at_the_edges() {
    let secs = |since_1900: u32| read_response(&response(since_1900, 0)).time.secs;
    assert_eq!(secs(0), 0);
    assert_eq!(secs(2_208_988_799), 0);
    assert_eq!(secs(2_208_988_800), 0);
    assert_eq!(secs(2_208_988_801), 1);
    assert_eq!(secs(u32::MAX), 2_085_978_495);
}

#[test]
fn address_has_the_ntp_port() {
    assert_eq!(server_address("10.0.0.1"), "10.0.0.1:123");
    assert_eq!(server_address(""), ":123");
}

#[test]
fn query_that_succeeds() {
    let mut query = NtpQuery::new("10.0.0.1");
    assert_eq!(query.action(), QueryAction::Bind);
    query.advance(QueryEvent::Bound);
    assert_eq!(query.action(), QueryAction::ReadAddress { address: "10.0.0.1:123".to_string() });
    query.advance(QueryEvent::AddressRead);
    assert_eq!(
        query.action(),
        QueryAction::Send {
            address: "10.0.0.1:123".to_string(),
            packet: request_packet(),
            timeout_seconds: 5,
        }
    );
    query.advance(QueryEvent::Sent);
    assert_eq!(query.action(), QueryAction::Receive { timeout_seconds: 5 });
    query.advance(QueryEvent::Received { response: response(3_908_988_800, 1) });
    let outcome = Ok(ServerAnswer {
        time: Timestamp { secs: 1_700_000_000, nanos: 0 },
        stratum: 1,
    });
    assert_eq!(query.action(), QueryAction::Finish { outcome: outcome.clone() });
    query.advance(QueryEvent::Bound);
    assert_eq!(query.action(), QueryAction::Finish { outcome });
}

#[test]
fn query_errors() {
    let reason = || "no".to_string();
    assert_eq!(
        finish(vec![QueryEvent::BindFailed { reason: reason() }]),
        Err("Failed to bind socket: no".to_string())
    );
    assert_eq!(
        finish(vec![QueryEvent::Bound, QueryEvent::AddressInvalid]),
        Err("Invalid server address".to_string())
    );
    let sending = || vec![QueryEvent::Bound, QueryEvent::AddressRead];
    let with = |mut events: Vec<QueryEvent>, event: QueryEvent| {
        events.push(event);
        finish(events)
    };
    assert_eq!(
        with(sending(), QueryEvent::SendTimedOut),
        Err("Request timeout".to_string())
    );
    assert_eq!(
        with(sending(), QueryEvent::SendFailed { reason: reason() }),
        Err("Send error: no".to_string())
    );
    let receiving = || vec![QueryEvent::Bound, QueryEvent::AddressRead, QueryEvent::Sent];
    assert_eq!(
        with(receiving(), QueryEvent::ReceiveTimedOut),
        Err("Response timeout".to_string())
    );
    assert_eq!(
        with(receiving(), QueryEvent::ReceiveFailed { reason: reason() }),
        Err("Receive error: no".to_string())
    );
}

#[test]
fn events_out_of_turn_change_nothing() {
    let mut query = NtpQuery::new("a");
    query.advance(QueryEvent::Sent);
    query.advance(QueryEvent::ReceiveTimedOut);
    query.advance(QueryEvent::AddressInvalid);
    assert_eq!(query.stage, QueryStage::Binding);
}

#[test]
fn outcomes_as_replies() {
    let local_time = Timestamp { secs: 9, nanos: 1 };
    let time = Timestamp { secs: 8, nanos: 0 };
    assert_eq!(
        reply_from(Ok(ServerAnswer { time, stratum: 4 }), local_time),
        Reply::Answer { time, stratum: 4, local_time }
    );
    assert_eq!(
        reply_from(Err(QueryError::Address.message()), local_time),
        Reply::Failure { message: "Invalid server address".to_string() }
    );
}
