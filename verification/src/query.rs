//! A query to an NTP server: what is sent, how the response is read, and in which order things
//! happen.

use vstd::prelude::*;
use vstd::string::StringExecFns;

use crate::calendar;
use crate::server::Reply;
use crate::time::Timestamp;

verus! {

/// The seconds from 1900-01-01, where NTP starts to count, to 1970-01-01.
pub const NTP_EPOCH_OFFSET: u64 = 2_208_988_800;

/// A request: 48 bytes, of which only the first is not zero. It says that the request comes
/// from a client of protocol version 3.
pub open spec fn request_bytes() -> Seq<u8> {
    Seq::new(
        48,
        |i: int|
            if i == 0 {
                0x1B
            } else {
                0
            },
    )
}

/// The number that `bytes` hold, the most significant byte first.
pub open spec fn big_endian(bytes: Seq<u8>) -> int
    decreases bytes.len(),
{
    if bytes.len() == 0 {
        0
    } else {
        big_endian(bytes.drop_last()) * 256 + bytes.last()
    }
}

/// The seconds since 1970-01-01 at which a response says it was sent. Bytes 40 to 43 count
/// them from 1900-01-01; what lies before 1970-01-01 counts as that day's start.
pub open spec fn unix_seconds(response: Seq<u8>) -> int {
    let since_1900 = big_endian(response.subrange(40, 44));
    if since_1900 >= NTP_EPOCH_OFFSET {
        since_1900 - NTP_EPOCH_OFFSET
    } else {
        0
    }
}

/// What a response says: the server's time and its stratum.
#[derive(Clone, Copy, Debug, PartialEq, Eq, Structural)]
pub struct ServerAnswer {
    pub time: Timestamp,
    pub stratum: u8,
}

/// What a response says.
pub open spec fn answer_of(response: Seq<u8>) -> ServerAnswer {
    ServerAnswer {
        time: Timestamp { secs: unix_seconds(response) as i64, nanos: 0 },
        stratum: response[1],
    }
}

/// Why a query failed.
#[derive(Debug, PartialEq, Eq)]
pub enum QueryError {
    /// No socket could be bound.
    Bind { reason: String },
    /// The address of the server could not be read.
    Address,
    /// The request could not be sent in time.
    RequestTimeout,
    /// The request could not be sent.
    Send { reason: String },
    /// No response came in time.
    ResponseTimeout,
    /// The response could not be received.
    Receive { reason: String },
}

impl QueryError {
    /// The error in words.
    pub open spec fn text(self) -> Seq<char> {
        match self {
            QueryError::Bind { reason } => "Failed to bind socket: "@ + reason@,
            QueryError::Address => "Invalid server address"@,
            QueryError::RequestTimeout => "Request timeout"@,
            QueryError::Send { reason } => "Send error: "@ + reason@,
            QueryError::ResponseTimeout => "Response timeout"@,
            QueryError::Receive { reason } => "Receive error: "@ + reason@,
        }
    }

    /// The error in words.
    pub fn message(&self) -> (r: String)
        ensures
            r@ == self.text(),
    {
        match self {
            QueryError::Bind { reason } => "Failed to bind socket: ".to_string().concat(
                reason.as_str(),
            ),
            QueryError::Address => "Invalid server address".to_string(),
            QueryError::RequestTimeout => "Request timeout".to_string(),
            QueryError::Send { reason } => "Send error: ".to_string().concat(reason.as_str()),
            QueryError::ResponseTimeout => "Response timeout".to_string(),
            QueryError::Receive { reason } => "Receive error: ".to_string().concat(reason.as_str()),
        }
    }
}

/// A request.
pub fn request_packet() -> (r: [u8; 48])
    ensures
        r@ == request_bytes(),
{
    let mut packet: [u8; 48] = [0u8; 48];
    packet[0] = 0x1B;
    assert(packet@ =~= request_bytes());
    packet
}

/// What a response says.
pub fn read_response(response: &[u8; 48]) -> (r: ServerAnswer)
    ensures
        r == answer_of(response@),
        r.time.wf(),
{
    let since_1900: u64 = response[40] as u64 * 0x100_0000 + response[41] as u64 * 0x1_0000
        + response[42] as u64 * 0x100 + response[43] as u64;
    proof {
        let bytes = response@.subrange(40, 44);
        reveal_with_fuel(big_endian, 5);
        assert(bytes.drop_last() =~= response@.subrange(40, 43));
        assert(bytes.drop_last().drop_last() =~= response@.subrange(40, 42));
        assert(since_1900 == big_endian(bytes));
    }
    let secs: u64 = if since_1900 >= NTP_EPOCH_OFFSET {
        since_1900 - NTP_EPOCH_OFFSET
    } else {
        0
    };
    ServerAnswer { time: Timestamp::from_secs(secs as u32), stratum: response[1] }
}

/// The address that a server is asked at: its own, at the NTP port.
pub fn server_address(server: &str) -> (r: String)
    ensures
        r@ == server@ + ":123"@,
{
    server.to_string().concat(":123")
}

/// The seconds that sending a request may take, and receiving the response.
pub const QUERY_TIMEOUT_SECONDS: u64 = 5;

/// How far a query has come.
#[derive(Debug, PartialEq, Eq)]
pub enum QueryStage {
    /// A socket is being bound.
    Binding,
    /// The address of the server is being read.
    Addressing,
    /// The request is being sent.
    Sending,
    /// The response is being received.
    Receiving,
    /// The query is over.
    Finished { outcome: Result<ServerAnswer, QueryError> },
}

/// What has to be done next in a query.
#[derive(Debug, PartialEq, Eq)]
pub enum QueryAction {
    /// Bind a socket.
    Bind,
    /// Read the address of the server.
    ReadAddress { address: String },
    /// Send the packet to the address that was read, within so many seconds.
    Send { address: String, packet: [u8; 48], timeout_seconds: u64 },
    /// Receive the response, within so many seconds.
    Receive { timeout_seconds: u64 },
    /// Hand the outcome on.
    Finish { outcome: Result<ServerAnswer, String> },
}

/// How something ended that a query had asked for.
#[derive(Debug, PartialEq, Eq)]
pub enum QueryEvent {
    Bound,
    BindFailed { reason: String },
    AddressRead,
    AddressInvalid,
    Sent,
    SendTimedOut,
    SendFailed { reason: String },
    Received { response: [u8; 48] },
    ReceiveTimedOut,
    ReceiveFailed { reason: String },
}

impl QueryStage {
    /// The stage after `event`. What the stage does not wait for leaves it as it is.
    pub open spec fn after(self, event: QueryEvent) -> QueryStage {
        match (self, event) {
            (QueryStage::Binding, QueryEvent::Bound) => QueryStage::Addressing,
            (QueryStage::Binding, QueryEvent::BindFailed { reason }) => QueryStage::Finished {
                outcome: Err(QueryError::Bind { reason }),
            },
            (QueryStage::Addressing, QueryEvent::AddressRead) => QueryStage::Sending,
            (QueryStage::Addressing, QueryEvent::AddressInvalid) => QueryStage::Finished {
                outcome: Err(QueryError::Address),
            },
            (QueryStage::Sending, QueryEvent::Sent) => QueryStage::Receiving,
            (QueryStage::Sending, QueryEvent::SendTimedOut) => QueryStage::Finished {
                outcome: Err(QueryError::RequestTimeout),
            },
            (QueryStage::Sending, QueryEvent::SendFailed { reason }) => QueryStage::Finished {
                outcome: Err(QueryError::Send { reason }),
            },
            (QueryStage::Receiving, QueryEvent::Received { response }) => QueryStage::Finished {
                outcome: Ok(answer_of(response@)),
            },
            (QueryStage::Receiving, QueryEvent::ReceiveTimedOut) => QueryStage::Finished {
                outcome: Err(QueryError::ResponseTimeout),
            },
            (QueryStage::Receiving, QueryEvent::ReceiveFailed { reason }) => QueryStage::Finished {
                outcome: Err(QueryError::Receive { reason }),
            },
            _ => self,
        }
    }

    /// Tells whether the stage waits for `event`.
    pub open spec fn expects(self, event: QueryEvent) -> bool {
        match self {
            QueryStage::Binding => event is Bound || event is BindFailed,
            QueryStage::Addressing => event is AddressRead || event is AddressInvalid,
            QueryStage::Sending => event is Sent || event is SendTimedOut || event is SendFailed,
            QueryStage::Receiving => event is Received || event is ReceiveTimedOut
                || event is ReceiveFailed,
            QueryStage::Finished { outcome } => false,
        }
    }

    /// The most events until the query is over.
    pub open spec fn events_left(self) -> nat {
        match self {
            QueryStage::Binding => 4,
            QueryStage::Addressing => 3,
            QueryStage::Sending => 2,
            QueryStage::Receiving => 1,
            QueryStage::Finished { outcome } => 0,
        }
    }
}

/// A query to a server.
#[derive(Debug, PartialEq, Eq)]
pub struct NtpQuery {
    pub server: String,
    pub stage: QueryStage,
}

impl NtpQuery {
    /// A query to the server at the address `server` that starts with binding a socket.
    pub fn new(server: &str) -> (r: NtpQuery)
        ensures
            r.server@ == server@,
            r.stage == QueryStage::Binding,
    {
        NtpQuery { server: server.to_string(), stage: QueryStage::Binding }
    }

    /// What has to be done next.
    pub open spec fn wants(self, action: QueryAction) -> bool {
        match self.stage {
            QueryStage::Binding => action is Bind,
            QueryStage::Addressing => action matches QueryAction::ReadAddress { address }
                && address@ == self.server@ + ":123"@,
            QueryStage::Sending => action matches QueryAction::Send {
                address,
                packet,
                timeout_seconds,
            } && address@ == self.server@ + ":123"@ && packet@ == request_bytes()
                && timeout_seconds == QUERY_TIMEOUT_SECONDS,
            QueryStage::Receiving => action matches QueryAction::Receive { timeout_seconds }
                && timeout_seconds == QUERY_TIMEOUT_SECONDS,
            QueryStage::Finished { outcome } => action matches QueryAction::Finish { outcome: handed }
                && match (outcome, handed) {
                (Ok(answer), Ok(given)) => answer == given,
                (Err(error), Err(message)) => message@ == error.text(),
                _ => false,
            },
        }
    }

    /// What has to be done next.
    pub fn action(&self) -> (r: QueryAction)
        ensures
            self.wants(r),
    {
        match &self.stage {
            QueryStage::Binding => QueryAction::Bind,
            QueryStage::Addressing => QueryAction::ReadAddress {
                address: server_address(self.server.as_str()),
            },
            QueryStage::Sending => QueryAction::Send {
                address: server_address(self.server.as_str()),
                packet: request_packet(),
                timeout_seconds: QUERY_TIMEOUT_SECONDS,
            },
            QueryStage::Receiving => QueryAction::Receive {
                timeout_seconds: QUERY_TIMEOUT_SECONDS,
            },
            QueryStage::Finished { outcome } => match outcome {
                Ok(answer) => QueryAction::Finish { outcome: Ok(*answer) },
                Err(error) => QueryAction::Finish { outcome: Err(error.message()) },
            },
        }
    }

    /// Takes in how the last action ended.
    pub fn advance(&mut self, event: QueryEvent)
        ensures
            final(self).server == old(self).server,
            final(self).stage == old(self).stage.after(event),
    {
        let next: Option<QueryStage> = match (&self.stage, event) {
            (QueryStage::Binding, QueryEvent::Bound) => Some(QueryStage::Addressing),
            (QueryStage::Binding, QueryEvent::BindFailed { reason }) => Some(
                QueryStage::Finished { outcome: Err(QueryError::Bind { reason }) },
            ),
            (QueryStage::Addressing, QueryEvent::AddressRead) => Some(QueryStage::Sending),
            (QueryStage::Addressing, QueryEvent::AddressInvalid) => Some(
                QueryStage::Finished { outcome: Err(QueryError::Address) },
            ),
            (QueryStage::Sending, QueryEvent::Sent) => Some(QueryStage::Receiving),
            (QueryStage::Sending, QueryEvent::SendTimedOut) => Some(
                QueryStage::Finished { outcome: Err(QueryError::RequestTimeout) },
            ),
            (QueryStage::Sending, QueryEvent::SendFailed { reason }) => Some(
                QueryStage::Finished { outcome: Err(QueryError::Send { reason }) },
            ),
            (QueryStage::Receiving, QueryEvent::Received { response }) => Some(
                QueryStage::Finished { outcome: Ok(read_response(&response)) },
            ),
            (QueryStage::Receiving, QueryEvent::ReceiveTimedOut) => Some(
                QueryStage::Finished { outcome: Err(QueryError::ResponseTimeout) },
            ),
            (QueryStage::Receiving, QueryEvent::ReceiveFailed { reason }) => Some(
                QueryStage::Finished { outcome: Err(QueryError::Receive { reason }) },
            ),
            _ => None,
        };
        if let Some(stage) = next {
            self.stage = stage;
        }
    }
}

/// The outcome of a query as the outcome for its server, where the local clock stood at
/// `local_time` when it came.
pub fn reply_from(outcome: Result<ServerAnswer, String>, local_time: Timestamp) -> (r: Reply)
    ensures
        r == match outcome {
            Ok(answer) => Reply::Answer { time: answer.time, stratum: answer.stratum, local_time },
            Err(message) => Reply::Failure { message },
        },
{
    match outcome {
        Ok(answer) => Reply::Answer { time: answer.time, stratum: answer.stratum, local_time },
        Err(message) => Reply::Failure { message },
    }
}

/// Every event that a query waits for brings it nearer to its end, and a query that is over
/// stays as it is.
pub proof fn query_ends(stage: QueryStage, event: QueryEvent)
    ensures
        stage.expects(event) ==> stage.after(event).events_left() < stage.events_left(),
        stage is Finished ==> stage.after(event) == stage,
        stage.events_left() == 0 ==> stage is Finished,
{
}

/// A query of which every step succeeds ends with what the response says.
pub proof fn query_succeeds(response: [u8; 48])
    ensures
        QueryStage::Binding.after(QueryEvent::Bound).after(QueryEvent::AddressRead).after(
            QueryEvent::Sent,
        ).after(QueryEvent::Received { response }) == (QueryStage::Finished {
            outcome: Ok(answer_of(response@)),
        }),
{
}

proof fn lemma_big_endian(bytes: Seq<u8>)
    requires
        bytes.len() == 4,
    ensures
        0 <= big_endian(bytes) < 0x1_0000_0000,
{
    reveal_with_fuel(big_endian, 5);
}

/// Every response tells a time that a clock can show, from the epoch on.
pub proof fn answer_in_calendar(response: Seq<u8>)
    requires
        response.len() == 48,
    ensures
        answer_of(response).time.wf(),
        answer_of(response).time.secs >= 0,
        calendar::in_calendar(answer_of(response).time.secs as int),
{
    lemma_big_endian(response.subrange(40, 44));
}

proof fn lemma_four_bytes(bytes: Seq<u8>)
    requires
        bytes.len() == 4,
    ensures
        big_endian(bytes) == bytes[0] * 0x100_0000 + bytes[1] * 0x1_0000 + bytes[2] * 0x100
            + bytes[3],
{
    reveal_with_fuel(big_endian, 5);
    assert(bytes.drop_last().drop_last()[0] == bytes[0]);
}

/// The time of an answer is what the four bytes from 40 on count in seconds from 1900, less the
/// 2,208,988,800 seconds from there to 1970, and the start of 1970 where that is less than
/// nothing. The stratum is the second byte. No other byte counts.
pub proof fn answer_comes_from_its_bytes(response: &[u8; 48], answer: ServerAnswer)
    requires
        call_ensures(read_response, (response,), answer),
    ensures
        answer == answer_of(response@),
        answer.stratum == response@[1],
        answer.time.nanos == 0,
        ({
            let since_1900 = response@[40] * 0x100_0000 + response@[41] * 0x1_0000 + response@[42]
                * 0x100 + response@[43];
            &&& since_1900 >= 2_208_988_800 ==> answer.time.secs == since_1900 - 2_208_988_800
            &&& since_1900 < 2_208_988_800 ==> answer.time.secs == 0
        }),
{
    let bytes = response@.subrange(40, 44);
    lemma_four_bytes(bytes);
    assert(bytes[0] == response@[40] && bytes[1] == response@[41] && bytes[2] == response@[42]
        && bytes[3] == response@[43]);
}

/// Two responses that agree in the bytes from 40 to 43 tell the same time, and one whose bytes
/// count some seconds more tells a time that lies so many seconds later.
pub proof fn transmit_time_alone_tells_the_time(a: Seq<u8>, b: Seq<u8>)
    requires
        a.len() == 48,
        b.len() == 48,
        a[40] == b[40],
        a[41] == b[41],
        a[42] == b[42],
    ensures
        a[43] == b[43] ==> answer_of(a).time == answer_of(b).time,
        a[40] >= 0x84 ==> answer_of(a).time.secs - answer_of(b).time.secs == a[43] - b[43],
        a[1] == b[1] ==> answer_of(a).stratum == answer_of(b).stratum,
{
    let x = a.subrange(40, 44);
    let y = b.subrange(40, 44);
    lemma_four_bytes(x);
    lemma_four_bytes(y);
    assert(x[0] == a[40] && x[1] == a[41] && x[2] == a[42] && x[3] == a[43]);
    assert(y[0] == b[40] && y[1] == b[41] && y[2] == b[42] && y[3] == b[43]);
}

/// A request has 48 bytes: 27, and zeros behind it.
pub proof fn request_says_client_of_version_three(packet: [u8; 48], i: int)
    requires
        call_ensures(request_packet, (), packet),
        0 < i < 48,
    ensures
        packet@.len() == 48,
        packet@[0] == 27,
        packet@[i] == 0,
{
}

/// A server is asked at its own address, at the port 123.
pub proof fn port_stands_behind_the_address(server: &str, r: String)
    requires
        call_ensures(server_address, (server,), r),
    ensures
        r@ == server@ + seq![':', '1', '2', '3'],
{
    reveal_strlit(":123");
    assert(":123"@ =~= seq![':', '1', '2', '3']);
}

/// The message of an error tells what failed, and then the reason where there is one.
pub proof fn message_tells_failure_and_reason(error: &QueryError, r: String)
    requires
        call_ensures(QueryError::message, (error,), r),
    ensures
        r@ == error.text(),
        match *error {
            QueryError::Bind { reason } => r@ == "Failed to bind socket: "@ + reason@,
            QueryError::Address => r@ == "Invalid server address"@,
            QueryError::RequestTimeout => r@ == "Request timeout"@,
            QueryError::Send { reason } => r@ == "Send error: "@ + reason@,
            QueryError::ResponseTimeout => r@ == "Response timeout"@,
            QueryError::Receive { reason } => r@ == "Receive error: "@ + reason@,
        },
{
}

/// A query starts with binding a socket, whatever server it asks.
pub proof fn query_starts_with_its_server(server: &str, query: NtpQuery)
    requires
        call_ensures(NtpQuery::new, (server,), query),
    ensures
        query.server@ == server@,
        query.stage is Binding,
{
}

/// What a query has done at each stage: the address that is read and the one that the request
/// goes to are those of its server, at the port 123; the request is 27 and 47 zeros; sending and
/// receiving may take five seconds each; and the outcome that it hands on is the one it ended
/// with.
pub proof fn query_asks_its_server(query: &NtpQuery, action: QueryAction)
    requires
        call_ensures(NtpQuery::action, (query,), action),
    ensures
        query.wants(action),
        match query.stage {
            QueryStage::Binding => action is Bind,
            QueryStage::Addressing => action matches QueryAction::ReadAddress { address }
                && address@ == query.server@ + seq![':', '1', '2', '3'],
            QueryStage::Sending => action matches QueryAction::Send {
                address,
                packet,
                timeout_seconds,
            } && address@ == query.server@ + seq![':', '1', '2', '3'] && packet@.len() == 48
                && packet@[0] == 27 && (forall|i: int| 0 < i < 48 ==> #[trigger] packet@[i] == 0)
                && timeout_seconds == 5,
            QueryStage::Receiving => action matches QueryAction::Receive { timeout_seconds }
                && timeout_seconds == 5,
            QueryStage::Finished { outcome } => match outcome {
                Ok(answer) => action == (QueryAction::Finish { outcome: Ok(answer) }),
                Err(error) => action matches QueryAction::Finish { outcome: Err(message) }
                    && message@ == error.text(),
            },
        },
{
    reveal_strlit(":123");
    assert(":123"@ =~= seq![':', '1', '2', '3']);
}

/// How a query goes on: each step that succeeds leads to the next one, and the response to the
/// answer; each step that fails ends the query with its own error and reason. What is not waited
/// for changes nothing.
pub proof fn query_goes_on_step_by_step(query: &mut NtpQuery, event: QueryEvent)
    requires
        call_ensures(NtpQuery::advance, (query, event), ()),
    ensures
        final(query).server == old(query).server,
        final(query).stage == old(query).stage.after(event),
        match old(query).stage {
            QueryStage::Binding => match event {
                QueryEvent::Bound => final(query).stage is Addressing,
                QueryEvent::BindFailed { reason } => final(query).stage == (QueryStage::Finished {
                    outcome: Err(QueryError::Bind { reason }),
                }),
                _ => final(query).stage is Binding,
            },
            QueryStage::Addressing => match event {
                QueryEvent::AddressRead => final(query).stage is Sending,
                QueryEvent::AddressInvalid => final(query).stage == (QueryStage::Finished {
                    outcome: Err(QueryError::Address),
                }),
                _ => final(query).stage is Addressing,
            },
            QueryStage::Sending => match event {
                QueryEvent::Sent => final(query).stage is Receiving,
                QueryEvent::SendTimedOut => final(query).stage == (QueryStage::Finished {
                    outcome: Err(QueryError::RequestTimeout),
                }),
                QueryEvent::SendFailed { reason } => final(query).stage == (QueryStage::Finished {
                    outcome: Err(QueryError::Send { reason }),
                }),
                _ => final(query).stage is Sending,
            },
            QueryStage::Receiving => match event {
                QueryEvent::Received { response } => final(query).stage == (QueryStage::Finished {
                    outcome: Ok(answer_of(response@)),
                }),
                QueryEvent::ReceiveTimedOut => final(query).stage == (QueryStage::Finished {
                    outcome: Err(QueryError::ResponseTimeout),
                }),
                QueryEvent::ReceiveFailed { reason } => final(query).stage == (
                QueryStage::Finished { outcome: Err(QueryError::Receive { reason }) }),
                _ => final(query).stage is Receiving,
            },
            QueryStage::Finished { outcome } => final(query).stage == (QueryStage::Finished {
                outcome,
            }),
        },
{
}

/// An answer becomes the outcome for its server with the local time at which it came, and an
/// error becomes a failure with its message.
pub proof fn reply_keeps_the_outcome(
    outcome: Result<ServerAnswer, String>,
    local_time: Timestamp,
    reply: Reply,
)
    requires
        call_ensures(reply_from, (outcome, local_time), reply),
    ensures
        outcome matches Ok(answer) ==> reply == (Reply::Answer {
            time: answer.time,
            stratum: answer.stratum,
            local_time,
        }),
        outcome matches Err(message) ==> reply == (Reply::Failure { message }),
{
}

} // verus!
