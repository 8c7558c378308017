//! What the window shows: the rows of the table and the labels.

use vstd::prelude::*;
use vstd::string::StringExecFns;

use crate::clock;
use crate::clock::format_system_time_with_timezone;
use crate::ini::CONFIG_FILE;
use crate::number;
use crate::number::{push_decimal, push_signed_decimal};
use crate::server::{Drift, NtpServerInfo, Reply};
use crate::text;
use crate::time::{TimeSpan, Timestamp};

verus! {

/// What stands for a value that is not known.
pub const NOT_AVAILABLE: &'static str = "N/A";

/// The color of a cell.
#[derive(Clone, Copy, Debug, PartialEq, Eq, Structural)]
pub enum CellColor {
    Plain,
    Red,
    Yellow,
    Green,
}

/// A cell of the table.
#[derive(Debug, PartialEq, Eq)]
pub struct Cell {
    pub text: String,
    pub color: CellColor,
}

/// A row of the table. The drift is left as it was measured.
#[derive(Debug, PartialEq, Eq)]
pub struct ServerRow {
    pub name: String,
    pub ip: String,
    pub current_time: String,
    pub time_diff: Cell,
    pub stratum: String,
    pub drift: Option<Drift>,
    pub status: Cell,
}

/// The 64 low bits of `n` as a signed number.
pub open spec fn low_bits_signed(n: int) -> int {
    let low = n % 0x1_0000_0000_0000_0000;
    if low < 0x8000_0000_0000_0000 {
        low
    } else {
        low - 0x1_0000_0000_0000_0000
    }
}

/// The milliseconds that a time difference is shown as.
pub open spec fn diff_millis(diff: TimeSpan) -> int {
    low_bits_signed(diff@ / 1_000_000)
}

/// The color of a time difference: red above 100 milliseconds, yellow above 50.
pub open spec fn diff_color(millis: int) -> CellColor {
    if millis > 100 || millis < -100 {
        CellColor::Red
    } else if millis > 50 || millis < -50 {
        CellColor::Yellow
    } else {
        CellColor::Green
    }
}

/// The text and the color of the cell that shows a time difference.
pub open spec fn diff_cell(diff: Option<TimeSpan>) -> (Seq<char>, CellColor) {
    match diff {
        Some(span) => (
            number::signed_decimal(diff_millis(span)),
            diff_color(diff_millis(span)),
        ),
        None => (NOT_AVAILABLE@, CellColor::Plain),
    }
}

/// The text of the cell that shows a stratum.
pub open spec fn stratum_text(stratum: Option<u8>) -> Seq<char> {
    match stratum {
        Some(n) => number::decimal(n as nat),
        None => NOT_AVAILABLE@,
    }
}

/// The text and the color of the cell that shows how a server does: its error, or whether it
/// has answered yet.
pub open spec fn status_cell(server: NtpServerInfo) -> (Seq<char>, CellColor) {
    match server.error {
        Some(message) => (message@, CellColor::Red),
        None => if server.last_updated is Some {
            ("Online"@, CellColor::Green)
        } else {
            ("Connecting..."@, CellColor::Plain)
        },
    }
}

/// What stands next to the countdown: the time left until the next round, `elapsed` seconds
/// after the last one.
pub open spec fn countdown_text(elapsed: Option<u64>, frequency: u64) -> Seq<char> {
    match elapsed {
        Some(secs) => if secs < frequency {
            "Next update in: "@ + number::decimal((frequency - secs) as nat) + "s"@
        } else {
            "Updating..."@
        },
        None => "Initializing..."@,
    }
}

impl ServerRow {
    /// The row shows `server`, with `current_time` for its time.
    pub open spec fn shows(self, server: NtpServerInfo, current_time: Seq<char>) -> bool {
        &&& self.name@ == server.name@
        &&& self.ip@ == server.ip@
        &&& self.current_time@ == current_time
        &&& (self.time_diff.text@, self.time_diff.color) == diff_cell(server.time_diff)
        &&& self.stratum@ == stratum_text(server.stratum)
        &&& self.drift == server.drift
        &&& (self.status.text@, self.status.color) == status_cell(server)
    }

    /// The row shows `server`, with its time as a clock in the zone `timezone` shows it.
    pub open spec fn is_row_of(self, server: NtpServerInfo, timezone: Seq<char>) -> bool {
        &&& self.shows(server, self.current_time@)
        &&& match server.current_time {
            Some(time) => clock::is_zone_text(self.current_time@, time, timezone),
            None => self.current_time@ == NOT_AVAILABLE@,
        }
    }
}

/// The server is well-formed, and the size of its time difference can be taken.
pub open spec fn can_show(server: NtpServerInfo) -> bool {
    &&& server.wf()
    &&& server.time_diff matches Some(span) ==> diff_millis(span) != i64::MIN
}

/// The titles of the columns of the table.
pub open spec fn titles() -> Seq<Seq<char>> {
    seq![
        "Server Name"@,
        "IP Address"@,
        "Current Time"@,
        "Time Diff (ms)"@,
        "Stratum"@,
        "Drift (ppm)"@,
        "Status"@,
    ]
}

/// The milliseconds that a time difference is shown as.
pub fn shown_millis(diff: &TimeSpan) -> (r: i64)
    requires
        diff.wf(),
    ensures
        r == diff_millis(*diff),
{
    let low: u64 = (diff.as_millis() % 0x1_0000_0000_0000_0000) as u64;
    if low < 0x8000_0000_0000_0000 {
        low as i64
    } else {
        (low - 0x8000_0000_0000_0000) as i64 + i64::MIN
    }
}

/// The cell that shows a time difference.
pub fn time_diff_cell(diff: &Option<TimeSpan>) -> (r: Cell)
    requires
        diff matches Some(span) ==> span.wf() && diff_millis(*span) != i64::MIN,
    ensures
        (r.text@, r.color) == diff_cell(*diff),
{
    match diff {
        Some(span) => {
            let millis: i64 = shown_millis(span);
            let size: i64 = if millis < 0 {
                -millis
            } else {
                millis
            };
            let color = if size > 100 {
                CellColor::Red
            } else if size > 50 {
                CellColor::Yellow
            } else {
                CellColor::Green
            };
            let mut text: String = String::new();
            push_signed_decimal(&mut text, millis);
            assert(text@ =~= number::signed_decimal(millis as int));
            Cell { text, color }
        },
        None => Cell { text: NOT_AVAILABLE.to_string(), color: CellColor::Plain },
    }
}

/// The row of `server`, with `current_time` for its time.
pub fn row_with_time(server: &NtpServerInfo, current_time: String) -> (r: ServerRow)
    requires
        can_show(*server),
    ensures
        r.shows(*server, current_time@),
{
    let stratum: String = match server.stratum {
        Some(n) => {
            let mut text: String = String::new();
            push_decimal(&mut text, n as u64);
            assert(text@ =~= number::decimal(n as nat));
            text
        },
        None => NOT_AVAILABLE.to_string(),
    };
    let status: Cell = match &server.error {
        Some(message) => Cell { text: message.clone(), color: CellColor::Red },
        None => if server.last_updated.is_some() {
            Cell { text: "Online".to_string(), color: CellColor::Green }
        } else {
            Cell { text: "Connecting...".to_string(), color: CellColor::Plain }
        },
    };
    ServerRow {
        name: server.name.clone(),
        ip: server.ip.clone(),
        current_time,
        time_diff: time_diff_cell(&server.time_diff),
        stratum,
        drift: server.drift,
        status,
    }
}

/// The row of `server`, with its time in the zone `timezone`.
pub fn server_row(server: &NtpServerInfo, timezone: &str) -> (r: ServerRow)
    requires
        can_show(*server),
    ensures
        r.is_row_of(*server, timezone@),
{
    let current_time: String = match server.current_time {
        Some(time) => format_system_time_with_timezone(time, timezone),
        None => NOT_AVAILABLE.to_string(),
    };
    row_with_time(server, current_time)
}

/// The titles of the columns of the table.
pub fn column_titles() -> (r: Vec<String>)
    ensures
        text::texts(r@) == titles(),
{
    let r: Vec<String> = vec![
        "Server Name".to_string(),
        "IP Address".to_string(),
        "Current Time".to_string(),
        "Time Diff (ms)".to_string(),
        "Stratum".to_string(),
        "Drift (ppm)".to_string(),
        "Status".to_string(),
    ];
    assert(text::texts(r@) =~= titles());
    r
}

/// The rows of the table: one for each server, in the order of the list, with the times in the
/// zone `timezone`.
pub fn server_rows(servers: &Vec<NtpServerInfo>, timezone: &str) -> (r: Vec<ServerRow>)
    requires
        forall|i: int| 0 <= i < servers@.len() ==> can_show(#[trigger] servers@[i]),
    ensures
        r@.len() == servers@.len(),
        forall|i: int|
            0 <= i < r@.len() ==> (#[trigger] r@[i]).is_row_of(servers@[i], timezone@),
{
    let mut r: Vec<ServerRow> = Vec::new();
    for i in 0..servers.len()
        invariant
            forall|j: int| 0 <= j < servers@.len() ==> can_show(#[trigger] servers@[j]),
            r@.len() == i,
            forall|j: int| 0 <= j < i ==> (#[trigger] r@[j]).is_row_of(servers@[j], timezone@),
    {
        r.push(server_row(&servers[i], timezone));
    }
    r
}

/// The label that counts the time down to the next round.
pub fn countdown_label(elapsed: Option<u64>, frequency: u64) -> (r: String)
    ensures
        r@ == countdown_text(elapsed, frequency),
{
    match elapsed {
        Some(secs) => {
            let remaining: u64 = frequency.saturating_sub(secs);
            if remaining > 0 {
                let mut r: String = "Next update in: ".to_string();
                push_decimal(&mut r, remaining);
                r.append("s");
                r
            } else {
                "Updating...".to_string()
            }
        },
        None => "Initializing...".to_string(),
    }
}

/// The label that shows `current_time` in the zone `timezone`.
pub fn clock_label(timezone: &str, current_time: &str) -> (r: String)
    ensures
        r@ == "Current time ("@ + timezone@ + "): "@ + current_time@,
{
    let mut r: String = "Current time (".to_string();
    r.append(timezone);
    r.append("): ");
    r.append(current_time);
    r
}

/// The label that shows what a clock in the zone `timezone` shows at `now`.
pub fn current_time_label(now: Timestamp, timezone: &str) -> (r: String)
    requires
        now.wf(),
    ensures
        exists|current_time: Seq<char>| #[trigger]
            clock::is_zone_text(current_time, now, timezone@) && r@ == "Current time ("@
                + timezone@ + "): "@ + current_time,
{
    let current_time = format_system_time_with_timezone(now, timezone);
    clock_label(timezone, current_time.as_str())
}

/// The label that tells how many servers were loaded, if there are any.
pub fn loaded_label(count: usize) -> (r: Option<String>)
    ensures
        r is Some <==> count > 0,
        r matches Some(label) ==> label@ == "Loaded "@ + number::decimal(count as nat)
            + " servers from "@ + CONFIG_FILE@,
{
    if count == 0 {
        return None;
    }
    let mut r: String = "Loaded ".to_string();
    push_decimal(&mut r, count as u64);
    r.append(" servers from ");
    r.append(CONFIG_FILE);
    Some(r)
}

/// The label that shows the edited frequency.
pub fn frequency_label(seconds: u64) -> (r: String)
    ensures
        r@ == "Current: Every "@ + number::decimal(seconds as nat) + " seconds"@,
{
    let mut r: String = "Current: Every ".to_string();
    push_decimal(&mut r, seconds);
    r.append(" seconds");
    r
}

/// The label that shows the selected time zone.
pub fn timezone_label(timezone: &str) -> (r: String)
    ensures
        r@ == "Selected: "@ + timezone@,
{
    let mut r: String = "Selected: ".to_string();
    r.append(timezone);
    r
}

/// A time difference below 292 million years is shown as it is: as its whole milliseconds,
/// with a plus sign.
pub proof fn common_diff_shown_as_it_is(diff: TimeSpan)
    requires
        diff.wf(),
        diff.secs <= 9_223_372_036_854_774,
    ensures
        diff_millis(diff) == diff@ / 1_000_000,
        diff_millis(diff) != i64::MIN,
        diff_cell(Some(diff)).0 == seq!['+'] + number::decimal((diff@ / 1_000_000) as nat),
{
}

/// A cell of the time, the time difference or the stratum reads as not available just where the
/// server has no such value.
pub proof fn unknown_values_not_available(row: ServerRow, server: NtpServerInfo, timezone: Seq<char>)
    requires
        row.is_row_of(server, timezone),
    ensures
        row.current_time@ == NOT_AVAILABLE@ <==> server.current_time is None,
        row.time_diff.text@ == NOT_AVAILABLE@ <==> server.time_diff is None,
        row.stratum@ == NOT_AVAILABLE@ <==> server.stratum is None,
        row.drift is None <==> server.drift is None,
{
    reveal_strlit("N/A");
    reveal_strlit("Invalid");
    assert(NOT_AVAILABLE@.len() == 3 && NOT_AVAILABLE@[0] == 'N');
    if let Some(time) = server.current_time {
        assert(row.current_time@.len() > 3);
    }
    if let Some(span) = server.time_diff {
        assert(row.time_diff.text@[0] == '+' || row.time_diff.text@[0] == '-');
    }
    if let Some(n) = server.stratum {
        number::lemma_decimal(n as nat);
        assert(number::is_digit(row.stratum@[0]));
    }
}

/// An answer shows a server as online, with its stratum; a failure shows the message, and
/// neither a time nor a difference nor a stratum.
pub proof fn outcome_is_shown(server: NtpServerInfo, reply: Reply)
    ensures
        match reply {
            Reply::Answer { time, stratum, local_time } => {
                &&& status_cell(server.after(reply)) == ("Online"@, CellColor::Green)
                &&& stratum_text(server.after(reply).stratum) == number::decimal(stratum as nat)
            },
            Reply::Failure { message } => {
                &&& status_cell(server.after(reply)) == (message@, CellColor::Red)
                &&& server.after(reply).current_time is None
                &&& diff_cell(server.after(reply).time_diff) == (NOT_AVAILABLE@, CellColor::Plain)
                &&& stratum_text(server.after(reply).stratum) == NOT_AVAILABLE@
            },
        },
{
}

/// A time difference is shown as its whole milliseconds, as far as 64 bits with a sign hold
/// them; beyond that, it is off by a multiple of two to the 64th.
pub proof fn shown_millis_are_those_of_the_difference(diff: &TimeSpan, r: i64)
    requires
        diff.wf(),
        call_ensures(shown_millis, (diff,), r),
    ensures
        diff.secs < 9_223_372_036_854_775 ==> r * 1_000_000 <= diff.secs * 1_000_000_000
            + diff.nanos < (r + 1) * 1_000_000,
        ((diff.secs * 1_000_000_000 + diff.nanos) / 1_000_000 - r) % 0x1_0000_0000_0000_0000 == 0,
        r == diff_millis(*diff),
{
    let all = diff@ / 1_000_000;
    let low = all % 0x1_0000_0000_0000_0000;
    let high = all / 0x1_0000_0000_0000_0000;
    assert(all == high * 0x1_0000_0000_0000_0000 + low);
    if low < 0x8000_0000_0000_0000 {
        assert(all - r == high * 0x1_0000_0000_0000_0000);
    } else {
        assert(all - r == (high + 1) * 0x1_0000_0000_0000_0000);
    }
}

/// The cell of a time difference shows its milliseconds with a sign: in red beyond 100 of them
/// either way, in yellow beyond 50, and in green otherwise. Without a difference it says so,
/// without a color.
pub proof fn difference_cell_shows_millis_and_color(
    diff: &Option<TimeSpan>,
    span: &TimeSpan,
    millis: i64,
    cell: Cell,
)
    requires
        call_ensures(time_diff_cell, (diff,), cell),
        call_ensures(shown_millis, (span,), millis),
    ensures
        (cell.text@, cell.color) == diff_cell(*diff),
        *diff == Some(*span) ==> {
            &&& cell.text@ == number::signed_decimal(millis as int)
            &&& millis > 100 || millis < -100 ==> cell.color is Red
            &&& 50 < millis <= 100 || -100 <= millis < -50 ==> cell.color is Yellow
            &&& -50 <= millis <= 50 ==> cell.color is Green
        },
        *diff is None ==> cell.text@ == seq!['N', '/', 'A'] && cell.color is Plain,
{
    reveal_strlit("N/A");
    assert("N/A"@ =~= seq!['N', '/', 'A']);
}

/// A row shows the name, the address, the stratum, the difference and the drift of its own
/// server, and its error in red, or whether it has answered yet.
pub proof fn row_shows_its_server(
    server: &NtpServerInfo,
    current_time: String,
    row: ServerRow,
    cell: Cell,
)
    requires
        call_ensures(row_with_time, (server, current_time), row),
        call_ensures(time_diff_cell, (&server.time_diff,), cell),
    ensures
        row.shows(*server, current_time@),
        row.name@ == server.name@,
        row.ip@ == server.ip@,
        row.current_time@ == current_time@,
        row.time_diff.text@ == cell.text@,
        row.time_diff.color == cell.color,
        server.stratum matches Some(n) ==> row.stratum@ == number::decimal(n as nat),
        server.stratum is None ==> row.stratum@ == seq!['N', '/', 'A'],
        row.drift is Some <==> server.drift is Some,
        row.drift matches Some(shown) ==> {
            let drift = server.drift->0;
            &&& shown.current_diff == drift.current_diff
            &&& shown.last_diff == drift.last_diff
            &&& shown.elapsed == drift.elapsed
            &&& shown.current_diff@ - shown.last_diff@ == drift.current_diff@ - drift.last_diff@
        },
        server.error matches Some(message) ==> row.status.text@ == message@
            && row.status.color is Red,
        server.error is None && server.last_updated is Some ==> row.status.text@ == "Online"@
            && row.status.color is Green,
        server.error is None && server.last_updated is None ==> row.status.text@
            == "Connecting..."@ && row.status.color is Plain,
{
    reveal_strlit("N/A");
    assert("N/A"@ =~= seq!['N', '/', 'A']);
}

/// The row of a server in a zone is the one with the text that a clock in this zone shows at the
/// server's time, and with no time where the server has none.
pub proof fn row_shows_the_time_in_its_zone(
    server: &NtpServerInfo,
    timezone: &str,
    row: ServerRow,
    with_time: ServerRow,
)
    requires
        call_ensures(server_row, (server, timezone), row),
        call_ensures(row_with_time, (server, row.current_time), with_time),
    ensures
        row.is_row_of(*server, timezone@),
        server.current_time matches Some(time) ==> clock::is_zone_text(
            row.current_time@,
            time,
            timezone@,
        ),
        server.current_time is None ==> row.current_time@ == seq!['N', '/', 'A'],
        row.name@ == with_time.name@,
        row.ip@ == with_time.ip@,
        row.time_diff.text@ == with_time.time_diff.text@,
        row.time_diff.color == with_time.time_diff.color,
        row.stratum@ == with_time.stratum@,
        row.drift == with_time.drift,
        row.status.text@ == with_time.status.text@,
        row.status.color == with_time.status.color,
{
    reveal_strlit("N/A");
    assert("N/A"@ =~= seq!['N', '/', 'A']);
}

/// The table has one row for each server, in the order of the list, and each row is the one that
/// its server has alone.
pub proof fn table_has_a_row_for_each_server(
    servers: &Vec<NtpServerInfo>,
    timezone: &str,
    rows: Vec<ServerRow>,
    i: int,
    alone: ServerRow,
)
    requires
        call_ensures(server_rows, (servers, timezone), rows),
        0 <= i < servers@.len(),
        call_ensures(server_row, (&servers@[i], timezone), alone),
    ensures
        rows@.len() == servers@.len(),
        rows@[i].is_row_of(servers@[i], timezone@),
        rows@[i].name@ == servers@[i].name@,
        rows@[i].name@ == alone.name@,
        rows@[i].ip@ == servers@[i].ip@,
        rows@[i].ip@ == alone.ip@,
        rows@[i].time_diff.text@ == alone.time_diff.text@,
        rows@[i].time_diff.color == alone.time_diff.color,
        rows@[i].stratum@ == alone.stratum@,
        rows@[i].drift == servers@[i].drift,
        rows@[i].drift == alone.drift,
        rows@[i].status.text@ == alone.status.text@,
        rows@[i].status.color == alone.status.color,
        servers@[i].current_time matches Some(time) ==> clock::is_zone_text(
            rows@[i].current_time@,
            time,
            timezone@,
        ),
        servers@[i].current_time is None ==> rows@[i].current_time@ == seq!['N', '/', 'A'],
{
    reveal_strlit("N/A");
    assert("N/A"@ =~= seq!['N', '/', 'A']);
    assert(rows@[i].is_row_of(servers@[i], timezone@));
}

/// The countdown shows how many seconds are missing from those gone by to the frequency; where
/// none are, the update is under way, and before the first one all is still starting.
pub proof fn countdown_shows_what_is_missing(
    elapsed: Option<u64>,
    frequency: u64,
    left: nat,
    r: String,
)
    requires
        call_ensures(countdown_label, (elapsed, frequency), r),
    ensures
        r@ == countdown_text(elapsed, frequency),
        elapsed matches Some(secs) ==> (left > 0 && secs + left == frequency ==> r@
            == "Next update in: "@ + number::decimal(left) + "s"@),
        elapsed matches Some(secs) ==> (secs >= frequency ==> r@ == "Updating..."@),
        elapsed is None ==> r@ == "Initializing..."@,
{
}

/// The labels hold what they are given, behind their own words.
pub proof fn labels_hold_what_they_show(
    timezone: &str,
    current_time: &str,
    seconds: u64,
    count: usize,
    clock_r: String,
    frequency_r: String,
    timezone_r: String,
    loaded_r: Option<String>,
)
    requires
        call_ensures(clock_label, (timezone, current_time), clock_r),
        call_ensures(frequency_label, (seconds,), frequency_r),
        call_ensures(timezone_label, (timezone,), timezone_r),
        call_ensures(loaded_label, (count,), loaded_r),
    ensures
        clock_r@ == "Current time ("@ + timezone@ + "): "@ + current_time@,
        frequency_r@ == "Current: Every "@ + number::decimal(seconds as nat) + " seconds"@,
        timezone_r@ == "Selected: "@ + timezone@,
        loaded_r is Some <==> count > 0,
        loaded_r matches Some(label) ==> label@ == "Loaded "@ + number::decimal(count as nat)
            + " servers from ntp_servers.ini"@,
{
    reveal_strlit("ntp_servers.ini");
    reveal_strlit(" servers from ");
    reveal_strlit(" servers from ntp_servers.ini");
    assert(" servers from ntp_servers.ini"@ =~= " servers from "@ + "ntp_servers.ini"@);
    let head = "Loaded "@ + number::decimal(count as nat);
    assert(head + (" servers from "@ + "ntp_servers.ini"@) =~= head + " servers from "@
        + "ntp_servers.ini"@);
}

/// The label of the current time shows the zone and what a clock in it shows now.
pub proof fn current_time_label_shows_its_zone(now: Timestamp, timezone: &str, r: String)
    requires
        call_ensures(current_time_label, (now, timezone), r),
    ensures
        exists|current_time: Seq<char>| #[trigger]
            clock::is_zone_text(current_time, now, timezone@) && r@ == "Current time ("@
                + timezone@ + "): "@ + current_time,
{
}

} // verus!
