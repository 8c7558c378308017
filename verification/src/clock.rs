//! Points in time as a clock in some time zone shows them.

use chrono::{DateTime, FixedOffset, Local, Utc};
use vstd::prelude::*;
use vstd::string::StringExecFns;

use crate::calendar;
use crate::number::push_two_digits;
use crate::text;
use crate::text::{chars_of, same_text};
use crate::time::Timestamp;

verus! {

/// The format of a date and a time of day.
pub const DATE_TIME_FORMAT: &'static str = "%Y-%m-%d %H:%M:%S";

/// A format that `DATE_TIME_FORMAT` starts, and whose rest is plain text or the name of
/// the zone.
pub open spec fn is_clock_format(format: Seq<char>) -> bool {
    let rest = format.skip(DATE_TIME_FORMAT@.len() as int);
    &&& DATE_TIME_FORMAT@.is_prefix_of(format)
    &&& rest == " %Z"@ || !rest.contains('%')
}

/// What the rest of a clock format turns into at the offset `east`.
pub open spec fn rest_text(rest: Seq<char>, east: int) -> Seq<char> {
    if rest == " %Z"@ {
        seq![' '] + calendar::offset_text(east)
    } else {
        rest
    }
}

/// The offset from UTC that the name of a time zone stands for, in seconds to the east.
/// `local` is the offset of the machine's own zone; an unknown name means UTC.
pub open spec fn zone_offset(timezone: Seq<char>, local: int) -> int {
    if timezone == "Local"@ {
        local
    } else if timezone == "EST"@ {
        -5 * 3600int
    } else if timezone == "PST"@ {
        -8 * 3600int
    } else if timezone == "MST"@ {
        -7 * 3600int
    } else if timezone == "CST"@ {
        -6 * 3600int
    } else if timezone == "CET"@ {
        3600
    } else if timezone == "JST"@ {
        9 * 3600int
    } else {
        0
    }
}

/// Tells whether a time zone is shown under its own name.
pub open spec fn has_label(timezone: Seq<char>) -> bool {
    ||| timezone == "EST"@
    ||| timezone == "PST"@
    ||| timezone == "MST"@
    ||| timezone == "CST"@
    ||| timezone == "GMT"@
    ||| timezone == "CET"@
    ||| timezone == "JST"@
}

/// What a clock shows behind the time: the offset for the machine's own zone, the name of
/// the zone where it is known, and `UTC` otherwise.
pub open spec fn zone_label(timezone: Seq<char>, local: int) -> Seq<char> {
    if timezone == "Local"@ {
        calendar::offset_text(local)
    } else if has_label(timezone) {
        timezone
    } else {
        "UTC"@
    }
}

/// What a clock in the zone `timezone` shows at `time`; `local` is the offset of the
/// machine's own zone.
pub open spec fn zone_text(time: Timestamp, timezone: Seq<char>, local: int) -> Seq<char> {
    if time.secs >= 0 && calendar::in_calendar(time.secs as int) {
        calendar::clock_text(time.secs + zone_offset(timezone, local)) + seq![' '] + zone_label(
            timezone,
            local,
        )
    } else {
        "Invalid"@
    }
}

/// A number of seconds by which a time zone can differ from UTC.
pub open spec fn is_offset(east: int) -> bool {
    -calendar::SECONDS_PER_DAY < east < calendar::SECONDS_PER_DAY
}

/// The names of the time zones on offer.
pub open spec fn common_timezones() -> Seq<Seq<char>> {
    seq!["UTC"@, "Local"@, "GMT"@, "EST"@, "CST"@, "MST"@, "PST"@, "CET"@, "JST"@]
}

/// Formats the second `timestamp` after the epoch by `chrono::DateTime::format`, at the
/// offset `east` that `with_timezone` and `FixedOffset::east_opt` give it.
///
/// Claimed: `DateTime::from_timestamp` has a value for the timestamps of the years that chrono
/// supports and for no others; `%Y`, `%m`, `%d`, `%H`, `%M` and `%S` give the date of the
/// Gregorian calendar and the time of day at the offset; `%Z` gives the offset itself; text
/// without a percent sign stands for itself.
#[verifier::external_body]
fn format_at_offset(timestamp: i64, east: i32, format: &str) -> (r: Option<String>)
    requires
        is_offset(east as int),
        is_clock_format(format@),
    ensures
        r is Some <==> calendar::in_calendar(timestamp as int),
        r matches Some(s) ==> s@ == calendar::clock_text(timestamp + east) + rest_text(
            format@.skip(DATE_TIME_FORMAT@.len() as int),
            east as int,
        ),
{
    let utc = DateTime::<Utc>::from_timestamp(timestamp, 0)?;
    let offset = FixedOffset::east_opt(east)?;
    Some(utc.with_timezone(&offset).format(format).to_string())
}

/// The offset of the machine's own time zone at the second `timestamp` after the epoch, in
/// seconds to the east, as `with_timezone(&chrono::Local)` finds it.
///
/// Claimed: `DateTime::from_timestamp` has a value for the timestamps of the years that chrono
/// supports and for no others, and an offset stays below one day. Which offset it is depends on
/// the machine; one whose zone data holds an offset of a day or more makes chrono panic at any
/// timestamp that the data applies to.
#[verifier::external_body]
fn local_offset_at(timestamp: i64) -> (r: Option<i32>)
    ensures
        r is Some <==> calendar::in_calendar(timestamp as int),
        r matches Some(east) ==> is_offset(east as int),
{
    let utc = DateTime::<Utc>::from_timestamp(timestamp, 0)?;
    Some(utc.with_timezone(&Local).offset().local_minus_utc())
}

/// The offset of a time zone and the rest of its clock format.
fn zone_parts(timezone: &str, local_offset: i32) -> (r: (i32, &'static str))
    requires
        is_offset(local_offset as int),
    ensures
        is_offset(r.0 as int),
        r.0 == zone_offset(timezone@, local_offset as int),
        r.1@ == " %Z"@ || !r.1@.contains('%'),
        rest_text(r.1@, r.0 as int) == seq![' '] + zone_label(timezone@, local_offset as int),
{
    let name = chars_of(timezone);
    proof {
        reveal_strlit(" %Z");
        reveal_strlit("Local");
        reveal_strlit("UTC");
        reveal_strlit("EST");
        reveal_strlit("PST");
        reveal_strlit("MST");
        reveal_strlit("CST");
        reveal_strlit("GMT");
        reveal_strlit("CET");
        reveal_strlit("JST");
        reveal_strlit(" UTC");
        reveal_strlit(" EST");
        reveal_strlit(" PST");
        reveal_strlit(" MST");
        reveal_strlit(" CST");
        reveal_strlit(" GMT");
        reveal_strlit(" CET");
        reveal_strlit(" JST");
        assert(" UTC"@ =~= seq![' '] + "UTC"@);
        assert(" EST"@ =~= seq![' '] + "EST"@);
        assert(" PST"@ =~= seq![' '] + "PST"@);
        assert(" MST"@ =~= seq![' '] + "MST"@);
        assert(" CST"@ =~= seq![' '] + "CST"@);
        assert(" GMT"@ =~= seq![' '] + "GMT"@);
        assert(" CET"@ =~= seq![' '] + "CET"@);
        assert(" JST"@ =~= seq![' '] + "JST"@);
    }
    if same_text(&name, "Local") {
        (local_offset, " %Z")
    } else if same_text(&name, "EST") {
        (-5 * 3600, " EST")
    } else if same_text(&name, "PST") {
        (-8 * 3600, " PST")
    } else if same_text(&name, "MST") {
        (-7 * 3600, " MST")
    } else if same_text(&name, "CST") {
        (-6 * 3600, " CST")
    } else if same_text(&name, "GMT") {
        assert("GMT"@[0] != "CET"@[0] && "GMT"@[0] != "JST"@[0]);
        (0, " GMT")
    } else if same_text(&name, "CET") {
        (3600, " CET")
    } else if same_text(&name, "JST") {
        (9 * 3600, " JST")
    } else {
        (0, " UTC")
    }
}

/// What a clock in the zone `timezone` shows at `time`, where the machine's own zone lies
/// `local_offset` seconds east of UTC.
pub fn format_in_zone(time: Timestamp, timezone: &str, local_offset: i32) -> (r: String)
    requires
        time.wf(),
        is_offset(local_offset as int),
    ensures
        r@ == zone_text(time, timezone@, local_offset as int),
{
    match time.since_epoch() {
        Some(span) => {
            let timestamp: i64 = span.secs as i64;
            let (east, rest) = zone_parts(timezone, local_offset);
            let mut format: String = DATE_TIME_FORMAT.to_string();
            format.append(rest);
            assert(format@.skip(DATE_TIME_FORMAT@.len() as int) =~= rest@);
            match format_at_offset(timestamp, east, format.as_str()) {
                Some(s) => {
                    assert(s@ =~= zone_text(time, timezone@, local_offset as int));
                    s
                },
                None => "Invalid".to_string(),
            }
        },
        None => "Invalid".to_string(),
    }
}

/// Tells whether `east` is an offset that the machine can give for its own zone when it is
/// asked for the second `timestamp` after the epoch.
pub closed spec fn is_local_offset(timestamp: i64, east: i32) -> bool {
    call_ensures(local_offset_at, (timestamp,), Some(east))
}

/// Tells whether `s` is what a clock in the zone `timezone` shows at `time`. For the zone
/// `Local` that takes the offset which the machine gives for this very second.
pub open spec fn is_zone_text(s: Seq<char>, time: Timestamp, timezone: Seq<char>) -> bool {
    if timezone == "Local"@ && time.secs >= 0 && calendar::in_calendar(time.secs as int) {
        exists|east: i32|
            #![trigger is_local_offset(time.secs, east)]
            is_local_offset(time.secs, east) && is_offset(east as int) && s == zone_text(
                time,
                timezone,
                east as int,
            )
    } else {
        s == zone_text(time, timezone, 0)
    }
}

/// What a clock in the zone `timezone` shows at `time`. For the zone `Local` that depends on
/// the machine's own time zone.
pub fn format_system_time_with_timezone(time: Timestamp, timezone: &str) -> (r: String)
    requires
        time.wf(),
    ensures
        is_zone_text(r@, time, timezone@),
{
    let name = chars_of(timezone);
    let mut local_offset: i32 = 0;
    if time.secs >= 0 && same_text(&name, "Local") {
        if let Some(east) = local_offset_at(time.secs) {
            assert(is_local_offset(time.secs, east));
            local_offset = east;
        }
    }
    format_in_zone(time, timezone, local_offset)
}

proof fn lemma_time_of_day(secs: int)
    requires
        secs >= 0,
    ensures
        secs / 3600 % 24 == secs % 86_400 / 3600,
        secs % 3600 == secs % 86_400 % 3600,
        secs % 60 == secs % 86_400 % 60,
{
    let day = secs / 86_400;
    let rest = secs % 86_400;
    let hour = rest / 3600;
    assert(secs == 86_400 * day + rest);
    assert(secs / 3600 == 24 * day + hour);
    assert((24 * day + hour) % 24 == hour);
}

/// The time of day in UTC at `time`.
pub fn format_system_time(time: Timestamp) -> (r: String)
    requires
        time.wf(),
    ensures
        r@ == if time.secs >= 0 {
            calendar::time_text(time.secs as int % calendar::SECONDS_PER_DAY as int)
        } else {
            "Invalid"@
        },
{
    match time.since_epoch() {
        Some(span) => {
            let secs: u64 = span.secs;
            let hours: u64 = (secs / 3600) % 24;
            let minutes: u64 = (secs % 3600) / 60;
            let seconds: u64 = secs % 60;
            proof {
                lemma_time_of_day(secs as int);
            }
            let mut r: String = String::new();
            push_two_digits(&mut r, hours);
            r.push(':');
            push_two_digits(&mut r, minutes);
            r.push(':');
            push_two_digits(&mut r, seconds);
            assert(r@ =~= calendar::time_text(
                time.secs as int % calendar::SECONDS_PER_DAY as int,
            ));
            r
        },
        None => "Invalid".to_string(),
    }
}

/// The names of the time zones on offer.
pub fn get_common_timezones() -> (r: Vec<String>)
    ensures
        text::texts(r@) == common_timezones(),
{
    let r: Vec<String> = vec![
        "UTC".to_string(),
        "Local".to_string(),
        "GMT".to_string(),
        "EST".to_string(),
        "CST".to_string(),
        "MST".to_string(),
        "PST".to_string(),
        "CET".to_string(),
        "JST".to_string(),
    ];
    assert(text::texts(r@) =~= common_timezones());
    r
}

/// The text for UTC is the date, the time of day that `format_system_time` gives, and the
/// name of the zone.
pub proof fn utc_text_holds_time_of_day(time: Timestamp, local: int)
    requires
        time.secs >= 0,
        calendar::in_calendar(time.secs as int),
    ensures
        zone_text(time, "UTC"@, local) == calendar::date_text(
            calendar::civil_date(time.secs as int / calendar::SECONDS_PER_DAY as int),
        ) + seq![' '] + calendar::time_text(time.secs as int % calendar::SECONDS_PER_DAY as int)
            + seq![' '] + "UTC"@,
{
    lemma_zone_names();
}

/// A name that is not on offer is shown as UTC is.
pub proof fn unknown_timezone_is_utc(time: Timestamp, timezone: Seq<char>, local: int)
    requires
        !common_timezones().contains(timezone),
    ensures
        zone_text(time, timezone, local) == zone_text(time, "UTC"@, local),
{
    lemma_zone_names();
    let names = common_timezones();
    assert forall|i: int| 0 <= i < names.len() implies timezone != #[trigger] names[i] by {
        assert(names.contains(names[i]));
    }
    assert(timezone != names[1] && timezone != names[2] && timezone != names[3] && timezone
        != names[4] && timezone != names[5] && timezone != names[6] && timezone != names[7]
        && timezone != names[8]);
}

/// The zones on offer have different names, and a settings file can carry each of them.
pub proof fn common_timezones_distinct()
    ensures
        common_timezones().no_duplicates(),
        forall|i: int|
            0 <= i < common_timezones().len() ==> text::is_clean(#[trigger] common_timezones()[i]),
{
    lemma_zone_names();
    let names = common_timezones();
    assert forall|i: int| 0 <= i < names.len() implies text::is_clean(#[trigger] names[i]) by {
        text::lemma_trim_fixed(names[i]);
    }
}

/// At one offset, no two seconds that a clock can show give the same text.
#[verifier::spinoff_prover]
pub proof fn zone_text_determines_second(a: Timestamp, b: Timestamp, timezone: Seq<char>, local: int)
    requires
        a.secs >= 0,
        b.secs >= 0,
        calendar::in_calendar(a.secs as int),
        calendar::in_calendar(b.secs as int),
        zone_text(a, timezone, local) == zone_text(b, timezone, local),
    ensures
        a.secs == b.secs,
{
    let east = zone_offset(timezone, local);
    let label = seq![' '] + zone_label(timezone, local);
    let first = calendar::clock_text(a.secs + east);
    let second = calendar::clock_text(b.secs + east);
    assert(zone_text(a, timezone, local) =~= first + label);
    assert(zone_text(b, timezone, local) =~= second + label);
    calendar::lemma_parts(first, label, second, label);
    calendar::clock_text_determines_second(a.secs + east, b.secs + east);
}

proof fn lemma_zone_names()
    ensures
        common_timezones().no_duplicates(),
        "UTC"@.len() == 3,
        forall|i: int, j: int|
            0 <= i < common_timezones().len() && 0 <= j < common_timezones()[i].len() ==> 'A'
                <= #[trigger] common_timezones()[i][j] <= 'z',
        forall|i: int| 0 <= i < common_timezones().len() ==> #[trigger] common_timezones()[i].len() > 0,
{
    reveal_strlit("Local");
    reveal_strlit("UTC");
    reveal_strlit("EST");
    reveal_strlit("PST");
    reveal_strlit("MST");
    reveal_strlit("CST");
    reveal_strlit("GMT");
    reveal_strlit("CET");
    reveal_strlit("JST");
    let names = common_timezones();
    assert forall|i: int, j: int| 0 <= i < j < names.len() implies names[i] != names[j] by {
        assert(names[i].len() != names[j].len() || names[i][0] != names[j][0] || names[i][1]
            != names[j][1]);
    }
}

proof fn lemma_spaced_names()
    ensures
        " UTC"@ == seq![' '] + "UTC"@,
        " GMT"@ == seq![' '] + "GMT"@,
        " EST"@ == seq![' '] + "EST"@,
        " CST"@ == seq![' '] + "CST"@,
        " MST"@ == seq![' '] + "MST"@,
        " PST"@ == seq![' '] + "PST"@,
        " CET"@ == seq![' '] + "CET"@,
        " JST"@ == seq![' '] + "JST"@,
{
    reveal_strlit(" UTC");
    reveal_strlit("UTC");
    reveal_strlit(" GMT");
    reveal_strlit("GMT");
    reveal_strlit(" EST");
    reveal_strlit("EST");
    reveal_strlit(" CST");
    reveal_strlit("CST");
    reveal_strlit(" MST");
    reveal_strlit("MST");
    reveal_strlit(" PST");
    reveal_strlit("PST");
    reveal_strlit(" CET");
    reveal_strlit("CET");
    reveal_strlit(" JST");
    reveal_strlit("JST");
    assert(" UTC"@ =~= seq![' '] + "UTC"@);
    assert(" GMT"@ =~= seq![' '] + "GMT"@);
    assert(" EST"@ =~= seq![' '] + "EST"@);
    assert(" CST"@ =~= seq![' '] + "CST"@);
    assert(" MST"@ =~= seq![' '] + "MST"@);
    assert(" PST"@ =~= seq![' '] + "PST"@);
    assert(" CET"@ =~= seq![' '] + "CET"@);
    assert(" JST"@ =~= seq![' '] + "JST"@);
}

proof fn lemma_zone_places(local: int)
    ensures
        zone_offset("UTC"@, local) == 0,
        zone_offset("GMT"@, local) == 0,
        zone_offset("EST"@, local) == -18_000,
        zone_offset("CST"@, local) == -21_600,
        zone_offset("MST"@, local) == -25_200,
        zone_offset("PST"@, local) == -28_800,
        zone_offset("CET"@, local) == 3_600,
        zone_offset("JST"@, local) == 32_400,
        zone_label("UTC"@, local) == "UTC"@,
        zone_label("GMT"@, local) == "GMT"@,
        zone_label("EST"@, local) == "EST"@,
        zone_label("CST"@, local) == "CST"@,
        zone_label("MST"@, local) == "MST"@,
        zone_label("PST"@, local) == "PST"@,
        zone_label("CET"@, local) == "CET"@,
        zone_label("JST"@, local) == "JST"@,
{
    lemma_zone_names();
    let names = common_timezones();
    assert(names[0] == "UTC"@ && names[1] == "Local"@ && names[2] == "GMT"@);
    assert(names[3] == "EST"@ && names[4] == "CST"@ && names[5] == "MST"@);
    assert(names[6] == "PST"@ && names[7] == "CET"@ && names[8] == "JST"@);
}

proof fn lemma_zone_text(time: Timestamp, timezone: Seq<char>, local: int, label: Seq<char>)
    requires
        time.secs >= 0,
        calendar::in_calendar(time.secs as int),
        label == seq![' '] + zone_label(timezone, local),
    ensures
        zone_text(time, timezone, local) == calendar::clock_text(
            time.secs + zone_offset(timezone, local),
        ) + label,
{
    let clock = calendar::clock_text(time.secs + zone_offset(timezone, local));
    assert(clock + seq![' '] + zone_label(timezone, local) =~= clock + label);
}

/// From the epoch to the end of the year 262142, a clock in each zone shows the date and the
/// time of day so many hours away from UTC as the zone lies, and then the name of the zone. The
/// machine's own zone is shown by its offset, and a zone that is not known is UTC. No other time
/// is shown.
#[verifier::spinoff_prover]
pub proof fn zones_lie_at_their_hours(time: Timestamp, local: int, other: Seq<char>)
    requires
        !common_timezones().contains(other),
    ensures
        0 <= time.secs < 8_210_266_876_800 ==> {
            let secs = time.secs as int;
            &&& zone_text(time, "UTC"@, local) == calendar::clock_text(secs) + " UTC"@
            &&& zone_text(time, "GMT"@, local) == calendar::clock_text(secs) + " GMT"@
            &&& zone_text(time, "EST"@, local) == calendar::clock_text(secs - 18_000) + " EST"@
            &&& zone_text(time, "CST"@, local) == calendar::clock_text(secs - 21_600) + " CST"@
            &&& zone_text(time, "MST"@, local) == calendar::clock_text(secs - 25_200) + " MST"@
            &&& zone_text(time, "PST"@, local) == calendar::clock_text(secs - 28_800) + " PST"@
            &&& zone_text(time, "CET"@, local) == calendar::clock_text(secs + 3_600) + " CET"@
            &&& zone_text(time, "JST"@, local) == calendar::clock_text(secs + 32_400) + " JST"@
            &&& zone_text(time, "Local"@, local) == calendar::clock_text(secs + local) + seq![' ']
                + calendar::offset_text(local)
            &&& zone_text(time, other, local) == calendar::clock_text(secs) + " UTC"@
        },
        time.secs < 0 || time.secs >= 8_210_266_876_800 ==> {
            &&& zone_text(time, "UTC"@, local) == "Invalid"@
            &&& zone_text(time, "Local"@, local) == "Invalid"@
            &&& zone_text(time, other, local) == "Invalid"@
        },
{
    lemma_zone_names();
    lemma_zone_places(local);
    lemma_spaced_names();
    unknown_timezone_is_utc(time, other, local);
    if time.secs >= 0 {
        calendar::clock_ends_with_its_last_year(time.secs as int);
    }
    if 0 <= time.secs < 8_210_266_876_800 {
        lemma_zone_text(time, "UTC"@, local, " UTC"@);
        lemma_zone_text(time, "GMT"@, local, " GMT"@);
        lemma_zone_text(time, "EST"@, local, " EST"@);
        lemma_zone_text(time, "CST"@, local, " CST"@);
        lemma_zone_text(time, "MST"@, local, " MST"@);
        lemma_zone_text(time, "PST"@, local, " PST"@);
        lemma_zone_text(time, "CET"@, local, " CET"@);
        lemma_zone_text(time, "JST"@, local, " JST"@);
    }
}

/// What is formatted is the text of the zone: for the machine's own zone with an offset that the
/// machine gives for this very second, and for every other zone whatever that offset is.
pub proof fn formatting_gives_the_text_of_the_zone(
    time: Timestamp,
    timezone: &str,
    r: String,
    local_offset: i32,
    given: String,
)
    requires
        call_ensures(format_system_time_with_timezone, (time, timezone), r),
        call_ensures(format_in_zone, (time, timezone, local_offset), given),
    ensures
        is_zone_text(r@, time, timezone@),
        given@ == zone_text(time, timezone@, local_offset as int),
        timezone@ != "Local"@ ==> r@ == given@,
        time.secs < 0 || time.secs >= 8_210_266_876_800 ==> r@ == "Invalid"@ && given@
            == "Invalid"@,
        timezone@ == "Local"@ && 0 <= time.secs < 8_210_266_876_800 ==> exists|east: i32|
            #![trigger is_local_offset(time.secs, east)]
            is_local_offset(time.secs, east) && -86_400 < east < 86_400 && r@
                == calendar::clock_text(time.secs + east) + seq![' '] + calendar::offset_text(
                east as int,
            ),
{
    if time.secs >= 0 {
        calendar::clock_ends_with_its_last_year(time.secs as int);
    }
}

/// The text of a zone at a time is nothing but what is formatted for it.
pub proof fn zone_text_is_that_of_its_offset(s: Seq<char>, time: Timestamp, timezone: Seq<char>)
    requires
        is_zone_text(s, time, timezone),
    ensures
        timezone != "Local"@ ==> s == zone_text(time, timezone, 0),
        timezone == "Local"@ && 0 <= time.secs < 8_210_266_876_800 ==> exists|east: i32|
            #![trigger is_local_offset(time.secs, east)]
            is_local_offset(time.secs, east) && -86_400 < east < 86_400 && s
                == calendar::clock_text(time.secs + east) + seq![' '] + calendar::offset_text(
                east as int,
            ),
        time.secs < 0 || time.secs >= 8_210_266_876_800 ==> s == "Invalid"@,
{
    if time.secs >= 0 {
        calendar::clock_ends_with_its_last_year(time.secs as int);
    }
}

/// The time of day is that of UTC: two digits each for the hours, minutes and seconds that have
/// gone by since midnight. A time before the epoch has none.
pub proof fn time_of_day_counts_from_midnight(time: Timestamp, day: int, r: String)
    requires
        call_ensures(format_system_time, (time,), r),
    ensures
        time.secs < 0 ==> r@ == "Invalid"@,
        time.secs >= 0 && 0 <= time.secs - 86_400 * day < 86_400 ==> {
            &&& r@.len() == 8
            &&& r@[2] == ':' && r@[5] == ':'
            &&& calendar::pair_at(r@, 0) * 3600 + calendar::pair_at(r@, 3) * 60
                + calendar::pair_at(r@, 6) == time.secs - 86_400 * day
            &&& 0 <= calendar::pair_at(r@, 3) < 60
            &&& 0 <= calendar::pair_at(r@, 6) < 60
        },
{
    if time.secs >= 0 && 0 <= time.secs - 86_400 * day < 86_400 {
        let seconds = time.secs - 86_400 * day;
        assert(time.secs as int % 86_400 == seconds);
        calendar::time_of_day_is_spelled_out(seconds);
    }
}

/// The zones on offer, in their order.
pub proof fn nine_zones_are_on_offer(zones: Vec<String>)
    requires
        call_ensures(get_common_timezones, (), zones),
    ensures
        zones@.len() == 9,
        zones@[0]@ == "UTC"@,
        zones@[1]@ == "Local"@,
        zones@[2]@ == "GMT"@,
        zones@[3]@ == "EST"@,
        zones@[4]@ == "CST"@,
        zones@[5]@ == "MST"@,
        zones@[6]@ == "PST"@,
        zones@[7]@ == "CET"@,
        zones@[8]@ == "JST"@,
{
    let names = text::texts(zones@);
    assert(names.len() == zones@.len());
    assert(names[0] == zones@[0]@ && names[1] == zones@[1]@ && names[2] == zones@[2]@);
    assert(names[3] == zones@[3]@ && names[4] == zones@[4]@ && names[5] == zones@[5]@);
    assert(names[6] == zones@[6]@ && names[7] == zones@[7]@ && names[8] == zones@[8]@);
}

/// The offset of the machine's own zone is the one that is asked for at this second, and at no
/// other.
proof fn local_offset_is_asked_for_its_second(timestamp: i64, east: i32)
    ensures
        is_local_offset(timestamp, east) <==> call_ensures(
            local_offset_at,
            (timestamp,),
            Some(east),
        ),
{
}

} // verus!
