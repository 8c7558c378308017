//! The servers under watch and what is known of them.

use vstd::prelude::*;

use crate::text;
use crate::text::{chars_of, line_list, string_of, trimmed};
use crate::time;
use crate::time::{TimeSpan, Timestamp};

verus! {

/// How far a server's clock moved against the local one: the distance between the two
/// changed from `last_diff` to `current_diff` while `elapsed` went by. The drift in parts per
/// million is the change of the distance, divided by the time gone by, times one million.
#[derive(Clone, Copy, Debug, PartialEq, Eq, Structural)]
pub struct Drift {
    pub current_diff: TimeSpan,
    pub last_diff: TimeSpan,
    pub elapsed: TimeSpan,
}

impl Drift {
    /// Some time went by, and all lengths of time are well-formed.
    pub open spec fn wf(self) -> bool {
        &&& self.current_diff.wf()
        &&& self.last_diff.wf()
        &&& self.elapsed.wf()
        &&& self.elapsed@ > 0
    }
}

/// A server and the outcome of the queries to it.
#[derive(Debug, PartialEq, Eq)]
pub struct NtpServerInfo {
    pub name: String,
    pub ip: String,
    pub current_time: Option<Timestamp>,
    pub time_diff: Option<TimeSpan>,
    pub stratum: Option<u8>,
    pub drift: Option<Drift>,
    pub last_updated: Option<Timestamp>,
    pub error: Option<String>,
}

/// How a query to a server ended: with the server's time and stratum, read when the local
/// clock stood at `local_time`, or with an error message.
#[derive(Debug, PartialEq, Eq)]
pub enum Reply {
    Answer { time: Timestamp, stratum: u8, local_time: Timestamp },
    Failure { message: String },
}

impl Reply {
    /// The times of an answer are well-formed.
    pub open spec fn wf(self) -> bool {
        match self {
            Reply::Answer { time, stratum, local_time } => time.wf() && local_time.wf(),
            Reply::Failure { message } => true,
        }
    }
}

impl NtpServerInfo {
    /// All points in time and lengths of time are well-formed.
    pub open spec fn wf(self) -> bool {
        &&& self.current_time matches Some(t) ==> t.wf()
        &&& self.time_diff matches Some(d) ==> d.wf()
        &&& self.drift matches Some(d) ==> d.wf()
        &&& self.last_updated matches Some(t) ==> t.wf()
    }

    /// Nothing is known but the name and the address.
    pub open spec fn is_fresh(self) -> bool {
        &&& self.current_time is None
        &&& self.time_diff is None
        &&& self.stratum is None
        &&& self.drift is None
        &&& self.last_updated is None
        &&& self.error is None
    }

    /// A server of which nothing is known yet, under `name`, at the address that looking it up
    /// gave, or at its name where the lookup gave none.
    pub open spec fn is_entry(self, name: Seq<char>, lookup: Option<String>) -> bool {
        &&& self.is_fresh()
        &&& self.name@ == name
        &&& self.ip@ == match lookup {
            Some(address) => address@,
            None => name,
        }
    }

    /// The drift after an answer at `local_time` that found the clocks `diff` apart. It is
    /// measured against the last answer, if that was the last outcome. Where no time has gone
    /// by since, it stays what it was.
    pub open spec fn next_drift(self, diff: TimeSpan, local_time: Timestamp) -> Option<Drift> {
        match (self.last_updated, self.time_diff) {
            (Some(last_time), Some(last_diff)) => if local_time@ > last_time@ {
                Some(
                    Drift {
                        current_diff: diff,
                        last_diff,
                        elapsed: time::span_of(local_time@ - last_time@),
                    },
                )
            } else {
                self.drift
            },
            _ => None,
        }
    }

    /// What is known of the server after `reply`.
    pub open spec fn after(self, reply: Reply) -> NtpServerInfo {
        match reply {
            Reply::Answer { time, stratum, local_time } => {
                let diff = time::span_of(time::gap(time, local_time));
                NtpServerInfo {
                    name: self.name,
                    ip: self.ip,
                    current_time: Some(time),
                    time_diff: Some(diff),
                    stratum: Some(stratum),
                    drift: self.next_drift(diff, local_time),
                    last_updated: Some(local_time),
                    error: None,
                }
            },
            Reply::Failure { message } => NtpServerInfo {
                current_time: None,
                time_diff: None,
                stratum: None,
                error: Some(message),
                ..self
            },
        }
    }

    /// A server under `name`, at the address `lookup`, or at its name without one.
    pub fn new(name: String, lookup: Option<String>) -> (r: NtpServerInfo)
        ensures
            r.is_entry(name@, lookup),
            r.wf(),
    {
        let ip: String = match lookup {
            Some(address) => address,
            None => name.clone(),
        };
        NtpServerInfo { name, ip, ..NtpServerInfo::default() }
    }

    /// The drift after an answer at `local_time` that found the clocks `diff` apart.
    fn measure_drift(&self, diff: TimeSpan, local_time: Timestamp) -> (r: Option<Drift>)
        requires
            self.wf(),
            diff.wf(),
            local_time.wf(),
        ensures
            r == self.next_drift(diff, local_time),
            r matches Some(d) ==> d.wf(),
    {
        match (self.last_updated, self.time_diff) {
            (Some(last_time), Some(last_diff)) => {
                match local_time.duration_since(&last_time) {
                    Some(elapsed) => {
                        if elapsed.is_positive() {
                            Some(Drift { current_diff: diff, last_diff, elapsed })
                        } else {
                            self.drift
                        }
                    },
                    None => self.drift,
                }
            },
            _ => None,
        }
    }

    /// Takes the outcome of a query in.
    pub fn record(&mut self, reply: Reply)
        requires
            old(self).wf(),
            reply.wf(),
        ensures
            *final(self) == old(self).after(reply),
            final(self).wf(),
    {
        match reply {
            Reply::Answer { time, stratum, local_time } => {
                let diff: TimeSpan = time.distance(&local_time);
                let drift: Option<Drift> = self.measure_drift(diff, local_time);
                self.current_time = Some(time);
                self.time_diff = Some(diff);
                self.stratum = Some(stratum);
                self.drift = drift;
                self.last_updated = Some(local_time);
                self.error = None;
            },
            Reply::Failure { message } => {
                self.error = Some(message);
                self.current_time = None;
                self.time_diff = None;
                self.stratum = None;
            },
        }
    }
}

impl Default for NtpServerInfo {
    /// A server without a name, without an address and without any outcome.
    fn default() -> (r: NtpServerInfo)
        ensures
            r.is_fresh(),
            r.wf(),
            r.name@ == Seq::<char>::empty(),
            r.ip@ == Seq::<char>::empty(),
    {
        NtpServerInfo {
            name: String::new(),
            ip: String::new(),
            current_time: None,
            time_diff: None,
            stratum: None,
            drift: None,
            last_updated: None,
            error: None,
        }
    }
}

impl Clone for NtpServerInfo {
    fn clone(&self) -> (r: NtpServerInfo)
        ensures
            r == *self,
    {
        let error: Option<String> = match &self.error {
            Some(message) => Some(message.clone()),
            None => None,
        };
        NtpServerInfo {
            name: self.name.clone(),
            ip: self.ip.clone(),
            current_time: self.current_time,
            time_diff: self.time_diff,
            stratum: self.stratum,
            drift: self.drift,
            last_updated: self.last_updated,
            error,
        }
    }
}

/// Every server of the list is well-formed.
pub open spec fn all_wf(servers: Seq<NtpServerInfo>) -> bool {
    forall|i: int| 0 <= i < servers.len() ==> (#[trigger] servers[i]).wf()
}

/// The names of the servers of a list.
pub open spec fn names(servers: Seq<NtpServerInfo>) -> Seq<Seq<char>> {
    servers.map_values(|s: NtpServerInfo| s.name@)
}

/// A list with one fresh server for each name, at the address that looking it up gave.
pub open spec fn are_entries(
    servers: Seq<NtpServerInfo>,
    names: Seq<Seq<char>>,
    lookups: Seq<Option<String>>,
) -> bool {
    &&& servers.len() == names.len() == lookups.len()
    &&& forall|i: int|
        0 <= i < servers.len() ==> (#[trigger] servers[i]).is_entry(names[i], lookups[i])
}

/// The servers that a user's input names: its lines, trimmed, without the empty ones.
pub open spec fn server_names(input: Seq<char>) -> Seq<Seq<char>> {
    text::lines(input).map_values(|line: Seq<char>| text::trim(line)).filter(
        |name: Seq<char>| name.len() > 0,
    )
}

/// The address of a host: the host itself where it is an IP address already, and the first
/// address that its lookup gave otherwise.
pub open spec fn resolved(
    hostname: Seq<char>,
    is_address: bool,
    found: Option<Seq<char>>,
) -> Option<Seq<char>> {
    if is_address {
        Some(hostname)
    } else {
        found
    }
}

/// The text that an optional string holds.
pub open spec fn text_of(s: Option<String>) -> Option<Seq<char>> {
    match s {
        Some(s) => Some(s@),
        None => None,
    }
}

/// The address of a host: the host itself where it is an IP address already, and the first
/// address that its lookup gave otherwise.
pub fn resolve_hostname(hostname: &str, is_address: bool, found: Option<String>) -> (r: Option<
    String,
>)
    ensures
        text_of(r) == resolved(hostname@, is_address, text_of(found)),
{
    if is_address {
        Some(hostname.to_string())
    } else {
        found
    }
}

/// What resolving a host gives is an IP address, if every address that a lookup gives is one,
/// and resolving it again gives it back, whatever a lookup would give then. `is_address` tells
/// the IP addresses from other texts.
pub proof fn resolving_settles(
    is_address: spec_fn(Seq<char>) -> bool,
    hostname: Seq<char>,
    found: Option<Seq<char>>,
    found_again: Option<Seq<char>>,
)
    requires
        found matches Some(address) ==> is_address(address),
    ensures
        resolved(hostname, is_address(hostname), found) matches Some(address) ==> {
            &&& is_address(address)
            &&& resolved(address, is_address(address), found_again) == Some(address)
        },
{
}

/// The servers that a user's input names.
pub fn parse_server_names(input: &str) -> (r: Vec<String>)
    ensures
        text::texts(r@) == server_names(input@),
{
    let chars = chars_of(input);
    let lines = line_list(&chars);
    let ghost all = text::lines(input@).map_values(|line: Seq<char>| text::trim(line));
    let ghost keep = |name: Seq<char>| name.len() > 0;
    let mut r: Vec<String> = Vec::new();
    assert(text::texts(r@) =~= all.take(0).filter(keep)) by {
        reveal(Seq::filter);
    }
    for i in 0..lines.len()
        invariant
            text::views(lines@) == text::lines(input@),
            all == text::lines(input@).map_values(|line: Seq<char>| text::trim(line)),
            keep == (|name: Seq<char>| name.len() > 0),
            text::texts(r@) == all.take(i as int).filter(keep),
    {
        let ghost before = r@;
        assert(lines@[i as int]@ == text::views(lines@)[i as int]);
        let name = trimmed(&lines[i]);
        assert(name@ == all[i as int]);
        assert(all.take(i + 1).drop_last() =~= all.take(i as int));
        if name.len() > 0 {
            r.push(string_of(name));
            assert(text::texts(r@) =~= text::texts(before).push(name@));
        }
        assert(text::texts(r@) == all.take(i + 1).filter(keep)) by {
            reveal(Seq::filter);
        }
    }
    assert(all.take(all.len() as int) =~= all);
    r
}

/// One fresh server for each of `names`, in their order.
pub fn server_list(names: Vec<String>, lookups: Vec<Option<String>>) -> (r: Vec<NtpServerInfo>)
    requires
        names@.len() == lookups@.len(),
    ensures
        are_entries(r@, text::texts(names@), lookups@),
        all_wf(r@),
{
    let mut r: Vec<NtpServerInfo> = Vec::new();
    for i in 0..names.len()
        invariant
            names@.len() == lookups@.len(),
            r@.len() == i,
            all_wf(r@),
            forall|j: int|
                0 <= j < i ==> (#[trigger] r@[j]).is_entry(text::texts(names@)[j], lookups@[j]),
    {
        let lookup: Option<String> = match &lookups[i] {
            Some(address) => Some(address.clone()),
            None => None,
        };
        r.push(NtpServerInfo::new(names[i].clone(), lookup));
    }
    r
}

/// Every name from a user's input is clean and not empty.
pub proof fn server_names_clean(input: Seq<char>, i: int)
    requires
        0 <= i < server_names(input).len(),
    ensures
        text::is_clean(server_names(input)[i]),
        server_names(input)[i].len() > 0,
{
    let lines = text::lines(input);
    let all = lines.map_values(|line: Seq<char>| text::trim(line));
    let keep = |name: Seq<char>| name.len() > 0;
    all.lemma_filter_pred(keep, i);
    let name = all.filter(keep)[i];
    assert(all.filter(keep).contains(name));
    all.lemma_filter_contains_rev(keep, name);
    let k = choose|k: int| 0 <= k < all.len() && all[k] == name;
    text::trimmed_line_clean(input, k);
}

/// A well-formed outcome leaves a well-formed server well-formed.
pub proof fn outcome_keeps_wf(server: NtpServerInfo, reply: Reply)
    requires
        server.wf(),
        reply.wf(),
    ensures
        server.after(reply).wf(),
{
}

/// A user's input names a server just if it holds more than white space.
pub proof fn input_names_server(input: Seq<char>)
    ensures
        server_names(input).len() > 0 <==> text::trim(input).len() > 0,
{
    let lines = text::lines(input);
    let all = lines.map_values(|line: Seq<char>| text::trim(line));
    let keep = |name: Seq<char>| name.len() > 0;
    text::trim_finds_ink(input);
    text::lines_keep_ink(input);
    if text::has_ink(input) {
        let k = choose|k: int| 0 <= k < lines.len() && text::has_ink(#[trigger] lines[k]);
        text::trim_finds_ink(lines[k]);
        assert(keep(all[k]));
        all.lemma_filter_contains(keep, k);
        assert(all.filter(keep).contains(all[k]));
    }
    if server_names(input).len() > 0 {
        let name = all.filter(keep)[0];
        all.lemma_filter_pred(keep, 0);
        assert(all.filter(keep).contains(name));
        all.lemma_filter_contains_rev(keep, name);
        let k = choose|k: int| 0 <= k < all.len() && all[k] == name;
        text::trim_finds_ink(lines[k]);
        assert(text::has_ink(lines[k]));
    }
}

/// No outcome of a query changes the name or the address of a server.
pub proof fn outcome_keeps_identity(server: NtpServerInfo, reply: Reply)
    ensures
        server.after(reply).name == server.name,
        server.after(reply).ip == server.ip,
{
}

/// A failure keeps the drift and the time of the last answer, and the answer after it has no
/// drift.
pub proof fn failure_breaks_drift(server: NtpServerInfo, failure: Reply, answer: Reply)
    requires
        failure is Failure,
        answer is Answer,
    ensures
        server.after(failure).drift == server.drift,
        server.after(failure).last_updated == server.last_updated,
        server.after(failure).after(answer).drift is None,
{
}

/// The first answer of a server has no drift.
pub proof fn first_answer_has_no_drift(server: NtpServerInfo, answer: Reply)
    requires
        server.is_fresh(),
        answer is Answer,
    ensures
        server.after(answer).drift is None,
{
}

/// Two answers in a row, with time gone by between them, give the drift between them.
pub proof fn two_answers_give_drift(server: NtpServerInfo, first: Reply, second: Reply)
    requires
        first.wf(),
        second.wf(),
        first is Answer,
        second is Answer,
        second->local_time@ > first->local_time@,
    ensures
        server.after(first).after(second).drift matches Some(drift) && {
            &&& drift.current_diff@ == time::gap(second->time, second->local_time)
            &&& drift.last_diff@ == time::gap(first->time, first->local_time)
            &&& drift.elapsed@ == second->local_time@ - first->local_time@
        },
{
}

/// After any answer, whatever was known before, a server has the time and the stratum of this
/// answer, the distance between this answer's time and the local clock at this answer, and no
/// error. Its name and its address stay.
pub proof fn answer_is_recorded(server: &mut NtpServerInfo, reply: Reply)
    requires
        call_ensures(NtpServerInfo::record, (server, reply), ()),
        reply.wf(),
        reply is Answer,
    ensures
        *final(server) == old(server).after(reply),
        final(server).current_time == Some(reply->time),
        final(server).stratum == Some(reply->stratum),
        final(server).last_updated == Some(reply->local_time),
        final(server).error is None,
        final(server).name == old(server).name,
        final(server).ip == old(server).ip,
        final(server).time_diff matches Some(diff) && {
            let time = reply->time.secs * 1_000_000_000 + reply->time.nanos;
            let local = reply->local_time.secs * 1_000_000_000 + reply->local_time.nanos;
            let distance = diff.secs * 1_000_000_000 + diff.nanos;
            &&& diff.nanos < 1_000_000_000
            &&& distance >= 0
            &&& time == local + distance || time == local - distance
        },
{
}

/// After an answer, a server has a drift measured against the last outcome, if that was an
/// answer too: the new distance of the clocks, the one that was known, and the time from the
/// last answer to this one. Where no time has gone by, the drift stays; without an answer right
/// before there is none.
pub proof fn answer_measures_drift(server: &mut NtpServerInfo, reply: Reply)
    requires
        call_ensures(NtpServerInfo::record, (server, reply), ()),
        reply.wf(),
        reply is Answer,
        old(server).wf(),
    ensures
        match (old(server).last_updated, old(server).time_diff) {
            (Some(last_time), Some(last_diff)) => {
                let gone_by = (reply->local_time.secs - last_time.secs) * 1_000_000_000
                    + reply->local_time.nanos - last_time.nanos;
                &&& gone_by > 0 ==> {
                    &&& final(server).drift matches Some(drift)
                    &&& Some(drift.current_diff) == final(server).time_diff
                    &&& drift.last_diff == last_diff
                    &&& drift.elapsed.secs * 1_000_000_000 + drift.elapsed.nanos == gone_by
                    &&& drift.elapsed.nanos < 1_000_000_000
                }
                &&& gone_by <= 0 ==> final(server).drift == old(server).drift
            },
            _ => final(server).drift is None,
        },
{
}

/// After a failure, a server has the message of this failure and neither a time nor a distance
/// nor a stratum. Its name, its address, its drift and the time of its last answer stay.
pub proof fn failure_is_recorded(server: &mut NtpServerInfo, reply: Reply)
    requires
        call_ensures(NtpServerInfo::record, (server, reply), ()),
        reply is Failure,
    ensures
        *final(server) == old(server).after(reply),
        final(server).error == Some(reply->message),
        final(server).current_time is None,
        final(server).time_diff is None,
        final(server).stratum is None,
        final(server).name == old(server).name,
        final(server).ip == old(server).ip,
        final(server).drift == old(server).drift,
        final(server).last_updated == old(server).last_updated,
{
}

/// Each name gets a server of its own, in the order of the names, at the address that was found
/// for it, or at its name where none was found. Nothing else is known of it.
pub proof fn each_name_gets_a_fresh_server(
    names: Vec<String>,
    lookups: Vec<Option<String>>,
    servers: Vec<NtpServerInfo>,
    i: int,
)
    requires
        call_ensures(server_list, (names, lookups), servers),
        0 <= i < names@.len(),
    ensures
        servers@.len() == names@.len(),
        servers@[i].name@ == names@[i]@,
        lookups@[i] matches Some(address) ==> servers@[i].ip@ == address@,
        lookups@[i] is None ==> servers@[i].ip@ == names@[i]@,
        servers@[i].current_time is None,
        servers@[i].time_diff is None,
        servers@[i].stratum is None,
        servers@[i].drift is None,
        servers@[i].last_updated is None,
        servers@[i].error is None,
{
    assert(text::texts(names@)[i] == names@[i]@);
    assert(servers@[i].is_entry(text::texts(names@)[i], lookups@[i]));
}

/// What entries are: one fresh server for each name, in order.
pub proof fn entries_are_fresh(
    servers: Seq<NtpServerInfo>,
    names: Seq<Seq<char>>,
    lookups: Seq<Option<String>>,
    i: int,
)
    requires
        are_entries(servers, names, lookups),
        0 <= i < servers.len(),
    ensures
        servers.len() == names.len(),
        servers[i].name@ == names[i],
        lookups[i] matches Some(address) ==> servers[i].ip@ == address@,
        lookups[i] is None ==> servers[i].ip@ == names[i],
        servers[i].current_time is None,
        servers[i].time_diff is None,
        servers[i].stratum is None,
        servers[i].drift is None,
        servers[i].last_updated is None,
        servers[i].error is None,
{
    assert(servers[i].is_entry(names[i], lookups[i]));
}

/// A host that is an address already is its own address, whatever a lookup would find; any other
/// has the address that its lookup found, if it found one.
pub proof fn lookup_counts_for_names_only(
    hostname: &str,
    is_address: bool,
    found: Option<String>,
    r: Option<String>,
)
    requires
        call_ensures(resolve_hostname, (hostname, is_address, found), r),
    ensures
        is_address ==> (r matches Some(address) && address@ == hostname@),
        !is_address ==> (r is Some <==> found is Some),
        !is_address ==> (r matches Some(address) ==> address@ == found->0@),
        text_of(r) == resolved(hostname@, is_address, text_of(found)),
{
}

/// A copy of a server knows all that the server knows.
pub proof fn clone_keeps_everything(server: &NtpServerInfo, copy: NtpServerInfo)
    requires
        call_ensures(NtpServerInfo::clone, (server,), copy),
    ensures
        copy == *server,
{
}

proof fn lemma_filter_names(a: Seq<Seq<char>>, b: Seq<Seq<char>>)
    ensures
        (a + b).filter(|name: Seq<char>| name.len() > 0) == a.filter(
            |name: Seq<char>| name.len() > 0,
        ) + b.filter(|name: Seq<char>| name.len() > 0),
{
    Seq::filter_distributes_over_add(a, b, |name: Seq<char>| name.len() > 0);
}

proof fn lemma_names_of_first_line(line: Seq<char>, rest: Seq<char>)
    requires
        !line.contains('\n'),
    ensures
        server_names(line + seq!['\n'] + rest) == if text::trim(line).len() > 0 {
            seq![text::trim(line)] + server_names(rest)
        } else {
            server_names(rest)
        },
{
    let keep = |name: Seq<char>| name.len() > 0;
    let clip = |line: Seq<char>| text::trim(line);
    let all = text::lines(line + seq!['\n'] + rest);
    let first = seq![text::trim(line)];
    let others = text::lines(rest).map_values(clip);
    text::ended_line_comes_first(line, rest);
    text::trim_ignores_return(line);
    assert(all.map_values(clip) =~= first + others);
    lemma_filter_names(first, others);
    reveal_with_fuel(Seq::filter, 2);
    assert(first.drop_last() =~= seq![]);
    if text::trim(line).len() > 0 {
        assert(first.filter(keep) =~= first);
    } else {
        assert(first.filter(keep) =~= seq![]);
        assert(first.filter(keep) + others.filter(keep) =~= others.filter(keep));
    }
}

/// A line of a user's input names one server, without the white space around the name; a blank
/// line names none. The servers of the lines behind it follow in their order.
pub proof fn each_line_names_one_server(
    before: Seq<char>,
    name: Seq<char>,
    after: Seq<char>,
    rest: Seq<char>,
)
    requires
        text::is_blank(before),
        text::is_blank(after),
        !before.contains('\n'),
        !name.contains('\n'),
        !after.contains('\n'),
        name.len() > 0 ==> !text::is_white_space(name[0]) && !text::is_white_space(name.last()),
    ensures
        name.len() > 0 ==> server_names(before + name + after + seq!['\n'] + rest) == seq![name]
            + server_names(rest),
        name.len() == 0 ==> server_names(before + name + after + seq!['\n'] + rest)
            == server_names(rest),
        name.len() > 0 ==> server_names(before + name + after) == seq![name],
        server_names(seq![]) == Seq::<Seq<char>>::empty(),
{
    let line = before + name + after;
    assert forall|i: int| 0 <= i < line.len() implies line[i] != '\n' by {
        if i < before.len() {
            assert(before.contains(line[i]));
        } else if i < before.len() + name.len() {
            assert(name.contains(line[i]));
        } else {
            assert(after.contains(line[i]));
        }
    }
    text::trim_takes_white_space_off(before, name, after);
    lemma_names_of_first_line(line, rest);
    text::last_line_needs_no_feed(line);
    reveal_with_fuel(Seq::filter, 2);
    let clip = |line: Seq<char>| text::trim(line);
    assert(text::lines(seq![]).map_values(clip) =~= seq![]);
    assert(server_names(seq![]) =~= seq![]);
    if name.len() > 0 {
        assert(text::lines(line).map_values(clip) =~= seq![name]);
        assert(seq![name].drop_last() =~= seq![]);
        assert(server_names(line) =~= seq![name]);
    }
}

/// The names that are read from a user's input are those that it names, in their order.
pub proof fn names_are_read_in_order(input: &str, r: Vec<String>, i: int)
    requires
        call_ensures(parse_server_names, (input,), r),
        0 <= i < r@.len(),
    ensures
        r@.len() == server_names(input@).len(),
        r@[i]@ == server_names(input@)[i],
{
    assert(text::texts(r@)[i] == r@[i]@);
}

/// A new server has the name that it is given, the address that was found or else its name, and
/// nothing is known of it.
pub proof fn new_server_has_name_and_address_only(
    name: String,
    lookup: Option<String>,
    server: NtpServerInfo,
)
    requires
        call_ensures(NtpServerInfo::new, (name, lookup), server),
    ensures
        server.name@ == name@,
        lookup matches Some(address) ==> server.ip@ == address@,
        lookup is None ==> server.ip@ == name@,
        server.current_time is None,
        server.time_diff is None,
        server.stratum is None,
        server.drift is None,
        server.last_updated is None,
        server.error is None,
{
}

} // verus!
