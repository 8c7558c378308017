//! The task in the background that asks the servers round by round.

use vstd::prelude::*;

use crate::server;
use crate::server::{NtpServerInfo, Reply};

verus! {

/// The most milliseconds between two looks at the stop flag while the task sleeps.
pub const CHECK_INTERVAL_MILLIS: u64 = 500;

/// How far the task has come.
pub enum StageModel {
    /// Before a round: the stop flag is being read.
    RoundCheck,
    /// The list of servers is being read.
    Snapshot,
    /// Before the query to the server at `next`: the stop flag is being read. The servers
    /// before it have been asked.
    ServerCheck { servers: Seq<NtpServerInfo>, next: nat },
    /// The server at `next` is being asked.
    Asking { servers: Seq<NtpServerInfo>, next: nat },
    /// All servers have been asked; the list is being handed over.
    Publishing { servers: Seq<NtpServerInfo> },
    /// Before a nap: the stop flag is being read.
    NapCheck { remaining: nat },
    /// The task naps; `remaining` milliseconds of sleep were left before.
    Napping { remaining: nat },
    /// The task is over.
    Stopped,
}

/// How something ended that the task had asked for.
pub enum EventModel {
    /// The stop flag was read.
    StopFlag { stop: bool },
    /// The list of servers was read.
    Servers { servers: Seq<NtpServerInfo> },
    /// The server was asked.
    Replied { reply: Reply },
    /// The list was handed over.
    Published,
    /// The nap is over.
    Slept,
}

/// The servers from `next` on are still to be asked; without any, the list is complete.
pub open spec fn asking_from(servers: Seq<NtpServerInfo>, next: nat) -> StageModel {
    if next < servers.len() {
        StageModel::ServerCheck { servers, next }
    } else {
        StageModel::Publishing { servers }
    }
}

/// `remaining` milliseconds of sleep are left; without any, the next round starts.
pub open spec fn sleeping_for(remaining: nat) -> StageModel {
    if remaining > 0 {
        StageModel::NapCheck { remaining }
    } else {
        StageModel::RoundCheck
    }
}

/// The milliseconds of the next nap.
pub open spec fn nap(remaining: nat) -> nat {
    if remaining < CHECK_INTERVAL_MILLIS {
        remaining
    } else {
        CHECK_INTERVAL_MILLIS as nat
    }
}

impl StageModel {
    /// The stage after `event`, where a round comes every `frequency` seconds. What the stage
    /// does not wait for leaves it as it is.
    pub open spec fn after(self, frequency: nat, event: EventModel) -> StageModel {
        match (self, event) {
            (StageModel::RoundCheck, EventModel::StopFlag { stop }) => if stop {
                StageModel::Stopped
            } else {
                StageModel::Snapshot
            },
            (StageModel::Snapshot, EventModel::Servers { servers }) => asking_from(servers, 0),
            (StageModel::ServerCheck { servers, next }, EventModel::StopFlag { stop }) => if stop {
                StageModel::Stopped
            } else {
                StageModel::Asking { servers, next }
            },
            (StageModel::Asking { servers, next }, EventModel::Replied { reply }) => asking_from(
                servers.update(next as int, servers[next as int].after(reply)),
                next + 1,
            ),
            (StageModel::Publishing { servers }, EventModel::Published) => sleeping_for(
                frequency * 1000,
            ),
            (StageModel::NapCheck { remaining }, EventModel::StopFlag { stop }) => if stop {
                StageModel::Stopped
            } else {
                StageModel::Napping { remaining }
            },
            (StageModel::Napping { remaining }, EventModel::Slept) => sleeping_for(
                (remaining - nap(remaining)) as nat,
            ),
            _ => self,
        }
    }

    /// The stage after `events`, one after the other.
    pub open spec fn run(self, frequency: nat, events: Seq<EventModel>) -> StageModel
        decreases events.len(),
    {
        if events.len() == 0 {
            self
        } else {
            self.after(frequency, events[0]).run(frequency, events.drop_first())
        }
    }

    /// The index of the next server lies in the list, the servers are well-formed, and there is
    /// sleep left where the task sleeps.
    pub open spec fn wf(self) -> bool {
        match self {
            StageModel::ServerCheck { servers, next } => next < servers.len() && server::all_wf(
                servers,
            ),
            StageModel::Asking { servers, next } => next < servers.len() && server::all_wf(servers),
            StageModel::Publishing { servers } => server::all_wf(servers),
            StageModel::NapCheck { remaining } => remaining > 0,
            StageModel::Napping { remaining } => remaining > 0,
            _ => true,
        }
    }
}

impl EventModel {
    /// The servers and the reply that the event brings are well-formed.
    pub open spec fn wf(self) -> bool {
        match self {
            EventModel::Servers { servers } => server::all_wf(servers),
            EventModel::Replied { reply } => reply.wf(),
            _ => true,
        }
    }
}

/// How far the task has come.
#[derive(Debug, PartialEq, Eq)]
pub enum TaskStage {
    RoundCheck,
    Snapshot,
    ServerCheck { servers: Vec<NtpServerInfo>, next: usize },
    Asking { servers: Vec<NtpServerInfo>, next: usize },
    Publishing { servers: Vec<NtpServerInfo> },
    NapCheck { remaining: u128 },
    Napping { remaining: u128 },
    Stopped,
}

/// How something ended that the task had asked for.
#[derive(Debug, PartialEq, Eq)]
pub enum TaskEvent {
    StopFlag { stop: bool },
    Servers { servers: Vec<NtpServerInfo> },
    Replied { reply: Reply },
    Published,
    Slept,
}

/// What has to be done next for the task.
#[derive(Debug, PartialEq, Eq)]
pub enum TaskAction {
    /// Read the stop flag.
    CheckStop,
    /// Read the list of servers.
    TakeSnapshot,
    /// Ask the server at this address.
    Ask { ip: String },
    /// Hand the list over.
    Publish { servers: Vec<NtpServerInfo> },
    /// Sleep so many milliseconds.
    Sleep { millis: u64 },
    /// End the task.
    Exit,
}

impl View for TaskStage {
    type V = StageModel;

    open spec fn view(&self) -> StageModel {
        match *self {
            TaskStage::RoundCheck => StageModel::RoundCheck,
            TaskStage::Snapshot => StageModel::Snapshot,
            TaskStage::ServerCheck { servers, next } => StageModel::ServerCheck {
                servers: servers@,
                next: next as nat,
            },
            TaskStage::Asking { servers, next } => StageModel::Asking {
                servers: servers@,
                next: next as nat,
            },
            TaskStage::Publishing { servers } => StageModel::Publishing { servers: servers@ },
            TaskStage::NapCheck { remaining } => StageModel::NapCheck {
                remaining: remaining as nat,
            },
            TaskStage::Napping { remaining } => StageModel::Napping { remaining: remaining as nat },
            TaskStage::Stopped => StageModel::Stopped,
        }
    }
}

impl View for TaskEvent {
    type V = EventModel;

    open spec fn view(&self) -> EventModel {
        match *self {
            TaskEvent::StopFlag { stop } => EventModel::StopFlag { stop },
            TaskEvent::Servers { servers } => EventModel::Servers { servers: servers@ },
            TaskEvent::Replied { reply } => EventModel::Replied { reply },
            TaskEvent::Published => EventModel::Published,
            TaskEvent::Slept => EventModel::Slept,
        }
    }
}

/// The servers from `next` on are still to be asked; without any, the list is complete.
fn ask_from(servers: Vec<NtpServerInfo>, next: usize) -> (r: TaskStage)
    requires
        server::all_wf(servers@),
    ensures
        r@ == asking_from(servers@, next as nat),
        r@.wf(),
{
    if next < servers.len() {
        TaskStage::ServerCheck { servers, next }
    } else {
        TaskStage::Publishing { servers }
    }
}

/// `remaining` milliseconds of sleep are left; without any, the next round starts.
fn sleep_for(remaining: u128) -> (r: TaskStage)
    ensures
        r@ == sleeping_for(remaining as nat),
        r@.wf(),
{
    if remaining > 0 {
        TaskStage::NapCheck { remaining }
    } else {
        TaskStage::RoundCheck
    }
}

/// The milliseconds of the next nap.
fn next_nap(remaining: u128) -> (r: u64)
    ensures
        r == nap(remaining as nat),
{
    if remaining < CHECK_INTERVAL_MILLIS as u128 {
        remaining as u64
    } else {
        CHECK_INTERVAL_MILLIS
    }
}

/// A copy of a list of servers.
pub fn copy_servers(servers: &Vec<NtpServerInfo>) -> (r: Vec<NtpServerInfo>)
    ensures
        r@ == servers@,
{
    let mut r: Vec<NtpServerInfo> = Vec::new();
    for i in 0..servers.len()
        invariant
            r@ == servers@.take(i as int),
    {
        r.push(servers[i].clone());
        assert(servers@.take(i + 1) =~= servers@.take(i as int).push(servers@[i as int]));
    }
    assert(servers@.take(servers@.len() as int) =~= servers@);
    r
}

/// The task: how often it asks the servers, and how far it has come.
#[derive(Debug, PartialEq, Eq)]
pub struct MonitorTask {
    pub update_frequency_seconds: u64,
    pub stage: TaskStage,
}

impl MonitorTask {
    /// The task that is about to start its first round.
    pub open spec fn fresh(update_frequency_seconds: u64) -> MonitorTask {
        MonitorTask { update_frequency_seconds, stage: TaskStage::RoundCheck }
    }

    /// A task that is about to start its first round.
    pub fn new(update_frequency_seconds: u64) -> (r: MonitorTask)
        ensures
            r == MonitorTask::fresh(update_frequency_seconds),
            r.update_frequency_seconds == update_frequency_seconds,
            r.stage@ == StageModel::RoundCheck,
            r.stage@.wf(),
    {
        MonitorTask { update_frequency_seconds, stage: TaskStage::RoundCheck }
    }

    /// Tells whether `action` is what has to be done next.
    pub open spec fn wants(self, action: TaskAction) -> bool {
        match self.stage@ {
            StageModel::RoundCheck => action is CheckStop,
            StageModel::Snapshot => action is TakeSnapshot,
            StageModel::ServerCheck { servers, next } => action is CheckStop,
            StageModel::Asking { servers, next } => action matches TaskAction::Ask { ip } && ip@
                == servers[next as int].ip@,
            StageModel::Publishing { servers } => action matches TaskAction::Publish {
                servers: published,
            } && published@ == servers,
            StageModel::NapCheck { remaining } => action is CheckStop,
            StageModel::Napping { remaining } => action matches TaskAction::Sleep { millis }
                && millis == nap(remaining),
            StageModel::Stopped => action is Exit,
        }
    }

    /// What has to be done next.
    pub fn action(&self) -> (r: TaskAction)
        requires
            self.stage@.wf(),
        ensures
            self.wants(r),
    {
        match &self.stage {
            TaskStage::RoundCheck => TaskAction::CheckStop,
            TaskStage::Snapshot => TaskAction::TakeSnapshot,
            TaskStage::ServerCheck { servers, next } => TaskAction::CheckStop,
            TaskStage::Asking { servers, next } => TaskAction::Ask { ip: servers[*next].ip.clone() },
            TaskStage::Publishing { servers } => TaskAction::Publish {
                servers: copy_servers(servers),
            },
            TaskStage::NapCheck { remaining } => TaskAction::CheckStop,
            TaskStage::Napping { remaining } => TaskAction::Sleep { millis: next_nap(*remaining) },
            TaskStage::Stopped => TaskAction::Exit,
        }
    }

    /// Takes in how the last action ended.
    pub fn advance(&mut self, event: TaskEvent)
        requires
            old(self).stage@.wf(),
            event@.wf(),
        ensures
            final(self).update_frequency_seconds == old(self).update_frequency_seconds,
            final(self).stage@ == old(self).stage@.after(
                old(self).update_frequency_seconds as nat,
                event@,
            ),
            final(self).stage@.wf(),
    {
        let mut stage: TaskStage = TaskStage::Stopped;
        std::mem::swap(&mut stage, &mut self.stage);
        self.stage = match (stage, event) {
            (TaskStage::RoundCheck, TaskEvent::StopFlag { stop }) => if stop {
                TaskStage::Stopped
            } else {
                TaskStage::Snapshot
            },
            (TaskStage::Snapshot, TaskEvent::Servers { servers }) => ask_from(servers, 0),
            (TaskStage::ServerCheck { servers, next }, TaskEvent::StopFlag { stop }) => if stop {
                TaskStage::Stopped
            } else {
                TaskStage::Asking { servers, next }
            },
            (TaskStage::Asking { servers, next }, TaskEvent::Replied { reply }) => {
                let mut asked: Vec<NtpServerInfo> = servers;
                let ghost before = asked@;
                asked[next].record(reply);
                assert(asked@ =~= before.update(next as int, before[next as int].after(reply)));
                let count: usize = asked.len();
                assert(next < count);
                ask_from(asked, next + 1)
            },
            (TaskStage::Publishing { servers }, TaskEvent::Published) => sleep_for(
                self.update_frequency_seconds as u128 * 1000,
            ),
            (TaskStage::NapCheck { remaining }, TaskEvent::StopFlag { stop }) => if stop {
                TaskStage::Stopped
            } else {
                TaskStage::Napping { remaining }
            },
            (TaskStage::Napping { remaining }, TaskEvent::Slept) => sleep_for(
                remaining - next_nap(remaining) as u128,
            ),
            (other, _) => other,
        };
    }
}

/// The list after a round: each server with the outcome of its own query.
pub open spec fn round_result(servers: Seq<NtpServerInfo>, replies: Seq<Reply>) -> Seq<
    NtpServerInfo,
> {
    Seq::new(servers.len(), |i: int| servers[i].after(replies[i]))
}

/// What happens while the servers are asked, with no stop in between.
pub open spec fn round_events(replies: Seq<Reply>) -> Seq<EventModel>
    decreases replies.len(),
{
    if replies.len() == 0 {
        seq![]
    } else {
        seq![
            EventModel::StopFlag { stop: false },
            EventModel::Replied { reply: replies[0] },
        ] + round_events(replies.drop_first())
    }
}

/// The naps that sleeping `remaining` milliseconds takes.
pub open spec fn naps(remaining: nat) -> Seq<nat>
    decreases remaining,
{
    if remaining == 0 {
        seq![]
    } else {
        seq![nap(remaining)] + naps((remaining - nap(remaining)) as nat)
    }
}

/// The milliseconds of all naps together.
pub open spec fn total(naps: Seq<nat>) -> nat
    decreases naps.len(),
{
    if naps.len() == 0 {
        0
    } else {
        naps[0] + total(naps.drop_first())
    }
}

/// What happens while the task takes `count` naps, with no stop in between.
pub open spec fn nap_events(count: nat) -> Seq<EventModel>
    decreases count,
{
    if count == 0 {
        seq![]
    } else {
        seq![EventModel::StopFlag { stop: false }, EventModel::Slept] + nap_events(
            (count - 1) as nat,
        )
    }
}

proof fn lemma_run_two(
    stage: StageModel,
    frequency: nat,
    first: EventModel,
    second: EventModel,
    rest: Seq<EventModel>,
)
    ensures
        stage.run(frequency, seq![first, second] + rest) == stage.after(frequency, first).after(
            frequency,
            second,
        ).run(frequency, rest),
{
    let all = seq![first, second] + rest;
    reveal_with_fuel(StageModel::run, 3);
    assert(all.drop_first().drop_first() =~= rest);
}

proof fn lemma_round(
    frequency: nat,
    servers: Seq<NtpServerInfo>,
    next: nat,
    replies: Seq<Reply>,
)
    requires
        next + replies.len() == servers.len(),
    ensures
        asking_from(servers, next).run(frequency, round_events(replies)) == (
        StageModel::Publishing {
            servers: servers.take(next as int) + round_result(servers.skip(next as int), replies),
        }),
    decreases replies.len(),
{
    let ahead = servers.skip(next as int);
    if replies.len() == 0 {
        assert(servers.take(next as int) + round_result(ahead, replies) =~= servers);
    } else {
        let asked = servers.update(next as int, servers[next as int].after(replies[0]));
        let rest = replies.drop_first();
        lemma_run_two(
            asking_from(servers, next),
            frequency,
            EventModel::StopFlag { stop: false },
            EventModel::Replied { reply: replies[0] },
            round_events(rest),
        );
        lemma_round(frequency, asked, next + 1, rest);
        assert(asked.take(next as int + 1) + round_result(asked.skip(next as int + 1), rest)
            =~= servers.take(next as int) + round_result(ahead, replies));
    }
}

/// A round that no stop breaks off hands over the list that was read, each server with the
/// outcome of its own query, in the same order.
pub proof fn round_hands_over_every_outcome(
    frequency: nat,
    servers: Seq<NtpServerInfo>,
    replies: Seq<Reply>,
)
    requires
        servers.len() == replies.len(),
    ensures
        StageModel::Snapshot.run(
            frequency,
            seq![EventModel::Servers { servers }] + round_events(replies),
        ) == (StageModel::Publishing { servers: round_result(servers, replies) }),
{
    let events = seq![EventModel::Servers { servers }] + round_events(replies);
    assert(events.drop_first() =~= round_events(replies));
    lemma_round(frequency, servers, 0, replies);
    assert(servers.take(0) + round_result(servers.skip(0), replies) =~= round_result(
        servers,
        replies,
    ));
}

/// A round changes neither the names nor the addresses of the servers.
pub proof fn round_keeps_identities(servers: Seq<NtpServerInfo>, replies: Seq<Reply>)
    requires
        servers.len() == replies.len(),
    ensures
        server::names(round_result(servers, replies)) == server::names(servers),
        forall|i: int|
            0 <= i < servers.len() ==> (#[trigger] round_result(servers, replies)[i]).ip
                == servers[i].ip,
{
    assert(server::names(round_result(servers, replies)) =~= server::names(servers));
}

/// Wherever the task reads the stop flag, a stop ends it at once, and nothing that may come
/// later brings it back.
pub proof fn stop_ends_task(stage: StageModel, frequency: nat, events: Seq<EventModel>)
    ensures
        stage is RoundCheck || stage is ServerCheck || stage is NapCheck ==> stage.after(
            frequency,
            EventModel::StopFlag { stop: true },
        ).run(frequency, events) is Stopped,
        StageModel::Stopped.run(frequency, events) is Stopped,
    decreases events.len(),
{
    if events.len() > 0 {
        stop_ends_task(stage, frequency, events.drop_first());
    }
}

/// The current round: the list that was read for it, and the outcomes of the queries so far.
pub struct Round {
    pub read: Seq<NtpServerInfo>,
    pub replies: Seq<Reply>,
}

impl Round {
    /// Before the first round.
    pub open spec fn empty() -> Round {
        Round { read: seq![], replies: seq![] }
    }

    /// The list with the outcomes that have come so far.
    pub open spec fn list(self) -> Seq<NtpServerInfo> {
        Seq::new(
            self.read.len(),
            |i: int|
                if i < self.replies.len() {
                    self.read[i].after(self.replies[i])
                } else {
                    self.read[i]
                },
        )
    }

    /// What the round is made of came with `events`, or was there before as `start`.
    pub open spec fn comes_from(self, start: Round, events: Seq<EventModel>) -> bool {
        &&& self.read == start.read || events.contains(EventModel::Servers { servers: self.read })
        &&& forall|i: int|
            0 <= i < self.replies.len() ==> start.replies.contains(#[trigger] self.replies[i])
                || events.contains(EventModel::Replied { reply: self.replies[i] })
    }
}

impl StageModel {
    /// The round after `event`: reading the list starts a round, and each outcome that is
    /// waited for adds to it.
    pub open spec fn note(self, round: Round, event: EventModel) -> Round {
        match (self, event) {
            (StageModel::Snapshot, EventModel::Servers { servers }) => Round {
                read: servers,
                replies: seq![],
            },
            (StageModel::Asking { servers, next }, EventModel::Replied { reply }) => Round {
                replies: round.replies.push(reply),
                ..round
            },
            _ => round,
        }
    }

    /// The round after `events`, one after the other.
    pub open spec fn round_after(
        self,
        frequency: nat,
        round: Round,
        events: Seq<EventModel>,
    ) -> Round
        decreases events.len(),
    {
        if events.len() == 0 {
            round
        } else {
            self.after(frequency, events[0]).round_after(
                frequency,
                self.note(round, events[0]),
                events.drop_first(),
            )
        }
    }

    /// The stage holds the list of the round with the outcomes so far: one for each server that
    /// was asked, and for all of them where the list is handed over.
    pub open spec fn follows(self, round: Round) -> bool {
        match self {
            StageModel::ServerCheck { servers, next } => servers == round.list() && next
                == round.replies.len() < servers.len(),
            StageModel::Asking { servers, next } => servers == round.list() && next
                == round.replies.len() < servers.len(),
            StageModel::Publishing { servers } => servers == round.list() && servers.len()
                == round.replies.len(),
            _ => true,
        }
    }
}

/// The stage goes on to hold the list of the round with the outcomes so far.
pub proof fn lemma_note(stage: StageModel, frequency: nat, round: Round, event: EventModel)
    requires
        stage.follows(round),
    ensures
        stage.after(frequency, event).follows(stage.note(round, event)),
{
    let noted = stage.note(round, event);
    match (stage, event) {
        (StageModel::Snapshot, EventModel::Servers { servers }) => {
            assert(noted.list() =~= servers);
        },
        (StageModel::Asking { servers, next }, EventModel::Replied { reply }) => {
            let asked = servers.update(next as int, servers[next as int].after(reply));
            assert(servers[next as int] == round.read[next as int]);
            assert forall|i: int| 0 <= i < asked.len() implies asked[i] == noted.list()[i] by {
                if i != next {
                    assert(asked[i] == round.list()[i]);
                }
            }
            assert(asked =~= noted.list());
        },
        _ => {},
    }
}

proof fn lemma_rounds(
    stage: StageModel,
    frequency: nat,
    round: Round,
    events: Seq<EventModel>,
)
    requires
        stage.follows(round),
    ensures
        stage.run(frequency, events).follows(stage.round_after(frequency, round, events)),
        stage.round_after(frequency, round, events).comes_from(round, events),
    decreases events.len(),
{
    if events.len() > 0 {
        let event = events[0];
        let rest = events.drop_first();
        let next = stage.after(frequency, event);
        let noted = stage.note(round, event);
        let end = next.round_after(frequency, noted, rest);
        lemma_note(stage, frequency, round, event);
        lemma_rounds(next, frequency, noted, rest);
        assert(events.contains(event));
        assert forall|e: EventModel| rest.contains(e) implies events.contains(e) by {
            let k = choose|k: int| 0 <= k < rest.len() && rest[k] == e;
            assert(events[k + 1] == e);
        }
        assert forall|i: int| 0 <= i < end.replies.len() implies round.replies.contains(
            #[trigger] end.replies[i],
        ) || events.contains(EventModel::Replied { reply: end.replies[i] }) by {
            let reply = end.replies[i];
            if noted.replies.contains(reply) {
                let k = choose|k: int| 0 <= k < noted.replies.len() && noted.replies[k] == reply;
                if noted.replies == round.replies {
                } else if k < round.replies.len() {
                    assert(round.replies[k] == reply);
                } else {
                    assert(event == EventModel::Replied { reply });
                }
            }
        }
    }
}

/// Whatever happens to a task, and wherever stops come in between: a list that it hands over is
/// the one that was read for the round, with one outcome for each server, in the same order
/// and under the same names and addresses.
pub proof fn handed_over_list_is_complete(frequency: nat, events: Seq<EventModel>)
    ensures
        StageModel::RoundCheck.run(frequency, events) matches StageModel::Publishing { servers }
            ==> {
            let round = StageModel::RoundCheck.round_after(frequency, Round::empty(), events);
            &&& round.replies.len() == round.read.len()
            &&& servers == round_result(round.read, round.replies)
            &&& server::names(servers) == server::names(round.read)
            &&& forall|i: int|
                0 <= i < servers.len() ==> (#[trigger] servers[i]).ip == round.read[i].ip
            &&& round.read.len() > 0 ==> events.contains(
                EventModel::Servers { servers: round.read },
            )
            &&& forall|i: int|
                0 <= i < round.replies.len() ==> events.contains(
                    EventModel::Replied { reply: #[trigger] round.replies[i] },
                )
        },
{
    let round = StageModel::RoundCheck.round_after(frequency, Round::empty(), events);
    lemma_rounds(StageModel::RoundCheck, frequency, Round::empty(), events);
    if let StageModel::Publishing { servers } = StageModel::RoundCheck.run(frequency, events) {
        assert(servers =~= round_result(round.read, round.replies));
        round_keeps_identities(round.read, round.replies);
    }
}

proof fn lemma_naps(frequency: nat, remaining: nat)
    ensures
        total(naps(remaining)) == remaining,
        forall|i: int|
            0 <= i < naps(remaining).len() ==> 0 < #[trigger] naps(remaining)[i]
                <= CHECK_INTERVAL_MILLIS,
        sleeping_for(remaining).run(frequency, nap_events(naps(remaining).len()))
            is RoundCheck,
    decreases remaining,
{
    if remaining > 0 {
        let rest = (remaining - nap(remaining)) as nat;
        lemma_naps(frequency, rest);
        assert(naps(remaining).drop_first() =~= naps(rest));
        lemma_run_two(
            sleeping_for(remaining),
            frequency,
            EventModel::StopFlag { stop: false },
            EventModel::Slept,
            nap_events(naps(rest).len()),
        );
        assert forall|i: int| 0 <= i < naps(remaining).len() implies 0 < #[trigger] naps(
            remaining,
        )[i] <= CHECK_INTERVAL_MILLIS by {
            if i > 0 {
                assert(naps(remaining)[i] == naps(rest)[i - 1]);
            }
        }
    }
}

/// After a round, the task sleeps for the set number of seconds, in naps of at most half a
/// second, and reads the stop flag before each of them; then the next round starts.
pub proof fn task_sleeps_between_rounds(frequency: nat, servers: Seq<NtpServerInfo>)
    ensures
        total(naps(frequency * 1000)) == frequency * 1000,
        forall|i: int|
            0 <= i < naps(frequency * 1000).len() ==> 0 < #[trigger] naps(frequency * 1000)[i]
                <= CHECK_INTERVAL_MILLIS,
        (StageModel::Publishing { servers }).run(
            frequency,
            seq![EventModel::Published] + nap_events(naps(frequency * 1000).len()),
        ) is RoundCheck,
{
    let remaining = frequency * 1000;
    lemma_naps(frequency, remaining);
    let events = seq![EventModel::Published] + nap_events(naps(remaining).len());
    assert(events.drop_first() =~= nap_events(naps(remaining).len()));
}

/// A new task is about to start its first round, with the frequency that it is given.
pub proof fn new_task_starts_a_round(update_frequency_seconds: u64, task: MonitorTask)
    requires
        call_ensures(MonitorTask::new, (update_frequency_seconds,), task),
    ensures
        task.update_frequency_seconds == update_frequency_seconds,
        task.stage is RoundCheck,
        task == MonitorTask::fresh(update_frequency_seconds),
{
}

/// What a task does at each stage: it reads the stop flag before each round, each query and each
/// nap; it asks the server that is next at its own address; it hands over the list that it
/// holds; and it naps for half a second, or for what is left where that is less.
pub proof fn task_does_one_thing_at_a_time(task: &MonitorTask, action: TaskAction)
    requires
        call_ensures(MonitorTask::action, (task,), action),
    ensures
        task.wants(action),
        match task.stage {
            TaskStage::RoundCheck => action is CheckStop,
            TaskStage::Snapshot => action is TakeSnapshot,
            TaskStage::ServerCheck { servers, next } => action is CheckStop,
            TaskStage::Asking { servers, next } => action matches TaskAction::Ask { ip } && ip@
                == servers@[next as int].ip@,
            TaskStage::Publishing { servers } => action matches TaskAction::Publish {
                servers: published,
            } && published@ == servers@,
            TaskStage::NapCheck { remaining } => action is CheckStop,
            TaskStage::Napping { remaining } => action matches TaskAction::Sleep { millis } && (
            remaining >= 500 ==> millis == 500) && (remaining < 500 ==> millis == remaining),
            TaskStage::Stopped => action is Exit,
        },
{
}

/// How a task goes on from a stage at which it reads the stop flag: a raised flag ends it, and
/// otherwise it does what the flag was read for, with all that it holds.
pub proof fn flag_decides_whether_task_goes_on(task: &mut MonitorTask, stop: bool)
    requires
        call_ensures(MonitorTask::advance, (task, TaskEvent::StopFlag { stop }), ()),
    ensures
        final(task).update_frequency_seconds == old(task).update_frequency_seconds,
        match old(task).stage {
            TaskStage::RoundCheck => if stop {
                final(task).stage is Stopped
            } else {
                final(task).stage is Snapshot
            },
            TaskStage::ServerCheck { servers, next } => if stop {
                final(task).stage is Stopped
            } else {
                final(task).stage matches TaskStage::Asking { servers: asked, next: now } && asked@
                    == servers@ && now == next
            },
            TaskStage::NapCheck { remaining } => if stop {
                final(task).stage is Stopped
            } else {
                final(task).stage == (TaskStage::Napping { remaining })
            },
            _ => final(task).stage@ == old(task).stage@,
        },
{
}

/// The list that is read is the one of the round: its servers are asked from the first on, and
/// an empty list is handed over at once.
pub proof fn round_is_on_the_list_that_was_read(
    task: &mut MonitorTask,
    servers: Vec<NtpServerInfo>,
)
    requires
        call_ensures(MonitorTask::advance, (task, TaskEvent::Servers { servers }), ()),
    ensures
        final(task).update_frequency_seconds == old(task).update_frequency_seconds,
        old(task).stage is Snapshot && servers@.len() > 0 ==> (
        final(task).stage matches TaskStage::ServerCheck { servers: held, next } && held@
            == servers@ && next == 0),
        old(task).stage is Snapshot && servers@.len() == 0 ==> (
        final(task).stage matches TaskStage::Publishing { servers: held } && held@.len() == 0),
        !(old(task).stage is Snapshot) ==> final(task).stage@ == old(task).stage@,
{
}

/// An outcome goes to the server that was asked, as that server records it, and to no other. The
/// next server is asked then; behind the last one the list is handed over.
pub proof fn outcome_goes_to_the_server_asked(
    task: &mut MonitorTask,
    reply: Reply,
    server: &mut NtpServerInfo,
)
    requires
        call_ensures(MonitorTask::advance, (task, TaskEvent::Replied { reply }), ()),
        call_ensures(NtpServerInfo::record, (server, reply), ()),
    ensures
        final(task).update_frequency_seconds == old(task).update_frequency_seconds,
        old(task).stage matches TaskStage::Asking { servers, next } ==> (*old(server)
            == servers@[next as int] && next < servers@.len() ==> {
            let after = servers@.update(next as int, *final(server));
            &&& next + 1 < servers@.len() ==> (final(task).stage matches TaskStage::ServerCheck {
                servers: held,
                next: now,
            } && held@ == after && now == next + 1)
            &&& next + 1 == servers@.len() ==> (final(task).stage matches TaskStage::Publishing {
                servers: held,
            } && held@ == after)
        }),
        !(old(task).stage is Asking) ==> final(task).stage@ == old(task).stage@,
{
}

/// After the list is handed over, the task sleeps a thousand milliseconds for each second of its
/// frequency, and each nap takes half a second off that, until nothing is left and the next
/// round starts.
pub proof fn sleep_lasts_as_long_as_the_frequency_says(
    published: &mut MonitorTask,
    slept: &mut MonitorTask,
)
    requires
        call_ensures(MonitorTask::advance, (published, TaskEvent::Published), ()),
        call_ensures(MonitorTask::advance, (slept, TaskEvent::Slept), ()),
    ensures
        final(published).update_frequency_seconds == old(published).update_frequency_seconds,
        old(published).stage is Publishing && old(published).update_frequency_seconds > 0
            ==> final(published).stage == (TaskStage::NapCheck {
            remaining: (old(published).update_frequency_seconds * 1000) as u128,
        }),
        old(published).stage is Publishing && old(published).update_frequency_seconds == 0
            ==> final(published).stage is RoundCheck,
        !(old(published).stage is Publishing) ==> final(published).stage@ == old(
            published,
        ).stage@,
        final(slept).update_frequency_seconds == old(slept).update_frequency_seconds,
        old(slept).stage matches TaskStage::Napping { remaining } ==> {
            &&& remaining > 500 ==> final(slept).stage == (TaskStage::NapCheck {
                remaining: (remaining - 500) as u128,
            })
            &&& remaining <= 500 ==> final(slept).stage is RoundCheck
        },
        !(old(slept).stage is Napping) ==> final(slept).stage@ == old(slept).stage@,
{
}

/// A copy of a list holds the same servers in the same order.
pub proof fn copy_holds_the_same_servers(
    servers: &Vec<NtpServerInfo>,
    copy: Vec<NtpServerInfo>,
)
    requires
        call_ensures(copy_servers, (servers,), copy),
    ensures
        copy@ == servers@,
{
}

/// The model of a stage holds all that the stage holds.
pub proof fn model_holds_the_stage(a: TaskStage, b: TaskStage)
    requires
        a@ == b@,
    ensures
        match (a, b) {
            (TaskStage::RoundCheck, TaskStage::RoundCheck) => true,
            (TaskStage::Snapshot, TaskStage::Snapshot) => true,
            (
                TaskStage::ServerCheck { servers, next },
                TaskStage::ServerCheck { servers: others, next: other },
            ) => servers@ == others@ && next == other,
            (
                TaskStage::Asking { servers, next },
                TaskStage::Asking { servers: others, next: other },
            ) => servers@ == others@ && next == other,
            (
                TaskStage::Publishing { servers },
                TaskStage::Publishing { servers: others },
            ) => servers@ == others@,
            (
                TaskStage::NapCheck { remaining },
                TaskStage::NapCheck { remaining: other },
            ) => remaining == other,
            (
                TaskStage::Napping { remaining },
                TaskStage::Napping { remaining: other },
            ) => remaining == other,
            (TaskStage::Stopped, TaskStage::Stopped) => true,
            _ => false,
        },
{
}

} // verus!
