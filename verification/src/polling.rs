//! The task in the background and the window whose list it reads and replaces.

use vstd::prelude::*;

use crate::monitor::{AppState, NtpMonitorApp, TaskCommand, WindowEvent};
use crate::server;
use crate::server::{NtpServerInfo, Reply};
use crate::task;
use crate::task::{EventModel, Round, StageModel};
use crate::time::TimeSpan;

verus! {

/// The window, how far the task has come, and the current round.
pub struct Polling {
    pub app: NtpMonitorApp,
    pub stage: StageModel,
    pub round: Round,
}

/// What can happen while a task runs.
pub enum PollingMove {
    /// The window serves the task at this time.
    Serve { at: TimeSpan },
    /// The task learns how something ended that it had asked for.
    Outside { outcome: EventModel },
    /// Something happens to the window.
    Window { event: WindowEvent },
}

/// The window's list and the time of its last update stay as they are.
pub open spec fn list_kept(app: NtpMonitorApp, next: NtpMonitorApp) -> bool {
    &&& next.servers@ == app.servers@
    &&& next.last_update_time == app.last_update_time
}

/// The window's list has taken over one outcome for each of `servers`, with the same name and
/// the same address at each index, and the update is marked.
pub open spec fn list_replaced(
    servers: Seq<NtpServerInfo>,
    replies: Seq<Reply>,
    next: NtpMonitorApp,
) -> bool {
    &&& replies.len() == servers.len()
    &&& next.servers@ == task::round_result(servers, replies)
    &&& server::names(next.servers@) == server::names(servers)
    &&& forall|i: int|
        0 <= i < servers.len() ==> (#[trigger] next.servers@[i]).ip == servers[i].ip
    &&& next.last_update_time is Some
}

impl Polling {
    /// What a move leads to, where a round comes every `frequency` seconds. The task gets the
    /// list from the window and hands it over to the window, and nothing else. What happens to
    /// the window meanwhile can be anything that neither enters another list nor stands for
    /// another task.
    pub open spec fn leads_to(self, frequency: nat, step: PollingMove, next: Polling) -> bool {
        match step {
            PollingMove::Serve { at } => {
                &&& self.app.serving_leads_to(frequency, self.stage, at, next.app, next.stage)
                &&& next.round == self.stage.note(
                    self.round,
                    EventModel::Servers { servers: self.app.servers@ },
                )
            },
            PollingMove::Outside { outcome } => {
                &&& !(outcome is Servers) && !(outcome is Published)
                &&& next == Polling {
                    app: self.app,
                    stage: self.stage.after(frequency, outcome),
                    round: self.stage.note(self.round, outcome),
                }
            },
            PollingMove::Window { event } => {
                &&& !(event is Publish)
                &&& event is StartMonitoring ==> self.app.state != AppState::ServerInput
                &&& exists|command: TaskCommand| #[trigger]
                    self.app.leads_to(event, command, next.app)
                &&& next == Polling { app: next.app, ..self }
            },
        }
    }

    /// The task holds the list of the round, and a round under way is one on the window's list.
    pub open spec fn consistent(self) -> bool {
        &&& self.stage.follows(self.round)
        &&& self.stage is ServerCheck || self.stage is Asking || self.stage is Publishing
            ==> self.round.read == self.app.servers@
    }
}

/// Each of `moves` leads from one of `states` to the next.
pub open spec fn is_polling(
    frequency: nat,
    states: Seq<Polling>,
    moves: Seq<PollingMove>,
) -> bool {
    &&& states.len() == moves.len() + 1
    &&& forall|i: int|
        #![trigger moves[i]]
        0 <= i < moves.len() ==> states[i].leads_to(frequency, moves[i], states[i + 1])
}

proof fn lemma_move(frequency: nat, state: Polling, step: PollingMove, next: Polling)
    requires
        state.consistent(),
        state.leads_to(frequency, step, next),
    ensures
        next.consistent(),
        if state.stage is Publishing && step is Serve {
            &&& next.app.last_update_time == Some(step->at)
            &&& list_replaced(state.app.servers@, state.round.replies, next.app)
        } else {
            list_kept(state.app, next.app)
        },
{
    match step {
        PollingMove::Serve { at } => {
            match state.stage {
                StageModel::Snapshot => {
                    task::lemma_note(
                        state.stage,
                        frequency,
                        state.round,
                        EventModel::Servers { servers: state.app.servers@ },
                    );
                },
                StageModel::Publishing { servers } => {
                    assert(servers =~= task::round_result(
                        state.round.read,
                        state.round.replies,
                    ));
                    task::round_keeps_identities(state.round.read, state.round.replies);
                },
                _ => {},
            }
        },
        PollingMove::Outside { outcome } => {
            task::lemma_note(state.stage, frequency, state.round, outcome);
        },
        PollingMove::Window { event } => {},
    }
}

proof fn lemma_consistent(
    frequency: nat,
    states: Seq<Polling>,
    moves: Seq<PollingMove>,
    i: int,
)
    requires
        is_polling(frequency, states, moves),
        states[0].consistent(),
        0 <= i < states.len(),
    ensures
        states[i].consistent(),
    decreases i,
{
    if i > 0 {
        lemma_consistent(frequency, states, moves, i - 1);
        lemma_move(frequency, states[i - 1], moves[i - 1], states[i]);
    }
}

/// A task that has not started a round yet is consistent with every window.
pub proof fn fresh_task_is_consistent(app: NtpMonitorApp, round: Round)
    ensures
        (Polling { app, stage: StageModel::RoundCheck, round }).consistent(),
{
}

/// Whatever happens, in whatever order: serving a task that hands its list over replaces the
/// list by that of a complete round, with one outcome for each server under its name and
/// address, and marks the update. Every other move leaves both the list and the time of the last
/// update as they are.
pub proof fn list_changes_by_complete_rounds(
    frequency: nat,
    states: Seq<Polling>,
    moves: Seq<PollingMove>,
    i: int,
)
    requires
        is_polling(frequency, states, moves),
        states[0].consistent(),
        0 <= i < moves.len(),
    ensures
        if states[i].stage is Publishing && moves[i] is Serve {
            &&& states[i + 1].app.last_update_time == Some(moves[i]->at)
            &&& list_replaced(states[i].app.servers@, states[i].round.replies, states[i + 1].app)
        } else {
            list_kept(states[i].app, states[i + 1].app)
        },
{
    lemma_consistent(frequency, states, moves, i);
    lemma_move(frequency, states[i], moves[i], states[i + 1]);
}

/// A round that starts with the list of `start` has come to `state`: up to the hand-over nothing
/// has changed; behind it, the list is replaced and the update is marked. A task that has
/// stopped had asked all servers, or has changed nothing.
pub open spec fn round_so_far(start: Polling, state: Polling) -> bool {
    let kept = list_kept(start.app, state.app);
    let replaced = list_replaced(start.app.servers@, state.round.replies, state.app);
    match state.stage {
        StageModel::Snapshot => kept,
        StageModel::ServerCheck { servers, next } => kept,
        StageModel::Asking { servers, next } => kept,
        StageModel::Publishing { servers } => kept,
        StageModel::NapCheck { remaining } => replaced,
        StageModel::Napping { remaining } => replaced,
        StageModel::RoundCheck => replaced,
        StageModel::Stopped => if state.round.replies.len() < start.app.servers@.len() {
            kept
        } else {
            replaced
        },
    }
}

/// A round is all or nothing, wherever the task sees the stop flag raised: where it sees it
/// before some query, the list and the time of the last update stay as they were when the round
/// began. Otherwise the list has one outcome for each server, under the same name and address at
/// each index, and the update is marked.
pub proof fn round_is_all_or_nothing(
    frequency: nat,
    states: Seq<Polling>,
    moves: Seq<PollingMove>,
    n: int,
)
    requires
        is_polling(frequency, states, moves),
        states[0].stage is Snapshot,
        0 <= n < states.len(),
        forall|i: int| 0 <= i < n ==> !((#[trigger] states[i]).stage is RoundCheck),
    ensures
        round_so_far(states[0], states[n]),
    decreases n,
{
    if n > 0 {
        let state = states[n - 1];
        round_is_all_or_nothing(frequency, states, moves, n - 1);
        lemma_consistent(frequency, states, moves, n - 1);
        lemma_move(frequency, state, moves[n - 1], states[n]);
        assert(!(state.stage is RoundCheck));
    }
}

} // verus!
