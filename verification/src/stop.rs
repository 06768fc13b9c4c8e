//! The protocol that stops one service: a graceful stop within a bound, a
//! forceful kill where that does not do, one retry of the kill after a
//! pause, and the removal of what was stopped.

use crate::runtime::Reply;
use vstd::prelude::*;

verus! {

/// The seconds that a graceful stop may take.
pub const STOP_TIMEOUT_SECS: u64 = 10;

/// The milliseconds to wait before the kill is tried again.
pub const KILL_RETRY_DELAY_MILLIS: u64 = 500;

/// How the protocol ended for a service.
#[derive(Debug, Clone, Copy, PartialEq, Eq, Structural)]
pub enum StopOutcome {
    /// The container was stopped or killed.
    Stopped,
    /// The runtime reported that there is no such container.
    AlreadyAbsent,
    /// Neither the stop nor the kills succeeded.
    FailedToStop,
}

/// Where the protocol stands.
#[derive(Debug, Clone, Copy, PartialEq, Eq, Structural)]
pub enum StopState {
    /// The graceful stop was issued.
    Stopping,
    /// The first kill was issued.
    Killing,
    /// The second kill was issued; `absent` says whether the first one
    /// reported that there is no such container.
    Retrying { absent: bool },
    /// The container is down and its removal was issued.
    Removing,
    /// The protocol is over.
    Finished { outcome: StopOutcome },
    /// The runtime could not be started; nothing more is tried.
    Aborted,
}

/// What the caller does next.
#[derive(Debug, Clone, Copy, PartialEq, Eq, Structural)]
pub enum StopAction {
    /// Ask the container to stop, and wait for at most `timeout_secs`.
    Stop { timeout_secs: u64 },
    /// Wait for `delay_millis`, then kill the container.
    Kill { delay_millis: u64 },
    /// Remove the container; whatever comes of it is the next reply.
    Remove,
    /// Report the outcome. There is nothing more to do.
    Report { outcome: StopOutcome },
    /// Give up with the failure to start the runtime.
    Abort,
}

/// The action that a state waits upon, or repeats once the protocol is over.
pub open spec fn pending_action(state: StopState) -> StopAction {
    match state {
        StopState::Stopping => StopAction::Stop { timeout_secs: STOP_TIMEOUT_SECS },
        StopState::Killing => StopAction::Kill { delay_millis: 0 },
        StopState::Retrying { .. } => StopAction::Kill { delay_millis: KILL_RETRY_DELAY_MILLIS },
        StopState::Removing => StopAction::Remove,
        StopState::Finished { outcome } => StopAction::Report { outcome },
        StopState::Aborted => StopAction::Abort,
    }
}

/// The state that follows `state` on `reply`.
///
/// A stop that succeeds leads to the removal, one that reports the
/// container absent ends the protocol, and any other leads to the kill. A
/// kill that succeeds leads to the removal, and the first one that does not
/// to the retry. After the retry nothing more is tried: what failed is
/// classified as absent where that kill or the one before it said so.
/// Whatever the removal brings, the service counts as stopped. A runtime
/// that cannot be started ends the protocol at once, but for the removal.
pub open spec fn next_state(state: StopState, reply: Reply) -> StopState {
    match state {
        StopState::Stopping => match reply {
            Reply::Succeeded => StopState::Removing,
            Reply::Failed { absent } => if absent {
                StopState::Finished { outcome: StopOutcome::AlreadyAbsent }
            } else {
                StopState::Killing
            },
            Reply::TimedOut => StopState::Killing,
            Reply::NotStarted => StopState::Aborted,
        },
        StopState::Killing => match reply {
            Reply::Succeeded => StopState::Removing,
            Reply::Failed { absent } => StopState::Retrying { absent },
            Reply::TimedOut => StopState::Retrying { absent: false },
            Reply::NotStarted => StopState::Aborted,
        },
        StopState::Retrying { absent: earlier } => match reply {
            Reply::Succeeded => StopState::Removing,
            Reply::Failed { absent } => if absent || earlier {
                StopState::Finished { outcome: StopOutcome::AlreadyAbsent }
            } else {
                StopState::Finished { outcome: StopOutcome::FailedToStop }
            },
            Reply::TimedOut => if earlier {
                StopState::Finished { outcome: StopOutcome::AlreadyAbsent }
            } else {
                StopState::Finished { outcome: StopOutcome::FailedToStop }
            },
            Reply::NotStarted => StopState::Aborted,
        },
        StopState::Removing => StopState::Finished { outcome: StopOutcome::Stopped },
        StopState::Finished { outcome } => StopState::Finished { outcome },
        StopState::Aborted => StopState::Aborted,
    }
}

/// Whether nothing follows `state`.
pub open spec fn is_final(state: StopState) -> bool {
    state is Finished || state is Aborted
}

/// The state in which the protocol begins, with the action to take.
pub fn stop_begin() -> (r: (StopState, StopAction))
    ensures
        r.0 == StopState::Stopping,
        r.1 == pending_action(StopState::Stopping),
{
    (StopState::Stopping, StopAction::Stop { timeout_secs: STOP_TIMEOUT_SECS })
}

/// The action that `state` waits upon.
pub fn action_of(state: StopState) -> (action: StopAction)
    ensures
        action == pending_action(state),
{
    match state {
        StopState::Stopping => StopAction::Stop { timeout_secs: STOP_TIMEOUT_SECS },
        StopState::Killing => StopAction::Kill { delay_millis: 0 },
        StopState::Retrying { .. } => StopAction::Kill { delay_millis: KILL_RETRY_DELAY_MILLIS },
        StopState::Removing => StopAction::Remove,
        StopState::Finished { outcome } => StopAction::Report { outcome },
        StopState::Aborted => StopAction::Abort,
    }
}

/// Takes the reply to the action that `state` waited upon, and gives the
/// next state with the action to take.
pub fn stop_step(state: StopState, reply: Reply) -> (r: (StopState, StopAction))
    ensures
        r.0 == next_state(state, reply),
        r.1 == pending_action(r.0),
{
    let failed = StopState::Finished { outcome: StopOutcome::FailedToStop };
    let absent_end = StopState::Finished { outcome: StopOutcome::AlreadyAbsent };
    let next = match state {
        StopState::Removing => StopState::Finished { outcome: StopOutcome::Stopped },
        StopState::Finished { .. } | StopState::Aborted => state,
        _ => match reply {
            Reply::Succeeded => StopState::Removing,
            Reply::NotStarted => StopState::Aborted,
            Reply::TimedOut => match state {
                StopState::Stopping => StopState::Killing,
                StopState::Killing => StopState::Retrying { absent: false },
                StopState::Retrying { absent: true } => absent_end,
                _ => failed,
            },
            Reply::Failed { absent } => match state {
                StopState::Stopping => if absent {
                    absent_end
                } else {
                    StopState::Killing
                },
                StopState::Killing => StopState::Retrying { absent },
                StopState::Retrying { absent: earlier } => if absent || earlier {
                    absent_end
                } else {
                    failed
                },
                _ => failed,
            },
        },
    };
    (next, action_of(next))
}

/// The actions taken from `state` on while the replies of `replies` come
/// in: the one that `state` waits upon, then one for each reply, until the
/// replies or the protocol end.
pub open spec fn actions_from(state: StopState, replies: Seq<Reply>) -> Seq<StopAction>
    decreases replies.len(),
{
    if replies.len() == 0 || is_final(state) {
        seq![pending_action(state)]
    } else {
        seq![pending_action(state)] + actions_from(next_state(state, replies[0]), replies.skip(1))
    }
}

/// The state reached from `state` once the replies of `replies` have come in.
pub open spec fn state_after(state: StopState, replies: Seq<Reply>) -> StopState
    decreases replies.len(),
{
    if replies.len() == 0 {
        state
    } else {
        state_after(next_state(state, replies[0]), replies.skip(1))
    }
}

/// How many of `actions` are kills.
pub open spec fn kill_count(actions: Seq<StopAction>) -> nat
    decreases actions.len(),
{
    if actions.len() == 0 {
        0
    } else {
        (if actions[0] is Kill {
            1nat
        } else {
            0nat
        }) + kill_count(actions.skip(1))
    }
}

/// The kills that may still be issued from `state` on.
pub open spec fn kills_left(state: StopState) -> nat {
    match state {
        StopState::Stopping => 2,
        StopState::Killing => 2,
        StopState::Retrying { .. } => 1,
        _ => 0,
    }
}

/// From any state on, no more kills are issued than the state leaves room
/// for, whatever the runtime answers.
pub proof fn lemma_kills_bounded_from(state: StopState, replies: Seq<Reply>)
    ensures
        kill_count(actions_from(state, replies)) <= kills_left(state),
        state is Stopping ==> kill_count(actions_from(state, replies)) <= 2,
    decreases replies.len(),
{
    let first = seq![pending_action(state)];
    assert(kill_count(Seq::<StopAction>::empty()) == 0);
    if replies.len() == 0 || is_final(state) {
        assert(first.skip(1) =~= Seq::<StopAction>::empty());
    } else {
        let next = next_state(state, replies[0]);
        let rest = actions_from(next, replies.skip(1));
        lemma_kills_bounded_from(next, replies.skip(1));
        assert((first + rest).skip(1) =~= rest);
        assert((first + rest)[0] == pending_action(state));
    }
}

/// From the start of the protocol at most two kills are issued, whatever
/// the runtime answers: the kill and its one retry.
pub proof fn lemma_at_most_two_kills(replies: Seq<Reply>)
    ensures
        kill_count(actions_from(StopState::Stopping, replies)) <= 2,
{
    lemma_kills_bounded_from(StopState::Stopping, replies);
}

/// A graceful stop that exceeds its bound is answered by one kill, at once.
/// Whatever the runtime answers from then on, at most one more kill follows.
pub proof fn lemma_timeout_escalates_once(replies: Seq<Reply>)
    ensures
        next_state(StopState::Stopping, Reply::TimedOut) == StopState::Killing,
        pending_action(StopState::Killing) == (StopAction::Kill { delay_millis: 0 }),
        kill_count(actions_from(StopState::Killing, replies)) <= 2,
        replies.len() > 0 ==> kill_count(
            actions_from(next_state(StopState::Killing, replies[0]), replies.skip(1)),
        ) <= 1,
{
    lemma_kills_bounded_from(StopState::Killing, replies);
    if replies.len() > 0 {
        lemma_kills_bounded_from(next_state(StopState::Killing, replies[0]), replies.skip(1));
    }
}

/// A kill that fails is tried again exactly once, after the fixed pause,
/// and whatever that retry brings no further kill is issued: what follows
/// is the removal or the end of the protocol, and the removal ends it too.
pub proof fn lemma_failed_kill_retried_once(first: Reply, second: Reply, third: Reply)
    requires
        first is Failed || first is TimedOut,
    ensures
        next_state(StopState::Killing, first) is Retrying,
        pending_action(next_state(StopState::Killing, first)) == (StopAction::Kill {
            delay_millis: KILL_RETRY_DELAY_MILLIS,
        }),
        !(pending_action(next_state(next_state(StopState::Killing, first), second)) is Kill),
        is_final(next_state(next_state(next_state(StopState::Killing, first), second), third)),
{
}

/// The protocol is over after four replies at the latest: to the stop, the
/// kill, the retry and the removal.
pub proof fn lemma_protocol_ends(replies: Seq<Reply>)
    requires
        replies.len() >= 4,
    ensures
        is_final(state_after(StopState::Stopping, replies)),
{
    let s1 = next_state(StopState::Stopping, replies[0]);
    let r1 = replies.skip(1);
    let s2 = next_state(s1, r1[0]);
    let r2 = r1.skip(1);
    let s3 = next_state(s2, r2[0]);
    let r3 = r2.skip(1);
    let s4 = next_state(s3, r3[0]);
    assert(is_final(s4));
    lemma_final_state_stays(s4, r3.skip(1));
    assert(state_after(s3, r3) == state_after(s4, r3.skip(1)));
    assert(state_after(s2, r2) == state_after(s3, r3));
    assert(state_after(s1, r1) == state_after(s2, r2));
    assert(state_after(StopState::Stopping, replies) == state_after(s1, r1));
}

/// Once the protocol is over no reply changes its state.
pub proof fn lemma_final_state_stays(state: StopState, replies: Seq<Reply>)
    requires
        is_final(state),
    ensures
        state_after(state, replies) == state,
    decreases replies.len(),
{
    if replies.len() > 0 {
        lemma_final_state_stays(next_state(state, replies[0]), replies.skip(1));
    }
}

} // verus!
