//! One iteration of the main loop: drain the pending notifications through
//! the window state machine, stopping as soon as the running condition falls,
//! then poll every controller slot once. The caller performs the returned
//! actions afterwards, outside the dispatch, and re-enters only while the
//! running condition still holds.

use vstd::prelude::*;

verus! {

use crate::input::ControllerSample;
use crate::input::MAX_CONTROLLER_SLOTS;
use crate::input::SlotStatus;
use crate::input::poll_all;
use crate::input::spec_slot_status;
use crate::machine::Action;
use crate::machine::LoopState;
use crate::machine::Notification;
use crate::machine::lemma_only_close_stops_running;
use crate::machine::spec_step;
use crate::machine::step;

/// The drain of one iteration: apply pending notifications in order while the
/// running condition holds; once it falls (or the queue is exhausted) nothing
/// further is dispatched. Returns the resulting state and the actions owed,
/// one per dispatched notification, in dispatch order.
pub open spec fn spec_drain(s: LoopState, msgs: Seq<Notification>) -> (LoopState, Seq<Action>)
    decreases msgs.len(),
{
    if msgs.len() == 0 || !s.running {
        (s, Seq::empty())
    } else {
        let first = spec_step(s, msgs[0]);
        let rest = spec_drain(first.0, msgs.subrange(1, msgs.len() as int));
        (rest.0, seq![first.1] + rest.1)
    }
}

/// Everything one loop iteration produces: the state to carry forward, the
/// actions owed for the dispatched notifications, and the controller statuses
/// of this iteration's poll.
pub struct IterationOutcome {
    pub state: LoopState,
    pub actions: Vec<Action>,
    pub controllers: Vec<SlotStatus>,
}

/// Run one loop iteration: drain `pending` through the state machine, then
/// poll all controller slots. `controller_reads` holds what the per-slot
/// platform queries returned for this iteration.
pub fn run_iteration(
    state: LoopState,
    pending: &Vec<Notification>,
    controller_reads: &Vec<Option<ControllerSample>>,
) -> (r: IterationOutcome)
    requires
        state.wf(),
    ensures
        r.state == spec_drain(state, pending@).0,
        r.state.wf(),
        r.actions@ == spec_drain(state, pending@).1,
        r.controllers@.len() == MAX_CONTROLLER_SLOTS,
        forall|i: int|
            0 <= i < MAX_CONTROLLER_SLOTS ==> r.controllers@[i] == spec_slot_status(
                controller_reads@,
                i,
            ),
        !state.running ==> r.state == state && r.actions@.len() == 0,
{
    let mut current: LoopState = state;
    let mut actions: Vec<Action> = Vec::new();
    let mut idx: usize = 0;
    proof {
        assert(pending@.skip(0) =~= pending@);
        assert(Seq::<Action>::empty() + spec_drain(state, pending@).1 =~= spec_drain(
            state,
            pending@,
        ).1);
    }
    while idx < pending.len() && current.running
        invariant
            current.wf(),
            idx <= pending@.len(),
            spec_drain(state, pending@).0 == spec_drain(current, pending@.skip(idx as int)).0,
            spec_drain(state, pending@).1 == actions@ + spec_drain(
                current,
                pending@.skip(idx as int),
            ).1,
        decreases pending@.len() - idx,
    {
        let n: Notification = pending[idx];
        let next: (LoopState, Action) = step(current, n);
        proof {
            let rest = pending@.skip(idx as int);
            assert(rest[0] == pending@[idx as int]);
            assert(rest.subrange(1, rest.len() as int) =~= pending@.skip(idx as int + 1));
            assert(spec_drain(current, rest).1 == seq![next.1] + spec_drain(
                next.0,
                pending@.skip(idx as int + 1),
            ).1);
            assert(actions@ + spec_drain(current, rest).1 =~= (actions@ + seq![next.1])
                + spec_drain(next.0, pending@.skip(idx as int + 1)).1);
            assert(actions@.push(next.1) =~= actions@ + seq![next.1]);
        }
        actions.push(next.1);
        current = next.0;
        idx = idx + 1;
    }
    proof {
        let rest = pending@.skip(idx as int);
        if current.running {
            assert(idx == pending@.len());
            assert(rest.len() == 0);
        }
        assert(spec_drain(current, rest).0 == current);
        assert(spec_drain(current, rest).1 == Seq::<Action>::empty());
        assert(actions@ + Seq::<Action>::empty() =~= actions@);
        if !state.running {
            assert(spec_drain(state, pending@).0 == state);
            assert(spec_drain(state, pending@).1 == Seq::<Action>::empty());
        }
    }
    let controllers: Vec<SlotStatus> = poll_all(controller_reads, MAX_CONTROLLER_SLOTS);
    IterationOutcome { state: current, actions, controllers }
}

/// A close request issued while the running condition is true clears the
/// condition before the next drain iteration could begin, and nothing queued
/// after it is dispatched: the drained action sequence ends exactly at the
/// close acknowledgement, so in particular no paint is dispatched after a
/// close.
pub proof fn lemma_close_stops_dispatch(s: LoopState, msgs: Seq<Notification>, i: int)
    requires
        s.wf(),
        s.running,
        0 <= i < msgs.len(),
        msgs[i] is CloseRequest,
        forall|j: int| 0 <= j < i ==> !(msgs[j] is CloseRequest),
    ensures
        !spec_drain(s, msgs).0.running,
        spec_drain(s, msgs).0.wf(),
        spec_drain(s, msgs).1.len() == i + 1,
        spec_drain(s, msgs).1[i] is Acknowledge,
    decreases i,
{
    let first = spec_step(s, msgs[0]);
    let tail = msgs.subrange(1, msgs.len() as int);
    if i == 0 {
        assert(!first.0.running);
        assert(spec_drain(first.0, tail).1.len() == 0);
    } else {
        lemma_only_close_stops_running(s, msgs[0]);
        assert(tail[i - 1] == msgs[i]);
        assert forall|j: int| 0 <= j < i - 1 implies !(tail[j] is CloseRequest) by {
            assert(tail[j] == msgs[j + 1]);
        }
        lemma_close_stops_dispatch(first.0, tail, i - 1);
    }
}

} // verus!
