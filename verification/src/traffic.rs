//! All calls on a client together: what its count of requests under way is made
//! of.

use vstd::prelude::*;
use crate::chain::{is_in_flight, FetchModel};
use crate::client::{counted, idle_client, ClientModel, ConfigModel};
use crate::laws::once;
use crate::single::{SingleModel, StartModel};

verus! {

/// How far a single request has come.
pub enum SingleStage {
    /// It has started: it was answered, refused, or is to be sent.
    Started(StartModel),
    /// The server has answered, and the body is to be read.
    Answered(SingleModel),
    /// It has ended.
    Ended,
}

/// A call on the client.
pub enum CallModel {
    Fetch(FetchModel),
    Single(SingleStage),
}

/// The call has a request under way.
pub open spec fn call_in_flight(call: CallModel) -> bool {
    match call {
        CallModel::Fetch(state) => is_in_flight(state),
        CallModel::Single(SingleStage::Started(start)) => start is Send,
        CallModel::Single(SingleStage::Answered(_)) => true,
        CallModel::Single(SingleStage::Ended) => false,
    }
}

/// The call has returned.
pub open spec fn call_over(call: CallModel) -> bool {
    match call {
        CallModel::Fetch(state) => state is Done || state is File,
        CallModel::Single(SingleStage::Started(start)) => !(start is Send),
        CallModel::Single(SingleStage::Answered(_)) => false,
        CallModel::Single(SingleStage::Ended) => true,
    }
}

/// A client and the calls that were made on it.
pub struct Traffic {
    pub client: ClientModel,
    pub calls: Seq<CallModel>,
}

/// What happens on a client.
pub enum TrafficStep {
    /// A call is made.
    Begin(CallModel),
    /// A call goes on, or returns.
    Advance { call: int, to: CallModel },
}

/// Only calls that were made go on.
pub open spec fn can_step(traffic: Traffic, step: TrafficStep) -> bool {
    match step {
        TrafficStep::Begin(_) => true,
        TrafficStep::Advance { call, .. } => 0 <= call < traffic.calls.len(),
    }
}

/// A step of a call, and the count that goes with it.
pub open spec fn after_step(traffic: Traffic, step: TrafficStep) -> Traffic {
    match step {
        TrafficStep::Begin(to) => Traffic {
            client: counted(traffic.client, false, call_in_flight(to)),
            calls: traffic.calls.push(to),
        },
        TrafficStep::Advance { call, to } => Traffic {
            client: counted(
                traffic.client,
                call_in_flight(traffic.calls[call]),
                call_in_flight(to),
            ),
            calls: traffic.calls.update(call, to),
        },
    }
}

/// The traffic behind a number of steps, of as many calls as there are, in
/// whatever order.
pub open spec fn after_steps(traffic: Traffic, steps: Seq<TrafficStep>) -> Traffic
    decreases steps.len(),
{
    if steps.len() == 0 {
        traffic
    } else {
        after_step(after_steps(traffic, steps.drop_last()), steps.last())
    }
}

/// Every step is one that can be taken.
pub open spec fn can_take(traffic: Traffic, steps: Seq<TrafficStep>) -> bool
    decreases steps.len(),
{
    steps.len() > 0 ==> can_take(traffic, steps.drop_last()) && can_step(
        after_steps(traffic, steps.drop_last()),
        steps.last(),
    )
}

/// A new client on which no call was made.
pub open spec fn no_traffic(config: ConfigModel) -> Traffic {
    Traffic { client: idle_client(config), calls: Seq::empty() }
}

/// How many of the calls have a request under way.
pub open spec fn pending(calls: Seq<CallModel>) -> nat
    decreases calls.len(),
{
    if calls.len() == 0 {
        0
    } else {
        pending(calls.drop_last()) + once(call_in_flight(calls.last()))
    }
}

proof fn lemma_pending_update(calls: Seq<CallModel>, i: int, to: CallModel)
    requires
        0 <= i < calls.len(),
    ensures
        pending(calls.update(i, to)) + once(call_in_flight(calls[i])) == pending(calls) + once(
            call_in_flight(to),
        ),
    decreases calls.len(),
{
    let next = calls.update(i, to);
    if i < calls.len() - 1 {
        assert(next.drop_last() =~= calls.drop_last().update(i, to));
        lemma_pending_update(calls.drop_last(), i, to);
    } else {
        assert(next.drop_last() =~= calls.drop_last());
    }
}

proof fn lemma_pending_none(calls: Seq<CallModel>)
    requires
        forall|i: int| 0 <= i < calls.len() ==> call_over(#[trigger] calls[i]),
    ensures
        pending(calls) == 0,
    decreases calls.len(),
{
    if calls.len() > 0 {
        let front = calls.drop_last();
        assert forall|i: int| 0 <= i < front.len() implies call_over(#[trigger] front[i]) by {
            assert(front[i] == calls[i]);
        }
        lemma_pending_none(front);
        assert(call_over(calls[calls.len() - 1]));
    }
}

/// The count of a client is the number of its calls that have a request under
/// way, modulo its width, however its calls interleave and however many were
/// made.
pub proof fn law_count_is_the_pending_calls(config: ConfigModel, steps: Seq<TrafficStep>)
    requires
        can_take(no_traffic(config), steps),
    ensures
        ({
            let traffic = after_steps(no_traffic(config), steps);
            &&& traffic.client.in_flight == pending(traffic.calls) % 0x1_0000_0000
            &&& pending(traffic.calls) <= u32::MAX ==> traffic.client.in_flight == pending(
                traffic.calls,
            )
        }),
    decreases steps.len(),
{
    if steps.len() > 0 {
        let before = after_steps(no_traffic(config), steps.drop_last());
        law_count_is_the_pending_calls(config, steps.drop_last());
        match steps.last() {
            TrafficStep::Begin(to) => {
                assert(before.calls.push(to).drop_last() =~= before.calls);
            },
            TrafficStep::Advance { call, to } => {
                lemma_pending_update(before.calls, call, to);
            },
        }
    }
}

/// When every call that was made on a client has returned, however it ended, no
/// request is counted as under way: the network is idle.
pub proof fn law_returned_calls_leave_the_network_idle(
    config: ConfigModel,
    steps: Seq<TrafficStep>,
)
    requires
        can_take(no_traffic(config), steps),
        forall|i: int|
            0 <= i < after_steps(no_traffic(config), steps).calls.len() ==> call_over(
                #[trigger] after_steps(no_traffic(config), steps).calls[i],
            ),
    ensures
        after_steps(no_traffic(config), steps).client.in_flight == 0,
{
    law_count_is_the_pending_calls(config, steps);
    lemma_pending_none(after_steps(no_traffic(config), steps).calls);
}

} // verus!
