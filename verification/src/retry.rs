//! Sending a request a second time.

use vstd::prelude::*;

verus! {

/// How an attempt to send a request ended.
#[derive(Clone, Copy, Debug, PartialEq, Eq, Structural)]
pub enum SendOutcome {
    /// The server answered.
    Answered,
    /// The connection was reset.
    Reset,
    /// Sending failed in another way.
    Failed,
}

/// What follows an attempt.
#[derive(Clone, Copy, Debug, PartialEq, Eq, Structural)]
pub enum SendStep {
    /// The outcome of the attempt is the outcome of the request.
    Return,
    /// The copy of the request is sent.
    Resend,
}

/// A GET request that is sent, with a copy of it where one could be made.
pub struct GetSend {
    spare: bool,
    sends: u8,
}

/// A GET request that is sent.
pub struct SendModel {
    /// There is a copy of the request that was not sent yet.
    pub spare: bool,
    /// How often the request was sent.
    pub sends: nat,
}

impl View for GetSend {
    type V = SendModel;

    closed spec fn view(&self) -> SendModel {
        SendModel { spare: self.spare, sends: self.sends as nat }
    }
}

/// A request that was sent for the first time.
pub open spec fn first_send(spare: bool) -> SendModel {
    SendModel { spare, sends: 1 }
}

/// The copy is sent where the connection was reset and there is a copy.
pub open spec fn send_step(send: SendModel, outcome: SendOutcome) -> SendStep {
    if outcome is Reset && send.spare {
        SendStep::Resend
    } else {
        SendStep::Return
    }
}

/// The request behind an attempt: a copy that is sent is used up.
pub open spec fn after_attempt(send: SendModel, outcome: SendOutcome) -> SendModel {
    match send_step(send, outcome) {
        SendStep::Resend => SendModel { spare: false, sends: send.sends + 1 },
        SendStep::Return => send,
    }
}

/// The request behind a number of attempts.
pub open spec fn after_attempts(send: SendModel, outcomes: Seq<SendOutcome>) -> SendModel
    decreases outcomes.len(),
{
    if outcomes.len() == 0 {
        send
    } else {
        after_attempt(after_attempts(send, outcomes.drop_last()), outcomes.last())
    }
}

impl GetSend {
    #[verifier::type_invariant]
    spec fn bounded(self) -> bool {
        1 <= self.sends <= 2 && (self.spare ==> self.sends == 1)
    }

    /// Decides after an attempt.
    pub fn after(&mut self, outcome: SendOutcome) -> (step: SendStep)
        ensures
            step == send_step(old(self)@, outcome),
            final(self)@ == after_attempt(old(self)@, outcome),
            1 <= final(self)@.sends <= 2,
    {
        proof {
            use_type_invariant(&*self);
        }
        if self.spare && outcome == SendOutcome::Reset {
            *self = GetSend { spare: false, sends: 2 };
            SendStep::Resend
        } else {
            SendStep::Return
        }
    }

    /// How often the request was sent so far.
    pub fn count(&self) -> (n: u8)
        ensures
            n == self@.sends,
            1 <= n <= 2,
    {
        proof {
            use_type_invariant(self);
        }
        self.sends
    }
}

/// Sends a GET request for the first time, with or without a copy to send
/// again.
pub fn send_get_with_connection_reset_retry(spare: bool) -> (send: GetSend)
    ensures
        send@ == first_send(spare),
{
    GetSend { spare, sends: 1 }
}

/// A GET request is sent once, or twice if a connection was reset and there was
/// a copy, whatever becomes of the attempts.
pub proof fn law_gets_are_sent_twice_at_most(spare: bool, outcomes: Seq<SendOutcome>)
    ensures
        1 <= after_attempts(first_send(spare), outcomes).sends <= 2,
        after_attempts(first_send(spare), outcomes).sends == 2 <==> spare && exists|i: int|
            0 <= i < outcomes.len() && outcomes[i] is Reset,
        after_attempts(first_send(spare), outcomes).spare <==> spare && after_attempts(
            first_send(spare),
            outcomes,
        ).sends == 1,
    decreases outcomes.len(),
{
    if outcomes.len() > 0 {
        let front = outcomes.drop_last();
        law_gets_are_sent_twice_at_most(spare, front);
        assert forall|i: int| 0 <= i < front.len() && front[i] is Reset implies outcomes[i] is Reset by {}
        if outcomes.last() is Reset {
            assert(outcomes[outcomes.len() - 1] is Reset);
        }
        if exists|i: int| 0 <= i < outcomes.len() && outcomes[i] is Reset {
            let i = choose|i: int| 0 <= i < outcomes.len() && outcomes[i] is Reset;
            if i < front.len() {
                assert(front[i] is Reset);
            }
        }
    }
}

/// A request is sent again if and only if the connection was reset while there
/// was a copy of it, and then the copy is gone; after any other outcome nothing
/// changes.
pub proof fn law_resets_are_answered_with_the_copy(send: SendModel, outcome: SendOutcome)
    ensures
        ({
            let again = send.spare && outcome == SendOutcome::Reset;
            let next = after_attempt(send, outcome);
            &&& send_step(send, outcome) == SendStep::Resend <==> again
            &&& again ==> !next.spare && next.sends == send.sends + 1
            &&& !again ==> next == send
        }),
{
}

/// A request starts out as sent once, with the copy that could be made of it.
pub proof fn law_requests_start_out_sent_once(spare: bool)
    ensures
        first_send(spare).sends == 1,
        first_send(spare).spare == spare,
{
}

} // verus!
