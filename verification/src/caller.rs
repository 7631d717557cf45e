//! The unprivileged caller's end of the channel to the agent.

use crate::agent::{reply_of, reply_view};
use crate::error::{Error, ErrorView, message_of};
use crate::plan::result_view;
use vstd::prelude::*;

verus! {

/// What an invocation through the agent comes to, for the agent's reply.
pub open spec fn remote_outcome_of(reply: Result<(), Seq<char>>) -> Result<(), ErrorView> {
    match reply {
        Ok(_) => Ok(()),
        Err(text) => Err(ErrorView::Anyhow(text)),
    }
}

/// What an invocation through the agent comes to: the agent's success is the
/// caller's, and a failure that the agent reports becomes a failure of the
/// caller with the same words.
pub fn remote_outcome(reply: Result<(), String>) -> (outcome: Result<(), Error>)
    ensures
        result_view(outcome) == remote_outcome_of(reply_view(reply)),
{
    match reply {
        Ok(_) => Ok(()),
        Err(text) => Err(Error::Anyhow(text)),
    }
}

/// The caller learns what the agent learned: a success as a success, a
/// failure as a failure with the same message.
pub proof fn law_failure_crosses_the_channel(result: Result<(), ErrorView>)
    ensures
        result is Ok <==> remote_outcome_of(reply_of(result)) is Ok,
        result matches Err(e) ==> remote_outcome_of(reply_of(result)) matches Err(seen)
            && message_of(seen) == message_of(e),
{
}

} // verus!
