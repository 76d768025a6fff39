//! The adaptation-server response-code state machine: which action each
//! status code selects.

use vstd::prelude::*;

verus! {

/// What the dispatcher decides to do with an adaptation-server reply.
#[derive(Clone, Copy, Debug, PartialEq, Eq, Structural)]
pub enum DispatchDecision {
    /// Code 100: the server wants the remaining body; run the transfer engine.
    ContinueBody,
    /// Code 204: the server left the response unmodified; replay the original.
    Unmodified,
    /// Code 206: partial adaptation, which this client does not implement.
    NotSupported,
    /// Another 2xx code: the server's own response is ready immediately.
    Adapted,
    /// Anything else: a server error.
    ServerError,
}

/// The action each status code selects, stated once for contracts and code.
pub open spec fn spec_dispatch(code: u16) -> DispatchDecision {
    if code == 100 {
        DispatchDecision::ContinueBody
    } else if code == 204 {
        DispatchDecision::Unmodified
    } else if code == 206 {
        DispatchDecision::NotSupported
    } else if 200 <= code < 300 {
        DispatchDecision::Adapted
    } else {
        DispatchDecision::ServerError
    }
}

/// Branch on the adaptation server's status code.
pub fn dispatch_code(code: u16) -> (d: DispatchDecision)
    ensures
        d == spec_dispatch(code),
{
    if code == 100 {
        DispatchDecision::ContinueBody
    } else if code == 204 {
        DispatchDecision::Unmodified
    } else if code == 206 {
        DispatchDecision::NotSupported
    } else if 200 <= code && code < 300 {
        DispatchDecision::Adapted
    } else {
        DispatchDecision::ServerError
    }
}

} // verus!
