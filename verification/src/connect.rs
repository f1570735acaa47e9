//! The decision kernel of the node-connection loop.
//!
//! The host connects to its backing blockchain node and polls it for
//! readiness; the node answers each probe with "ready", with a
//! warming-up error, or with some other failure. What to do with each
//! answer is decided here, so the loop around the network calls carries
//! no policy of its own.

use vstd::prelude::*;

verus! {

/// Error code with which the node reports that it is still warming up.
pub const WARMUP_ERROR_CODE: i32 = 28;

/// What the connection loop does after one readiness probe.
#[derive(Clone, Copy, PartialEq, Eq, Structural, Debug)]
pub enum ConnectAction {
    /// The node answered: keep this connection and stop probing.
    Accept,
    /// The node is warming up: probe again after a pause.
    RetryLater,
    /// The node failed in some other way: give the connection up.
    Abort,
}

/// Decides the next move of the connection loop from one readiness
/// probe: `probe_ok` says whether the node answered, and `error_code`
/// carries the node's error code when it did not (`None` when the
/// failure carried no such code).
pub fn connect_decision(probe_ok: bool, error_code: Option<i32>) -> (a: ConnectAction)
    ensures
        a == (if probe_ok {
            ConnectAction::Accept
        } else if error_code == Some(WARMUP_ERROR_CODE) {
            ConnectAction::RetryLater
        } else {
            ConnectAction::Abort
        }),
{
    if probe_ok {
        ConnectAction::Accept
    } else {
        match error_code {
            Option::Some(code) => {
                if code == WARMUP_ERROR_CODE {
                    ConnectAction::RetryLater
                } else {
                    ConnectAction::Abort
                }
            },
            Option::None => ConnectAction::Abort,
        }
    }
}

} // verus!
