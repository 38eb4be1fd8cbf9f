//! Why a terminal connection is refused before it is upgraded. Failures met
//! later reach the session as events: a shell that cannot start or a failed
//! read or write ends it with a `CloseCause`, a refused resize is ignored.
use vstd::prelude::*;

verus! {

#[derive(PartialEq, Eq, Structural, Clone, Copy, Debug)]
pub enum BridgeError {
    /// The token is missing, malformed, wrongly signed or expired.
    Unauthenticated,
    /// Interactive terminal access is switched off.
    CapabilityDenied,
}

} // verus!
