//! Session establishment: a session is opened, and its shell started, only
//! for an unexpired token and with terminal access switched on.
use vstd::prelude::*;
use crate::auth::{check_claims, claims_view, credential_outcome, hs256_claims, verify_credential, Claims};
use crate::config::{check_capability, AppConfig};
use crate::error::BridgeError;
use crate::session::{initial_session, step_spec, Action, ActionView, EventView, TerminalSession, DEFAULT_COLS, DEFAULT_ROWS};

verus! {

/// The query string of a terminal connection: the credential token.
#[derive(Clone, Debug, PartialEq, Eq)]
pub struct WsQuery {
    pub token: String,
}

/// The credential is checked first, then the capability flag; the admitted
/// subject comes back.
pub open spec fn admission(decoded: Option<(Seq<char>, int, int)>, now: u64, developer_mode: bool) -> Result<
    Seq<char>,
    BridgeError,
> {
    match credential_outcome(decoded, now) {
        Ok(sub) => if developer_mode {
            Ok(sub)
        } else {
            Err(BridgeError::CapabilityDenied)
        },
        Err(e) => Err(e),
    }
}

/// What opening a session yields: a fresh session and the order to start
/// its shell at the default geometry, or the reason for refusal.
pub open spec fn opening(decoded: Option<(Seq<char>, int, int)>, now: u64, developer_mode: bool, r: Result<(TerminalSession, Action), BridgeError>) -> bool {
    match r {
        Ok((s, a)) => admission(decoded, now, developer_mode) is Ok && s == initial_session()
            && a@ == (ActionView::Spawn { cols: DEFAULT_COLS, rows: DEFAULT_ROWS }),
        Err(e) => admission(decoded, now, developer_mode) == Err::<Seq<char>, BridgeError>(e),
    }
}

/// Opens a session for already decoded claims.
pub fn open_session_with(decoded: Option<Claims>, now: u64, config: &AppConfig) -> (r: Result<(TerminalSession, Action), BridgeError>)
    ensures
        opening(claims_view(decoded), now, config.developer_mode, r),
{
    match check_claims(decoded, now) {
        Err(e) => Err(e),
        Ok(_) => match check_capability(config) {
            Err(e) => Err(e),
            Ok(()) => Ok((TerminalSession::new(), Action::Spawn { cols: DEFAULT_COLS, rows: DEFAULT_ROWS })),
        },
    }
}

/// Opens a session for a connection whose query carries a token signed under
/// `secret`, at time `now`.
pub fn open_session(query: &WsQuery, secret: &[u8], now: u64, config: &AppConfig) -> (r: Result<(TerminalSession, Action), BridgeError>)
    ensures
        opening(hs256_claims(query.token@, secret@), now, config.developer_mode, r),
{
    match verify_credential(query.token.as_str(), secret, now) {
        Err(e) => Err(e),
        Ok(_) => match check_capability(config) {
            Err(e) => Err(e),
            Ok(()) => Ok((TerminalSession::new(), Action::Spawn { cols: DEFAULT_COLS, rows: DEFAULT_ROWS })),
        },
    }
}

/// Capability: with terminal access switched off no session is opened,
/// however valid the token, and no event of any session ever orders a
/// shell started; so no pseudo-terminal is spawned.
pub proof fn capability_off_never_spawns(
    decoded: Option<(Seq<char>, int, int)>,
    now: u64,
    s: TerminalSession,
    e: EventView,
)
    ensures
        admission(decoded, now, false) is Err,
        forall|i: int| 0 <= i < step_spec(s, e).1.len() ==> !(#[trigger] step_spec(s, e).1[i] is Spawn),
{
}

} // verus!
