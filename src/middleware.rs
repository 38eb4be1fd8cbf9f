//! Request authorization for the management endpoints: a few paths are open, every
//! other request needs a bearer token that the credential verifier admits.
use vstd::prelude::*;
use crate::auth::{credential_outcome, hs256_claims, verify_credential};
use crate::text::{same_text, char_seqs, chars_of, string_of, text_view, words, words_of};

verus! {

pub const BEARER_SCHEME: &'static str = "Bearer";

pub const AUTH_STATUS_PATH: &'static str = "/api/auth/status";

pub const AUTH_LOGIN_PATH: &'static str = "/api/auth/login";

pub const SETUP_INIT_PATH: &'static str = "/api/auth/setup/init";

pub const SETUP_CONFIRM_PATH: &'static str = "/api/auth/setup/confirm";

pub const HEALTH_PATH: &'static str = "/api/health";

/// The terminal endpoint checks its token itself, from the query string.
pub const TERMINAL_PATH: &'static str = "/api/terminal/ws";

/// The paths a request may reach without a token.
pub open spec fn is_open_path(p: Seq<char>) -> bool {
    p == AUTH_STATUS_PATH@ || p == AUTH_LOGIN_PATH@ || p == SETUP_INIT_PATH@ || p
        == SETUP_CONFIRM_PATH@ || p == HEALTH_PATH@ || p == TERMINAL_PATH@
}

/// The token of an `Authorization` header of exactly two words, the first
/// `Bearer`; empty otherwise, and when there is no readable header.
pub open spec fn bearer(header: Option<Seq<char>>) -> Seq<char> {
    match header {
        Some(h) => {
            let w = words(h);
            if w.len() == 2 && w[0] == BEARER_SCHEME@ {
                w[1]
            } else {
                seq![]
            }
        },
        None => seq![],
    }
}

#[derive(PartialEq, Eq, Structural, Clone, Copy, Debug)]
pub enum Verdict {
    /// The request goes on to its handler.
    Pass,
    /// Refused: no bearer token.
    MissingToken,
    /// Refused: the token is not admitted.
    InvalidToken,
}

pub open spec fn verdict(path: Seq<char>, header: Option<Seq<char>>, secret: Seq<u8>, now: u64) -> Verdict {
    if is_open_path(path) {
        Verdict::Pass
    } else if bearer(header).len() == 0 {
        Verdict::MissingToken
    } else if credential_outcome(hs256_claims(bearer(header), secret), now) is Ok {
        Verdict::Pass
    } else {
        Verdict::InvalidToken
    }
}

pub fn is_public_path(path: &str) -> (r: bool)
    ensures
        r == is_open_path(path@),
{
    same_text(path, AUTH_STATUS_PATH) || same_text(path, AUTH_LOGIN_PATH) || same_text(
        path,
        SETUP_INIT_PATH,
    ) || same_text(path, SETUP_CONFIRM_PATH) || same_text(path, HEALTH_PATH) || same_text(
        path,
        TERMINAL_PATH,
    )
}

/// Reads the bearer token of an `Authorization` header.
pub fn bearer_token(header: Option<&str>) -> (r: String)
    ensures
        r@ == bearer(text_view(header)),
{
    match header {
        Some(h) => {
            let w = words_of(&chars_of(h));
            assert(char_seqs(w@).len() == w@.len());
            if w.len() == 2 {
                assert(char_seqs(w@)[0] == w@[0]@);
                assert(char_seqs(w@)[1] == w@[1]@);
                let scheme = string_of(&w[0]);
                if same_text(scheme.as_str(), BEARER_SCHEME) {
                    return string_of(&w[1]);
                }
            }
            String::new()
        },
        None => String::new(),
    }
}

/// Decides whether a request to `path` with this `Authorization` header may
/// go on, for tokens signed under `secret`, at time `now`.
pub fn authorize(path: &str, header: Option<&str>, secret: &[u8], now: u64) -> (r: Verdict)
    ensures
        r == verdict(path@, text_view(header), secret@, now),
{
    if is_public_path(path) {
        return Verdict::Pass;
    }
    let token = bearer_token(header);
    if token.as_str().is_empty() {
        return Verdict::MissingToken;
    }
    match verify_credential(token.as_str(), secret, now) {
        Ok(_) => Verdict::Pass,
        Err(_) => Verdict::InvalidToken,
    }
}

} // verus!
