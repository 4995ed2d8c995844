//! GitHub sign-in through the OAuth device flow: the records exchanged and
//! what each answer of the token endpoint means.

use crate::text::{push_str, str_eq};
use vstd::prelude::*;

verus! {

#[derive(Debug, Clone)]
pub struct GitHubUser {
    pub id: i64,
    pub login: String,
    pub name: Option<String>,
    pub avatar_url: String,
}

#[derive(Debug, Clone)]
pub struct AuthResult {
    pub user: GitHubUser,
    pub access_token: String,
}

#[derive(Debug, Clone)]
pub struct DeviceFlowResponse {
    pub device_code: String,
    pub user_code: String,
    pub verification_uri: String,
    pub expires_in: i32,
    pub interval: i32,
}

/// The page where the user enters the code, with the code filled in.
pub open spec fn verification_url_spec(uri: Seq<char>, user_code: Seq<char>) -> Seq<char> {
    uri + "?user_code="@ + user_code
}

pub fn verification_url(device: &DeviceFlowResponse) -> (r: String)
    ensures
        r@ == verification_url_spec(device.verification_uri@, device.user_code@),
{
    let mut r = String::new();
    push_str(&mut r, device.verification_uri.as_str());
    push_str(&mut r, "?user_code=");
    push_str(&mut r, device.user_code.as_str());
    r
}

/// What to do after one answer of the token endpoint.
#[derive(Debug, Clone)]
pub enum PollStep {
    /// The user authorized the device: the access token.
    Token(String),
    /// Ask again after the usual interval.
    Wait,
    /// Ask again after the usual interval and five more seconds.
    WaitLonger,
    /// Stop with this error.
    Fail(String),
}

/// Extra seconds to wait when the endpoint asks to slow down.
pub const SLOW_DOWN_SECONDS: u64 = 5;

/// A token wins; otherwise the error code decides: pending (or no code)
/// waits, `slow_down` waits longer, `expired_token` and `access_denied`
/// fail with their own message, any other code fails naming it.
pub open spec fn poll_step_spec(access_token: Option<Seq<char>>, error: Option<Seq<char>>) -> (PollStepKind, Seq<char>) {
    match access_token {
        Some(t) => (PollStepKind::Token, t),
        None => match error {
            None => (PollStepKind::Wait, Seq::empty()),
            Some(e) => if e == "authorization_pending"@ {
                (PollStepKind::Wait, Seq::empty())
            } else if e == "slow_down"@ {
                (PollStepKind::WaitLonger, Seq::empty())
            } else if e == "expired_token"@ {
                (PollStepKind::Fail, "Device code expired"@)
            } else if e == "access_denied"@ {
                (PollStepKind::Fail, "Access denied by user"@)
            } else {
                (PollStepKind::Fail, "OAuth error: "@ + e)
            },
        },
    }
}

/// The variants of `PollStep`, for contracts.
#[derive(Debug, Clone, Copy, PartialEq, Eq, Structural)]
pub enum PollStepKind {
    Token,
    Wait,
    WaitLonger,
    Fail,
}

pub open spec fn step_view(s: PollStep) -> (PollStepKind, Seq<char>) {
    match s {
        PollStep::Token(t) => (PollStepKind::Token, t@),
        PollStep::Wait => (PollStepKind::Wait, Seq::empty()),
        PollStep::WaitLonger => (PollStepKind::WaitLonger, Seq::empty()),
        PollStep::Fail(m) => (PollStepKind::Fail, m@),
    }
}

pub open spec fn opt_view(o: Option<String>) -> Option<Seq<char>> {
    match o {
        Some(s) => Some(s@),
        None => None,
    }
}

/// Decides what one answer of the token endpoint means.
pub fn poll_step(access_token: Option<String>, error: Option<String>) -> (r: PollStep)
    ensures
        step_view(r) == poll_step_spec(opt_view(access_token), opt_view(error)),
{
    proof {
        reveal_strlit("authorization_pending");
        reveal_strlit("slow_down");
        reveal_strlit("expired_token");
        reveal_strlit("access_denied");
    }
    match access_token {
        Some(t) => PollStep::Token(t),
        None => match error {
            None => PollStep::Wait,
            Some(e) => {
                let code = e.as_str();
                if str_eq(code, "authorization_pending") {
                    PollStep::Wait
                } else if str_eq(code, "slow_down") {
                    PollStep::WaitLonger
                } else if str_eq(code, "expired_token") {
                    PollStep::Fail("Device code expired".to_string())
                } else if str_eq(code, "access_denied") {
                    PollStep::Fail("Access denied by user".to_string())
                } else {
                    let mut m = String::new();
                    push_str(&mut m, "OAuth error: ");
                    push_str(&mut m, code);
                    PollStep::Fail(m)
                }
            },
        },
    }
}

/// Polling never ends with a token that the endpoint did not give, and a
/// failure is always final: only the two waiting answers ask again.
pub proof fn lemma_poll_token_only_from_endpoint(access_token: Option<Seq<char>>, error: Option<Seq<char>>)
    ensures
        poll_step_spec(access_token, error).0 == PollStepKind::Token <==> access_token is Some,
        poll_step_spec(access_token, error).0 == PollStepKind::Token ==> poll_step_spec(access_token, error).1
            == access_token->0,
        access_token is None && error is None ==> poll_step_spec(access_token, error).0 == PollStepKind::Wait,
{
}

} // verus!
