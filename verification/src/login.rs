//! The agent's login: how long it polls the authorization service, and what it
//! makes of each answer.

use vstd::prelude::*;
use vstd::string::StringExecFns;
use vstd::utf8::{decode_utf8, encode_utf8, is_char_boundary, is_continuation_byte, valid_utf8};
use crate::protocol::same_text;

verus! {

/// What the authorization service answers to the start of a login.
#[derive(Debug)]
pub struct DeviceCodeResponse {
    pub device_code: String,
    pub user_code: String,
    pub verification_uri: String,
    /// Seconds until the codes expire.
    pub expires_in: u32,
    /// Seconds between two polls.
    pub interval: u32,
}

/// What the authorization service answers to a poll.
#[derive(Debug)]
pub enum DevicePollResponse {
    /// The user agreed.
    Success { auth_token: String },
    /// The user has not agreed: why not, or not yet.
    Pending { error: String },
}

/// What the agent does after a poll.
pub enum PollStep {
    /// The login is done: store the token.
    Done { auth_token: String },
    /// Poll again after the interval; show that the agent waits if `show`.
    Wait { show: bool },
    /// Wait one interval more, then poll again after the interval.
    SlowDown,
    /// Give up with this message.
    Fail { message: String },
}

/// A `PollStep` as mathematical values.
pub enum PollStepView {
    Done { auth_token: Seq<char> },
    Wait { show: bool },
    SlowDown,
    Fail { message: Seq<char> },
}

impl View for PollStep {
    type V = PollStepView;

    open spec fn view(&self) -> PollStepView {
        match self {
            PollStep::Done { auth_token } => PollStepView::Done { auth_token: auth_token@ },
            PollStep::Wait { show } => PollStepView::Wait { show: *show },
            PollStep::SlowDown => PollStepView::SlowDown,
            PollStep::Fail { message } => PollStepView::Fail { message: message@ },
        }
    }
}

/// How many times the agent polls: as often as the interval fits the time until
/// the codes expire.
pub fn max_attempts(response: &DeviceCodeResponse) -> (r: u32)
    requires
        response.interval > 0,
    ensures
        r == response.expires_in / response.interval,
{
    response.expires_in / response.interval
}

/// What the agent does after the answer to poll number `attempt` when the user
/// has not agreed: it goes on while the authorization is pending, showing that
/// it waits at every third poll; it slows down when told to; anything else ends
/// the login.
pub open spec fn pending_step(error: Seq<char>, attempt: u32) -> PollStepView {
    if error == "authorization_pending"@ {
        PollStepView::Wait { show: attempt % 3 == 0 }
    } else if error == "slow_down"@ {
        PollStepView::SlowDown
    } else if error == "access_denied"@ {
        PollStepView::Fail { message: "Login was denied. Please try again."@ }
    } else if error == "expired_token"@ {
        PollStepView::Fail { message: "Login session expired. Please try again."@ }
    } else {
        PollStepView::Fail { message: "Login failed: "@ + error }
    }
}

/// Decides what to do after the answer to poll number `attempt`.
pub fn poll_step(response: DevicePollResponse, attempt: u32) -> (r: PollStep)
    ensures
        r@ == match response {
            DevicePollResponse::Success { auth_token } => PollStepView::Done {
                auth_token: auth_token@,
            },
            DevicePollResponse::Pending { error } => pending_step(error@, attempt),
        },
{
    match response {
        DevicePollResponse::Success { auth_token } => PollStep::Done { auth_token },
        DevicePollResponse::Pending { error } => {
            let e = error.as_str();
            if same_text(e, "authorization_pending") {
                PollStep::Wait { show: attempt % 3 == 0 }
            } else if same_text(e, "slow_down") {
                PollStep::SlowDown
            } else if same_text(e, "access_denied") {
                PollStep::Fail { message: String::from_str("Login was denied. Please try again.") }
            } else if same_text(e, "expired_token") {
                PollStep::Fail {
                    message: String::from_str("Login session expired. Please try again."),
                }
            } else {
                let mut message = String::from_str("Login failed: ");
                message.append(e);
                PollStep::Fail { message }
            }
        },
    }
}

/// The length of `bytes[..end]` without the slashes at its end.
pub open spec fn without_slashes(bytes: Seq<u8>, end: int) -> int
    decreases end,
{
    if end <= 0 || end > bytes.len() {
        0
    } else if bytes[end - 1] == 47 {
        without_slashes(bytes, end - 1)
    } else {
        end
    }
}

/// The address of a service as the agent uses it: without slashes at its end.
pub open spec fn base_of(url: Seq<char>) -> Seq<char> {
    let bytes = encode_utf8(url);
    decode_utf8(bytes.subrange(0, without_slashes(bytes, bytes.len() as int)))
}

/// Drops the slashes at the end of an address.
pub fn base_url(url: &str) -> (r: String)
    ensures
        r@ == base_of(url@),
{
    broadcast use {
        vstd::utf8::encode_utf8_decode_utf8,
        vstd::utf8::encode_utf8_valid_utf8,
        vstd::utf8::is_char_boundary_start_end_of_seq,
        vstd::utf8::is_char_boundary_iff_not_is_continuation_byte,
    };

    let bytes = url.as_bytes();
    let mut end: usize = bytes.len();
    while end > 0 && bytes[end - 1] == 47
        invariant
            end <= bytes.len(),
            forall|k: int| end <= k < bytes@.len() ==> bytes@[k] == 47,
            without_slashes(bytes@, bytes@.len() as int) == without_slashes(bytes@, end as int),
        decreases end,
    {
        end -= 1;
    }
    assert(valid_utf8(bytes@));
    assert(is_char_boundary(bytes@, end as int)) by {
        if end < bytes.len() {
            let b: u8 = bytes@[end as int];
            assert(!is_continuation_byte(b)) by (bit_vector)
                requires
                    b == 47,
            ;
        }
    }
    let (head, _) = url.split_at(end);
    assert(head@ == decode_utf8(encode_utf8(head@)));
    String::from_str(head)
}

} // verus!
