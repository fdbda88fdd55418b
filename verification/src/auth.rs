//! Decisions of Spotify's device authorization flow (RFC 8628): what the
//! authorization reply means, and what to do after each reply of the token
//! endpoint while the user has not yet approved the pairing code.

use vstd::prelude::*;

use crate::text::str_eq;

verus! {

/// The polling interval, in seconds, taken where Spotify's authorization
/// reply names none.
pub fn default_interval() -> (secs: u64)
    ensures
        secs == 5,
{
    5
}

/// Spotify's reply to a device authorization request.
#[derive(Clone, Debug)]
pub struct DeviceAuthResponse {
    /// Internal device code used for token polling
    pub device_code: String,
    /// Short pairing code displayed to the user
    pub user_code: String,
    /// Verification URL (typically `https://spotify.com/pair`)
    pub verification_uri: String,
    /// Direct verification URL including the pre-filled user code
    pub verification_uri_complete: Option<String>,
    /// Lifetime of the authorization code in seconds
    pub expires_in: u64,
    /// Minimum polling interval required by Spotify in seconds
    pub interval: u64,
}

impl DeviceAuthResponse {
    /// The link that the user opens to approve the pairing: the complete
    /// link with the code filled in where Spotify sent one, else the plain
    /// verification link.
    pub fn pairing_link(&self) -> (link: &str)
        ensures
            link@ == match self.verification_uri_complete {
                Some(complete) => complete@,
                None => self.verification_uri@,
            },
    {
        match &self.verification_uri_complete {
            Some(complete) => complete.as_str(),
            None => self.verification_uri.as_str(),
        }
    }
}

/// An HTTP status code in the success class 2xx.
pub open spec fn is_success(status: u16) -> bool {
    200 <= status && status <= 299
}

/// Whether an HTTP status code is in the success class 2xx.
pub fn is_success_status(status: u16) -> (b: bool)
    ensures
        b == is_success(status),
{
    200 <= status && status <= 299
}

/// Why device pairing failed.
#[derive(Debug)]
pub enum PairingError {
    /// The authorization request was answered with a status outside 2xx.
    AuthorizeRejected { status: u16, body: String },
    /// The user did not approve within the code's lifetime, in seconds.
    TimedOut { expires_in: u64 },
    /// The token endpoint's reply could not be read.
    UnreadableTokenReply,
    /// The token endpoint reported success but sent no usable token.
    MalformedToken,
    /// Spotify refused the pairing with this error code.
    Rejected { error: String },
    /// The token endpoint answered with something that is neither a token
    /// nor an error report.
    UnexpectedResponse { status: u16, body: String },
}

/// What one poll of the token endpoint brought back.
pub enum TokenReply {
    /// The request could not be sent or answered.
    NetworkError,
    /// An answer came, but its body could not be read.
    UnreadableBody,
    /// An answer with HTTP `status`; `access_token` is the token where the
    /// body is a token grant, `error` the error code where it is an error
    /// report, and `body` the body as text.
    Response {
        status: u16,
        access_token: Option<String>,
        error: Option<String>,
        body: String,
    },
}

/// Why the poller waits before polling again.
#[derive(Clone, Copy, Debug, PartialEq, Eq, Structural)]
pub enum WaitReason {
    NetworkError,
    AuthorizationPending,
    SlowDown,
}

/// What the poller does next.
pub enum PollAction {
    /// Wait this many seconds, then poll again.
    Wait { secs: u64, reason: WaitReason },
    /// The user approved: this is the access token.
    Approved { access_token: String },
    /// Give up with this error.
    Fail(PairingError),
}

/// The seconds between polls: Spotify's interval, but never under 3.
pub open spec fn poll_wait_secs(interval: u64) -> u64 {
    if interval < 3 {
        3
    } else {
        interval
    }
}

/// The polling interval after Spotify asks to slow down: the interval in
/// force, raised by 5 seconds (capped at the largest `u64`).
pub open spec fn slowed_interval(interval: u64) -> u64 {
    if poll_wait_secs(interval) <= u64::MAX - 5 {
        (poll_wait_secs(interval) + 5) as u64
    } else {
        u64::MAX
    }
}

/// `authorization_pending`, the error code of a pairing not approved yet.
pub open spec fn authorization_pending() -> Seq<char> {
    seq![
        'a', 'u', 't', 'h', 'o', 'r', 'i', 'z', 'a', 't', 'i', 'o', 'n', '_', 'p', 'e', 'n', 'd',
        'i', 'n', 'g'
    ]
}

/// `slow_down`, the error code that asks the poller to poll less often.
pub open spec fn slow_down() -> Seq<char> {
    seq!['s', 'l', 'o', 'w', '_', 'd', 'o', 'w', 'n']
}

/// The state of polling the token endpoint for one pairing code.
pub struct TokenPoll {
    /// Lifetime of the pairing code in seconds
    pub expires_in: u64,
    /// Polling interval that Spotify asked for, in seconds
    pub interval: u64,
}

impl TokenPoll {
    /// Polling for a code that lives `expires_in` seconds, with Spotify's
    /// `interval`.
    pub fn new(expires_in: u64, interval: u64) -> (poll: TokenPoll)
        ensures
            poll.expires_in == expires_in,
            poll.interval == interval,
    {
        TokenPoll { expires_in, interval }
    }

    /// The seconds between polls.
    pub fn poll_interval(&self) -> (secs: u64)
        ensures
            secs == poll_wait_secs(self.interval),
            secs >= 3,
    {
        if self.interval < 3 {
            3
        } else {
            self.interval
        }
    }

    /// Whether polling may go on after `elapsed_secs` seconds and
    /// `elapsed_nanos` further nanoseconds: it stops once the elapsed time
    /// exceeds the code's lifetime.
    pub fn check_deadline(&self, elapsed_secs: u64, elapsed_nanos: u32) -> (res: Result<
        (),
        PairingError,
    >)
        ensures
            (elapsed_secs < self.expires_in || (elapsed_secs == self.expires_in && elapsed_nanos
                == 0)) ==> res is Ok,
            (elapsed_secs > self.expires_in || (elapsed_secs == self.expires_in && elapsed_nanos
                > 0)) ==> res == Err::<(), PairingError>(
                PairingError::TimedOut { expires_in: self.expires_in },
            ),
    {
        if elapsed_secs > self.expires_in || (elapsed_secs == self.expires_in && elapsed_nanos
            > 0) {
            Err(PairingError::TimedOut { expires_in: self.expires_in })
        } else {
            Ok(())
        }
    }

    /// What to do after the token endpoint's `reply`. A `slow_down` reply
    /// raises the polling interval by 5 seconds for this and every later
    /// poll (RFC 8628, section 3.5); every other reply leaves the state as
    /// it is.
    pub fn on_reply(&mut self, reply: TokenReply) -> (action: PollAction)
        ensures
            final(self).expires_in == old(self).expires_in,
            match reply {
                TokenReply::NetworkError => {
                    &&& final(self).interval == old(self).interval
                    &&& action == PollAction::Wait {
                        secs: poll_wait_secs(old(self).interval),
                        reason: WaitReason::NetworkError,
                    }
                },
                TokenReply::UnreadableBody => {
                    &&& final(self).interval == old(self).interval
                    &&& action == PollAction::Fail(PairingError::UnreadableTokenReply)
                },
                TokenReply::Response { status, access_token, error, body } => if is_success(
                    status,
                ) {
                    &&& final(self).interval == old(self).interval
                    &&& match access_token {
                        Some(token) => action == PollAction::Approved { access_token: token },
                        None => action == PollAction::Fail(PairingError::MalformedToken),
                    }
                } else {
                    match error {
                        Some(code) => if code@ == authorization_pending() {
                            &&& final(self).interval == old(self).interval
                            &&& action == PollAction::Wait {
                                secs: poll_wait_secs(old(self).interval),
                                reason: WaitReason::AuthorizationPending,
                            }
                        } else if code@ == slow_down() {
                            &&& final(self).interval == slowed_interval(old(self).interval)
                            &&& action == PollAction::Wait {
                                secs: poll_wait_secs(final(self).interval),
                                reason: WaitReason::SlowDown,
                            }
                        } else {
                            &&& final(self).interval == old(self).interval
                            &&& action == PollAction::Fail(PairingError::Rejected { error: code })
                        },
                        None => {
                            &&& final(self).interval == old(self).interval
                            &&& action == PollAction::Fail(
                                PairingError::UnexpectedResponse { status, body },
                            )
                        },
                    }
                },
            },
            action matches PollAction::Wait { secs, .. } ==> secs >= 3 && secs == poll_wait_secs(
                final(self).interval,
            ),
            action matches PollAction::Wait { reason: WaitReason::SlowDown, .. } ==> (
            final(self).interval == slowed_interval(old(self).interval)),
            action matches PollAction::Wait { reason: WaitReason::SlowDown, secs } ==> (
            poll_wait_secs(old(self).interval) <= u64::MAX - 5 ==> secs == poll_wait_secs(
                old(self).interval,
            ) + 5),
            final(self).interval >= old(self).interval,
            action is Approved ==> (reply matches TokenReply::Response { status, .. } && is_success(
                status,
            )),
    {
        match reply {
            TokenReply::NetworkError => PollAction::Wait {
                secs: self.poll_interval(),
                reason: WaitReason::NetworkError,
            },
            TokenReply::UnreadableBody => PollAction::Fail(PairingError::UnreadableTokenReply),
            TokenReply::Response { status, access_token, error, body } => {
                if is_success_status(status) {
                    match access_token {
                        Some(token) => PollAction::Approved { access_token: token },
                        None => PollAction::Fail(PairingError::MalformedToken),
                    }
                } else {
                    match error {
                        Some(code) => {
                            proof {
                                reveal_strlit("authorization_pending");
                                reveal_strlit("slow_down");
                                assert("authorization_pending"@ =~= authorization_pending());
                                assert("slow_down"@ =~= slow_down());
                            }
                            if str_eq(code.as_str(), "authorization_pending") {
                                PollAction::Wait {
                                    secs: self.poll_interval(),
                                    reason: WaitReason::AuthorizationPending,
                                }
                            } else if str_eq(code.as_str(), "slow_down") {
                                let current = self.poll_interval();
                                self.interval = if current <= u64::MAX - 5 {
                                    current + 5
                                } else {
                                    u64::MAX
                                };
                                PollAction::Wait {
                                    secs: self.poll_interval(),
                                    reason: WaitReason::SlowDown,
                                }
                            } else {
                                PollAction::Fail(PairingError::Rejected { error: code })
                            }
                        },
                        None => PollAction::Fail(PairingError::UnexpectedResponse { status, body }),
                    }
                }
            },
        }
    }
}

/// Law: an HTTP status is a success exactly when its hundreds digit is 2.
pub proof fn lemma_success_class(status: u16)
    ensures
        is_success(status) <==> status / 100 == 2,
{
}

/// Law: the wait between polls is never shorter than the interval Spotify
/// asked for, never shorter than 3 seconds, and exactly that interval when
/// it is 3 seconds or more; after `slow_down` the interval in force grows
/// by 5 seconds (up to the largest `u64`).
pub proof fn lemma_poll_wait(interval: u64)
    ensures
        poll_wait_secs(interval) >= interval,
        poll_wait_secs(interval) >= 3,
        interval >= 3 ==> poll_wait_secs(interval) == interval,
        interval < 3 ==> poll_wait_secs(interval) == 3,
        slowed_interval(interval) >= poll_wait_secs(interval),
        poll_wait_secs(interval) <= u64::MAX - 5 ==> slowed_interval(interval) == poll_wait_secs(
            interval,
        ) + 5,
        poll_wait_secs(interval) > u64::MAX - 5 ==> slowed_interval(interval) == u64::MAX,
        poll_wait_secs(slowed_interval(interval)) == slowed_interval(interval),
{
}

} // verus!
