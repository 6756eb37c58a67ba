use vstd::prelude::*;
use crate::auth::AuthResponse;
use crate::auth::AuthState;
use vstd::string::StringExecFns;

verus! {

/// Why a code exchange failed.
#[derive(Debug, Clone)]
pub enum ExchangeError {
    /// The request could not be built, sent or answered.
    Network(String),
    /// The backend answered with a status outside 200..=299.
    AuthServer(u16),
    /// The answer's body is not a session.
    Decode(String),
}

/// The screen the application is on.
#[derive(Debug, Clone)]
pub enum AppPhase {
    CheckingAuth,
    Unauthenticated,
    Authenticating,
    Authenticated,
    Failed(ExchangeError),
}

/// What the caller must do after the state machine looked at the address on load.
#[derive(Debug, Clone)]
pub struct MountEffects {
    /// The code to exchange, when the callback's state matched the saved nonce.
    pub exchange_code: Option<String>,
    /// Delete the saved nonce.
    pub clear_saved_state: bool,
    /// Strip the query from the address shown.
    pub clear_url: bool,
}

/// The application state machine: the session and the current phase. It is the only
/// writer of both.
#[derive(Debug, Clone)]
pub struct App {
    pub auth: AuthState,
    pub phase: AppPhase,
}

/// The decimal digits of a number, most significant first.
pub open spec fn decimal(n: nat) -> Seq<char>
    decreases n,
{
    if n < 10 {
        seq![((n + 48) as u8) as char]
    } else {
        decimal(n / 10).push((((n % 10) + 48) as u8) as char)
    }
}

fn push_decimal(out: &mut String, n: u16)
    ensures
        final(out)@ == old(out)@ + decimal(n as nat),
    decreases n,
{
    if n >= 10 {
        push_decimal(out, n / 10);
    }
    let d: u8 = (n % 10) as u8;
    out.push((d + 48) as char);
    assert(out@ =~= old(out)@ + decimal(n as nat));
}

impl ExchangeError {
    /// The text shown on the error screen.
    pub open spec fn message_view(&self) -> Seq<char> {
        match self {
            ExchangeError::Network(m) => m@,
            ExchangeError::AuthServer(status) => "Authentication failed: "@ + decimal(*status as nat),
            ExchangeError::Decode(m) => m@,
        }
    }

    pub fn message(&self) -> (r: String)
        ensures
            r@ == self.message_view(),
    {
        match self {
            ExchangeError::Network(m) => m.clone(),
            ExchangeError::AuthServer(status) => {
                let mut r = String::from_str("Authentication failed: ");
                push_decimal(&mut r, *status);
                r
            },
            ExchangeError::Decode(m) => m.clone(),
        }
    }
}

/// A status that the backend means as success.
pub open spec fn is_success_status(status: u16) -> bool {
    200 <= status && status <= 299
}

/// Maps the status of the exchange's answer to success or `AuthServer`.
pub fn check_exchange_status(status: u16) -> (r: Result<(), ExchangeError>)
    ensures
        r is Ok <==> is_success_status(status),
        r is Err ==> r == Err::<(), ExchangeError>(ExchangeError::AuthServer(status)),
{
    if 200 <= status && status <= 299 {
        Ok(())
    } else {
        Err(ExchangeError::AuthServer(status))
    }
}

impl App {
    /// Authenticated resource requests may be made only with a session on the main screen.
    pub open spec fn may_fetch_resources(&self) -> bool {
        self.phase is Authenticated && self.auth.token is Some
    }

    pub fn new() -> (r: App)
        ensures
            r.phase is CheckingAuth,
            r.auth.is_empty_session(),
    {
        App { auth: AuthState { token: None, user: None }, phase: AppPhase::CheckingAuth }
    }

    /// Decides the first step on load from the callback found in the address (if any)
    /// and the nonce saved before the redirect (if any).
    pub fn on_mount(&mut self, callback: Option<(String, String)>, saved_state: Option<String>) -> (r:
        MountEffects)
        ensures
            final(self).auth == old(self).auth,
            callback is None ==> {
                &&& r.exchange_code is None
                &&& !r.clear_saved_state
                &&& !r.clear_url
                &&& (if old(self).auth.token is Some {
                    final(self).phase is Authenticated
                } else {
                    final(self).phase is Unauthenticated
                })
            },
            callback matches Some((code, state)) ==> {
                &&& r.clear_url
                &&& (if saved_state matches Some(saved) && saved@ == state@ {
                    &&& final(self).phase is Authenticating
                    &&& r.exchange_code == Some(code)
                    &&& r.clear_saved_state
                } else {
                    &&& final(self).phase is Unauthenticated
                    &&& r.exchange_code is None
                    &&& !r.clear_saved_state
                })
            },
    {
        match callback {
            None => {
                if self.auth.is_authenticated() {
                    self.phase = AppPhase::Authenticated;
                } else {
                    self.phase = AppPhase::Unauthenticated;
                }
                MountEffects { exchange_code: None, clear_saved_state: false, clear_url: false }
            },
            Some((code, state)) => {
                match saved_state {
                    Some(saved) => {
                        if saved == state {
                            self.phase = AppPhase::Authenticating;
                            MountEffects {
                                exchange_code: Some(code),
                                clear_saved_state: true,
                                clear_url: true,
                            }
                        } else {
                            self.phase = AppPhase::Unauthenticated;
                            MountEffects {
                                exchange_code: None,
                                clear_saved_state: false,
                                clear_url: true,
                            }
                        }
                    },
                    None => {
                        self.phase = AppPhase::Unauthenticated;
                        MountEffects { exchange_code: None, clear_saved_state: false, clear_url: true }
                    },
                }
            },
        }
    }

    /// Takes in the outcome of the code exchange.
    pub fn complete_exchange(&mut self, result: Result<AuthResponse, ExchangeError>)
        ensures
            match result {
                Ok(resp) => {
                    &&& final(self).auth.token == Some(resp.token)
                    &&& final(self).auth.user == Some(resp.user)
                    &&& final(self).phase is Authenticated
                },
                Err(e) => {
                    &&& final(self).auth == old(self).auth
                    &&& final(self).phase == AppPhase::Failed(e)
                },
            },
    {
        match result {
            Ok(resp) => {
                self.auth = AuthState { token: Some(resp.token), user: Some(resp.user) };
                self.phase = AppPhase::Authenticated;
            },
            Err(e) => {
                self.phase = AppPhase::Failed(e);
            },
        }
    }

    /// Forgets the session locally and goes back to the sign-in screen.
    pub fn sign_out(&mut self)
        ensures
            final(self).auth.is_empty_session(),
            final(self).phase is Unauthenticated,
    {
        self.auth = AuthState { token: None, user: None };
        self.phase = AppPhase::Unauthenticated;
    }

    /// The token to send with authenticated resource requests, if such requests may be made.
    pub fn resource_token(&self) -> (r: Option<String>)
        ensures
            self.may_fetch_resources() ==> r == self.auth.token,
            !self.may_fetch_resources() ==> r is None,
    {
        match &self.phase {
            AppPhase::Authenticated => match &self.auth.token {
                Some(t) => Some(t.clone()),
                None => None,
            },
            _ => None,
        }
    }
}

/// In the state that `sign_out` leaves (no session, sign-in screen), no authenticated
/// resource request may be made.
pub proof fn lemma_sign_out_stops_fetches(app: App)
    requires
        app.auth.is_empty_session(),
        app.phase is Unauthenticated,
    ensures
        !app.may_fetch_resources(),
        app.auth.token is None && app.auth.user is None,
{
}

/// Signed out stays signed out: `on_mount` and a failed `complete_exchange` keep the
/// session as it was, and `sign_out` empties it. So from a state without a token, any
/// such step leads to a state without a token, in which no authenticated resource request
/// may be made. Only a successful exchange brings a token back.
pub proof fn lemma_no_fetch_until_exchange_succeeds(before: App, after: App)
    requires
        before.auth.token is None,
        after.auth == before.auth || after.auth.is_empty_session(),
    ensures
        after.auth.token is None,
        !after.may_fetch_resources(),
{
}

} // verus!
