use vstd::prelude::*;

use crate::errors::Error;
use crate::identity::REFRESH_TOKEN_KEY;

verus! {

/// Tokens as the remote service hands them out on an exchange or a renewal.
pub struct Grant {
    pub access_token: String,
    /// A renewal may come without a new refresh credential.
    pub refresh_token: Option<String>,
    /// Expiry, in seconds since the Unix epoch.
    pub expires_at: u64,
}

/// A usable session: its refresh credential is never empty.
pub struct Session {
    pub access_token: String,
    pub refresh_token: String,
    pub expires_at: u64,
}

impl Session {
    pub open spec fn wf(&self) -> bool {
        self.refresh_token@.len() > 0
    }
}

/// The operation a manager is in the middle of.
pub enum Pending {
    Idle,
    /// Waiting for the remote service to exchange an authorization code.
    Exchange,
    /// Waiting for the value stored under the refresh-credential key.
    ReadStore,
    /// Waiting for the remote service to renew this credential.
    Renew { credential: String },
}

/// The next thing to do for the caller that drives the manager.
pub enum AuthAction {
    /// Read the state store at `key` and report the value.
    ReadStore { key: String },
    /// Ask the remote service to exchange `code` for tokens.
    ExchangeCode { code: String },
    /// Ask the remote service to renew `credential`.
    Renew { credential: String },
    /// Write `value` to the state store at `key`.
    WriteStore { key: String, value: String },
    /// The operation is over, with this outcome.
    Done(Result<(), Error>),
}

/// What the caller reports back after carrying out an action.
pub enum AuthEvent {
    /// The value read from the state store.
    StoreValue(Option<String>),
    /// The remote service granted tokens.
    Granted(Grant),
    /// The remote service refused; the text is its cause.
    Rejected(String),
}

/// The authorization lifecycle: unauthenticated until an exchange or a
/// renewal succeeds, authenticated from then on.
pub struct AuthManager {
    session: Option<Session>,
    pending: Pending,
}

/// The session installed from a grant, keeping `previous` as the refresh
/// credential when the grant brings no non-empty one.
pub open spec fn session_from(g: Grant, previous: Seq<char>) -> (Seq<char>, Seq<char>, u64) {
    let refresh = match g.refresh_token {
        Some(t) => if t@.len() > 0 { t@ } else { previous },
        None => previous,
    };
    (g.access_token@, refresh, g.expires_at)
}

impl AuthManager {
    pub closed spec fn session(&self) -> Option<Session> {
        self.session
    }

    pub closed spec fn pending(&self) -> Pending {
        self.pending
    }

    pub closed spec fn wf(&self) -> bool {
        match self.session {
            Some(s) => s.wf(),
            None => true,
        }
    }

    /// The session's access token, refresh credential and expiry.
    pub open spec fn session_model(&self) -> Option<(Seq<char>, Seq<char>, u64)> {
        match self.session() {
            Some(s) => Some((s.access_token@, s.refresh_token@, s.expires_at)),
            None => None,
        }
    }

    pub open spec fn is_idle(&self) -> bool {
        self.pending() is Idle
    }

    /// A manager without a session.
    pub fn new() -> (r: AuthManager)
        ensures
            r.wf(),
            r.session_model() is None,
            r.is_idle(),
    {
        AuthManager { session: None, pending: Pending::Idle }
    }

    pub fn is_authenticated(&self) -> (r: bool)
        ensures
            r == self.session_model() is Some,
    {
        self.session.is_some()
    }

    /// Starts exchanging a one-time authorization code.
    pub fn exchange_code(&mut self, code: String) -> (r: AuthAction)
        requires
            old(self).wf(),
        ensures
            final(self).wf(),
            final(self).session_model() == old(self).session_model(),
            final(self).pending() is Exchange,
            r == (AuthAction::ExchangeCode { code }),
    {
        self.pending = Pending::Exchange;
        AuthAction::ExchangeCode { code }
    }

    /// Starts restoring a session from a refresh credential: the credential is
    /// renewed at once, so that the session is known to be usable before it
    /// is handed out.
    pub fn restore_from_credential(&mut self, credential: String) -> (r: AuthAction)
        requires
            old(self).wf(),
        ensures
            final(self).wf(),
            final(self).session_model() == old(self).session_model(),
            final(self).pending() matches Pending::Renew { credential: c } && c@ == credential@,
            r matches AuthAction::Renew { credential: c } && c@ == credential@,
    {
        let c = credential.clone();
        self.pending = Pending::Renew { credential };
        AuthAction::Renew { credential: c }
    }

    /// Starts restoring a session from the credential in the state store.
    pub fn restore_from_store(&mut self) -> (r: AuthAction)
        requires
            old(self).wf(),
        ensures
            final(self).wf(),
            final(self).session_model() == old(self).session_model(),
            final(self).pending() is ReadStore,
            r matches AuthAction::ReadStore { key } && key@ == REFRESH_TOKEN_KEY@,
    {
        self.pending = Pending::ReadStore;
        AuthAction::ReadStore { key: String::from_str(REFRESH_TOKEN_KEY) }
    }

    /// Starts renewing the installed session; without one, fails with
    /// `NoAuthToken`.
    pub fn renew(&mut self) -> (r: AuthAction)
        requires
            old(self).wf(),
        ensures
            final(self).wf(),
            final(self).session_model() == old(self).session_model(),
            match old(self).session_model() {
                Some(m) => (final(self).pending() matches Pending::Renew { credential: c } && c@ == m.1)
                    && (r matches AuthAction::Renew { credential: c } && c@ == m.1),
                None => final(self).is_idle() && r == AuthAction::Done(Err(Error::NoAuthToken)),
            },
    {
        match &self.session {
            Some(s) => {
                let c = s.refresh_token.clone();
                let d = s.refresh_token.clone();
                self.pending = Pending::Renew { credential: c };
                AuthAction::Renew { credential: d }
            },
            None => {
                self.pending = Pending::Idle;
                AuthAction::Done(Err(Error::NoAuthToken))
            },
        }
    }

    /// Takes in the outcome of the last action and says what comes next, as
    /// `auth_step` describes.
    pub fn on_event(&mut self, ev: AuthEvent) -> (r: AuthAction)
        requires
            old(self).wf(),
        ensures
            final(self).wf(),
            auth_step(*old(self), ev, *final(self), r),
    {
        let mut pending = Pending::Idle;
        core::mem::swap(&mut pending, &mut self.pending);
        match pending {
            Pending::ReadStore => match ev {
                AuthEvent::StoreValue(Some(t)) => {
                    let c = t.clone();
                    self.pending = Pending::Renew { credential: t };
                    AuthAction::Renew { credential: c }
                },
                AuthEvent::StoreValue(None) => AuthAction::Done(Err(Error::NoTokenStored)),
                _ => AuthAction::Done(Err(Error::NoAuthToken)),
            },
            Pending::Renew { credential } => match ev {
                AuthEvent::Granted(g) => {
                    let refresh_token = match g.refresh_token {
                        Some(t) => if t.unicode_len() > 0 {
                            t
                        } else {
                            credential
                        },
                        None => credential,
                    };
                    if refresh_token.unicode_len() == 0 {
                        return AuthAction::Done(Err(Error::NoAuthToken));
                    }
                    self.session = Some(
                        Session { access_token: g.access_token, refresh_token, expires_at: g.expires_at },
                    );
                    AuthAction::Done(Ok(()))
                },
                AuthEvent::Rejected(_) => AuthAction::Done(Err(Error::NoAuthToken)),
                _ => AuthAction::Done(Err(Error::NoAuthToken)),
            },
            Pending::Exchange => match ev {
                AuthEvent::Granted(g) => match g.refresh_token {
                    Some(t) => if t.unicode_len() > 0 {
                        self.session = Some(
                            Session { access_token: g.access_token, refresh_token: t, expires_at: g.expires_at },
                        );
                        AuthAction::Done(Ok(()))
                    } else {
                        AuthAction::Done(Err(Error::NoAuthToken))
                    },
                    None => AuthAction::Done(Err(Error::NoAuthToken)),
                },
                AuthEvent::Rejected(cause) => AuthAction::Done(Err(Error::AuthorizationFailed(cause))),
                _ => AuthAction::Done(Err(Error::NoAuthToken)),
            },
            Pending::Idle => AuthAction::Done(Err(Error::NoAuthToken)),
        }
    }

    /// The refresh credential of the installed session; without one, fails
    /// with `NoAuthToken`.
    pub fn refresh_credential(&self) -> (r: Result<String, Error>)
        requires
            self.wf(),
        ensures
            match self.session_model() {
                Some(m) => r matches Ok(c) && c@ == m.1 && c@.len() > 0,
                None => r == Err::<String, Error>(Error::NoAuthToken),
            },
    {
        match &self.session {
            Some(s) => Ok(s.refresh_token.clone()),
            None => Err(Error::NoAuthToken),
        }
    }

    /// The write that persists the refresh credential under the well-known
    /// key, overwriting what was there; without a session, fails with
    /// `NoAuthToken`.
    pub fn persist(&self) -> (r: AuthAction)
        requires
            self.wf(),
        ensures
            match self.session_model() {
                Some(m) => r matches AuthAction::WriteStore { key, value } && key@ == REFRESH_TOKEN_KEY@
                    && value@ == m.1,
                None => r == AuthAction::Done(Err(Error::NoAuthToken)),
            },
    {
        match self.refresh_credential() {
            Ok(value) => AuthAction::WriteStore { key: String::from_str(REFRESH_TOKEN_KEY), value },
            Err(e) => AuthAction::Done(Err(e)),
        }
    }
}

/// One step of the lifecycle. The session changes only when a grant is taken
/// in, and then it is replaced whole; every step but reading a stored
/// credential ends the operation:
/// - a stored credential that is absent fails with `NoTokenStored`; one that
///   is present is renewed;
/// - a renewal that is granted installs the new tokens, keeping the renewed
///   credential when no new non-empty one is granted; one that is refused
///   fails with `NoAuthToken`;
/// - an exchange that is granted with a non-empty refresh credential installs
///   the tokens; one granted without fails with `NoAuthToken`; one that is
///   refused fails with `AuthorizationFailed` and the cause;
/// - an event that the pending operation does not expect fails with
///   `NoAuthToken`.
pub open spec fn auth_step(before: AuthManager, ev: AuthEvent, after: AuthManager, r: AuthAction) -> bool {
    let unchanged = after.session_model() == before.session_model();
    let fail_with = |e: Error| unchanged && after.is_idle() && r == AuthAction::Done(Err(e));
    match before.pending() {
        Pending::ReadStore => match ev {
            AuthEvent::StoreValue(None) => fail_with(Error::NoTokenStored),
            AuthEvent::StoreValue(Some(t)) => unchanged && (after.pending() matches Pending::Renew { credential: c }
                && c@ == t@) && (r matches AuthAction::Renew { credential: c } && c@ == t@),
            _ => fail_with(Error::NoAuthToken),
        },
        Pending::Renew { credential } => match ev {
            AuthEvent::Granted(g) => if session_from(g, credential@).1.len() > 0 {
                after.session_model() == Some(session_from(g, credential@)) && after.is_idle() && r
                    == AuthAction::Done(Ok(()))
            } else {
                fail_with(Error::NoAuthToken)
            },
            _ => fail_with(Error::NoAuthToken),
        },
        Pending::Exchange => match ev {
            AuthEvent::Granted(g) => match g.refresh_token {
                Some(t) => if t@.len() > 0 {
                    after.session_model() == Some((g.access_token@, t@, g.expires_at)) && after.is_idle() && r
                        == AuthAction::Done(Ok(()))
                } else {
                    fail_with(Error::NoAuthToken)
                },
                None => fail_with(Error::NoAuthToken),
            },
            AuthEvent::Rejected(cause) => fail_with(Error::AuthorizationFailed(cause)),
            _ => fail_with(Error::NoAuthToken),
        },
        Pending::Idle => fail_with(Error::NoAuthToken),
    }
}

} // verus!
