//! The session credential and its single state transition: a session
//! starts unauthenticated with a caller-supplied token and the device id
//! fetched at session start; the login exchange consumes that state and
//! yields the authenticated one, with the replaced token and the granted
//! cred. No in-place mutation, so a credential can never be half-updated.
use vstd::prelude::*;

verus! {

/// A session's credential state. The device id is fetched once and kept
/// for the session's lifetime; the token is replaced exactly once, at
/// login, when the cred is granted.
pub enum SessionCredential {
    Unauthenticated { token: Vec<u8>, device_id: Vec<u8> },
    Authenticated { token: Vec<u8>, cred: Vec<u8>, device_id: Vec<u8> },
}

impl SessionCredential {
    /// The session's device id, in either state.
    pub open spec fn spec_device_id(self) -> Seq<u8> {
        match self {
            SessionCredential::Unauthenticated { token: _, device_id } => device_id@,
            SessionCredential::Authenticated { token: _, cred: _, device_id } => device_id@,
        }
    }

    /// Starts a session: unauthenticated, with the caller's token and the
    /// freshly fetched device id.
    pub fn start(token: Vec<u8>, device_id: Vec<u8>) -> (r: Self)
        ensures
            r matches SessionCredential::Unauthenticated { token: t, device_id: d } && t == token
                && d == device_id,
    {
        SessionCredential::Unauthenticated { token, device_id }
    }

    /// The login transition: consumes an unauthenticated credential and
    /// yields the authenticated one, holding the replaced token and the
    /// granted cred, with the device id carried over unchanged.
    pub fn login(self, new_token: Vec<u8>, cred: Vec<u8>) -> (r: Self)
        requires
            self is Unauthenticated,
        ensures
            r matches SessionCredential::Authenticated { token: t, cred: c, device_id: d }
                && t == new_token && c == cred && d@ == self.spec_device_id(),
    {
        match self {
            SessionCredential::Unauthenticated { token: _, device_id } => {
                SessionCredential::Authenticated { token: new_token, cred, device_id }
            },
            SessionCredential::Authenticated { token: _, cred: _, device_id } => {
                SessionCredential::Authenticated { token: new_token, cred, device_id }
            },
        }
    }
}

} // verus!
