//! Credential types carried through a portal-configuration retrieval.

use vstd::prelude::*;

verus! {

/// The credential used to request the configuration. The retrieval logic
/// only reads the username and stores the credential back into the result
/// for later reuse; it never alters it.
#[derive(Debug, Clone)]
pub struct Credential {
    pub username: String,
}

impl Credential {
    pub fn new(username: &str) -> (c: Credential)
        ensures
            c.username@ == username@,
    {
        Credential { username: username.to_owned() }
    }

    pub fn username(&self) -> (r: &str)
        ensures
            r@ == self.username@,
    {
        self.username.as_str()
    }
}

/// The session token derived from a portal response: the username of the
/// requesting credential together with the two cookies the portal handed
/// back. Either cookie may be the empty string when the response had none.
#[derive(Debug, Clone)]
pub struct AuthCookieCredential {
    pub username: String,
    pub user_auth_cookie: String,
    pub prelogon_user_auth_cookie: String,
}

impl AuthCookieCredential {
    pub fn new(user: &str, user_auth_cookie: &str, prelogon_user_auth_cookie: &str) -> (c:
        AuthCookieCredential)
        ensures
            c.username@ == user@,
            c.user_auth_cookie@ == user_auth_cookie@,
            c.prelogon_user_auth_cookie@ == prelogon_user_auth_cookie@,
    {
        AuthCookieCredential {
            username: user.to_owned(),
            user_auth_cookie: user_auth_cookie.to_owned(),
            prelogon_user_auth_cookie: prelogon_user_auth_cookie.to_owned(),
        }
    }

    pub fn username(&self) -> (r: &str)
        ensures
            r@ == self.username@,
    {
        self.username.as_str()
    }

    pub fn user_auth_cookie(&self) -> (r: &str)
        ensures
            r@ == self.user_auth_cookie@,
    {
        self.user_auth_cookie.as_str()
    }

    pub fn prelogon_user_auth_cookie(&self) -> (r: &str)
        ensures
            r@ == self.prelogon_user_auth_cookie@,
    {
        self.prelogon_user_auth_cookie.as_str()
    }
}

} // verus!
