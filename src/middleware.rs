//! The credential check that guards the API and the live channel.
use vstd::prelude::*;

verus! {

/// Guards routes with a signed bearer token, checked against one secret.
pub struct JwtMiddleware {
    jwt_secret: String,
}

impl JwtMiddleware {
    /// A guard that checks tokens against `jwt_secret`.
    pub fn new(jwt_secret: String) -> (m: Self)
        ensures
            m.secret()@ == jwt_secret@,
    {
        JwtMiddleware { jwt_secret }
    }

    /// The secret tokens are checked against.
    pub closed spec fn secret(&self) -> String {
        self.jwt_secret
    }

    /// The secret tokens are checked against.
    pub fn jwt_secret(&self) -> (s: &String)
        ensures
            s@ == self.secret()@,
    {
        &self.jwt_secret
    }
}

} // verus!
