use vstd::prelude::*;

verus! {

/// The credentials a client presents when it connects.
pub struct Auth {
    pub token: String,
}

impl Auth {
    pub fn new(token: &str) -> (r: Auth)
        ensures
            r.token@ == token@,
    {
        Auth { token: token.to_owned() }
    }
}

/// The messages the peers exchange.
pub enum Protocol {
    Auth(Auth),
}

} // verus!
