//! The settings with which the bot starts.

use vstd::prelude::*;
use vstd::string::StringExecFns;

verus! {

/// What the bot needs to know before it connects.
#[derive(Debug)]
pub struct Settings {
    pub bot_token: String,
    pub database_url: String,
}

impl Settings {
    /// The password that the gateway expects: `oauth:` and the bot's
    /// token.
    pub fn oauth_password(&self) -> (r: String)
        ensures
            r@ == "oauth:"@ + self.bot_token@,
    {
        let mut r = String::from_str("oauth:");
        r.append(self.bot_token.as_str());
        r
    }
}

} // verus!
