use vstd::prelude::*;
use vstd::string::*;

verus! {

/// User settings of the command-line front end.
#[derive(Debug, Clone)]
pub struct Config {
    /// The word that aborts a prompt.
    pub cancel_keyword: String,
}

impl Config {
    /// The settings used when none were saved: the cancel keyword is `cancel`.
    pub fn default() -> (r: Config)
        ensures
            r.cancel_keyword@ == "cancel"@,
    {
        Config { cancel_keyword: String::from_str("cancel") }
    }
}

} // verus!
