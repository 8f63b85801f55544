//! Per-session navigation state of the web front end.
use vstd::prelude::*;

verus! {

/// Where the front end returns to when no earlier page is known.
pub const DEFAULT_HOME_URL: &'static str = "/home";

/// The page to return to after login, and whether the vault has been opened.
#[derive(Debug)]
pub struct RunTime {
    previous_url: String,
    vault_initialized: bool,
}

impl View for RunTime {
    type V = (Seq<char>, bool);

    closed spec fn view(&self) -> (Seq<char>, bool) {
        (self.previous_url@, self.vault_initialized)
    }
}

impl Clone for RunTime {
    fn clone(&self) -> (r: RunTime)
        ensures
            r@ == self@,
    {
        RunTime { previous_url: self.previous_url.clone(), vault_initialized: self.vault_initialized }
    }
}

impl Default for RunTime {
    fn default() -> (r: RunTime)
        ensures
            r@ == (DEFAULT_HOME_URL@, false),
    {
        RunTime::new()
    }
}

impl RunTime {
    /// Home page as the previous page; vault not yet opened.
    pub fn new() -> (r: RunTime)
        ensures
            r@ == (DEFAULT_HOME_URL@, false),
    {
        RunTime { previous_url: DEFAULT_HOME_URL.to_owned(), vault_initialized: false }
    }

    /// The page to return to.
    pub fn previous_url(&self) -> (r: &String)
        ensures
            r@ == self@.0,
    {
        &self.previous_url
    }

    /// Records the page to return to.
    pub fn set_previous_url(&mut self, url: String)
        ensures
            final(self)@ == (url@, old(self)@.1),
    {
        self.previous_url = url;
    }

    /// Whether the vault has been opened in this session.
    pub fn vault_initialized(&self) -> (r: bool)
        ensures
            r == self@.1,
    {
        self.vault_initialized
    }

    /// Records whether the vault has been opened.
    pub fn set_vault_initialized(&mut self, initialized: bool)
        ensures
            final(self)@ == (old(self)@.0, initialized),
    {
        self.vault_initialized = initialized;
    }
}

} // verus!
