//! Errors of the engine. Outside errors (parsing, I/O, the database) arrive
//! here as their messages.
use vstd::prelude::*;

verus! {

/// Failures of vault setup.
#[derive(Debug)]
pub enum VaultError {
    /// The selected path is not a directory.
    NotDirectory(String),
    /// The vault filesystem could not be accessed.
    Io(String),
    /// The vault index could not be initialized.
    Database(String),
}

/// Failures of the engine.
#[derive(Debug)]
pub enum TidyError {
    Vault(VaultError),
    /// An invalid URL, with the parser's message.
    Url(String),
    Http { url: String, message: String },
    /// robots.txt forbids fetching this URL.
    RobotsForbidden(String),
    Feed { url: String, message: String },
    Sitemap { url: String, message: String },
    Extract { url: String, message: String },
    Database(String),
    Io(String),
    Message(String),
}

impl TidyError {
    pub fn http(url: String, message: String) -> (r: TidyError)
        ensures
            r matches TidyError::Http { url: u, message: m } && u@ == url@ && m@ == message@,
    {
        TidyError::Http { url, message }
    }

    pub fn extract(url: String, message: String) -> (r: TidyError)
        ensures
            r matches TidyError::Extract { url: u, message: m } && u@ == url@ && m@ == message@,
    {
        TidyError::Extract { url, message }
    }
}

} // verus!
