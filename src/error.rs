use vstd::prelude::*;

verus! {

/// Why a run stopped.
#[derive(Debug)]
pub enum GxsyncError {
    /// The credential could not be obtained.
    Auth(String),
    /// A request to the mail service failed.
    Http(String),
    /// Local storage could not be read or written.
    Io(String),
    /// A response was not the JSON expected.
    Json(String),
    /// The configuration file could not be read.
    Toml(String),
    /// The ledger file is malformed.
    State(String),
    /// Anything else, such as a failed query.
    Other(String),
}

impl GxsyncError {
    /// The kind of failure, as a word.
    pub fn kind(&self) -> (r: &'static str)
        ensures
            r@ == match self {
                GxsyncError::Auth(_) => "Authentication error"@,
                GxsyncError::Http(_) => "HTTP error"@,
                GxsyncError::Io(_) => "IO error"@,
                GxsyncError::Json(_) => "JSON error"@,
                GxsyncError::Toml(_) => "TOML error"@,
                GxsyncError::State(_) => "State error"@,
                GxsyncError::Other(_) => "Other error"@,
            },
    {
        match self {
            GxsyncError::Auth(_) => "Authentication error",
            GxsyncError::Http(_) => "HTTP error",
            GxsyncError::Io(_) => "IO error",
            GxsyncError::Json(_) => "JSON error",
            GxsyncError::Toml(_) => "TOML error",
            GxsyncError::State(_) => "State error",
            GxsyncError::Other(_) => "Other error",
        }
    }

    /// The detail the failure carries.
    pub fn detail(&self) -> (r: &String)
        ensures
            match self {
                GxsyncError::Auth(s) => r == s,
                GxsyncError::Http(s) => r == s,
                GxsyncError::Io(s) => r == s,
                GxsyncError::Json(s) => r == s,
                GxsyncError::Toml(s) => r == s,
                GxsyncError::State(s) => r == s,
                GxsyncError::Other(s) => r == s,
            },
    {
        match self {
            GxsyncError::Auth(s) => s,
            GxsyncError::Http(s) => s,
            GxsyncError::Io(s) => s,
            GxsyncError::Json(s) => s,
            GxsyncError::Toml(s) => s,
            GxsyncError::State(s) => s,
            GxsyncError::Other(s) => s,
        }
    }
}

} // verus!
