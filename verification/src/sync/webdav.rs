//! WebDAV client for sync.

use vstd::prelude::*;
use vstd::string::*;
use crate::text::concat2;

verus! {

/// Errors of the WebDAV client.
pub enum SyncError {
    ConnectionFailed(String),
    AuthFailed,
    Conflict(String),
    Network(String),
}

impl SyncError {
    /// A message describing the error.
    pub fn message(&self) -> (res: String)
        ensures
            res@ == match self {
                SyncError::ConnectionFailed(s) => "Connection failed: "@ + s@,
                SyncError::AuthFailed => "Authentication failed"@,
                SyncError::Conflict(s) => "Conflict: "@ + s@,
                SyncError::Network(s) => "Network error: "@ + s@,
            },
    {
        match self {
            SyncError::ConnectionFailed(s) => concat2("Connection failed: ", s.as_str()),
            SyncError::AuthFailed => "Authentication failed".to_string(),
            SyncError::Conflict(s) => concat2("Conflict: ", s.as_str()),
            SyncError::Network(s) => concat2("Network error: ", s.as_str()),
        }
    }
}

/// WebDAV sync client.
pub struct WebDavClient {
    base_url: String,
    username: String,
    authenticated: bool,
}

impl WebDavClient {
    /// The server's base URL.
    pub closed spec fn base_url(&self) -> Seq<char> {
        self.base_url@
    }

    /// The account name.
    pub closed spec fn username(&self) -> Seq<char> {
        self.username@
    }

    /// Whether the client has connected.
    pub closed spec fn is_authenticated(&self) -> bool {
        self.authenticated
    }

    /// A client for the given server and account, not yet connected.
    pub fn new(base_url: &str, username: &str) -> (res: Self)
        ensures
            res.base_url() == base_url@,
            res.username() == username@,
            !res.is_authenticated(),
    {
        WebDavClient {
            base_url: base_url.to_string(),
            username: username.to_string(),
            authenticated: false,
        }
    }

    /// Connect to the server.
    pub fn connect(&mut self) -> (res: Result<(), SyncError>)
        ensures
            res is Ok,
            final(self).is_authenticated(),
            final(self).base_url() == old(self).base_url(),
            final(self).username() == old(self).username(),
    {
        self.authenticated = true;
        Ok(())
    }

    /// Synchronise with the server; refused before connecting.
    pub fn sync(&self) -> (res: Result<(), SyncError>)
        ensures
            res is Ok <==> self.is_authenticated(),
            res is Err ==> res->Err_0 is AuthFailed,
    {
        if !self.authenticated {
            return Err(SyncError::AuthFailed);
        }
        Ok(())
    }
}

/// Conflict resolution strategy of the WebDAV client.
#[derive(Debug, Clone, Copy, PartialEq, Eq, Structural)]
pub enum ConflictStrategy {
    /// Keep the local version.
    KeepLocal,
    /// Keep the remote version.
    KeepRemote,
    /// Keep both (create a copy).
    KeepBoth,
    /// Ask the user.
    AskUser,
}

} // verus!
