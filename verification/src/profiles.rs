//! Server profiles: everything about a server but its secrets.
use crate::keyed::Keyed;
use vstd::prelude::*;

verus! {

/// A server the user connects to. Passwords and passphrases are never part of it.
#[derive(Debug, PartialEq, Eq)]
pub struct ServerProfile {
    pub id: String,
    pub name: String,
    pub host: String,
    pub port: u16,
    pub username: String,
    /// The private key file; none means password authentication.
    pub identity_file: Option<String>,
    /// Whether tunnels of this profile share a connection; none leaves it to the defaults.
    pub share_connection: Option<bool>,
}

impl Clone for ServerProfile {
    fn clone(&self) -> (r: Self)
        ensures
            r == *self,
    {
        ServerProfile {
            id: self.id.clone(),
            name: self.name.clone(),
            host: self.host.clone(),
            port: self.port,
            username: self.username.clone(),
            identity_file: match &self.identity_file {
                Some(p) => Some(p.clone()),
                None => None,
            },
            share_connection: self.share_connection,
        }
    }
}

impl Keyed for ServerProfile {
    open spec fn key(&self) -> Seq<char> {
        self.id@
    }

    fn id(&self) -> (r: &str) {
        self.id.as_str()
    }
}

} // verus!
