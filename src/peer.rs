use vstd::prelude::*;
use vstd::string::*;

verus! {

/// The id that stands for the local peer; remote peers get other ids.
pub const LOCAL_PEER_ID: u64 = 0;

/// A peer, local or remote. Two identities with the same `id` denote the same peer;
/// the display name is informational only.
#[derive(Debug)]
pub struct PeerIdentity {
    pub id: u64,
    pub display_name: String,
}

impl Clone for PeerIdentity {
    fn clone(&self) -> (r: Self)
        ensures
            r == *self,
    {
        PeerIdentity { id: self.id, display_name: self.display_name.clone() }
    }
}

impl PeerIdentity {
    /// A peer with the given id and display name.
    pub fn new(id: u64, display_name: &str) -> (r: Self)
        ensures
            r.id == id,
            r.display_name@ == display_name@,
    {
        PeerIdentity { id, display_name: String::from_str(display_name) }
    }

    /// The local peer, under the given display name.
    pub fn local(display_name: &str) -> (r: Self)
        ensures
            r.id == LOCAL_PEER_ID,
            r.display_name@ == display_name@,
    {
        PeerIdentity::new(LOCAL_PEER_ID, display_name)
    }

    /// Whether `self` and `other` denote the same peer.
    pub fn same_peer(&self, other: &PeerIdentity) -> (r: bool)
        ensures
            r == (self.id == other.id),
    {
        self.id == other.id
    }
}

} // verus!
