//! Peers on the local network and the datagrams addressed to them.

use vstd::prelude::*;

verus! {

/// The size of the buffer into which a node receives a datagram, in bytes.
pub const MAX_DATAGRAM_BYTES: usize = 1024;

/// The address of a peer: an IP address, as a number, and a port, with the
/// flow label and scope that an IPv6 socket address carries besides.
/// Two addresses are the same peer where they are equal in every part.
#[derive(Clone, Copy, Debug, PartialEq, Eq, Hash, Structural)]
pub enum PeerAddr {
    V4 { ipv4: u32, port: u16 },
    V6 { ipv6: u128, port: u16, flowinfo: u32, scope_id: u32 },
}

/// A datagram to send: its text and the peer it goes to.
#[derive(Debug, PartialEq, Eq)]
pub struct Outgoing {
    pub to: PeerAddr,
    pub payload: String,
}

/// What a datagram is to the contracts.
pub struct OutgoingView {
    pub to: PeerAddr,
    pub payload: Seq<char>,
}

impl View for Outgoing {
    type V = OutgoingView;

    open spec fn view(&self) -> OutgoingView {
        OutgoingView { to: self.to, payload: self.payload@ }
    }
}

impl Clone for Outgoing {
    fn clone(&self) -> (copy: Self)
        ensures
            copy == *self,
    {
        Outgoing { to: self.to, payload: self.payload.clone() }
    }
}

/// The views of a sequence of datagrams.
pub open spec fn outgoing_views(datagrams: Seq<Outgoing>) -> Seq<OutgoingView> {
    Seq::new(datagrams.len(), |i: int| datagrams[i]@)
}

/// One datagram with the given text for each peer, in the order of the
/// peers.
pub open spec fn fan_out_spec(peers: Seq<PeerAddr>, payload: Seq<char>) -> Seq<OutgoingView> {
    Seq::new(peers.len(), |i: int| OutgoingView { to: peers[i], payload })
}

/// Addresses one copy of `payload` to each of `peers`, in their order.
pub fn fan_out(peers: &Vec<PeerAddr>, payload: &str) -> (datagrams: Vec<Outgoing>)
    ensures
        outgoing_views(datagrams@) == fan_out_spec(peers@, payload@),
{
    let mut datagrams: Vec<Outgoing> = Vec::new();
    let mut i: usize = 0;
    while i < peers.len()
        invariant
            i <= peers.len(),
            datagrams@.len() == i,
            forall|j: int|
                0 <= j < i ==> #[trigger] datagrams@[j]@ == (OutgoingView {
                    to: peers@[j],
                    payload: payload@,
                }),
        decreases peers.len() - i,
    {
        datagrams.push(Outgoing { to: peers[i], payload: payload.to_owned() });
        i += 1;
    }
    assert(outgoing_views(datagrams@) =~= fan_out_spec(peers@, payload@));
    datagrams
}

} // verus!
