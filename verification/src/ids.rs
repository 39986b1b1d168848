//! The names by which the service knows nodes, HTLCs and channels.
use vstd::prelude::*;

verus! {

/// A node of the network, named by the 33 bytes of its compressed public key.
#[derive(Clone, Copy, Debug, PartialEq, Eq, Hash)]
pub struct NodeId(pub [u8; 33]);

/// `lightning::ln::channelmanager::InterceptId`: the identifier that the
/// node gives to an intercepted HTLC. The service hands it back to the node
/// as it came and never looks inside.
#[verifier::external_type_specification]
#[verifier::external_body]
pub struct ExInterceptId(lightning::ln::channelmanager::InterceptId);

/// `lightning::ln::ChannelId`: the identifier of an open channel. The
/// service hands it back to the node as it came and never looks inside.
#[verifier::external_type_specification]
#[verifier::external_body]
pub struct ExChannelId(lightning::ln::ChannelId);

/// Compares two byte arrays of one length, position by position.
pub fn bytes_equal<const N: usize>(a: &[u8; N], b: &[u8; N]) -> (same: bool)
    ensures
        same == (*a == *b),
{
    let mut i: usize = 0;
    while i < N
        invariant
            0 <= i <= N,
            forall|j: int| 0 <= j < i ==> a[j] == b[j],
        decreases N - i,
    {
        if a[i] != b[i] {
            return false;
        }
        i += 1;
    }
    assert(*a =~= *b);
    true
}

} // verus!
