use vstd::prelude::*;

use crate::signaling::TrackAddedEvent;

verus! {

/// One event on a peer's listener stream.
#[derive(Debug)]
pub enum SfuEvent {
    /// A track of another participant became available to this peer.
    TrackAdded(TrackAddedEvent),
    /// The unit renegotiates: here is its new SDP offer.
    RenegotiateSdpOffer(String),
    /// The unit's SDP answer to an offer from this peer.
    SdpAnswer(String),
    /// A local ICE candidate of the unit, in browser JSON form.
    IceCandidate(String),
}

} // verus!
