use vstd::prelude::*;

verus! {

/// A signaling payload sent by the media unit toward a client.
#[derive(Debug)]
pub enum Signal {
    /// An SDP offer initiated by the unit.
    SdpOffer(String),
    /// One ICE candidate in browser JSON form.
    IceCandidate(String),
    /// The unit's SDP answer to a client offer.
    SdpAnswer(String),
}

} // verus!
