use vstd::prelude::*;

verus! {

/// A signaling payload sent by a client toward the media unit.
#[derive(Debug)]
pub enum Signal {
    /// The client's SDP answer to an offer from the unit.
    SdpAnswer(String),
    /// One ICE candidate in browser JSON form.
    IceCandidate(String),
    /// A bare renegotiation request.
    Renegotiate(bool),
    /// An SDP offer initiated by the client.
    SdpOffer(String),
}

} // verus!
