use vstd::prelude::*;

verus! {

/// The failures that the tunnel machinery distinguishes.
#[derive(Debug, Clone, Copy, PartialEq, Eq, Structural)]
pub enum ProtoError {
    /// The peer closed the connection, or a read came up short.
    PeerClosed,
    /// A write to the transport failed.
    TransportIo,
    /// The Noise handshake failed before transport mode was reached.
    HandshakeFailed,
    /// The peer's static key is not on the allow-list.
    Unauthorized,
    /// A ciphertext failed authentication.
    DecryptFailed,
    /// A plaintext frame has an unknown opcode or control type, or is too short.
    MalformedFrame,
    /// The first post-handshake frame was not a well-formed MAC assignment.
    BadHandshake,
    /// The TAP device failed to read or write.
    TapIo,
    /// The queue feeding a session was closed.
    ChannelClosed,
    /// A key file did not hold a hex-encoded key.
    InvalidKey,
}

} // verus!
