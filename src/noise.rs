//! Noise_IK sessions: the two-message handshake and the transport cipher
//! that it yields. The handshake is split at the points where a message
//! crosses the wire, so the caller moves the bytes and this module decides.
use crate::error::ProtoError;
use crate::wire::{encode_prefixed, prefixed_spec};
use snow::{Builder, HandshakeState, TransportState};
use vstd::prelude::*;

verus! {

/// The Noise protocol name both peers use.
pub const NOISE_PARAMS: &'static str = "Noise_IK_25519_ChaChaPoly_BLAKE2s";

/// Length of a Curve25519 key, public or private.
pub const KEY_LEN: usize = 32;

/// Length of the AEAD tag that every transport ciphertext carries.
pub const TAG_LEN: usize = 16;

/// Largest Noise message.
pub const MAX_NOISE_MESSAGE: usize = 65535;

/// Largest plaintext that fits in one transport message.
pub const MAX_PLAINTEXT: usize = 65519;

/// snow's `HandshakeState`, carried through opaquely.
#[verifier::external_type_specification]
#[verifier::external_body]
pub struct ExHandshakeState(snow::HandshakeState);

/// snow's `TransportState`, the cipher pair after the handshake, carried
/// through opaquely.
#[verifier::external_type_specification]
#[verifier::external_body]
pub struct ExTransportState(snow::TransportState);

/// snow's `Error`, which callers here map to `ProtoError`.
#[verifier::external_type_specification]
#[verifier::external_body]
pub struct ExSnowError(snow::Error);

/// A static key pair.
pub struct KeyPair {
    pub private: Vec<u8>,
    pub public: Vec<u8>,
}

/// Relies on snow's `Builder` (`NOISE_PARAMS` parsed, `local_private_key`,
/// `remote_public_key`, `build_initiator`). snow copies the keys into
/// fixed buffers and panics on keys longer than those, hence the lengths.
#[verifier::external_body]
fn build_initiator(local_private: &[u8], remote_public: &[u8]) -> (r: Result<
    HandshakeState,
    snow::Error,
>)
    requires
        local_private@.len() == KEY_LEN,
        remote_public@.len() == KEY_LEN,
{
    Builder::new(NOISE_PARAMS.parse()?)
        .local_private_key(local_private)?
        .remote_public_key(remote_public)?
        .build_initiator()
}

/// Relies on snow's `Builder` (`NOISE_PARAMS` parsed, `local_private_key`,
/// `build_responder`); the key length as for the initiator.
#[verifier::external_body]
fn build_responder(local_private: &[u8]) -> (r: Result<HandshakeState, snow::Error>)
    requires
        local_private@.len() == KEY_LEN,
{
    Builder::new(NOISE_PARAMS.parse()?).local_private_key(local_private)?.build_responder()
}

/// Relies on snow's `HandshakeState::write_message`: it returns the number
/// of bytes written and fails rather than exceed 65535 bytes.
#[verifier::external_body]
fn handshake_write(hs: &mut HandshakeState, payload: &[u8]) -> (r: Result<Vec<u8>, snow::Error>)
    ensures
        r is Ok ==> r->Ok_0@.len() <= MAX_NOISE_MESSAGE,
{
    let mut buf = vec![0u8; MAX_NOISE_MESSAGE];
    let n = hs.write_message(payload, &mut buf)?;
    buf.truncate(n);
    Ok(buf)
}

/// Relies on snow's `HandshakeState::read_message`: it returns the payload
/// length, the payload being what is left of the message once the
/// handshake tokens and any tag are taken off, and it refuses messages over
/// 65535 bytes.
#[verifier::external_body]
fn handshake_read(hs: &mut HandshakeState, message: &[u8]) -> (r: Result<Vec<u8>, snow::Error>)
    ensures
        r is Ok ==> r->Ok_0@.len() <= message@.len(),
        message@.len() > MAX_NOISE_MESSAGE ==> r is Err,
{
    let mut buf = vec![0u8; MAX_NOISE_MESSAGE];
    let n = hs.read_message(message, &mut buf)?;
    buf.truncate(n);
    Ok(buf)
}

/// Relies on snow's `HandshakeState::into_transport_mode`.
#[verifier::external_body]
fn into_transport(hs: HandshakeState) -> (r: Result<TransportState, snow::Error>) {
    hs.into_transport_mode()
}

/// Relies on snow's `TransportState::write_message`: the ciphertext is the
/// plaintext plus a 16-byte tag, and a plaintext whose ciphertext would
/// exceed 65535 bytes is refused before the state is touched.
#[verifier::external_body]
fn transport_write(ts: &mut TransportState, payload: &[u8]) -> (r: Result<Vec<u8>, snow::Error>)
    ensures
        r is Ok ==> r->Ok_0@.len() == payload@.len() + TAG_LEN,
        payload@.len() + TAG_LEN > MAX_NOISE_MESSAGE ==> r is Err && *final(ts) == *old(ts),
{
    let mut buf = vec![0u8; MAX_NOISE_MESSAGE];
    let n = ts.write_message(payload, &mut buf)?;
    buf.truncate(n);
    Ok(buf)
}

/// Relies on snow's `TransportState::read_message`: the plaintext is the
/// ciphertext without its 16-byte tag; a message over 65535 bytes or
/// shorter than the tag is refused before the state is touched.
#[verifier::external_body]
fn transport_read(ts: &mut TransportState, message: &[u8]) -> (r: Result<Vec<u8>, snow::Error>)
    ensures
        r is Ok ==> r->Ok_0@.len() + TAG_LEN == message@.len(),
        message@.len() > MAX_NOISE_MESSAGE || message@.len() < TAG_LEN ==> r is Err && *final(ts)
            == *old(ts),
{
    let mut buf = vec![0u8; MAX_NOISE_MESSAGE];
    let n = ts.read_message(message, &mut buf)?;
    buf.truncate(n);
    Ok(buf)
}

/// Relies on snow's `Builder::generate_keypair` for `NOISE_PARAMS`:
/// Curve25519 keys, 32 bytes each.
#[verifier::external_body]
fn snow_keypair() -> (r: Result<KeyPair, snow::Error>)
    ensures
        r is Ok ==> r->Ok_0.private@.len() == KEY_LEN && r->Ok_0.public@.len() == KEY_LEN,
{
    let kp = Builder::new(NOISE_PARAMS.parse()?).generate_keypair()?;
    Ok(KeyPair { private: kp.private, public: kp.public })
}

/// A fresh static key pair.
pub fn generate_static_keypair() -> (r: Result<KeyPair, ProtoError>)
    ensures
        match r {
            Ok(kp) => kp.private@.len() == KEY_LEN && kp.public@.len() == KEY_LEN,
            Err(e) => e == ProtoError::HandshakeFailed,
        },
{
    match snow_keypair() {
        Ok(kp) => Ok(kp),
        Err(_) => Err(ProtoError::HandshakeFailed),
    }
}

/// Seals one plaintext message.
pub fn encrypt(transport: &mut TransportState, plaintext: &[u8]) -> (r: Result<
    Vec<u8>,
    ProtoError,
>)
    ensures
        match r {
            Ok(c) => c@.len() == plaintext@.len() + TAG_LEN,
            Err(e) => e == ProtoError::TransportIo,
        },
        plaintext@.len() > MAX_PLAINTEXT ==> r is Err && *final(transport) == *old(transport),
{
    match transport_write(transport, plaintext) {
        Ok(c) => Ok(c),
        Err(_) => Err(ProtoError::TransportIo),
    }
}

/// Opens one ciphertext; a failed authentication is `DecryptFailed`.
pub fn decrypt(transport: &mut TransportState, ciphertext: &[u8]) -> (r: Result<
    Vec<u8>,
    ProtoError,
>)
    ensures
        match r {
            Ok(p) => p@.len() + TAG_LEN == ciphertext@.len(),
            Err(e) => e == ProtoError::DecryptFailed,
        },
        ciphertext@.len() < TAG_LEN || ciphertext@.len() > MAX_NOISE_MESSAGE ==> r is Err
            && *final(transport) == *old(transport),
{
    match transport_read(transport, ciphertext) {
        Ok(p) => Ok(p),
        Err(_) => Err(ProtoError::DecryptFailed),
    }
}

/// Seals a plaintext message and frames it for the wire: two length bytes,
/// then the ciphertext.
pub fn send_encrypted(transport: &mut TransportState, plaintext: &[u8]) -> (r: Result<
    Vec<u8>,
    ProtoError,
>)
    ensures
        match r {
            Ok(w) => exists|c: Seq<u8>|
                #![trigger prefixed_spec(c)]
                c.len() == plaintext@.len() + TAG_LEN && w@ == prefixed_spec(c),
            Err(e) => e == ProtoError::TransportIo,
        },
        plaintext@.len() > MAX_PLAINTEXT ==> r is Err,
{
    let c = encrypt(transport, plaintext)?;
    let w = encode_prefixed(&c);
    assert(w@ == prefixed_spec(c@));
    Ok(w)
}

/// First half of the initiator's handshake: builds the initiator from the
/// client's static private key and the server's static public key, and
/// writes message 1, whose payload is the client's static public key.
/// Keys of the wrong length fail the handshake.
pub fn client_handshake_start(client_static: &KeyPair, server_pub: &[u8]) -> (r: Result<
    (HandshakeState, Vec<u8>),
    ProtoError,
>)
    ensures
        match r {
            Ok((_, msg)) => msg@.len() <= MAX_NOISE_MESSAGE,
            Err(e) => e == ProtoError::HandshakeFailed,
        },
        client_static.private@.len() != KEY_LEN || server_pub@.len() != KEY_LEN ==> r is Err,
{
    if client_static.private.len() != KEY_LEN || server_pub.len() != KEY_LEN {
        return Err(ProtoError::HandshakeFailed);
    }
    let mut hs = match build_initiator(client_static.private.as_slice(), server_pub) {
        Ok(hs) => hs,
        Err(_) => return Err(ProtoError::HandshakeFailed),
    };
    match handshake_write(&mut hs, client_static.public.as_slice()) {
        Ok(msg) => Ok((hs, msg)),
        Err(_) => Err(ProtoError::HandshakeFailed),
    }
}

/// Second half of the initiator's handshake: reads message 2 and enters
/// transport mode.
pub fn client_handshake_finish(hs: HandshakeState, reply: &[u8]) -> (r: Result<
    TransportState,
    ProtoError,
>)
    ensures
        r is Err ==> r->Err_0 == ProtoError::HandshakeFailed,
        reply@.len() > MAX_NOISE_MESSAGE ==> r is Err,
{
    let mut hs = hs;
    if let Err(_) = handshake_read(&mut hs, reply) {
        return Err(ProtoError::HandshakeFailed);
    }
    match into_transport(hs) {
        Ok(t) => Ok(t),
        Err(_) => Err(ProtoError::HandshakeFailed),
    }
}

/// What the responder has after reading message 1.
pub struct ServerHandshake {
    /// The transport cipher pair.
    pub transport: TransportState,
    /// The client's static public key, as carried in message 1.
    pub client_static: Vec<u8>,
    /// Message 2, to be sent to the client.
    pub reply: Vec<u8>,
}

/// The responder's handshake: reads message 1, learns the client's static
/// key from its payload, writes message 2 with an empty payload and enters
/// transport mode.
pub fn server_handshake(server_static: &KeyPair, first: &[u8]) -> (r: Result<
    ServerHandshake,
    ProtoError,
>)
    ensures
        match r {
            Ok(s) => s.reply@.len() <= MAX_NOISE_MESSAGE && s.client_static@.len() <= first@.len(),
            Err(e) => e == ProtoError::HandshakeFailed,
        },
        server_static.private@.len() != KEY_LEN || first@.len() > MAX_NOISE_MESSAGE ==> r is Err,
{
    if server_static.private.len() != KEY_LEN {
        return Err(ProtoError::HandshakeFailed);
    }
    let mut hs = match build_responder(server_static.private.as_slice()) {
        Ok(hs) => hs,
        Err(_) => return Err(ProtoError::HandshakeFailed),
    };
    let client_static = match handshake_read(&mut hs, first) {
        Ok(p) => p,
        Err(_) => return Err(ProtoError::HandshakeFailed),
    };
    let empty: [u8; 0] = [];
    let reply = match handshake_write(&mut hs, &empty) {
        Ok(m) => m,
        Err(_) => return Err(ProtoError::HandshakeFailed),
    };
    match into_transport(hs) {
        Ok(transport) => Ok(ServerHandshake { transport, client_static, reply }),
        Err(_) => Err(ProtoError::HandshakeFailed),
    }
}

} // verus!
