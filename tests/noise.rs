use blackwire::noise::{
    client_handshake_finish, client_handshake_start, decrypt, encrypt, generate_static_keypair,
    send_encrypted, server_handshake, KeyPair,
};
use blackwire::wire::decode_prefixed;
use blackwire::ProtoError;
use snow::TransportState;

fn pair() -> (TransportState, TransportState, KeyPair) {
    let server = generate_static_keypair().unwrap();
    let client = generate_static_keypair().unwrap();
    let (hs, first) = client_handshake_start(&client, &server.public).unwrap();
    let accepted = server_handshake(&server, &first).unwrap();
    assert_eq!(accepted.client_static, client.public);
    let client_transport = client_handshake_finish(hs, &accepted.reply).unwrap();
    (client_transport, accepted.transport, client)
}

#[test]
fn generated_keys_are_32_bytes() {
    let kp = generate_static_keypair().unwrap();
    assert_eq!(kp.private.len(), 32);
    assert_eq!(kp.public.len(), 32);
    assert_ne!(kp.private, kp.public);
}

#[test]
fn handshake_teaches_server_the_client_key() {
    let (_c, _s, _client) = pair();
}

#[test]
fn encrypt_then_decrypt_round_trips() {
    let (mut c, mut s, _) = pair();
    let plain = b"an ethernet frame".to_vec();
    let sealed = encrypt(&mut c, &plain).unwrap();
    assert_eq!(sealed.len(), plain.len() + 16);
    assert_ne!(&sealed[..plain.len()], plain.as_slice());
    assert_eq!(decrypt(&mut s, &sealed), Ok(plain.clone()));
    let back = encrypt(&mut s, &plain).unwrap();
    assert_eq!(decrypt(&mut c, &back), Ok(plain));
}

#[test]
fn tampered_ciphertext_fails() {
    let (mut c, mut s, _) = pair();
    let mut sealed = encrypt(&mut c, &[1, 2, 3, 4]).unwrap();
    sealed[2] ^= 0x01;
    assert_eq!(decrypt(&mut s, &sealed), Err(ProtoError::DecryptFailed));
}

#[test]
fn too_short_ciphertext_fails() {
    let (_c, mut s, _) = pair();
    assert_eq!(decrypt(&mut s, &[0u8; 15]), Err(ProtoError::DecryptFailed));
}

#[test]
fn oversized_plaintext_is_refused() {
    let (mut c, mut s, _) = pair();
    assert_eq!(encrypt(&mut c, &vec![0u8; 65520]), Err(ProtoError::TransportIo));
    let sealed = encrypt(&mut c, &vec![3u8; 65519]).unwrap();
    assert_eq!(sealed.len(), 65535);
    assert_eq!(decrypt(&mut s, &sealed), Ok(vec![3u8; 65519]));
}

#[test]
fn refused_ciphertext_leaves_the_receiver_in_step() {
    let (mut c, mut s, _) = pair();
    assert_eq!(decrypt(&mut s, &[0u8; 10]), Err(ProtoError::DecryptFailed));
    let sealed = encrypt(&mut c, &[4, 5, 6]).unwrap();
    assert_eq!(decrypt(&mut s, &sealed), Ok(vec![4, 5, 6]));
}

#[test]
fn send_encrypted_frames_the_ciphertext() {
    let (mut c, mut s, _) = pair();
    let wire = send_encrypted(&mut c, &[5, 6, 7]).unwrap();
    assert_eq!(&wire[..2], &[0, 19]);
    let (ct, used) = decode_prefixed(&wire).unwrap();
    assert_eq!(used, wire.len());
    assert_eq!(decrypt(&mut s, &ct), Ok(vec![5, 6, 7]));
}

#[test]
fn wrong_key_lengths_fail_the_handshake() {
    let client = generate_static_keypair().unwrap();
    assert_eq!(client_handshake_start(&client, &[1u8; 31]).err(), Some(ProtoError::HandshakeFailed));
    let short = KeyPair { private: vec![1u8; 16], public: vec![2u8; 32] };
    assert_eq!(server_handshake(&short, &[0u8; 96]).err(), Some(ProtoError::HandshakeFailed));
}

#[test]
fn garbage_first_message_fails_the_handshake() {
    let server = generate_static_keypair().unwrap();
    assert_eq!(server_handshake(&server, &[7u8; 40]).err(), Some(ProtoError::HandshakeFailed));
}

#[test]
fn client_with_wrong_server_key_fails() {
    let server = generate_static_keypair().unwrap();
    let other = generate_static_keypair().unwrap();
    let client = generate_static_keypair().unwrap();
    let (_hs, first) = client_handshake_start(&client, &other.public).unwrap();
    assert_eq!(server_handshake(&server, &first).err(), Some(ProtoError::HandshakeFailed));
}
