use std::sync::Arc;
use tls_client::client::{ClientConfig, ClientSession, ConnState, RootCertStore};
use tls_client::msgs::{
    content_type_from_byte, ContentType, HandshakePayload, Message, MessagePayload,
    ServerHelloPayload,
};
use tls_client::suites::{
    BulkAlgorithm, HashAlgorithm, KeyExchangeAlgorithm, SupportedCipherSuite,
};
use tls_client::HandshakeError;

fn suite(id: u16) -> SupportedCipherSuite {
    SupportedCipherSuite {
        suite: id,
        kx: KeyExchangeAlgorithm::Ecdhe,
        bulk: BulkAlgorithm::Aes128Gcm,
        hash: HashAlgorithm::Sha256,
    }
}

fn config() -> Arc<ClientConfig> {
    Arc::new(ClientConfig {
        ciphersuites: vec![suite(0xc02f)],
        root_store: RootCertStore::empty(),
    })
}

fn raw(typ: ContentType, bytes: Vec<u8>) -> Message {
    Message {
        typ,
        payload: MessagePayload::Opaque(bytes),
    }
}

#[test]
fn unknown_handshake_tag_is_decode_failure() {
    let mut sess = ClientSession::new(&config(), "example.test");
    let mut msg = raw(ContentType::Handshake, vec![99u8, 1, 2, 3]);
    assert_eq!(sess.process_msg(&mut msg), Err(HandshakeError::DecodeFailure));
    assert_eq!(sess.state, ConnState::ExpectServerHello);
}

#[test]
fn empty_handshake_body_is_decode_failure() {
    let mut sess = ClientSession::new(&config(), "example.test");
    let mut msg = raw(ContentType::Handshake, Vec::new());
    assert_eq!(sess.process_msg(&mut msg), Err(HandshakeError::DecodeFailure));
}

#[test]
fn truncated_server_hello_is_decode_failure() {
    let mut sess = ClientSession::new(&config(), "example.test");
    // tag and only 10 bytes of nonce
    let mut v = vec![2u8];
    v.extend(vec![0u8; 10]);
    let mut msg = raw(ContentType::Handshake, v);
    assert_eq!(sess.process_msg(&mut msg), Err(HandshakeError::DecodeFailure));
}

#[test]
fn truncated_certificate_list_is_decode_failure() {
    let mut sess = ClientSession::new(&config(), "example.test");
    // claims a 5-byte certificate but carries only 2 bytes
    let mut msg = raw(ContentType::Handshake, vec![11u8, 0, 5, 1, 2]);
    assert_eq!(sess.process_msg(&mut msg), Err(HandshakeError::DecodeFailure));
}

#[test]
fn wrong_change_cipher_spec_body_is_decode_failure() {
    let mut sess = ClientSession::new(&config(), "example.test");
    let mut msg = raw(ContentType::ChangeCipherSpec, vec![2u8]);
    assert_eq!(sess.process_msg(&mut msg), Err(HandshakeError::DecodeFailure));
}

#[test]
fn decode_is_recorded_in_the_message() {
    let mut sess = ClientSession::new(&config(), "example.test");
    let mut v = vec![2u8];
    v.extend(vec![9u8; 32]);
    v.push(0xc0);
    v.push(0x2f);
    let mut msg = raw(ContentType::Handshake, v);
    assert_eq!(sess.process_msg(&mut msg), Ok(()));
    match &msg.payload {
        MessagePayload::Handshake(HandshakePayload::ServerHello(sh)) => {
            assert_eq!(sh.server_random, vec![9u8; 32]);
            assert_eq!(sh.cipher_suite, 0xc02f);
        }
        _ => panic!("message was not decoded in place"),
    }
}

#[test]
fn structured_message_is_accepted_as_is() {
    let mut sess = ClientSession::new(&config(), "example.test");
    let mut msg = Message {
        typ: ContentType::Handshake,
        payload: MessagePayload::Handshake(HandshakePayload::ServerHello(ServerHelloPayload {
            server_random: vec![4u8; 32],
            cipher_suite: 0xc02f,
        })),
    };
    assert_eq!(sess.process_msg(&mut msg), Ok(()));
    assert_eq!(sess.state, ConnState::ExpectCertificate);
    assert_eq!(sess.handshake_data.server_random, vec![4u8; 32]);
}

#[test]
fn content_type_bytes_round_trip() {
    for (byte, typ) in [
        (20u8, ContentType::ChangeCipherSpec),
        (21, ContentType::Alert),
        (22, ContentType::Handshake),
        (23, ContentType::ApplicationData),
    ] {
        assert_eq!(content_type_from_byte(byte), Some(typ));
    }
    assert_eq!(content_type_from_byte(42), None);
}

#[test]
fn queued_hello_encoding_matches_recorded_hello() {
    let mut sess = ClientSession::new(&config(), "example.test");
    let recorded = sess.handshake_data.client_hello.clone();
    let written = sess.take_tls_output().unwrap();
    assert_eq!(written, recorded);
    // handshake record, client-hello tag, nonce, one suite + marker
    assert_eq!(written[0], 22);
    assert_eq!(written[1], 1);
    assert_eq!(&written[34..36], &[0u8, 2]);
    assert_eq!(&written[36..40], &[0xc0, 0x2f, 0x00, 0xff]);
}
