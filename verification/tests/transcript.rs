use std::sync::Arc;
use tls_client::client::{ClientConfig, ClientSession, RootCertStore};
use tls_client::hash::HandshakeHash;
use tls_client::msgs::{ContentType, Message, MessagePayload};
use tls_client::suites::{
    BulkAlgorithm, HashAlgorithm, KeyExchangeAlgorithm, SupportedCipherSuite,
};

fn suite(id: u16, hash: HashAlgorithm) -> SupportedCipherSuite {
    SupportedCipherSuite {
        suite: id,
        kx: KeyExchangeAlgorithm::Ecdhe,
        bulk: BulkAlgorithm::Aes128Gcm,
        hash,
    }
}

fn config_with(suites: Vec<SupportedCipherSuite>) -> Arc<ClientConfig> {
    Arc::new(ClientConfig {
        ciphersuites: suites,
        root_store: RootCertStore::empty(),
    })
}

fn raw(typ: ContentType, bytes: Vec<u8>) -> Message {
    Message {
        typ,
        payload: MessagePayload::Opaque(bytes),
    }
}

fn server_hello(id: u16) -> Vec<u8> {
    let mut v = vec![2u8];
    v.extend(vec![0u8; 32]);
    v.push((id >> 8) as u8);
    v.push((id & 0xff) as u8);
    v
}

fn hex(bytes: &[u8]) -> String {
    let mut s = String::new();
    for b in bytes {
        s.push_str(&format!("{:02x}", b));
    }
    s
}

#[test]
fn sha256_transcript_known_answer() {
    let hh = HandshakeHash::start(HashAlgorithm::Sha256, b"abc".to_vec());
    assert_eq!(
        hex(&hh.get_current_hash()),
        "ba7816bf8f01cfea414140de5dae2223b00361a396177a9cb410ff61f20015ad"
    );
}

#[test]
fn sha384_transcript_known_answer() {
    let hh = HandshakeHash::start(HashAlgorithm::Sha384, b"abc".to_vec());
    assert_eq!(
        hex(&hh.get_current_hash()),
        "cb00753f45a35e8bb5a03d699ac65007272c32ab0eded1631a8b605a43ff5bed\
         8086072ba1e7cc2358baeca134c825a7"
    );
}

#[test]
fn transcript_is_order_sensitive() {
    let a = raw(ContentType::Handshake, vec![14u8]);
    let b = raw(ContentType::Handshake, vec![20u8, 1, 2]);

    let mut first = HandshakeHash::start(HashAlgorithm::Sha256, Vec::new());
    first.update(&a);
    first.update(&b);

    let mut second = HandshakeHash::start(HashAlgorithm::Sha256, Vec::new());
    second.update(&b);
    second.update(&a);

    assert_ne!(first.get_current_hash(), second.get_current_hash());
}

#[test]
fn equal_transcripts_give_equal_verify_data() {
    let cfg = config_with(vec![suite(0xc02f, HashAlgorithm::Sha256)]);
    let mut one = ClientSession::new(&cfg, "example.test");
    let mut two = ClientSession::new(&cfg, "example.test");
    // fresh sessions differ only in the client nonce inside the hello; give
    // both the same recorded hello so the transcripts start equal
    two.handshake_data.client_hello = one.handshake_data.client_hello.clone();

    for sess in [&mut one, &mut two] {
        let mut m1 = raw(ContentType::Handshake, server_hello(0xc02f));
        sess.process_msg(&mut m1).unwrap();
        let mut m2 = raw(ContentType::Handshake, vec![11u8, 0, 1, 0xaa]);
        sess.process_msg(&mut m2).unwrap();
    }

    assert_eq!(
        one.handshake_data.get_verify_data().body,
        two.handshake_data.get_verify_data().body
    );
}

#[test]
fn fresh_nonces_give_different_verify_data() {
    let cfg = config_with(vec![suite(0xc02f, HashAlgorithm::Sha256)]);
    let mut one = ClientSession::new(&cfg, "example.test");
    let mut two = ClientSession::new(&cfg, "example.test");
    assert_ne!(one.handshake_data.client_random, two.handshake_data.client_random);

    for sess in [&mut one, &mut two] {
        let mut m1 = raw(ContentType::Handshake, server_hello(0xc02f));
        sess.process_msg(&mut m1).unwrap();
    }
    // the hellos (and so the transcripts) differ in the nonce
    assert_ne!(
        one.handshake_data.get_verify_data().body,
        two.handshake_data.get_verify_data().body
    );
}

#[test]
fn verify_data_length_follows_negotiated_hash() {
    let cfg = config_with(vec![suite(0xc030, HashAlgorithm::Sha384)]);
    let mut sess = ClientSession::new(&cfg, "example.test");
    let mut m1 = raw(ContentType::Handshake, server_hello(0xc030));
    sess.process_msg(&mut m1).unwrap();
    assert_eq!(sess.handshake_data.get_verify_data().body.len(), 48);

    let cfg = config_with(vec![suite(0xc02f, HashAlgorithm::Sha256)]);
    let mut sess = ClientSession::new(&cfg, "example.test");
    let mut m1 = raw(ContentType::Handshake, server_hello(0xc02f));
    sess.process_msg(&mut m1).unwrap();
    assert_eq!(sess.handshake_data.get_verify_data().body.len(), 32);
}

#[test]
fn hash_message_appends_wire_bytes() {
    let cfg = config_with(vec![suite(0xc02f, HashAlgorithm::Sha256)]);
    let mut sess = ClientSession::new(&cfg, "example.test");
    let mut m1 = raw(ContentType::Handshake, server_hello(0xc02f));
    sess.process_msg(&mut m1).unwrap();

    let before = sess.handshake_data.get_verify_data().body;
    let extra = Message {
        typ: ContentType::Handshake,
        payload: MessagePayload::Opaque(vec![14u8]),
    };
    sess.handshake_data.hash_message(&extra);
    let after = sess.handshake_data.get_verify_data().body;
    assert_ne!(before, after);
}
