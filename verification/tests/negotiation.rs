use std::sync::Arc;
use tls_client::client::{ClientConfig, ClientSession, ConnState, RootCertStore};
use tls_client::msgs::{ContentType, Message, MessagePayload};
use tls_client::suites::{
    BulkAlgorithm, HashAlgorithm, KeyExchangeAlgorithm, SupportedCipherSuite,
    CS_ECDHE_RSA_AES_128_GCM_SHA256, CS_ECDHE_RSA_AES_256_GCM_SHA384,
    TLS_EMPTY_RENEGOTIATION_INFO_SCSV,
};
use tls_client::HandshakeError;

fn suite(id: u16, hash: HashAlgorithm) -> SupportedCipherSuite {
    SupportedCipherSuite {
        suite: id,
        kx: KeyExchangeAlgorithm::Ecdhe,
        bulk: BulkAlgorithm::Aes256Gcm,
        hash,
    }
}

fn config_with(suites: Vec<SupportedCipherSuite>) -> Arc<ClientConfig> {
    Arc::new(ClientConfig {
        ciphersuites: suites,
        root_store: RootCertStore::empty(),
    })
}

fn server_hello(id: u16) -> Message {
    let mut v = vec![2u8];
    v.extend(vec![0u8; 32]);
    v.push((id >> 8) as u8);
    v.push((id & 0xff) as u8);
    Message {
        typ: ContentType::Handshake,
        payload: MessagePayload::Opaque(v),
    }
}

#[test]
fn default_config_advertises_defaults_and_marker() {
    let cfg = Arc::new(ClientConfig::default());
    let sess = ClientSession::new(&cfg, "example.test");
    let ids = sess.get_cipher_suites();
    assert_eq!(
        ids,
        vec![
            CS_ECDHE_RSA_AES_128_GCM_SHA256,
            CS_ECDHE_RSA_AES_256_GCM_SHA384,
            TLS_EMPTY_RENEGOTIATION_INFO_SCSV,
        ]
    );
}

#[test]
fn find_cipher_suite_hits_configured_entry() {
    let cfg = config_with(vec![suite(10, HashAlgorithm::Sha256), suite(20, HashAlgorithm::Sha384)]);
    let sess = ClientSession::new(&cfg, "example.test");
    let found = sess.find_cipher_suite(20).unwrap();
    assert_eq!(found.suite, 20);
    assert_eq!(found.hash, HashAlgorithm::Sha384);
}

#[test]
fn find_cipher_suite_misses_unconfigured_entry() {
    let cfg = config_with(vec![suite(10, HashAlgorithm::Sha256)]);
    let sess = ClientSession::new(&cfg, "example.test");
    assert!(sess.find_cipher_suite(99).is_none());
    // the advertised renegotiation marker is not a configured suite either
    assert!(sess.find_cipher_suite(TLS_EMPTY_RENEGOTIATION_INFO_SCSV).is_none());
}

#[test]
fn find_cipher_suite_prefers_first_match() {
    let cfg = config_with(vec![suite(10, HashAlgorithm::Sha256), suite(10, HashAlgorithm::Sha384)]);
    let sess = ClientSession::new(&cfg, "example.test");
    assert_eq!(sess.find_cipher_suite(10).unwrap().hash, HashAlgorithm::Sha256);
}

#[test]
fn unconfigured_selection_is_negotiation_failure() {
    let cfg = config_with(vec![suite(10, HashAlgorithm::Sha256)]);
    let mut sess = ClientSession::new(&cfg, "example.test");
    let mut msg = server_hello(0x9999);
    assert_eq!(sess.process_msg(&mut msg), Err(HandshakeError::NegotiationFailure));
    assert_eq!(sess.state, ConnState::ExpectServerHello);
    assert!(sess.handshake_data.ciphersuite.is_none());
    assert!(sess.handshake_data.handshake_hash.is_none());
}

#[test]
fn renegotiation_marker_selection_is_negotiation_failure() {
    // even a configuration that lists the marker must refuse it as a suite
    let cfg = config_with(vec![
        suite(10, HashAlgorithm::Sha256),
        suite(TLS_EMPTY_RENEGOTIATION_INFO_SCSV, HashAlgorithm::Sha256),
    ]);
    let mut sess = ClientSession::new(&cfg, "example.test");
    let mut msg = server_hello(TLS_EMPTY_RENEGOTIATION_INFO_SCSV);
    assert_eq!(sess.process_msg(&mut msg), Err(HandshakeError::NegotiationFailure));
    assert_eq!(sess.state, ConnState::ExpectServerHello);
}

#[test]
fn add_extensions_registers_nothing() {
    let cfg = config_with(vec![suite(10, HashAlgorithm::Sha256)]);
    let sess = ClientSession::new(&cfg, "example.test");
    let mut exts = Vec::new();
    sess.add_extensions(&mut exts);
    assert!(exts.is_empty());
}
