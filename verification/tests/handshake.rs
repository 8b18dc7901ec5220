use std::sync::Arc;
use tls_client::client::{ClientConfig, ClientSession, ConnState, RootCertStore};
use tls_client::msgs::{ContentType, HandshakePayload, Message, MessagePayload};
use tls_client::suites::{
    BulkAlgorithm, HashAlgorithm, KeyExchangeAlgorithm, SupportedCipherSuite,
};
use tls_client::HandshakeError;

fn suite(id: u16, hash: HashAlgorithm) -> SupportedCipherSuite {
    SupportedCipherSuite {
        suite: id,
        kx: KeyExchangeAlgorithm::Ecdhe,
        bulk: BulkAlgorithm::Aes128Gcm,
        hash,
    }
}

fn config_with(suites: Vec<SupportedCipherSuite>) -> Arc<ClientConfig> {
    Arc::new(ClientConfig {
        ciphersuites: suites,
        root_store: RootCertStore::empty(),
    })
}

fn raw(typ: ContentType, bytes: Vec<u8>) -> Message {
    Message {
        typ,
        payload: MessagePayload::Opaque(bytes),
    }
}

fn server_hello_bytes(id: u16, random_byte: u8) -> Vec<u8> {
    let mut v = vec![2u8];
    v.extend(vec![random_byte; 32]);
    v.push((id >> 8) as u8);
    v.push((id & 0xff) as u8);
    v
}

fn certificate_bytes(certs: &[&[u8]]) -> Vec<u8> {
    let mut v = vec![11u8];
    for c in certs {
        v.push((c.len() >> 8) as u8);
        v.push((c.len() & 0xff) as u8);
        v.extend_from_slice(c);
    }
    v
}

fn server_kx_bytes(params: &[u8], scheme: u16, sig: &[u8]) -> Vec<u8> {
    let mut v = vec![12u8];
    v.push((params.len() >> 8) as u8);
    v.push((params.len() & 0xff) as u8);
    v.extend_from_slice(params);
    v.push((scheme >> 8) as u8);
    v.push((scheme & 0xff) as u8);
    v.push((sig.len() >> 8) as u8);
    v.push((sig.len() & 0xff) as u8);
    v.extend_from_slice(sig);
    v
}

#[test]
fn start_queues_single_hello() {
    // Two suites in preference order, one target host.
    let cfg = config_with(vec![suite(47, HashAlgorithm::Sha256), suite(53, HashAlgorithm::Sha256)]);
    let sess = ClientSession::new(&cfg, "example.test");

    assert_eq!(sess.state, ConnState::ExpectServerHello);
    assert_eq!(sess.handshake_data.dns_name, "example.test");
    assert_eq!(sess.tls_queue.len(), 1);
    let hello = sess.tls_queue.front().unwrap();
    assert_eq!(hello.typ, ContentType::Handshake);
    match &hello.payload {
        MessagePayload::Handshake(HandshakePayload::ClientHello(ch)) => {
            assert_eq!(ch.client_random.len(), 32);
            // the two configured suites, then the renegotiation marker
            assert_eq!(ch.cipher_suites, vec![47u16, 53u16, 0x00ffu16]);
            assert!(ch.extensions.is_empty());
        }
        _ => panic!("queued message is not a client hello"),
    }
}

#[test]
fn kx_while_awaiting_hello_is_protocol_violation() {
    let cfg = config_with(vec![suite(47, HashAlgorithm::Sha256)]);
    let mut sess = ClientSession::new(&cfg, "example.test");

    let mut msg = raw(ContentType::Handshake, server_kx_bytes(b"params", 1, b"sig"));
    let r = sess.process_msg(&mut msg);
    assert_eq!(r, Err(HandshakeError::ProtocolViolation));
    assert_eq!(sess.state, ConnState::ExpectServerHello);
    assert!(sess.handshake_data.ciphersuite.is_none());
}

#[test]
fn well_formed_sequence_reaches_traffic() {
    let cfg = config_with(vec![suite(0xc02f, HashAlgorithm::Sha256)]);
    let mut sess = ClientSession::new(&cfg, "example.test");

    let mut m1 = raw(ContentType::Handshake, server_hello_bytes(0xc02f, 7));
    assert_eq!(sess.process_msg(&mut m1), Ok(()));
    assert_eq!(sess.state, ConnState::ExpectCertificate);
    assert_eq!(sess.handshake_data.server_random, vec![7u8; 32]);
    assert_eq!(sess.handshake_data.ciphersuite.unwrap().suite, 0xc02f);

    let mut m2 = raw(ContentType::Handshake, certificate_bytes(&[b"cert!", b"root"]));
    assert_eq!(sess.process_msg(&mut m2), Ok(()));
    assert_eq!(sess.state, ConnState::ExpectServerKX);
    assert_eq!(
        sess.handshake_data.server_cert_chain,
        vec![b"cert!".to_vec(), b"root".to_vec()]
    );

    let mut m3 = raw(ContentType::Handshake, server_kx_bytes(b"dh-params", 0x0401, b"sg"));
    assert_eq!(sess.process_msg(&mut m3), Ok(()));
    assert_eq!(sess.state, ConnState::ExpectServerHelloDone);
    assert_eq!(sess.handshake_data.server_kx_params, b"dh-params".to_vec());
    let dss = sess.handshake_data.server_kx_sig.as_ref().unwrap();
    assert_eq!(dss.scheme, 0x0401);
    assert_eq!(dss.sig, b"sg".to_vec());

    let mut m4 = raw(ContentType::Handshake, vec![14u8]);
    assert_eq!(sess.process_msg(&mut m4), Ok(()));
    assert_eq!(sess.state, ConnState::ExpectCCS);

    let mut m5 = raw(ContentType::ChangeCipherSpec, vec![1u8]);
    assert_eq!(sess.process_msg(&mut m5), Ok(()));
    assert_eq!(sess.state, ConnState::ExpectFinished);

    let mut m6 = raw(ContentType::Handshake, vec![20u8, 9, 9, 9]);
    assert_eq!(sess.process_msg(&mut m6), Ok(()));
    assert_eq!(sess.state, ConnState::Traffic);
}

#[test]
fn ccs_before_hello_done_is_protocol_violation() {
    let cfg = config_with(vec![suite(0xc02f, HashAlgorithm::Sha256)]);
    let mut sess = ClientSession::new(&cfg, "example.test");
    let mut m1 = raw(ContentType::Handshake, server_hello_bytes(0xc02f, 7));
    sess.process_msg(&mut m1).unwrap();
    assert_eq!(sess.state, ConnState::ExpectCertificate);

    let before_random = sess.handshake_data.server_random.clone();
    let mut ccs = raw(ContentType::ChangeCipherSpec, vec![1u8]);
    assert_eq!(sess.process_msg(&mut ccs), Err(HandshakeError::ProtocolViolation));
    assert_eq!(sess.state, ConnState::ExpectCertificate);
    assert_eq!(sess.handshake_data.server_random, before_random);
    assert!(sess.handshake_data.server_cert_chain.is_empty());
}

#[test]
fn traffic_state_rejects_everything() {
    let cfg = config_with(vec![suite(0xc02f, HashAlgorithm::Sha256)]);
    let mut sess = ClientSession::new(&cfg, "example.test");
    for bytes in [
        server_hello_bytes(0xc02f, 1),
        certificate_bytes(&[b"c"]),
        server_kx_bytes(b"p", 1, b"s"),
        vec![14u8],
    ] {
        let mut m = raw(ContentType::Handshake, bytes);
        sess.process_msg(&mut m).unwrap();
    }
    let mut ccs = raw(ContentType::ChangeCipherSpec, vec![1u8]);
    sess.process_msg(&mut ccs).unwrap();
    let mut fin = raw(ContentType::Handshake, vec![20u8]);
    sess.process_msg(&mut fin).unwrap();
    assert_eq!(sess.state, ConnState::Traffic);

    let mut again = raw(ContentType::Handshake, vec![14u8]);
    assert_eq!(sess.process_msg(&mut again), Err(HandshakeError::UnexpectedState));
    assert_eq!(sess.state, ConnState::Traffic);
}

#[test]
fn pump_processes_in_order_and_stops_at_first_failure() {
    let cfg = config_with(vec![suite(0xc02f, HashAlgorithm::Sha256)]);
    let mut sess = ClientSession::new(&cfg, "example.test");
    sess.queue_incoming(raw(ContentType::Handshake, server_hello_bytes(0xc02f, 3)));
    // a second hello is out of order once the first advanced the state
    sess.queue_incoming(raw(ContentType::Handshake, server_hello_bytes(0xc02f, 4)));
    let r = sess.process_new_packets();
    assert_eq!(r, Err(HandshakeError::ProtocolViolation));
    assert_eq!(sess.state, ConnState::ExpectCertificate);
    assert_eq!(sess.frames.len(), 0);
}

#[test]
fn pump_drains_whole_well_formed_sequence() {
    let cfg = config_with(vec![suite(0xc02f, HashAlgorithm::Sha256)]);
    let mut sess = ClientSession::new(&cfg, "example.test");
    sess.queue_incoming(raw(ContentType::Handshake, server_hello_bytes(0xc02f, 3)));
    sess.queue_incoming(raw(ContentType::Handshake, certificate_bytes(&[b"cert"])));
    sess.queue_incoming(raw(ContentType::Handshake, server_kx_bytes(b"p", 2, b"s")));
    sess.queue_incoming(raw(ContentType::Handshake, vec![14u8]));
    sess.queue_incoming(raw(ContentType::ChangeCipherSpec, vec![1u8]));
    sess.queue_incoming(raw(ContentType::Handshake, vec![20u8, 1]));
    assert_eq!(sess.process_new_packets(), Ok(()));
    assert_eq!(sess.state, ConnState::Traffic);
    assert!(sess.wants_read());
}

#[test]
fn wants_write_lifecycle() {
    let cfg = config_with(vec![suite(47, HashAlgorithm::Sha256)]);
    let mut sess = ClientSession::new(&cfg, "example.test");
    assert!(sess.wants_write());
    let out = sess.take_tls_output().expect("hello must be queued");
    // content-type byte for handshake, then the client-hello tag
    assert_eq!(out[0], 22);
    assert_eq!(out[1], 1);
    assert_eq!(&out[2..34], &sess.handshake_data.client_random[..]);
    assert_eq!(out, sess.handshake_data.client_hello);
    assert!(!sess.wants_write());
    assert!(sess.take_tls_output().is_none());
}
