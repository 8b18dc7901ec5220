//! The client session: configuration, per-handshake data, the connection
//! state machine and its handler table, and the queues that connect the
//! engine to the record layer.
//!
//! The whole observable behaviour of message processing is stated by the
//! spec functions `step`, `process_spec` and `pump_spec`; the executable
//! methods are proved to follow them exactly.
use crate::hash::{digest_len, transcript_digest, HandshakeHash, HandshakeHashV};
use crate::msgs::{
    bytes_seq_view, enc_msg, hs_type_of, wf_msg, CertificatePayload, ClientExtension, ContentType,
    DigitallySignedStruct, DigitallySignedV, HandshakePayload, HandshakeType, HandshakeV, Message,
    MessagePayload, MessageV, Payload, PayloadV,
};
use crate::suites::{find_suite, SupportedCipherSuite, TLS_EMPTY_RENEGOTIATION_INFO_SCSV};
use crate::HandshakeError;
use std::collections::VecDeque;
use std::sync::Arc;
use vstd::prelude::*;

verus! {

broadcast use vstd::std_specs::vecdeque::group_vec_dequeue_axioms;

/// Collection of trusted root certificates, threaded to the external
/// chain validator.
pub struct RootCertStore {
    pub roots: Vec<Vec<u8>>,
}

impl RootCertStore {
    pub fn empty() -> (r: RootCertStore)
        ensures
            r.roots@.len() == 0,
    {
        RootCertStore { roots: Vec::new() }
    }
}

/// Key material of one session; it is derived by outside primitives and only
/// carried here.
pub struct SessionSecrets {
    pub master_secret: Vec<u8>,
}

impl SessionSecrets {
    pub fn for_client() -> (r: SessionSecrets)
        ensures
            r.master_secret@.len() == 0,
    {
        SessionSecrets { master_secret: Vec::new() }
    }
}

pub struct ClientConfig {
    /// List of ciphersuites, in preference order.
    pub ciphersuites: Vec<SupportedCipherSuite>,
    /// Collection of root certificates.
    pub root_store: RootCertStore,
}

pub struct ConfigV {
    pub ciphersuites: Seq<SupportedCipherSuite>,
    pub roots: Seq<Seq<u8>>,
}

impl View for ClientConfig {
    type V = ConfigV;

    open spec fn view(&self) -> ConfigV {
        ConfigV {
            ciphersuites: self.ciphersuites@,
            roots: bytes_seq_view(self.root_store.roots@),
        }
    }
}

impl ClientConfig {
    /// A configuration holding the default suites and an empty root store.
    pub fn default() -> (r: ClientConfig)
        ensures
            r@.ciphersuites == crate::suites::spec_default_ciphersuites(),
            r@.roots.len() == 0,
    {
        ClientConfig {
            ciphersuites: crate::suites::default_ciphersuites(),
            root_store: RootCertStore::empty(),
        }
    }
}

/// Relies on alloc::sync::Arc::clone: the clone is a second handle to the
/// same immutable value.
#[verifier::external_body]
fn clone_arc(c: &Arc<ClientConfig>) -> (r: Arc<ClientConfig>)
    ensures
        r@ == c@,
{
    c.clone()
}

/// Relies on rand::thread_rng and rand::RngCore::fill_bytes: yields 32
/// cryptographically secure random bytes; nothing is assumed of the values.
#[verifier::external_body]
fn fill_random_32() -> (r: Vec<u8>)
    ensures
        r@.len() == 32,
{
    let mut buf = vec![0u8; 32];
    rand::RngCore::fill_bytes(&mut rand::thread_rng(), &mut buf);
    buf
}

fn copy_bytes(b: &Vec<u8>) -> (r: Vec<u8>)
    ensures
        r@ == b@,
{
    let mut r: Vec<u8> = Vec::new();
    let mut i: usize = 0;
    while i < b.len()
        invariant
            i <= b@.len(),
            r@ == b@.take(i as int),
        decreases b@.len() - i,
    {
        r.push(b[i]);
        proof {
            assert(b@.take(i as int).push(b@[i as int]) =~= b@.take(i as int + 1));
        }
        i = i + 1;
    }
    proof {
        assert(b@.take(b@.len() as int) =~= b@);
    }
    r
}

fn copy_chain(cs: &Vec<Vec<u8>>) -> (r: Vec<Vec<u8>>)
    ensures
        bytes_seq_view(r@) == bytes_seq_view(cs@),
{
    let mut r: Vec<Vec<u8>> = Vec::new();
    let mut i: usize = 0;
    while i < cs.len()
        invariant
            i <= cs@.len(),
            r@.len() == i,
            forall|k: int| 0 <= k < i ==> r@[k]@ == cs@[k]@,
        decreases cs@.len() - i,
    {
        r.push(copy_bytes(&cs[i]));
        i = i + 1;
    }
    proof {
        assert(bytes_seq_view(r@) =~= bytes_seq_view(cs@));
    }
    r
}

/// Per-handshake working data: the transcript and everything negotiated so
/// far. Optional fields are filled in a fixed order as the handshake
/// progresses.
pub struct ClientHandshakeData {
    pub client_hello: Vec<u8>,
    pub server_cert_chain: CertificatePayload,
    pub ciphersuite: Option<SupportedCipherSuite>,
    pub dns_name: String,
    pub client_random: Vec<u8>,
    pub server_random: Vec<u8>,
    pub server_kx_params: Vec<u8>,
    pub server_kx_sig: Option<DigitallySignedStruct>,
    pub handshake_hash: Option<HandshakeHash>,
    pub secrets: SessionSecrets,
}

pub struct HsDataV {
    pub client_hello: Seq<u8>,
    pub server_cert_chain: Seq<Seq<u8>>,
    pub ciphersuite: Option<SupportedCipherSuite>,
    pub dns_name: Seq<char>,
    pub client_random: Seq<u8>,
    pub server_random: Seq<u8>,
    pub server_kx_params: Seq<u8>,
    pub server_kx_sig: Option<DigitallySignedV>,
    pub handshake_hash: Option<HandshakeHashV>,
    pub secrets: Seq<u8>,
}

impl View for ClientHandshakeData {
    type V = HsDataV;

    open spec fn view(&self) -> HsDataV {
        HsDataV {
            client_hello: self.client_hello@,
            server_cert_chain: bytes_seq_view(self.server_cert_chain@),
            ciphersuite: self.ciphersuite,
            dns_name: self.dns_name@,
            client_random: self.client_random@,
            server_random: self.server_random@,
            server_kx_params: self.server_kx_params@,
            server_kx_sig: match self.server_kx_sig {
                Some(d) => Some(d@),
                None => None,
            },
            handshake_hash: match self.handshake_hash {
                Some(h) => Some(h@),
                None => None,
            },
            secrets: self.secrets.master_secret@,
        }
    }
}

/// The transcript after `bytes` are appended to an already started
/// accumulator.
pub open spec fn upd_hash(h: Option<HandshakeHashV>, bytes: Seq<u8>) -> Option<HandshakeHashV>
    recommends
        h is Some,
{
    match h {
        Some(hh) => Some(HandshakeHashV { alg: hh.alg, transcript: hh.transcript + bytes }),
        None => None,
    }
}

impl ClientHandshakeData {
    fn new(host_name: &str) -> (r: ClientHandshakeData)
        ensures
            r@ == (HsDataV {
                client_hello: Seq::empty(),
                server_cert_chain: Seq::empty(),
                ciphersuite: None,
                dns_name: host_name@,
                client_random: Seq::empty(),
                server_random: Seq::empty(),
                server_kx_params: Seq::empty(),
                server_kx_sig: None,
                handshake_hash: None,
                secrets: Seq::empty(),
            }),
    {
        let r = ClientHandshakeData {
            client_hello: Vec::new(),
            server_cert_chain: Vec::new(),
            ciphersuite: None,
            dns_name: host_name.to_owned(),
            client_random: Vec::new(),
            server_random: Vec::new(),
            server_kx_params: Vec::new(),
            server_kx_sig: None,
            handshake_hash: None,
            secrets: SessionSecrets::for_client(),
        };
        proof {
            assert(bytes_seq_view(r.server_cert_chain@) =~= Seq::<Seq<u8>>::empty());
            assert(r.secrets.master_secret@ =~= Seq::<u8>::empty());
        }
        r
    }

    /// Draws the client nonce. Done exactly once, before the first outbound
    /// message.
    pub fn generate_client_random(&mut self)
        ensures
            final(self)@ == (HsDataV { client_random: final(self)@.client_random, ..old(self)@ }),
            final(self)@.client_random.len() == 32,
    {
        self.client_random = fill_random_32();
    }

    /// Feeds one handshake message's wire form into the transcript hash.
    /// The accumulator must already exist: it is created right after
    /// cipher-suite negotiation, before anything is hashed.
    pub fn hash_message(&mut self, m: &Message)
        requires
            old(self)@.handshake_hash is Some,
            wf_msg(m@),
        ensures
            final(self)@ == (HsDataV {
                handshake_hash: upd_hash(old(self)@.handshake_hash, enc_msg(m@)),
                ..old(self)@
            }),
    {
        match &mut self.handshake_hash {
            Some(hh) => hh.update(m),
            None => {},
        }
    }

    /// A snapshot of the accumulated transcript hash, used to prove to the
    /// peer that both sides observed the same message sequence.
    pub fn get_verify_data(&self) -> (r: Payload)
        requires
            self@.handshake_hash is Some,
        ensures
            r@ == transcript_digest(
                self@.handshake_hash.unwrap().alg,
                self@.handshake_hash.unwrap().transcript,
            ),
            r@.len() == digest_len(self@.handshake_hash.unwrap().alg),
    {
        match &self.handshake_hash {
            Some(hh) => Payload { body: hh.get_current_hash() },
            None => Payload { body: Vec::new() },
        }
    }
}

/// The connection states, in the order a handshake visits them. Transitions
/// only ever move forward; Traffic is terminal.
#[derive(Clone, Copy, PartialEq, Eq, Structural, Debug)]
pub enum ConnState {
    ExpectServerHello,
    ExpectCertificate,
    ExpectServerKX,
    ExpectServerHelloDone,
    ExpectCCS,
    ExpectFinished,
    Traffic,
}

/// What a handler is willing to accept: a content type and, for handshake
/// messages, the handshake message kind. A handler with `any` set lets every
/// message through (and then fails on its own).
#[derive(Clone, Copy, Debug)]
pub struct Expectation {
    pub any: bool,
    pub content: ContentType,
    pub handshake: Option<HandshakeType>,
}

pub open spec fn expectation_matches(e: Expectation, m: MessageV) -> bool {
    if e.any {
        true
    } else {
        m.typ == e.content && match (e.handshake, m.payload) {
            (Option::None, PayloadV::ChangeCipherSpec) => e.content
                == ContentType::ChangeCipherSpec,
            (Option::Some(t), PayloadV::Handshake(h)) => hs_type_of(h) == t,
            _ => false,
        }
    }
}

fn handshake_type_of(h: &HandshakePayload) -> (t: HandshakeType)
    ensures
        t == hs_type_of(h@),
{
    match h {
        HandshakePayload::ClientHello(_) => HandshakeType::ClientHello,
        HandshakePayload::ServerHello(_) => HandshakeType::ServerHello,
        HandshakePayload::Certificate(_) => HandshakeType::Certificate,
        HandshakePayload::ServerKeyExchange(_) => HandshakeType::ServerKeyExchange,
        HandshakePayload::ServerHelloDone => HandshakeType::ServerHelloDone,
        HandshakePayload::Finished(_) => HandshakeType::Finished,
    }
}

impl Expectation {
    /// Does the (decoded) message satisfy this expectation?
    pub fn check_message(&self, m: &Message) -> (r: bool)
        ensures
            r == expectation_matches(*self, m@),
    {
        if self.any {
            return true;
        }
        if !(m.typ == self.content) {
            return false;
        }
        match (&self.handshake, &m.payload) {
            (Option::None, MessagePayload::ChangeCipherSpec) => self.content
                == ContentType::ChangeCipherSpec,
            (Option::Some(t), MessagePayload::Handshake(h)) => handshake_type_of(h) == *t,
            _ => false,
        }
    }
}

/// The closed set of handlers, one per reachable state plus the sentinel for
/// states with no handshake handler.
#[derive(Clone, Copy, PartialEq, Eq, Structural, Debug)]
pub enum Handler {
    ServerHello,
    Certificate,
    ServerKeyExchange,
    ServerHelloDone,
    ChangeCipherSpec,
    Finished,
    Invalid,
}

pub open spec fn handler_for(s: ConnState) -> Handler {
    match s {
        ConnState::ExpectServerHello => Handler::ServerHello,
        ConnState::ExpectCertificate => Handler::Certificate,
        ConnState::ExpectServerKX => Handler::ServerKeyExchange,
        ConnState::ExpectServerHelloDone => Handler::ServerHelloDone,
        ConnState::ExpectCCS => Handler::ChangeCipherSpec,
        ConnState::ExpectFinished => Handler::Finished,
        ConnState::Traffic => Handler::Invalid,
    }
}

pub open spec fn expectation_of(h: Handler) -> Expectation {
    match h {
        Handler::ServerHello => Expectation {
            any: false,
            content: ContentType::Handshake,
            handshake: Some(HandshakeType::ServerHello),
        },
        Handler::Certificate => Expectation {
            any: false,
            content: ContentType::Handshake,
            handshake: Some(HandshakeType::Certificate),
        },
        Handler::ServerKeyExchange => Expectation {
            any: false,
            content: ContentType::Handshake,
            handshake: Some(HandshakeType::ServerKeyExchange),
        },
        Handler::ServerHelloDone => Expectation {
            any: false,
            content: ContentType::Handshake,
            handshake: Some(HandshakeType::ServerHelloDone),
        },
        Handler::ChangeCipherSpec => Expectation {
            any: false,
            content: ContentType::ChangeCipherSpec,
            handshake: None,
        },
        Handler::Finished => Expectation {
            any: false,
            content: ContentType::Handshake,
            handshake: Some(HandshakeType::Finished),
        },
        Handler::Invalid => Expectation {
            any: true,
            content: ContentType::Handshake,
            handshake: None,
        },
    }
}

/// The expectation the current state declares.
pub open spec fn state_expectation(s: ConnState) -> Expectation {
    expectation_of(handler_for(s))
}

/// The session as the contracts speak of it.
pub struct SessionV {
    pub config: ConfigV,
    pub hs: HsDataV,
    pub secrets_current: Seq<u8>,
    pub frames: Seq<MessageV>,
    pub tls_queue: Seq<MessageV>,
    pub state: ConnState,
}

pub open spec fn msgs_view(q: Seq<Message>) -> Seq<MessageV> {
    Seq::new(q.len(), |i: int| q[i]@)
}

/// One TLS client connection attempt: configuration, handshake data, the
/// inbound frame queue filled by the record layer, the outbound queue
/// drained by the transport, and the current state.
pub struct ClientSession {
    pub config: Arc<ClientConfig>,
    pub handshake_data: ClientHandshakeData,
    pub secrets_current: SessionSecrets,
    pub frames: VecDeque<Message>,
    pub tls_queue: VecDeque<Message>,
    pub state: ConnState,
}

impl View for ClientSession {
    type V = SessionV;

    open spec fn view(&self) -> SessionV {
        SessionV {
            config: self.config@,
            hs: self.handshake_data@,
            secrets_current: self.secrets_current.master_secret@,
            frames: msgs_view(self.frames@),
            tls_queue: msgs_view(self.tls_queue@),
            state: self.state,
        }
    }
}

/// Session well-formedness: the nonce exists, queued messages fit the wire
/// format, and once negotiation is done the suite comes from the configured
/// list and the transcript hash runs under that suite's algorithm.
pub open spec fn wf(s: SessionV) -> bool {
    &&& s.hs.client_random.len() == 32
    &&& (forall|i: int| 0 <= i < s.tls_queue.len() ==> wf_msg(#[trigger] s.tls_queue[i]))
    &&& (forall|i: int| 0 <= i < s.frames.len() ==> wf_msg(#[trigger] s.frames[i]))
    &&& match s.state {
        ConnState::ExpectServerHello => s.hs.handshake_hash is None && s.hs.ciphersuite is None,
        _ => {
            &&& s.hs.ciphersuite is Some
            &&& s.config.ciphersuites.contains(s.hs.ciphersuite.unwrap())
            &&& s.hs.handshake_hash is Some
            &&& s.hs.handshake_hash.unwrap().alg == s.hs.ciphersuite.unwrap().hash
        },
    }
}

// ---------------------------------------------------------------------------
// The transition function. `step` takes a decoded message; `process_spec`
// adds the decode step; `pump_spec` folds `process_spec` over the inbound
// queue.
// ---------------------------------------------------------------------------
pub open spec fn step_server_hello(s: SessionV, m: MessageV) -> (SessionV, Result<
    (),
    HandshakeError,
>) {
    match m.payload {
        PayloadV::Handshake(HandshakeV::ServerHello(sh)) => {
            if sh.cipher_suite == TLS_EMPTY_RENEGOTIATION_INFO_SCSV || find_suite(
                s.config.ciphersuites,
                sh.cipher_suite,
            ) is None {
                (s, Err(HandshakeError::NegotiationFailure))
            } else {
                let scs = find_suite(s.config.ciphersuites, sh.cipher_suite).unwrap();
                (
                    SessionV {
                        hs: HsDataV {
                            server_random: sh.server_random,
                            ciphersuite: Some(scs),
                            handshake_hash: Some(
                                HandshakeHashV {
                                    alg: scs.hash,
                                    transcript: s.hs.client_hello + enc_msg(m),
                                },
                            ),
                            ..s.hs
                        },
                        state: ConnState::ExpectCertificate,
                        ..s
                    },
                    Ok(()),
                )
            }
        },
        _ => (s, Err(HandshakeError::ProtocolViolation)),
    }
}

pub open spec fn step_certificate(s: SessionV, m: MessageV) -> (SessionV, Result<
    (),
    HandshakeError,
>) {
    match m.payload {
        PayloadV::Handshake(HandshakeV::Certificate(chain)) => (
            SessionV {
                hs: HsDataV {
                    server_cert_chain: chain,
                    handshake_hash: upd_hash(s.hs.handshake_hash, enc_msg(m)),
                    ..s.hs
                },
                state: ConnState::ExpectServerKX,
                ..s
            },
            Ok(()),
        ),
        _ => (s, Err(HandshakeError::ProtocolViolation)),
    }
}

pub open spec fn step_server_kx(s: SessionV, m: MessageV) -> (SessionV, Result<
    (),
    HandshakeError,
>) {
    match m.payload {
        PayloadV::Handshake(HandshakeV::ServerKeyExchange(kx)) => (
            SessionV {
                hs: HsDataV {
                    server_kx_params: kx.params,
                    server_kx_sig: Some(kx.dss),
                    handshake_hash: upd_hash(s.hs.handshake_hash, enc_msg(m)),
                    ..s.hs
                },
                state: ConnState::ExpectServerHelloDone,
                ..s
            },
            Ok(()),
        ),
        _ => (s, Err(HandshakeError::ProtocolViolation)),
    }
}

pub open spec fn step_server_hello_done(s: SessionV, m: MessageV) -> (SessionV, Result<
    (),
    HandshakeError,
>) {
    match m.payload {
        PayloadV::Handshake(HandshakeV::ServerHelloDone) => (
            SessionV {
                hs: HsDataV { handshake_hash: upd_hash(s.hs.handshake_hash, enc_msg(m)), ..s.hs },
                state: ConnState::ExpectCCS,
                ..s
            },
            Ok(()),
        ),
        _ => (s, Err(HandshakeError::ProtocolViolation)),
    }
}

pub open spec fn step_finished(s: SessionV, m: MessageV) -> (SessionV, Result<
    (),
    HandshakeError,
>) {
    match m.payload {
        PayloadV::Handshake(HandshakeV::Finished(_)) => (
            SessionV {
                hs: HsDataV { handshake_hash: upd_hash(s.hs.handshake_hash, enc_msg(m)), ..s.hs },
                state: ConnState::Traffic,
                ..s
            },
            Ok(()),
        ),
        _ => (s, Err(HandshakeError::ProtocolViolation)),
    }
}

/// The transition on one decoded message: validate against the current
/// state's expectation first, mutate only on acceptance.
pub open spec fn step(s: SessionV, m: MessageV) -> (SessionV, Result<(), HandshakeError>) {
    if handler_for(s.state) == Handler::Invalid {
        (s, Err(HandshakeError::UnexpectedState))
    } else if !expectation_matches(state_expectation(s.state), m) {
        (s, Err(HandshakeError::ProtocolViolation))
    } else {
        match s.state {
            ConnState::ExpectServerHello => step_server_hello(s, m),
            ConnState::ExpectCertificate => step_certificate(s, m),
            ConnState::ExpectServerKX => step_server_kx(s, m),
            ConnState::ExpectServerHelloDone => step_server_hello_done(s, m),
            ConnState::ExpectCCS => (SessionV { state: ConnState::ExpectFinished, ..s }, Ok(())),
            ConnState::ExpectFinished => step_finished(s, m),
            ConnState::Traffic => (s, Err(HandshakeError::UnexpectedState)),
        }
    }
}

/// The effect of `process_msg`: decode, then step. The middle component is
/// the message as it stands after the call.
pub open spec fn process_spec(s: SessionV, m: MessageV) -> (SessionV, MessageV, Result<
    (),
    HandshakeError,
>) {
    match crate::msgs::decode_spec(m) {
        None => (s, m, Err(HandshakeError::DecodeFailure)),
        Some(d) => {
            let sr = step(s, d);
            (sr.0, d, sr.1)
        },
    }
}

pub proof fn lemma_process_keeps_frames(s: SessionV, m: MessageV)
    ensures
        process_spec(s, m).0.frames == s.frames,
        process_spec(s, m).0.tls_queue == s.tls_queue,
        process_spec(s, m).0.config == s.config,
{
    match crate::msgs::decode_spec(m) {
        None => {},
        Some(d) => {
            match s.state {
                ConnState::ExpectServerHello => {
                    match d.payload {
                        PayloadV::Handshake(HandshakeV::ServerHello(_)) => {},
                        _ => {},
                    }
                },
                ConnState::ExpectCertificate => {
                    match d.payload {
                        PayloadV::Handshake(HandshakeV::Certificate(_)) => {},
                        _ => {},
                    }
                },
                ConnState::ExpectServerKX => {
                    match d.payload {
                        PayloadV::Handshake(HandshakeV::ServerKeyExchange(_)) => {},
                        _ => {},
                    }
                },
                ConnState::ExpectServerHelloDone => {},
                ConnState::ExpectCCS => {},
                ConnState::ExpectFinished => {},
                ConnState::Traffic => {},
            }
        },
    }
}

/// The effect of `process_new_packets`: pop and process inbound frames in
/// arrival order, stopping at the first failure.
pub open spec fn pump_spec(s: SessionV) -> (SessionV, Result<(), HandshakeError>)
    decreases s.frames.len(),
    via pump_spec_decreases
{
    if s.frames.len() == 0 {
        (s, Ok(()))
    } else {
        let m = s.frames[0];
        let s1 = SessionV { frames: s.frames.skip(1), ..s };
        let pr = process_spec(s1, m);
        if pr.2 is Ok {
            pump_spec(pr.0)
        } else {
            (pr.0, pr.2)
        }
    }
}

#[via_fn]
proof fn pump_spec_decreases(s: SessionV) {
    if s.frames.len() != 0 {
        let m = s.frames[0];
        let s1 = SessionV { frames: s.frames.skip(1), ..s };
        lemma_process_keeps_frames(s1, m);
    }
}

/// The suite identifiers a hello advertises: the configured list in
/// preference order, then the no-renegotiation marker.
pub open spec fn advertised_suites(suites: Seq<SupportedCipherSuite>) -> Seq<u16> {
    Seq::new(suites.len(), |i: int| suites[i].suite).push(TLS_EMPTY_RENEGOTIATION_INFO_SCSV)
}

/// The hello message a session with nonce and configuration `s` sends.
pub open spec fn client_hello_msg(s: SessionV) -> MessageV {
    crate::msgs::hs_msg(
        HandshakeV::ClientHello(
            crate::msgs::ClientHelloV {
                client_random: s.hs.client_random,
                cipher_suites: advertised_suites(s.config.ciphersuites),
                extensions: Seq::empty(),
            },
        ),
    )
}

// ---------------------------------------------------------------------------
// Handlers.
// ---------------------------------------------------------------------------
fn handle_server_hello(sess: &mut ClientSession, msg: &Message) -> (r: Result<
    ConnState,
    HandshakeError,
>)
    requires
        wf(old(sess)@),
        old(sess)@.state == ConnState::ExpectServerHello,
        wf_msg(msg@),
        expectation_matches(expectation_of(Handler::ServerHello), msg@),
    ensures
        ({
            let sr = step_server_hello(old(sess)@, msg@);
            match r {
                Ok(ns) => sr.1 == Ok::<(), HandshakeError>(()) && final(sess)@.state == old(
                    sess,
                )@.state && sr.0 == (SessionV { state: ns, ..final(sess)@ }) && wf(
                    (SessionV { state: ns, ..final(sess)@ }),
                ),
                Err(e) => sr.1 == Err::<(), HandshakeError>(e) && final(sess)@ == old(sess)@,
            }
        }),
{
    let (random, suite_id): (Vec<u8>, u16) = match &msg.payload {
        MessagePayload::Handshake(HandshakePayload::ServerHello(sh)) => (
            copy_bytes(&sh.server_random),
            sh.cipher_suite,
        ),
        _ => {
            return Err(HandshakeError::ProtocolViolation);
        },
    };
    if suite_id == TLS_EMPTY_RENEGOTIATION_INFO_SCSV {
        return Err(HandshakeError::NegotiationFailure);
    }
    let scs = match sess.find_cipher_suite(suite_id) {
        Some(scs) => scs,
        None => {
            return Err(HandshakeError::NegotiationFailure);
        },
    };
    proof {
        crate::suites::lemma_find_suite_in_list(old(sess)@.config.ciphersuites, suite_id);
    }
    sess.handshake_data.server_random = random;
    sess.handshake_data.ciphersuite = Some(scs);
    let seed = copy_bytes(&sess.handshake_data.client_hello);
    let mut hh = HandshakeHash::start(scs.hash, seed);
    hh.update(msg);
    sess.handshake_data.handshake_hash = Some(hh);
    Ok(ConnState::ExpectCertificate)
}

fn handle_certificate(sess: &mut ClientSession, msg: &Message) -> (r: Result<
    ConnState,
    HandshakeError,
>)
    requires
        wf(old(sess)@),
        old(sess)@.state == ConnState::ExpectCertificate,
        wf_msg(msg@),
        expectation_matches(expectation_of(Handler::Certificate), msg@),
    ensures
        ({
            let sr = step_certificate(old(sess)@, msg@);
            match r {
                Ok(ns) => sr.1 == Ok::<(), HandshakeError>(()) && final(sess)@.state == old(
                    sess,
                )@.state && sr.0 == (SessionV { state: ns, ..final(sess)@ }) && wf(
                    (SessionV { state: ns, ..final(sess)@ }),
                ),
                Err(e) => sr.1 == Err::<(), HandshakeError>(e) && final(sess)@ == old(sess)@,
            }
        }),
{
    let chain = match &msg.payload {
        MessagePayload::Handshake(HandshakePayload::Certificate(cs)) => copy_chain(cs),
        _ => {
            return Err(HandshakeError::ProtocolViolation);
        },
    };
    sess.handshake_data.hash_message(msg);
    sess.handshake_data.server_cert_chain = chain;
    Ok(ConnState::ExpectServerKX)
}

fn handle_server_kx(sess: &mut ClientSession, msg: &Message) -> (r: Result<
    ConnState,
    HandshakeError,
>)
    requires
        wf(old(sess)@),
        old(sess)@.state == ConnState::ExpectServerKX,
        wf_msg(msg@),
        expectation_matches(expectation_of(Handler::ServerKeyExchange), msg@),
    ensures
        ({
            let sr = step_server_kx(old(sess)@, msg@);
            match r {
                Ok(ns) => sr.1 == Ok::<(), HandshakeError>(()) && final(sess)@.state == old(
                    sess,
                )@.state && sr.0 == (SessionV { state: ns, ..final(sess)@ }) && wf(
                    (SessionV { state: ns, ..final(sess)@ }),
                ),
                Err(e) => sr.1 == Err::<(), HandshakeError>(e) && final(sess)@ == old(sess)@,
            }
        }),
{
    let (params, dss): (Vec<u8>, DigitallySignedStruct) = match &msg.payload {
        MessagePayload::Handshake(HandshakePayload::ServerKeyExchange(kx)) => (
            copy_bytes(&kx.params),
            DigitallySignedStruct { scheme: kx.dss.scheme, sig: copy_bytes(&kx.dss.sig) },
        ),
        _ => {
            return Err(HandshakeError::ProtocolViolation);
        },
    };
    sess.handshake_data.hash_message(msg);
    sess.handshake_data.server_kx_params = params;
    sess.handshake_data.server_kx_sig = Some(dss);
    Ok(ConnState::ExpectServerHelloDone)
}

fn handle_server_hello_done(sess: &mut ClientSession, msg: &Message) -> (r: Result<
    ConnState,
    HandshakeError,
>)
    requires
        wf(old(sess)@),
        old(sess)@.state == ConnState::ExpectServerHelloDone,
        wf_msg(msg@),
        expectation_matches(expectation_of(Handler::ServerHelloDone), msg@),
    ensures
        ({
            let sr = step_server_hello_done(old(sess)@, msg@);
            match r {
                Ok(ns) => sr.1 == Ok::<(), HandshakeError>(()) && final(sess)@.state == old(
                    sess,
                )@.state && sr.0 == (SessionV { state: ns, ..final(sess)@ }) && wf(
                    (SessionV { state: ns, ..final(sess)@ }),
                ),
                Err(e) => sr.1 == Err::<(), HandshakeError>(e) && final(sess)@ == old(sess)@,
            }
        }),
{
    sess.handshake_data.hash_message(msg);
    Ok(ConnState::ExpectCCS)
}

fn handle_finished(sess: &mut ClientSession, msg: &Message) -> (r: Result<
    ConnState,
    HandshakeError,
>)
    requires
        wf(old(sess)@),
        old(sess)@.state == ConnState::ExpectFinished,
        wf_msg(msg@),
        expectation_matches(expectation_of(Handler::Finished), msg@),
    ensures
        ({
            let sr = step_finished(old(sess)@, msg@);
            match r {
                Ok(ns) => sr.1 == Ok::<(), HandshakeError>(()) && final(sess)@.state == old(
                    sess,
                )@.state && sr.0 == (SessionV { state: ns, ..final(sess)@ }) && wf(
                    (SessionV { state: ns, ..final(sess)@ }),
                ),
                Err(e) => sr.1 == Err::<(), HandshakeError>(e) && final(sess)@ == old(sess)@,
            }
        }),
{
    sess.handshake_data.hash_message(msg);
    Ok(ConnState::Traffic)
}

impl Handler {
    /// The expectation this handler declares for incoming messages.
    pub fn expect(&self) -> (e: Expectation)
        ensures
            e == expectation_of(*self),
    {
        match self {
            Handler::ServerHello => Expectation {
                any: false,
                content: ContentType::Handshake,
                handshake: Some(HandshakeType::ServerHello),
            },
            Handler::Certificate => Expectation {
                any: false,
                content: ContentType::Handshake,
                handshake: Some(HandshakeType::Certificate),
            },
            Handler::ServerKeyExchange => Expectation {
                any: false,
                content: ContentType::Handshake,
                handshake: Some(HandshakeType::ServerKeyExchange),
            },
            Handler::ServerHelloDone => Expectation {
                any: false,
                content: ContentType::Handshake,
                handshake: Some(HandshakeType::ServerHelloDone),
            },
            Handler::ChangeCipherSpec => Expectation {
                any: false,
                content: ContentType::ChangeCipherSpec,
                handshake: None,
            },
            Handler::Finished => Expectation {
                any: false,
                content: ContentType::Handshake,
                handshake: Some(HandshakeType::Finished),
            },
            Handler::Invalid => Expectation {
                any: true,
                content: ContentType::Handshake,
                handshake: None,
            },
        }
    }

    /// Runs the state-specific work on a matching message and returns the
    /// next state; the caller commits it. On an error nothing was changed.
    fn handle(self, sess: &mut ClientSession, msg: &Message) -> (r: Result<
        ConnState,
        HandshakeError,
    >)
        requires
            wf(old(sess)@),
            self == handler_for(old(sess)@.state),
            self != Handler::Invalid,
            wf_msg(msg@),
            expectation_matches(expectation_of(self), msg@),
        ensures
            ({
                let sr = step(old(sess)@, msg@);
                match r {
                    Ok(ns) => sr.1 == Ok::<(), HandshakeError>(()) && final(sess)@.state == old(
                        sess,
                    )@.state && sr.0 == (SessionV { state: ns, ..final(sess)@ }) && wf(
                        (SessionV { state: ns, ..final(sess)@ }),
                    ),
                    Err(e) => sr.1 == Err::<(), HandshakeError>(e) && final(sess)@ == old(sess)@,
                }
            }),
    {
        match self {
            Handler::ServerHello => handle_server_hello(sess, msg),
            Handler::Certificate => handle_certificate(sess, msg),
            Handler::ServerKeyExchange => handle_server_kx(sess, msg),
            Handler::ServerHelloDone => handle_server_hello_done(sess, msg),
            Handler::ChangeCipherSpec => Ok(ConnState::ExpectFinished),
            Handler::Finished => handle_finished(sess, msg),
            Handler::Invalid => Err(HandshakeError::UnexpectedState),
        }
    }
}

// ---------------------------------------------------------------------------
// The session driver.
// ---------------------------------------------------------------------------
/// Builds the hello, queues it, and records its wire bytes as the seed of
/// the transcript.
fn emit_client_hello(sess: &mut ClientSession)
    requires
        old(sess)@.state == ConnState::ExpectServerHello,
        old(sess)@.tls_queue.len() == 0,
        old(sess)@.frames.len() == 0,
        old(sess)@.hs.handshake_hash is None,
        old(sess)@.hs.ciphersuite is None,
        old(sess)@.config.ciphersuites.len() < 0xffff,
    ensures
        wf(final(sess)@),
        final(sess)@.config == old(sess)@.config,
        final(sess)@.state == old(sess)@.state,
        final(sess)@.frames == old(sess)@.frames,
        final(sess)@.secrets_current == old(sess)@.secrets_current,
        final(sess)@.hs == (HsDataV {
            client_random: final(sess)@.hs.client_random,
            client_hello: final(sess)@.hs.client_hello,
            ..old(sess)@.hs
        }),
        final(sess)@.hs.client_random.len() == 32,
        final(sess)@.tls_queue == seq![client_hello_msg(final(sess)@)],
        final(sess)@.hs.client_hello == enc_msg(client_hello_msg(final(sess)@)),
{
    sess.handshake_data.generate_client_random();
    let suites = sess.get_cipher_suites();
    let mut exts: Vec<ClientExtension> = Vec::new();
    sess.add_extensions(&mut exts);
    let random = copy_bytes(&sess.handshake_data.client_random);
    let hello = Message {
        typ: ContentType::Handshake,
        payload: MessagePayload::Handshake(
            HandshakePayload::ClientHello(
                crate::msgs::ClientHelloPayload {
                    client_random: random,
                    cipher_suites: suites,
                    extensions: exts,
                },
            ),
        ),
    };
    proof {
        assert(crate::msgs::exts_view(Seq::<ClientExtension>::empty()) =~= Seq::<
            crate::msgs::ExtensionV,
        >::empty());
        assert(hello@ == client_hello_msg(
            (SessionV { hs: (HsDataV { client_random: sess@.hs.client_random, ..sess@.hs }), ..sess@ }),
        ));
    }
    let mut bytes: Vec<u8> = Vec::new();
    hello.encode(&mut bytes);
    proof {
        assert(Seq::<u8>::empty() + enc_msg(hello@) =~= enc_msg(hello@));
    }
    sess.handshake_data.client_hello = bytes;
    let ghost q0 = sess.tls_queue@;
    sess.tls_queue.push_back(hello);
    proof {
        assert(q0 =~= Seq::<Message>::empty());
        assert(sess.tls_queue@ =~= seq![hello]);
        assert(msgs_view(sess.tls_queue@) =~= seq![hello@]);
        assert(hello@ == client_hello_msg(sess@));
        assert(advertised_suites(sess@.config.ciphersuites).len() < 0x10000);
        assert(wf_msg(hello@));
    }
}

impl ClientSession {
    /// Starts a handshake toward `hostname`: fresh handshake data, a fresh
    /// client nonce, and the hello queued for the transport.
    pub fn new(client_config: &Arc<ClientConfig>, hostname: &str) -> (r: ClientSession)
        requires
            client_config@.ciphersuites.len() < 0xffff,
        ensures
            wf(r@),
            r@.config == client_config@,
            r@.state == ConnState::ExpectServerHello,
            r@.frames.len() == 0,
            r@.secrets_current.len() == 0,
            r@.hs.dns_name == hostname@,
            r@.hs.client_random.len() == 32,
            r@.hs.server_cert_chain.len() == 0,
            r@.hs.server_random.len() == 0,
            r@.hs.server_kx_params.len() == 0,
            r@.hs.server_kx_sig is None,
            r@.hs.ciphersuite is None,
            r@.hs.handshake_hash is None,
            r@.tls_queue == seq![client_hello_msg(r@)],
            r@.hs.client_hello == enc_msg(client_hello_msg(r@)),
    {
        let mut cs = ClientSession {
            config: clone_arc(client_config),
            handshake_data: ClientHandshakeData::new(hostname),
            secrets_current: SessionSecrets::for_client(),
            frames: VecDeque::new(),
            tls_queue: VecDeque::new(),
            state: ConnState::ExpectServerHello,
        };
        proof {
            assert(msgs_view(cs.frames@) =~= Seq::<MessageV>::empty());
            assert(msgs_view(cs.tls_queue@) =~= Seq::<MessageV>::empty());
        }
        emit_client_hello(&mut cs);
        cs
    }

    /// The suite identifiers to advertise: the configured list in preference
    /// order, with the no-renegotiation marker appended.
    pub fn get_cipher_suites(&self) -> (r: Vec<u16>)
        ensures
            r@ == advertised_suites(self@.config.ciphersuites),
    {
        let mut ret: Vec<u16> = Vec::new();
        let n = self.config.ciphersuites.len();
        let mut i: usize = 0;
        while i < n
            invariant
                i <= n,
                n == self@.config.ciphersuites.len(),
                ret@.len() == i,
                forall|k: int| 0 <= k < i ==> ret@[k] == self@.config.ciphersuites[k].suite,
            decreases n - i,
        {
            ret.push(self.config.ciphersuites[i].suite);
            i = i + 1;
        }
        ret.push(TLS_EMPTY_RENEGOTIATION_INFO_SCSV);
        proof {
            assert(ret@ =~= advertised_suites(self@.config.ciphersuites));
        }
        ret
    }

    /// Looks `suite` up in the configured list only; `None` means the peer's
    /// choice is unacceptable and negotiation must fail.
    pub fn find_cipher_suite(&self, suite: u16) -> (r: Option<SupportedCipherSuite>)
        ensures
            r == find_suite(self@.config.ciphersuites, suite),
    {
        let ghost all = self@.config.ciphersuites;
        proof {
            assert(all.skip(0) =~= all);
        }
        let n = self.config.ciphersuites.len();
        let mut i: usize = 0;
        while i < n
            invariant
                i <= n,
                n == all.len(),
                all == self@.config.ciphersuites,
                find_suite(all, suite) == find_suite(all.skip(i as int), suite),
            decreases n - i,
        {
            proof {
                assert(all.skip(i as int)[0] == all[i as int]);
                assert(all.skip(i as int).skip(1) =~= all.skip(i as int + 1));
            }
            let scs = self.config.ciphersuites[i];
            if scs.suite == suite {
                return Some(scs);
            }
            i = i + 1;
        }
        proof {
            assert(all.skip(n as int) =~= Seq::<SupportedCipherSuite>::empty());
        }
        None
    }

    /// The extension registry is a pure function of configuration and host
    /// identity; this build registers none, so the list is left as it is.
    pub fn add_extensions(&self, exts: &mut Vec<ClientExtension>)
        ensures
            final(exts)@ == old(exts)@,
    {
    }

    /// The engine always accepts more transport bytes during a handshake.
    pub fn wants_read(&self) -> (r: bool)
        ensures
            r == true,
    {
        true
    }

    /// True exactly while an outbound message is queued; the transport's
    /// only backpressure signal.
    pub fn wants_write(&self) -> (r: bool)
        ensures
            r == (self@.tls_queue.len() != 0),
    {
        self.tls_queue.len() != 0
    }

    fn get_handler(&self) -> (h: Handler)
        ensures
            h == handler_for(self@.state),
    {
        match self.state {
            ConnState::ExpectServerHello => Handler::ServerHello,
            ConnState::ExpectCertificate => Handler::Certificate,
            ConnState::ExpectServerKX => Handler::ServerKeyExchange,
            ConnState::ExpectServerHelloDone => Handler::ServerHelloDone,
            ConnState::ExpectCCS => Handler::ChangeCipherSpec,
            ConnState::ExpectFinished => Handler::Finished,
            ConnState::Traffic => Handler::Invalid,
        }
    }

    /// Decodes one message, validates it against the current state's
    /// expectation, runs the handler, and only then commits the next state.
    /// On any failure the session is left exactly as it was.
    pub fn process_msg(&mut self, msg: &mut Message) -> (r: Result<(), HandshakeError>)
        requires
            wf(old(self)@),
            wf_msg(old(msg)@),
        ensures
            wf(final(self)@),
            wf_msg(final(msg)@),
            ({
                let pr = process_spec(old(self)@, old(msg)@);
                final(self)@ == pr.0 && final(msg)@ == pr.1 && r == pr.2
            }),
    {
        proof {
            crate::msgs::lemma_decode_wf(old(msg)@);
        }
        match msg.decode_payload() {
            Ok(()) => {},
            Err(e) => {
                return Err(e);
            },
        }
        let handler = self.get_handler();
        if matches!(handler, Handler::Invalid) {
            return Err(HandshakeError::UnexpectedState);
        }
        let expects = handler.expect();
        if !expects.check_message(msg) {
            return Err(HandshakeError::ProtocolViolation);
        }
        let new_state = match handler.handle(self, msg) {
            Ok(ns) => ns,
            Err(e) => {
                return Err(e);
            },
        };
        self.state = new_state;
        Ok(())
    }

    /// Hands the record layer's next complete message to the engine; the
    /// queue keeps wire arrival order.
    pub fn queue_incoming(&mut self, m: Message)
        requires
            wf(old(self)@),
            wf_msg(m@),
        ensures
            wf(final(self)@),
            final(self)@ == (SessionV { frames: old(self)@.frames.push(m@), ..old(self)@ }),
    {
        let ghost q0 = self.frames@;
        self.frames.push_back(m);
        proof {
            assert(msgs_view(self.frames@) =~= msgs_view(q0).push(m@));
        }
    }

    /// Processes queued inbound messages in arrival order, stopping at the
    /// first failure.
    pub fn process_new_packets(&mut self) -> (r: Result<(), HandshakeError>)
        requires
            wf(old(self)@),
        ensures
            wf(final(self)@),
            ({
                let pr = pump_spec(old(self)@);
                final(self)@ == pr.0 && r == pr.1
            }),
    {
        let ghost s0 = self@;
        loop
            invariant
                s0 == old(self)@,
                wf(self@),
                pump_spec(s0) == pump_spec(self@),
            decreases self@.frames.len(),
        {
            let ghost pre = self@;
            let popped = self.frames.pop_front();
            match popped {
                Some(mut m) => {
                    proof {
                        assert(msgs_view(self.frames@) =~= pre.frames.skip(1));
                        assert(m@ == pre.frames[0]);
                        assert(self@ == (SessionV { frames: pre.frames.skip(1), ..pre }));
                    }
                    let res = self.process_msg(&mut m);
                    proof {
                        let s1 = SessionV { frames: pre.frames.skip(1), ..pre };
                        let prc = process_spec(s1, pre.frames[0]);
                        lemma_process_keeps_frames(s1, pre.frames[0]);
                        assert(pre.frames.len() != 0);
                        assert(pump_spec(pre) == if prc.2 is Ok {
                            pump_spec(prc.0)
                        } else {
                            (prc.0, prc.2)
                        });
                    }
                    match res {
                        Ok(()) => {},
                        Err(e) => {
                            return Err(e);
                        },
                    }
                },
                None => {
                    proof {
                        assert(pre.frames.len() == 0);
                        assert(pump_spec(pre) == (pre, Ok::<(), HandshakeError>(())));
                    }
                    return Ok(());
                },
            }
        }
    }

    /// Pops at most one queued outbound message and returns its full wire
    /// encoding; `None` reports an empty queue (a no-op for the transport).
    pub fn take_tls_output(&mut self) -> (r: Option<Vec<u8>>)
        requires
            wf(old(self)@),
        ensures
            wf(final(self)@),
            match r {
                None => final(self)@ == old(self)@ && old(self)@.tls_queue.len() == 0,
                Some(bytes) => old(self)@.tls_queue.len() > 0 && bytes@ == enc_msg(
                    old(self)@.tls_queue[0],
                ) && final(self)@ == (SessionV {
                    tls_queue: old(self)@.tls_queue.skip(1),
                    ..old(self)@
                }),
            },
    {
        let ghost q0 = self.tls_queue@;
        let popped = self.tls_queue.pop_front();
        match popped {
            Some(msg) => {
                proof {
                    assert(msgs_view(self.tls_queue@) =~= msgs_view(q0).skip(1));
                    assert(msg@ == msgs_view(q0)[0]);
                }
                let mut data: Vec<u8> = Vec::new();
                msg.encode(&mut data);
                proof {
                    assert(Seq::<u8>::empty() + enc_msg(msg@) =~= enc_msg(msg@));
                }
                Some(data)
            },
            None => {
                proof {
                    assert(msgs_view(q0) =~= Seq::<MessageV>::empty());
                }
                None
            },
        }
    }
}

} // verus!
