//! The engine's guarantees, stated once over the specification functions
//! that the executable methods are proved to follow.
use crate::client::{
    expectation_matches, process_spec, state_expectation, step, wf, ConnState, SessionV,
};
use crate::hash::{transcript_digest, HandshakeHashV};
use crate::msgs::{
    enc_msg, hs_msg, ContentType, HandshakeV, MessageV, PayloadV, ServerHelloV,
    ServerKeyExchangeV,
};
use crate::suites::{find_suite, TLS_EMPTY_RENEGOTIATION_INFO_SCSV};
use crate::HandshakeError;
use vstd::prelude::*;

verus! {

/// A message that does not match the current state's expectation is refused
/// with a protocol violation, and the session is left exactly as it was.
pub proof fn lemma_mismatch_rejected(s: SessionV, m: MessageV)
    requires
        s.state != ConnState::Traffic,
        !expectation_matches(state_expectation(s.state), m),
    ensures
        step(s, m) == (s, Err::<(), HandshakeError>(HandshakeError::ProtocolViolation)),
{
    match s.state {
        ConnState::ExpectServerHello => {},
        ConnState::ExpectCertificate => {},
        ConnState::ExpectServerKX => {},
        ConnState::ExpectServerHelloDone => {},
        ConnState::ExpectCCS => {},
        ConnState::ExpectFinished => {},
        ConnState::Traffic => {},
    }
}

/// In the terminal state every message is refused with an unexpected-state
/// error, and nothing changes.
pub proof fn lemma_traffic_rejects_all(s: SessionV, m: MessageV)
    requires
        s.state == ConnState::Traffic,
    ensures
        step(s, m) == (s, Err::<(), HandshakeError>(HandshakeError::UnexpectedState)),
{
}

/// No failing processing step mutates the session: whatever the error —
/// decode failure, protocol violation, negotiation failure or unexpected
/// state — the session after the call equals the session before it.
pub proof fn lemma_failure_no_mutation(s: SessionV, m: MessageV)
    requires
        process_spec(s, m).2 is Err,
    ensures
        process_spec(s, m).0 == s,
{
    match crate::msgs::decode_spec(m) {
        None => {},
        Some(d) => {
            match s.state {
                ConnState::ExpectServerHello => {
                    match d.payload {
                        PayloadV::Handshake(HandshakeV::ServerHello(_)) => {},
                        _ => {},
                    }
                },
                ConnState::ExpectCertificate => {
                    match d.payload {
                        PayloadV::Handshake(HandshakeV::Certificate(_)) => {},
                        _ => {},
                    }
                },
                ConnState::ExpectServerKX => {
                    match d.payload {
                        PayloadV::Handshake(HandshakeV::ServerKeyExchange(_)) => {},
                        _ => {},
                    }
                },
                ConnState::ExpectServerHelloDone => {},
                ConnState::ExpectCCS => {},
                ConnState::ExpectFinished => {},
                ConnState::Traffic => {},
            }
        },
    }
}

/// A well-formed server sequence — ServerHello, Certificate,
/// ServerKeyExchange, ServerHelloDone, ChangeCipherSpec, Finished — drives
/// the machine through each state exactly once, in that order, into
/// Traffic; and the transcript is then exactly the hello bytes followed by
/// the wire encodings of the five hashed messages, in arrival order (the
/// cipher-spec change carries no handshake bytes and is not hashed).
pub proof fn lemma_full_handshake(
    s0: SessionV,
    sh: ServerHelloV,
    chain: Seq<Seq<u8>>,
    kx: ServerKeyExchangeV,
    vd: Seq<u8>,
)
    requires
        wf(s0),
        s0.state == ConnState::ExpectServerHello,
        sh.cipher_suite != TLS_EMPTY_RENEGOTIATION_INFO_SCSV,
        find_suite(s0.config.ciphersuites, sh.cipher_suite) is Some,
    ensures
        ({
            let m1 = hs_msg(HandshakeV::ServerHello(sh));
            let m2 = hs_msg(HandshakeV::Certificate(chain));
            let m3 = hs_msg(HandshakeV::ServerKeyExchange(kx));
            let m4 = hs_msg(HandshakeV::ServerHelloDone);
            let m5 = MessageV {
                typ: ContentType::ChangeCipherSpec,
                payload: PayloadV::ChangeCipherSpec,
            };
            let m6 = hs_msg(HandshakeV::Finished(vd));
            let r1 = step(s0, m1);
            let r2 = step(r1.0, m2);
            let r3 = step(r2.0, m3);
            let r4 = step(r3.0, m4);
            let r5 = step(r4.0, m5);
            let r6 = step(r5.0, m6);
            &&& r1.1 == Ok::<(), HandshakeError>(()) && r1.0.state == ConnState::ExpectCertificate
            &&& r2.1 == Ok::<(), HandshakeError>(()) && r2.0.state == ConnState::ExpectServerKX
            &&& r3.1 == Ok::<(), HandshakeError>(()) && r3.0.state
                == ConnState::ExpectServerHelloDone
            &&& r4.1 == Ok::<(), HandshakeError>(()) && r4.0.state == ConnState::ExpectCCS
            &&& r5.1 == Ok::<(), HandshakeError>(()) && r5.0.state == ConnState::ExpectFinished
            &&& r6.1 == Ok::<(), HandshakeError>(()) && r6.0.state == ConnState::Traffic
            &&& r6.0.hs.handshake_hash == Some(
                HandshakeHashV {
                    alg: find_suite(s0.config.ciphersuites, sh.cipher_suite).unwrap().hash,
                    transcript: s0.hs.client_hello + enc_msg(m1) + enc_msg(m2) + enc_msg(m3)
                        + enc_msg(m4) + enc_msg(m6),
                },
            )
        }),
{
}

/// Two transcripts that accumulated the same bytes under the same algorithm
/// yield the same verification value: the digest is a pure, order-sensitive
/// function of the wire bytes fed in.
pub proof fn lemma_verify_data_deterministic(h1: HandshakeHashV, h2: HandshakeHashV)
    requires
        h1.alg == h2.alg,
        h1.transcript == h2.transcript,
    ensures
        transcript_digest(h1.alg, h1.transcript) == transcript_digest(h2.alg, h2.transcript),
{
}

/// A well-formed session never holds a negotiated suite from outside its
/// configured list, whatever identifier the peer selected.
pub proof fn lemma_negotiated_suite_configured(s: SessionV)
    requires
        wf(s),
        s.hs.ciphersuite is Some,
    ensures
        s.config.ciphersuites.contains(s.hs.ciphersuite.unwrap()),
{
}

/// Right after start exactly the hello is queued, so a write is wanted;
/// draining that single message leaves nothing to write.
pub proof fn lemma_wants_write_lifecycle(s: SessionV)
    requires
        s.tls_queue.len() == 1,
    ensures
        s.tls_queue.len() != 0,
        (SessionV { tls_queue: s.tls_queue.skip(1), ..s }).tls_queue.len() == 0,
{
}

} // verus!
