//! The handshake transcript hash.
//!
//! The accumulator records the exact wire bytes of every handshake message
//! fed to it, in order; the digest itself is computed by an outside hash
//! implementation whose result is only named here, never restated.
use crate::msgs::{enc_msg, wf_msg, Message};
use crate::suites::HashAlgorithm;
use sha2::Digest;
use vstd::prelude::*;

verus! {

/// The SHA-256 digest of a byte string.
pub uninterp spec fn sha256_of(data: Seq<u8>) -> Seq<u8>;

/// The SHA-384 digest of a byte string.
pub uninterp spec fn sha384_of(data: Seq<u8>) -> Seq<u8>;

/// Relies on sha2::Sha256 through the Digest trait: the digest is a function
/// of the input bytes alone, and is always 32 bytes long.
#[verifier::external_body]
fn sha256(data: &Vec<u8>) -> (r: Vec<u8>)
    ensures
        r@ == sha256_of(data@),
        r@.len() == 32,
{
    sha2::Sha256::digest(data.as_slice()).to_vec()
}

/// Relies on sha2::Sha384 through the Digest trait: the digest is a function
/// of the input bytes alone, and is always 48 bytes long.
#[verifier::external_body]
fn sha384(data: &Vec<u8>) -> (r: Vec<u8>)
    ensures
        r@ == sha384_of(data@),
        r@.len() == 48,
{
    sha2::Sha384::digest(data.as_slice()).to_vec()
}

/// The digest the negotiated suite's hash algorithm assigns to a transcript.
pub open spec fn transcript_digest(alg: HashAlgorithm, data: Seq<u8>) -> Seq<u8> {
    match alg {
        HashAlgorithm::Sha256 => sha256_of(data),
        HashAlgorithm::Sha384 => sha384_of(data),
    }
}

pub open spec fn digest_len(alg: HashAlgorithm) -> nat {
    match alg {
        HashAlgorithm::Sha256 => 32,
        HashAlgorithm::Sha384 => 48,
    }
}

/// The running transcript hash: created once the cipher suite (and with it
/// the hash algorithm) is known, seeded with the client hello, then fed every
/// later handshake message in exact wire order.
pub struct HandshakeHash {
    pub alg: HashAlgorithm,
    pub transcript: Vec<u8>,
}

pub struct HandshakeHashV {
    pub alg: HashAlgorithm,
    pub transcript: Seq<u8>,
}

impl View for HandshakeHash {
    type V = HandshakeHashV;

    open spec fn view(&self) -> HandshakeHashV {
        HandshakeHashV { alg: self.alg, transcript: self.transcript@ }
    }
}

impl HandshakeHash {
    /// Starts the accumulator for `alg`, seeded with the wire bytes already
    /// exchanged (the client hello).
    pub fn start(alg: HashAlgorithm, seed: Vec<u8>) -> (r: HandshakeHash)
        ensures
            r@.alg == alg,
            r@.transcript == seed@,
    {
        HandshakeHash { alg, transcript: seed }
    }

    /// Feeds one handshake message's wire encoding into the accumulator.
    pub fn update(&mut self, m: &Message)
        requires
            wf_msg(m@),
        ensures
            final(self)@.alg == old(self)@.alg,
            final(self)@.transcript == old(self)@.transcript + enc_msg(m@),
    {
        m.encode(&mut self.transcript);
    }

    /// The digest of everything fed so far.
    pub fn get_current_hash(&self) -> (r: Vec<u8>)
        ensures
            r@ == transcript_digest(self@.alg, self@.transcript),
            r@.len() == digest_len(self@.alg),
    {
        match self.alg {
            HashAlgorithm::Sha256 => sha256(&self.transcript),
            HashAlgorithm::Sha384 => sha384(&self.transcript),
        }
    }
}

} // verus!
