use vstd::prelude::*;

verus! {

/// Key-exchange method of a cipher suite.
#[derive(Clone, Copy, PartialEq, Eq, Structural, Debug)]
pub enum KeyExchangeAlgorithm {
    Ecdhe,
}

/// Bulk encryption algorithm of a cipher suite.
#[derive(Clone, Copy, PartialEq, Eq, Structural, Debug)]
pub enum BulkAlgorithm {
    Aes128Gcm,
    Aes256Gcm,
}

/// Hash algorithm of a cipher suite; it also decides the transcript hash.
#[derive(Clone, Copy, PartialEq, Eq, Structural, Debug)]
pub enum HashAlgorithm {
    Sha256,
    Sha384,
}

/// A static descriptor of one supported cipher suite.
#[derive(Clone, Copy, PartialEq, Eq, Structural, Debug)]
pub struct SupportedCipherSuite {
    /// The wire identifier of the suite.
    pub suite: u16,
    pub kx: KeyExchangeAlgorithm,
    pub bulk: BulkAlgorithm,
    pub hash: HashAlgorithm,
}

/// Wire identifier of TLS_ECDHE_RSA_WITH_AES_128_GCM_SHA256.
pub const CS_ECDHE_RSA_AES_128_GCM_SHA256: u16 = 0xc02f;

/// Wire identifier of TLS_ECDHE_RSA_WITH_AES_256_GCM_SHA384.
pub const CS_ECDHE_RSA_AES_256_GCM_SHA384: u16 = 0xc030;

/// Wire identifier of the no-renegotiation marker. It is advertised at the
/// end of every hello for protocol compliance, but it is not a real suite:
/// a peer that selects it causes a negotiation failure.
pub const TLS_EMPTY_RENEGOTIATION_INFO_SCSV: u16 = 0x00ff;

pub open spec fn spec_default_ciphersuites() -> Seq<SupportedCipherSuite> {
    seq![
        SupportedCipherSuite {
            suite: CS_ECDHE_RSA_AES_128_GCM_SHA256,
            kx: KeyExchangeAlgorithm::Ecdhe,
            bulk: BulkAlgorithm::Aes128Gcm,
            hash: HashAlgorithm::Sha256,
        },
        SupportedCipherSuite {
            suite: CS_ECDHE_RSA_AES_256_GCM_SHA384,
            kx: KeyExchangeAlgorithm::Ecdhe,
            bulk: BulkAlgorithm::Aes256Gcm,
            hash: HashAlgorithm::Sha384,
        },
    ]
}

/// The suites a configuration starts with, in preference order.
pub fn default_ciphersuites() -> (r: Vec<SupportedCipherSuite>)
    ensures
        r@ == spec_default_ciphersuites(),
{
    let mut v: Vec<SupportedCipherSuite> = Vec::new();
    v.push(SupportedCipherSuite {
        suite: CS_ECDHE_RSA_AES_128_GCM_SHA256,
        kx: KeyExchangeAlgorithm::Ecdhe,
        bulk: BulkAlgorithm::Aes128Gcm,
        hash: HashAlgorithm::Sha256,
    });
    v.push(SupportedCipherSuite {
        suite: CS_ECDHE_RSA_AES_256_GCM_SHA384,
        kx: KeyExchangeAlgorithm::Ecdhe,
        bulk: BulkAlgorithm::Aes256Gcm,
        hash: HashAlgorithm::Sha384,
    });
    proof {
        assert(v@ =~= spec_default_ciphersuites());
    }
    v
}

/// First suite in `suites` whose wire identifier is `id`, if any.
pub open spec fn find_suite(suites: Seq<SupportedCipherSuite>, id: u16) -> Option<
    SupportedCipherSuite,
>
    decreases suites.len(),
{
    if suites.len() == 0 {
        None
    } else if suites[0].suite == id {
        Some(suites[0])
    } else {
        find_suite(suites.skip(1), id)
    }
}

/// A lookup never answers with a suite absent from the list it searched,
/// and answers `None` exactly when no listed suite carries the identifier.
pub proof fn lemma_find_suite_in_list(suites: Seq<SupportedCipherSuite>, id: u16)
    ensures
        match find_suite(suites, id) {
            Some(cs) => suites.contains(cs) && cs.suite == id,
            None => forall|i: int| 0 <= i < suites.len() ==> suites[i].suite != id,
        },
    decreases suites.len(),
{
    if suites.len() == 0 {
    } else if suites[0].suite == id {
        assert(suites.contains(suites[0]));
    } else {
        lemma_find_suite_in_list(suites.skip(1), id);
        match find_suite(suites.skip(1), id) {
            Some(cs) => {
                let j = choose|j: int| 0 <= j < suites.skip(1).len() && suites.skip(1)[j] == cs;
                assert(suites[j + 1] == cs);
                assert(suites.contains(cs));
            },
            None => {
                assert forall|i: int| 0 <= i < suites.len() implies suites[i].suite != id by {
                    if i > 0 {
                        assert(suites.skip(1)[i - 1] == suites[i]);
                    }
                }
            },
        }
    }
}

} // verus!
