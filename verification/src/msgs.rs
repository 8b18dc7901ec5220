//! Protocol messages and their wire form.
//!
//! A message arrives from the record layer as a content type plus a raw
//! payload; `decode_payload` turns the raw bytes into the structured form the
//! state machine inspects, and `encode` writes the structured form back to
//! wire bytes. The wire grammar is stated by the `enc_*` and `parse_*` spec
//! functions; the executable code is proved against them.
use crate::HandshakeError;
use vstd::prelude::*;

verus! {

/// Record-layer content type of a message.
#[derive(Clone, Copy, PartialEq, Eq, Structural, Debug)]
pub enum ContentType {
    ChangeCipherSpec,
    Alert,
    Handshake,
    ApplicationData,
}

/// The handshake message kinds this engine knows.
#[derive(Clone, Copy, PartialEq, Eq, Structural, Debug)]
pub enum HandshakeType {
    ClientHello,
    ServerHello,
    Certificate,
    ServerKeyExchange,
    ServerHelloDone,
    Finished,
}

pub open spec fn content_byte(t: ContentType) -> u8 {
    match t {
        ContentType::ChangeCipherSpec => 20,
        ContentType::Alert => 21,
        ContentType::Handshake => 22,
        ContentType::ApplicationData => 23,
    }
}

pub fn content_type_byte(t: ContentType) -> (r: u8)
    ensures
        r == content_byte(t),
{
    match t {
        ContentType::ChangeCipherSpec => 20,
        ContentType::Alert => 21,
        ContentType::Handshake => 22,
        ContentType::ApplicationData => 23,
    }
}

pub fn content_type_from_byte(b: u8) -> (r: Option<ContentType>)
    ensures
        match r {
            Some(t) => content_byte(t) == b,
            None => b != 20 && b != 21 && b != 22 && b != 23,
        },
{
    if b == 20 {
        Some(ContentType::ChangeCipherSpec)
    } else if b == 21 {
        Some(ContentType::Alert)
    } else if b == 22 {
        Some(ContentType::Handshake)
    } else if b == 23 {
        Some(ContentType::ApplicationData)
    } else {
        None
    }
}

/// An opaque byte payload, as handed to or received from a peer.
pub struct Payload {
    pub body: Vec<u8>,
}

impl View for Payload {
    type V = Seq<u8>;

    open spec fn view(&self) -> Seq<u8> {
        self.body@
    }
}

/// One extension of the client hello.
pub struct ClientExtension {
    pub typ: u16,
    pub body: Vec<u8>,
}

pub struct ExtensionV {
    pub typ: u16,
    pub body: Seq<u8>,
}

impl View for ClientExtension {
    type V = ExtensionV;

    open spec fn view(&self) -> ExtensionV {
        ExtensionV { typ: self.typ, body: self.body@ }
    }
}

pub struct ClientHelloPayload {
    pub client_random: Vec<u8>,
    pub cipher_suites: Vec<u16>,
    pub extensions: Vec<ClientExtension>,
}

pub struct ClientHelloV {
    pub client_random: Seq<u8>,
    pub cipher_suites: Seq<u16>,
    pub extensions: Seq<ExtensionV>,
}

pub struct ServerHelloPayload {
    pub server_random: Vec<u8>,
    pub cipher_suite: u16,
}

pub struct ServerHelloV {
    pub server_random: Seq<u8>,
    pub cipher_suite: u16,
}

/// A signature over the server's key-exchange parameters.
pub struct DigitallySignedStruct {
    pub scheme: u16,
    pub sig: Vec<u8>,
}

pub struct DigitallySignedV {
    pub scheme: u16,
    pub sig: Seq<u8>,
}

impl View for DigitallySignedStruct {
    type V = DigitallySignedV;

    open spec fn view(&self) -> DigitallySignedV {
        DigitallySignedV { scheme: self.scheme, sig: self.sig@ }
    }
}

pub struct ServerKeyExchangePayload {
    pub params: Vec<u8>,
    pub dss: DigitallySignedStruct,
}

pub struct ServerKeyExchangeV {
    pub params: Seq<u8>,
    pub dss: DigitallySignedV,
}

/// The server's certificate chain, end-entity first.
pub type CertificatePayload = Vec<Vec<u8>>;

pub enum HandshakePayload {
    ClientHello(ClientHelloPayload),
    ServerHello(ServerHelloPayload),
    Certificate(CertificatePayload),
    ServerKeyExchange(ServerKeyExchangePayload),
    ServerHelloDone,
    Finished(Vec<u8>),
}

pub enum HandshakeV {
    ClientHello(ClientHelloV),
    ServerHello(ServerHelloV),
    Certificate(Seq<Seq<u8>>),
    ServerKeyExchange(ServerKeyExchangeV),
    ServerHelloDone,
    Finished(Seq<u8>),
}

pub open spec fn exts_view(v: Seq<ClientExtension>) -> Seq<ExtensionV> {
    Seq::new(v.len(), |i: int| v[i]@)
}

pub open spec fn bytes_seq_view(v: Seq<Vec<u8>>) -> Seq<Seq<u8>> {
    Seq::new(v.len(), |i: int| v[i]@)
}

impl View for HandshakePayload {
    type V = HandshakeV;

    open spec fn view(&self) -> HandshakeV {
        match self {
            HandshakePayload::ClientHello(ch) => HandshakeV::ClientHello(
                ClientHelloV {
                    client_random: ch.client_random@,
                    cipher_suites: ch.cipher_suites@,
                    extensions: exts_view(ch.extensions@),
                },
            ),
            HandshakePayload::ServerHello(sh) => HandshakeV::ServerHello(
                ServerHelloV { server_random: sh.server_random@, cipher_suite: sh.cipher_suite },
            ),
            HandshakePayload::Certificate(cs) => HandshakeV::Certificate(bytes_seq_view(cs@)),
            HandshakePayload::ServerKeyExchange(kx) => HandshakeV::ServerKeyExchange(
                ServerKeyExchangeV { params: kx.params@, dss: kx.dss@ },
            ),
            HandshakePayload::ServerHelloDone => HandshakeV::ServerHelloDone,
            HandshakePayload::Finished(vd) => HandshakeV::Finished(vd@),
        }
    }
}

pub enum MessagePayload {
    ChangeCipherSpec,
    Handshake(HandshakePayload),
    Opaque(Vec<u8>),
}

pub enum PayloadV {
    ChangeCipherSpec,
    Handshake(HandshakeV),
    Opaque(Seq<u8>),
}

impl View for MessagePayload {
    type V = PayloadV;

    open spec fn view(&self) -> PayloadV {
        match self {
            MessagePayload::ChangeCipherSpec => PayloadV::ChangeCipherSpec,
            MessagePayload::Handshake(h) => PayloadV::Handshake(h@),
            MessagePayload::Opaque(b) => PayloadV::Opaque(b@),
        }
    }
}

/// One complete protocol message, as the record layer delivers it or as the
/// engine queues it for the transport.
pub struct Message {
    pub typ: ContentType,
    pub payload: MessagePayload,
}

pub struct MessageV {
    pub typ: ContentType,
    pub payload: PayloadV,
}

impl View for Message {
    type V = MessageV;

    open spec fn view(&self) -> MessageV {
        MessageV { typ: self.typ, payload: self.payload@ }
    }
}

/// A handshake message wrapped as a complete protocol message.
pub open spec fn hs_msg(h: HandshakeV) -> MessageV {
    MessageV { typ: ContentType::Handshake, payload: PayloadV::Handshake(h) }
}

pub open spec fn hs_type_of(h: HandshakeV) -> HandshakeType {
    match h {
        HandshakeV::ClientHello(_) => HandshakeType::ClientHello,
        HandshakeV::ServerHello(_) => HandshakeType::ServerHello,
        HandshakeV::Certificate(_) => HandshakeType::Certificate,
        HandshakeV::ServerKeyExchange(_) => HandshakeType::ServerKeyExchange,
        HandshakeV::ServerHelloDone => HandshakeType::ServerHelloDone,
        HandshakeV::Finished(_) => HandshakeType::Finished,
    }
}

// ---------------------------------------------------------------------------
// Wire encoding, as spec functions.
// ---------------------------------------------------------------------------
/// Big-endian 16-bit value read from two bytes.
pub open spec fn be16(hi: u8, lo: u8) -> u16 {
    (hi * 256 + lo) as u16
}

pub open spec fn enc_u16(x: u16) -> Seq<u8> {
    seq![(x / 256) as u8, (x % 256) as u8]
}

/// A byte string preceded by its 16-bit length.
pub open spec fn enc_vec16(b: Seq<u8>) -> Seq<u8> {
    enc_u16(b.len() as u16) + b
}

pub open spec fn enc_suites(ss: Seq<u16>) -> Seq<u8>
    decreases ss.len(),
{
    if ss.len() == 0 {
        Seq::empty()
    } else {
        enc_u16(ss[0]) + enc_suites(ss.skip(1))
    }
}

pub open spec fn enc_exts(es: Seq<ExtensionV>) -> Seq<u8>
    decreases es.len(),
{
    if es.len() == 0 {
        Seq::empty()
    } else {
        enc_u16(es[0].typ) + enc_vec16(es[0].body) + enc_exts(es.skip(1))
    }
}

pub open spec fn enc_certs(cs: Seq<Seq<u8>>) -> Seq<u8>
    decreases cs.len(),
{
    if cs.len() == 0 {
        Seq::empty()
    } else {
        enc_vec16(cs[0]) + enc_certs(cs.skip(1))
    }
}

pub open spec fn enc_hs(h: HandshakeV) -> Seq<u8> {
    match h {
        HandshakeV::ClientHello(ch) => seq![1u8] + ch.client_random + enc_u16(
            ch.cipher_suites.len() as u16,
        ) + enc_suites(ch.cipher_suites) + enc_exts(ch.extensions),
        HandshakeV::ServerHello(sh) => seq![2u8] + sh.server_random + enc_u16(sh.cipher_suite),
        HandshakeV::Certificate(cs) => seq![11u8] + enc_certs(cs),
        HandshakeV::ServerKeyExchange(kx) => seq![12u8] + enc_vec16(kx.params) + enc_u16(
            kx.dss.scheme,
        ) + enc_vec16(kx.dss.sig),
        HandshakeV::ServerHelloDone => seq![14u8],
        HandshakeV::Finished(vd) => seq![20u8] + vd,
    }
}

/// The full wire form of a message: content-type byte, then the payload.
pub open spec fn enc_msg(m: MessageV) -> Seq<u8> {
    match m.payload {
        PayloadV::ChangeCipherSpec => seq![content_byte(m.typ), 1u8],
        PayloadV::Handshake(h) => seq![content_byte(m.typ)] + enc_hs(h),
        PayloadV::Opaque(b) => seq![content_byte(m.typ)] + b,
    }
}

/// Shape limits the wire format imposes: nonces are 32 bytes and every
/// length-prefixed field fits its 16-bit length.
pub open spec fn wf_hs(h: HandshakeV) -> bool {
    match h {
        HandshakeV::ClientHello(ch) => ch.client_random.len() == 32 && ch.cipher_suites.len()
            < 0x10000 && (forall|i: int|
            0 <= i < ch.extensions.len() ==> ch.extensions[i].body.len() < 0x10000),
        HandshakeV::ServerHello(sh) => sh.server_random.len() == 32,
        HandshakeV::Certificate(cs) => forall|i: int| 0 <= i < cs.len() ==> cs[i].len() < 0x10000,
        HandshakeV::ServerKeyExchange(kx) => kx.params.len() < 0x10000 && kx.dss.sig.len()
            < 0x10000,
        HandshakeV::ServerHelloDone => true,
        HandshakeV::Finished(_) => true,
    }
}

pub open spec fn wf_msg(m: MessageV) -> bool {
    match m.payload {
        PayloadV::Handshake(h) => wf_hs(h),
        _ => true,
    }
}

// ---------------------------------------------------------------------------
// Parsing, as spec functions. Only the message kinds a server sends are
// parsed; everything else is a decode failure.
// ---------------------------------------------------------------------------
pub open spec fn parse_certs(b: Seq<u8>) -> Option<Seq<Seq<u8>>>
    decreases b.len(),
{
    if b.len() == 0 {
        Some(Seq::empty())
    } else if b.len() < 2 {
        None
    } else {
        let l = be16(b[0], b[1]) as int;
        if b.len() < 2 + l {
            None
        } else {
            match parse_certs(b.skip(2 + l)) {
                Some(cs) => Some(seq![b.subrange(2, 2 + l)] + cs),
                None => None,
            }
        }
    }
}

pub open spec fn parse_kx(rest: Seq<u8>) -> Option<HandshakeV> {
    if rest.len() < 2 {
        None
    } else {
        let pl = be16(rest[0], rest[1]) as int;
        if rest.len() < 6 + pl {
            None
        } else {
            let scheme = be16(rest[2 + pl], rest[3 + pl]);
            let sl = be16(rest[4 + pl], rest[5 + pl]) as int;
            if rest.len() != 6 + pl + sl {
                None
            } else {
                Some(
                    HandshakeV::ServerKeyExchange(
                        ServerKeyExchangeV {
                            params: rest.subrange(2, 2 + pl),
                            dss: DigitallySignedV {
                                scheme,
                                sig: rest.subrange(6 + pl, 6 + pl + sl),
                            },
                        },
                    ),
                )
            }
        }
    }
}

pub open spec fn parse_hs(b: Seq<u8>) -> Option<HandshakeV> {
    if b.len() < 1 {
        None
    } else {
        let tag = b[0];
        let rest = b.skip(1);
        if tag == 2 {
            if rest.len() == 34 {
                Some(
                    HandshakeV::ServerHello(
                        ServerHelloV {
                            server_random: rest.take(32),
                            cipher_suite: be16(rest[32], rest[33]),
                        },
                    ),
                )
            } else {
                None
            }
        } else if tag == 11 {
            match parse_certs(rest) {
                Some(cs) => Some(HandshakeV::Certificate(cs)),
                None => None,
            }
        } else if tag == 12 {
            parse_kx(rest)
        } else if tag == 14 {
            if rest.len() == 0 {
                Some(HandshakeV::ServerHelloDone)
            } else {
                None
            }
        } else if tag == 20 {
            Some(HandshakeV::Finished(rest))
        } else {
            None
        }
    }
}

/// What a raw payload decodes to under a given content type, if anything.
pub open spec fn decode_ok(typ: ContentType, b: Seq<u8>) -> Option<PayloadV> {
    match typ {
        ContentType::ChangeCipherSpec => if b == seq![1u8] {
            Some(PayloadV::ChangeCipherSpec)
        } else {
            None
        },
        ContentType::Handshake => match parse_hs(b) {
            Some(h) => Some(PayloadV::Handshake(h)),
            None => None,
        },
        _ => None,
    }
}

/// The effect of `decode_payload`: an opaque payload is parsed, an already
/// structured message is left as it is.
pub open spec fn decode_spec(m: MessageV) -> Option<MessageV> {
    match m.payload {
        PayloadV::Opaque(b) => match decode_ok(m.typ, b) {
            Some(p) => Some(MessageV { typ: m.typ, payload: p }),
            None => None,
        },
        _ => Some(m),
    }
}

// ---------------------------------------------------------------------------
// Executable encoding.
// ---------------------------------------------------------------------------
fn encode_u16_into(x: u16, out: &mut Vec<u8>)
    ensures
        final(out)@ == old(out)@ + enc_u16(x),
{
    out.push((x / 256) as u8);
    out.push((x % 256) as u8);
    proof {
        assert(out@ =~= old(out)@ + enc_u16(x));
    }
}

fn append_bytes(b: &Vec<u8>, out: &mut Vec<u8>)
    ensures
        final(out)@ == old(out)@ + b@,
{
    let mut i: usize = 0;
    while i < b.len()
        invariant
            i <= b@.len(),
            out@ == old(out)@ + b@.take(i as int),
        decreases b@.len() - i,
    {
        out.push(b[i]);
        proof {
            assert(b@.take(i as int).push(b@[i as int]) =~= b@.take(i as int + 1));
            assert(out@ =~= old(out)@ + b@.take(i as int + 1));
        }
        i = i + 1;
    }
    proof {
        assert(b@.take(b@.len() as int) =~= b@);
        assert(out@ =~= old(out)@ + b@);
    }
}

fn encode_vec16(b: &Vec<u8>, out: &mut Vec<u8>)
    requires
        b@.len() < 0x10000,
    ensures
        final(out)@ == old(out)@ + enc_vec16(b@),
{
    encode_u16_into(b.len() as u16, out);
    append_bytes(b, out);
    proof {
        assert(out@ =~= old(out)@ + enc_vec16(b@));
    }
}

fn encode_suites(ss: &Vec<u16>, out: &mut Vec<u8>)
    ensures
        final(out)@ == old(out)@ + enc_suites(ss@),
{
    proof {
        assert(ss@.skip(0) =~= ss@);
    }
    let mut i: usize = 0;
    while i < ss.len()
        invariant
            i <= ss@.len(),
            out@ + enc_suites(ss@.skip(i as int)) == old(out)@ + enc_suites(ss@),
        decreases ss@.len() - i,
    {
        proof {
            assert(ss@.skip(i as int)[0] == ss@[i as int]);
            assert(ss@.skip(i as int).skip(1) =~= ss@.skip(i as int + 1));
        }
        let ghost pre = out@;
        encode_u16_into(ss[i], out);
        proof {
            assert(out@ + enc_suites(ss@.skip(i as int + 1)) =~= pre + enc_suites(
                ss@.skip(i as int),
            ));
        }
        i = i + 1;
    }
    proof {
        assert(ss@.skip(ss@.len() as int) =~= Seq::<u16>::empty());
        assert(out@ + Seq::<u8>::empty() =~= out@);
    }
}

fn encode_exts(es: &Vec<ClientExtension>, out: &mut Vec<u8>)
    requires
        forall|i: int| 0 <= i < es@.len() ==> es@[i].body@.len() < 0x10000,
    ensures
        final(out)@ == old(out)@ + enc_exts(exts_view(es@)),
{
    let ghost ev = exts_view(es@);
    proof {
        assert(ev.skip(0) =~= ev);
    }
    let mut i: usize = 0;
    while i < es.len()
        invariant
            i <= es@.len(),
            ev == exts_view(es@),
            forall|k: int| 0 <= k < es@.len() ==> es@[k].body@.len() < 0x10000,
            out@ + enc_exts(ev.skip(i as int)) == old(out)@ + enc_exts(ev),
        decreases es@.len() - i,
    {
        proof {
            assert(ev.skip(i as int)[0] == ev[i as int]);
            assert(ev.skip(i as int).skip(1) =~= ev.skip(i as int + 1));
        }
        let ghost pre = out@;
        encode_u16_into(es[i].typ, out);
        encode_vec16(&es[i].body, out);
        proof {
            assert(out@ + enc_exts(ev.skip(i as int + 1)) =~= pre + enc_exts(ev.skip(i as int)));
        }
        i = i + 1;
    }
    proof {
        assert(ev.skip(ev.len() as int) =~= Seq::<ExtensionV>::empty());
        assert(out@ + Seq::<u8>::empty() =~= out@);
    }
}

fn encode_certs(cs: &Vec<Vec<u8>>, out: &mut Vec<u8>)
    requires
        forall|i: int| 0 <= i < cs@.len() ==> cs@[i]@.len() < 0x10000,
    ensures
        final(out)@ == old(out)@ + enc_certs(bytes_seq_view(cs@)),
{
    let ghost cv = bytes_seq_view(cs@);
    proof {
        assert(cv.skip(0) =~= cv);
    }
    let mut i: usize = 0;
    while i < cs.len()
        invariant
            i <= cs@.len(),
            cv == bytes_seq_view(cs@),
            forall|k: int| 0 <= k < cs@.len() ==> cs@[k]@.len() < 0x10000,
            out@ + enc_certs(cv.skip(i as int)) == old(out)@ + enc_certs(cv),
        decreases cs@.len() - i,
    {
        proof {
            assert(cv.skip(i as int)[0] == cv[i as int]);
            assert(cv.skip(i as int).skip(1) =~= cv.skip(i as int + 1));
        }
        let ghost pre = out@;
        encode_vec16(&cs[i], out);
        proof {
            assert(out@ + enc_certs(cv.skip(i as int + 1)) =~= pre + enc_certs(cv.skip(i as int)));
        }
        i = i + 1;
    }
    proof {
        assert(cv.skip(cv.len() as int) =~= Seq::<Seq<u8>>::empty());
        assert(out@ + Seq::<u8>::empty() =~= out@);
    }
}

fn encode_handshake(h: &HandshakePayload, out: &mut Vec<u8>)
    requires
        wf_hs(h@),
    ensures
        final(out)@ == old(out)@ + enc_hs(h@),
{
    match h {
        HandshakePayload::ClientHello(ch) => {
            out.push(1);
            append_bytes(&ch.client_random, out);
            encode_u16_into(ch.cipher_suites.len() as u16, out);
            encode_suites(&ch.cipher_suites, out);
            proof {
                assert forall|i: int| 0 <= i < ch.extensions@.len() implies ch.extensions@[i].body@.len() < 0x10000 by {
                    assert(exts_view(ch.extensions@)[i] == ch.extensions@[i]@);
                }
            }
            encode_exts(&ch.extensions, out);
            proof {
                assert(out@ =~= old(out)@ + enc_hs(h@));
            }
        },
        HandshakePayload::ServerHello(sh) => {
            out.push(2);
            append_bytes(&sh.server_random, out);
            encode_u16_into(sh.cipher_suite, out);
            proof {
                assert(out@ =~= old(out)@ + enc_hs(h@));
            }
        },
        HandshakePayload::Certificate(cs) => {
            out.push(11);
            proof {
                assert forall|i: int| 0 <= i < cs@.len() implies cs@[i]@.len() < 0x10000 by {
                    assert(bytes_seq_view(cs@)[i] == cs@[i]@);
                }
            }
            encode_certs(cs, out);
            proof {
                assert(out@ =~= old(out)@ + enc_hs(h@));
            }
        },
        HandshakePayload::ServerKeyExchange(kx) => {
            out.push(12);
            encode_vec16(&kx.params, out);
            encode_u16_into(kx.dss.scheme, out);
            encode_vec16(&kx.dss.sig, out);
            proof {
                assert(out@ =~= old(out)@ + enc_hs(h@));
            }
        },
        HandshakePayload::ServerHelloDone => {
            out.push(14);
            proof {
                assert(out@ =~= old(out)@ + enc_hs(h@));
            }
        },
        HandshakePayload::Finished(vd) => {
            out.push(20);
            append_bytes(vd, out);
            proof {
                assert(out@ =~= old(out)@ + enc_hs(h@));
            }
        },
    }
}

impl Message {
    /// Serializes the message to its wire bytes, appended to `bytes`.
    pub fn encode(&self, bytes: &mut Vec<u8>)
        requires
            wf_msg(self@),
        ensures
            final(bytes)@ == old(bytes)@ + enc_msg(self@),
    {
        bytes.push(content_type_byte(self.typ));
        match &self.payload {
            MessagePayload::ChangeCipherSpec => {
                bytes.push(1);
                proof {
                    assert(bytes@ =~= old(bytes)@ + enc_msg(self@));
                }
            },
            MessagePayload::Handshake(h) => {
                encode_handshake(h, bytes);
                proof {
                    assert(bytes@ =~= old(bytes)@ + enc_msg(self@));
                }
            },
            MessagePayload::Opaque(b) => {
                append_bytes(b, bytes);
                proof {
                    assert(bytes@ =~= old(bytes)@ + enc_msg(self@));
                }
            },
        }
    }
}

// ---------------------------------------------------------------------------
// Executable parsing.
// ---------------------------------------------------------------------------
fn copy_range(b: &Vec<u8>, from: usize, to: usize) -> (r: Vec<u8>)
    requires
        from <= to <= b@.len(),
    ensures
        r@ == b@.subrange(from as int, to as int),
{
    let mut r: Vec<u8> = Vec::new();
    let mut k: usize = from;
    while k < to
        invariant
            from <= k <= to <= b@.len(),
            r@ == b@.subrange(from as int, k as int),
        decreases to - k,
    {
        r.push(b[k]);
        proof {
            assert(b@.subrange(from as int, k as int).push(b@[k as int]) =~= b@.subrange(
                from as int,
                k as int + 1,
            ));
        }
        k = k + 1;
    }
    r
}

pub open spec fn opt_prepend(pre: Seq<Seq<u8>>, o: Option<Seq<Seq<u8>>>) -> Option<Seq<Seq<u8>>> {
    match o {
        Some(s) => Some(pre + s),
        None => None,
    }
}

fn parse_certs_exec(b: &Vec<u8>, start: usize) -> (r: Option<Vec<Vec<u8>>>)
    requires
        start <= b@.len(),
    ensures
        match r {
            Some(cs) => parse_certs(b@.skip(start as int)) == Some(bytes_seq_view(cs@)),
            None => parse_certs(b@.skip(start as int)) is None,
        },
{
    let mut acc: Vec<Vec<u8>> = Vec::new();
    let mut i: usize = start;
    proof {
        match parse_certs(b@.skip(start as int)) {
            Some(s) => {
                assert(bytes_seq_view(acc@) =~= Seq::<Seq<u8>>::empty());
                assert(Seq::<Seq<u8>>::empty() + s =~= s);
            },
            None => {},
        }
    }
    loop
        invariant
            start <= i <= b@.len(),
            opt_prepend(bytes_seq_view(acc@), parse_certs(b@.skip(i as int))) == parse_certs(
                b@.skip(start as int),
            ),
        decreases b@.len() - i,
    {
        if i == b.len() {
            proof {
                assert(b@.skip(i as int) =~= Seq::<u8>::empty());
                assert(bytes_seq_view(acc@) + Seq::<Seq<u8>>::empty() =~= bytes_seq_view(acc@));
            }
            return Some(acc);
        }
        if b.len() - i < 2 {
            return None;
        }
        let l: usize = (b[i] as usize) * 256 + (b[i + 1] as usize);
        proof {
            let t = b@.skip(i as int);
            assert(t[0] == b@[i as int] && t[1] == b@[i as int + 1]);
            assert(be16(t[0], t[1]) as int == l as int);
        }
        if b.len() - i - 2 < l {
            return None;
        }
        let cert = copy_range(b, i + 2, i + 2 + l);
        proof {
            let t = b@.skip(i as int);
            assert(t.subrange(2, 2 + l as int) =~= b@.subrange(i as int + 2, i as int + 2 + l));
            assert(t.skip(2 + l as int) =~= b@.skip(i as int + 2 + l));
            // one unfolding of parse_certs at skip(i), then reassociate
            assert(bytes_seq_view(acc@.push(cert)) =~= bytes_seq_view(acc@) + seq![cert@]);
            match parse_certs(b@.skip(i as int + 2 + l as int)) {
                Some(cs) => {
                    assert((bytes_seq_view(acc@) + seq![cert@]) + cs =~= bytes_seq_view(acc@) + (
                    seq![cert@] + cs));
                },
                None => {},
            }
        }
        acc.push(cert);
        i = i + 2 + l;
    }
}

fn parse_kx_exec(b: &Vec<u8>) -> (r: Option<HandshakePayload>)
    requires
        b@.len() >= 1,
        b@[0] == 12,
    ensures
        match r {
            Some(h) => parse_kx(b@.skip(1)) == Some(h@),
            None => parse_kx(b@.skip(1)) is None,
        },
{
    let ghost rest = b@.skip(1);
    if b.len() < 3 {
        return None;
    }
    let pl: usize = (b[1] as usize) * 256 + (b[2] as usize);
    proof {
        assert(rest[0] == b@[1] && rest[1] == b@[2]);
        assert(be16(rest[0], rest[1]) as int == pl as int);
    }
    if b.len() < 7 + pl {
        return None;
    }
    let params = copy_range(b, 3, 3 + pl);
    let scheme: u16 = ((b[3 + pl] as u16) * 256) + (b[4 + pl] as u16);
    let sl: usize = (b[5 + pl] as usize) * 256 + (b[6 + pl] as usize);
    proof {
        assert(rest[2 + pl as int] == b@[3 + pl as int]);
        assert(rest[3 + pl as int] == b@[4 + pl as int]);
        assert(rest[4 + pl as int] == b@[5 + pl as int]);
        assert(rest[5 + pl as int] == b@[6 + pl as int]);
        assert(be16(rest[2 + pl as int], rest[3 + pl as int]) == scheme);
        assert(be16(rest[4 + pl as int], rest[5 + pl as int]) as int == sl as int);
    }
    if b.len() != 7 + pl + sl {
        return None;
    }
    let sig = copy_range(b, 7 + pl, 7 + pl + sl);
    proof {
        assert(rest.subrange(2, 2 + pl as int) =~= b@.subrange(3, 3 + pl as int));
        assert(rest.subrange(6 + pl as int, 6 + pl as int + sl as int) =~= b@.subrange(
            7 + pl as int,
            7 + pl as int + sl as int,
        ));
    }
    Some(
        HandshakePayload::ServerKeyExchange(
            ServerKeyExchangePayload { params, dss: DigitallySignedStruct { scheme, sig } },
        ),
    )
}

fn parse_handshake(b: &Vec<u8>) -> (r: Option<HandshakePayload>)
    ensures
        match r {
            Some(h) => parse_hs(b@) == Some(h@),
            None => parse_hs(b@) is None,
        },
{
    if b.len() < 1 {
        return None;
    }
    let tag = b[0];
    let ghost rest = b@.skip(1);
    if tag == 2 {
        if b.len() != 35 {
            return None;
        }
        let random = copy_range(b, 1, 33);
        let suite: u16 = ((b[33] as u16) * 256) + (b[34] as u16);
        proof {
            assert(rest.take(32) =~= b@.subrange(1, 33));
            assert(rest[32] == b@[33] && rest[33] == b@[34]);
            assert(be16(rest[32], rest[33]) == suite);
        }
        Some(HandshakePayload::ServerHello(ServerHelloPayload { server_random: random, cipher_suite: suite }))
    } else if tag == 11 {
        match parse_certs_exec(b, 1) {
            Some(cs) => Some(HandshakePayload::Certificate(cs)),
            None => None,
        }
    } else if tag == 12 {
        parse_kx_exec(b)
    } else if tag == 14 {
        if b.len() == 1 {
            Some(HandshakePayload::ServerHelloDone)
        } else {
            None
        }
    } else if tag == 20 {
        let vd = copy_range(b, 1, b.len());
        proof {
            assert(rest =~= b@.subrange(1, b@.len() as int));
        }
        Some(HandshakePayload::Finished(vd))
    } else {
        None
    }
}

impl Message {
    /// Parses an opaque payload into its structured form; a message that is
    /// already structured is left untouched. Fails, changing nothing, when
    /// the bytes are not a well-formed message of the given content type.
    pub fn decode_payload(&mut self) -> (r: Result<(), HandshakeError>)
        ensures
            match decode_spec(old(self)@) {
                Some(d) => r == Ok::<(), HandshakeError>(()) && final(self)@ == d,
                None => r == Err::<(), HandshakeError>(HandshakeError::DecodeFailure)
                    && final(self)@ == old(self)@,
            },
    {
        let t = self.typ;
        let new_payload: Option<MessagePayload> = match &self.payload {
            MessagePayload::Opaque(raw) => {
                match t {
                    ContentType::ChangeCipherSpec => {
                        if raw.len() == 1 && raw[0] == 1 {
                            proof {
                                assert(raw@ =~= seq![1u8]);
                            }
                            Some(MessagePayload::ChangeCipherSpec)
                        } else {
                            proof {
                                assert(raw@ != seq![1u8]);
                            }
                            None
                        }
                    },
                    ContentType::Handshake => {
                        match parse_handshake(raw) {
                            Some(h) => Some(MessagePayload::Handshake(h)),
                            None => None,
                        }
                    },
                    _ => None,
                }
            },
            _ => {
                return Ok(());
            },
        };
        match new_payload {
            Some(p) => {
                self.payload = p;
                Ok(())
            },
            None => Err(HandshakeError::DecodeFailure),
        }
    }
}

/// Every chain a parse yields fits the wire format again.
pub proof fn lemma_parse_certs_wf(b: Seq<u8>)
    ensures
        parse_certs(b) is Some ==> forall|i: int|
            0 <= i < parse_certs(b).unwrap().len() ==> parse_certs(b).unwrap()[i].len() < 0x10000,
    decreases b.len(),
{
    if b.len() == 0 {
    } else if b.len() < 2 {
    } else {
        let l = be16(b[0], b[1]) as int;
        if b.len() >= 2 + l {
            lemma_parse_certs_wf(b.skip(2 + l));
        }
    }
}

/// Every payload a parse yields is well formed.
pub proof fn lemma_parse_hs_wf(b: Seq<u8>)
    ensures
        parse_hs(b) is Some ==> wf_hs(parse_hs(b).unwrap()),
{
    if b.len() >= 1 && b[0] == 11 {
        lemma_parse_certs_wf(b.skip(1));
    }
}

/// Decoding a well-formed message yields a well-formed message.
pub proof fn lemma_decode_wf(m: MessageV)
    requires
        wf_msg(m),
    ensures
        decode_spec(m) is Some ==> wf_msg(decode_spec(m).unwrap()),
{
    match m.payload {
        PayloadV::Opaque(b) => {
            if m.typ == ContentType::Handshake {
                lemma_parse_hs_wf(b);
            }
        },
        _ => {},
    }
}

} // verus!
