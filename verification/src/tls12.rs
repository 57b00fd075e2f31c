//! TLS 1.2 client (ECDHE_RSA_WITH_AES_128_GCM_SHA256, X25519 or P-256).
//!
//! The connection is a state machine: the caller owns the socket, hands each
//! record it reads to the connection and sends the bytes the connection gives
//! back. The certificate is not verified.
pub mod crypto;

use vstd::prelude::*;
use vstd::string::StringSliceAdditionalSpecFns;
use crate::fmt::push_bytes;
use crate::tls::{SimpleRng, TlsError, rng_state, rng_bytes, random_bytes32, lemma_rng_state_add};
use crate::tls12::crypto::{
    aes128gcm_open, aes128gcm_open_of, aes128gcm_seal, aes128gcm_seal_of, concat, p256_ecdh, p256_ecdh_of,
    p256_public_key, p256_public_of, prf, prf_sha256, sha256, sha256_of, x25519, x25519_of,
};

verus! {

pub const CONTENT_TYPE_CHANGE_CIPHER_SPEC: u8 = 20;
pub const CONTENT_TYPE_ALERT: u8 = 21;
pub const CONTENT_TYPE_HANDSHAKE: u8 = 22;
pub const CONTENT_TYPE_APPLICATION_DATA: u8 = 23;

pub const HANDSHAKE_CLIENT_HELLO: u8 = 1;
pub const HANDSHAKE_SERVER_HELLO: u8 = 2;
pub const HANDSHAKE_CERTIFICATE: u8 = 11;
pub const HANDSHAKE_SERVER_KEY_EXCHANGE: u8 = 12;
pub const HANDSHAKE_SERVER_HELLO_DONE: u8 = 14;
pub const HANDSHAKE_CLIENT_KEY_EXCHANGE: u8 = 16;
pub const HANDSHAKE_FINISHED: u8 = 20;

pub const NAMED_CURVE_SECP256R1: u16 = 23;
pub const NAMED_CURVE_X25519: u16 = 29;

/// GCM: the per-record explicit nonce and the tag.
pub const GCM_EXPLICIT_NONCE_SIZE: usize = 8;
pub const GCM_TAG_SIZE: usize = 16;

/// The largest plaintext record accepted (2^14 plus room for expansion).
pub const MAX_RECORD_LEN: usize = 18432;

/// How many 32-byte draws P-256 key generation makes before giving up.
pub const P256_KEY_ATTEMPTS: usize = 64;

/// Two big-endian bytes of `n` (taken modulo 2^16).
pub open spec fn be16(n: int) -> Seq<u8> {
    seq![((n / 256) % 256) as u8, (n % 256) as u8]
}

/// Three big-endian bytes of `n` (taken modulo 2^24).
pub open spec fn be24(n: int) -> Seq<u8> {
    seq![((n / 65536) % 256) as u8, ((n / 256) % 256) as u8, (n % 256) as u8]
}

/// Eight big-endian bytes of `n`.
pub open spec fn be64(n: int) -> Seq<u8> {
    seq![
        ((n / 0x100_0000_0000_0000) % 256) as u8,
        ((n / 0x1_0000_0000_0000) % 256) as u8,
        ((n / 0x100_0000_0000) % 256) as u8,
        ((n / 0x1_0000_0000) % 256) as u8,
        ((n / 0x100_0000) % 256) as u8,
        ((n / 0x1_0000) % 256) as u8,
        ((n / 0x100) % 256) as u8,
        (n % 256) as u8,
    ]
}

/// A handshake message: type, 24-bit length, body.
pub open spec fn handshake_message(msg_type: u8, body: Seq<u8>) -> Seq<u8> {
    seq![msg_type] + be24(body.len() as int) + body
}

/// A record: content type, version 3.3, 16-bit length, payload.
pub open spec fn record(content_type: u8, payload: Seq<u8>) -> Seq<u8> {
    seq![content_type, 3u8, 3u8] + be16(payload.len() as int) + payload
}

fn push_be16(out: &mut Vec<u8>, n: usize)
    ensures
        final(out)@ == old(out)@ + be16(n as int),
{
    out.push(((n / 256) % 256) as u8);
    out.push((n % 256) as u8);
    assert(final(out)@ =~= old(out)@ + be16(n as int));
}

fn push_be64(out: &mut Vec<u8>, n: u64)
    ensures
        final(out)@ == old(out)@ + be64(n as int),
{
    out.push(((n / 0x100_0000_0000_0000) % 256) as u8);
    out.push(((n / 0x1_0000_0000_0000) % 256) as u8);
    out.push(((n / 0x100_0000_0000) % 256) as u8);
    out.push(((n / 0x1_0000_0000) % 256) as u8);
    out.push(((n / 0x100_0000) % 256) as u8);
    out.push(((n / 0x1_0000) % 256) as u8);
    out.push(((n / 0x100) % 256) as u8);
    out.push((n % 256) as u8);
    assert(final(out)@ =~= old(out)@ + be64(n as int));
}

/// Frame a handshake message.
pub fn build_handshake_message(msg_type: u8, data: &[u8]) -> (r: Vec<u8>)
    ensures
        r@ == handshake_message(msg_type, data@),
{
    let mut msg: Vec<u8> = Vec::new();
    msg.push(msg_type);
    let len = data.len();
    msg.push(((len / 65536) % 256) as u8);
    msg.push(((len / 256) % 256) as u8);
    msg.push((len % 256) as u8);
    push_bytes(&mut msg, data);
    assert(msg@ =~= handshake_message(msg_type, data@));
    msg
}

/// Frame a plaintext record.
pub fn build_record(content_type: u8, data: &[u8]) -> (r: Vec<u8>)
    ensures
        r@ == record(content_type, data@),
{
    let mut out: Vec<u8> = Vec::new();
    out.push(content_type);
    out.push(3);
    out.push(3);
    push_be16(&mut out, data.len());
    push_bytes(&mut out, data);
    assert(out@ =~= record(content_type, data@));
    out
}

/// The X25519 base point (u = 9).
pub const X25519_BASEPOINT: [u8; 32] = [9, 0, 0, 0, 0, 0, 0, 0, 0, 0, 0, 0, 0, 0, 0, 0, 0, 0, 0, 0, 0, 0, 0, 0, 0, 0, 0, 0, 0, 0, 0, 0];

/// Where the handshake stands: which record it waits for next.
#[derive(Clone, Copy, Debug, PartialEq, Eq, Structural)]
pub enum HandshakeStage {
    Start,
    ServerHello,
    Certificate,
    ServerKeyExchange,
    ServerHelloDone,
    ChangeCipherSpec,
    Finished,
    Established,
    Failed,
}

/// A record as read from the wire (or after decryption).
pub struct TlsRecord {
    pub content_type: u8,
    pub data: Vec<u8>,
}

/// The client side of one TLS 1.2 connection. `transcript` holds every
/// handshake message so far, the input of the Finished hash.
pub struct Tls12Connection {
    pub stage: HandshakeStage,
    pub curve: u16,
    pub x25519_secret: Option<[u8; 32]>,
    pub p256_secret: Option<[u8; 32]>,
    pub client_pubkey_x25519: Vec<u8>,
    pub client_pubkey_p256: Vec<u8>,
    pub server_pubkey: Option<Vec<u8>>,
    pub server_random: Vec<u8>,
    pub client_random: Vec<u8>,
    pub master_secret: Vec<u8>,
    pub client_write_key: Vec<u8>,
    pub server_write_key: Vec<u8>,
    pub client_write_iv: Vec<u8>,
    pub server_write_iv: Vec<u8>,
    pub client_seq: u64,
    pub server_seq: u64,
    pub transcript: Vec<u8>,
    pub encrypted: bool,
    pub rng: SimpleRng,
}

/// The P-256 key generation from state `s` with `tries` draws left: the
/// first 32-byte draw that is a valid secret scalar, and the state after it.
pub open spec fn p256_keygen(s: u64, tries: nat) -> (Option<Seq<u8>>, u64)
    decreases tries,
{
    if tries == 0 {
        (None, s)
    } else if p256_public_of(rng_bytes(s, 32)) is Some {
        (Some(rng_bytes(s, 32)), rng_state(s, 4))
    } else {
        p256_keygen(rng_state(s, 4), (tries - 1) as nat)
    }
}

/// The Server Name extension for `host` (absent for an empty name).
pub open spec fn sni_extension(host: Seq<u8>) -> Seq<u8> {
    if host.len() == 0 {
        Seq::empty()
    } else {
        let sni = be16(host.len() + 3int) + seq![0u8] + be16(host.len() as int) + host;
        be16(0) + be16(sni.len() as int) + sni
    }
}

/// Supported groups (P-256, X25519), uncompressed points, SHA256/RSA signatures.
pub open spec fn fixed_extensions() -> Seq<u8> {
    seq![
        0u8, 10, 0, 6, 0, 4, 0, 23, 0, 29,
        0, 11, 0, 2, 1, 0,
        0, 13, 0, 4, 0, 2, 4, 1,
    ]
}

/// The ClientHello body: version 3.3, the random, no session, one cipher
/// suite (0xc02f), null compression, the extensions.
pub open spec fn client_hello_body(random: Seq<u8>, host: Seq<u8>) -> Seq<u8> {
    let ext = sni_extension(host) + fixed_extensions();
    seq![3u8, 3] + random + seq![0u8, 0, 2, 0xc0, 0x2f, 1, 0] + be16(ext.len() as int) + ext
}

impl Tls12Connection {
    /// The lengths the keys and randoms always have.
    pub open spec fn wf(&self) -> bool {
        &&& self.server_random@.len() == 32
        &&& self.client_random@.len() == 32
        &&& self.master_secret@.len() == 48
        &&& self.client_write_key@.len() == 16
        &&& self.server_write_key@.len() == 16
        &&& self.client_write_iv@.len() == 4
        &&& self.server_write_iv@.len() == 4
    }

    /// A fresh connection: its client random is the first 32 bytes of `rng`.
    pub fn new(rng: SimpleRng) -> (c: Self)
        ensures
            c.wf(),
            c.client_random@ == rng_bytes(rng.state, 32),
            c.rng.state == rng_state(rng.state, 4),
            c.stage == HandshakeStage::Start,
            c.curve == 0,
            c.x25519_secret is None,
            c.p256_secret is None,
            c.server_pubkey is None,
            c.client_pubkey_x25519@.len() == 0,
            c.client_pubkey_p256@.len() == 0,
            c.client_seq == 0,
            c.server_seq == 0,
            c.transcript@.len() == 0,
            !c.encrypted,
    {
        let mut rng = rng;
        let r = random_bytes32(&mut rng);
        let mut client_random: Vec<u8> = Vec::new();
        push_bytes(&mut client_random, &r);
        Tls12Connection {
            stage: HandshakeStage::Start,
            curve: 0,
            x25519_secret: None,
            p256_secret: None,
            client_pubkey_x25519: Vec::new(),
            client_pubkey_p256: Vec::new(),
            server_pubkey: None,
            server_random: vec![0u8; 32],
            client_random,
            master_secret: vec![0u8; 48],
            client_write_key: vec![0u8; 16],
            server_write_key: vec![0u8; 16],
            client_write_iv: vec![0u8; 4],
            server_write_iv: vec![0u8; 4],
            client_seq: 0,
            server_seq: 0,
            transcript: Vec::new(),
            encrypted: false,
            rng,
        }
    }

    /// Draw the ephemeral keys: an X25519 secret (32 bytes), then P-256
    /// secrets until one is a valid scalar (at most `P256_KEY_ATTEMPTS`).
    pub fn generate_keys(&mut self) -> (r: Result<(), TlsError>)
        ensures
            ({
                let s1 = rng_state(old(self).rng.state, 4);
                let k1 = rng_bytes(old(self).rng.state, 32);
                let (pk, s2) = p256_keygen(s1, P256_KEY_ATTEMPTS as nat);
                &&& final(self).x25519_secret matches Some(x) && x@ == k1
                &&& final(self).client_pubkey_x25519@ == x25519_of(k1, X25519_BASEPOINT@)
                &&& final(self).rng.state == s2
                &&& match pk {
                    Some(k) => {
                        &&& r is Ok
                        &&& final(self).p256_secret matches Some(p) && p@ == k
                        &&& Some(final(self).client_pubkey_p256@) == p256_public_of(k)
                    },
                    None => {
                        &&& r == Err::<(), TlsError>(TlsError::InternalError)
                        &&& final(self).p256_secret == old(self).p256_secret
                        &&& final(self).client_pubkey_p256 == old(self).client_pubkey_p256
                    },
                }
            }),
            final(self).stage == old(self).stage,
            final(self).curve == old(self).curve,
            final(self).server_pubkey == old(self).server_pubkey,
            final(self).server_random == old(self).server_random,
            final(self).client_random == old(self).client_random,
            final(self).master_secret == old(self).master_secret,
            final(self).client_write_key == old(self).client_write_key,
            final(self).server_write_key == old(self).server_write_key,
            final(self).client_write_iv == old(self).client_write_iv,
            final(self).server_write_iv == old(self).server_write_iv,
            final(self).client_seq == old(self).client_seq,
            final(self).server_seq == old(self).server_seq,
            final(self).transcript == old(self).transcript,
            final(self).encrypted == old(self).encrypted,
    {
        let x = random_bytes32(&mut self.rng);
        let xp = x25519(x, X25519_BASEPOINT);
        self.x25519_secret = Some(x);
        let mut xv: Vec<u8> = Vec::new();
        push_bytes(&mut xv, &xp);
        self.client_pubkey_x25519 = xv;
        match p256_generate(&mut self.rng) {
            Some((k, pk)) => {
                self.p256_secret = Some(k);
                self.client_pubkey_p256 = pk;
                Ok(())
            },
            None => Err(TlsError::InternalError),
        }
    }
}

/// Draw 32-byte P-256 secrets from `rng` until one is a valid scalar (at most
/// `P256_KEY_ATTEMPTS` draws): that secret and its public key.
fn p256_generate(rng: &mut SimpleRng) -> (r: Option<([u8; 32], Vec<u8>)>)
    ensures
        final(rng).state == p256_keygen(old(rng).state, P256_KEY_ATTEMPTS as nat).1,
        match p256_keygen(old(rng).state, P256_KEY_ATTEMPTS as nat).0 {
            Some(k) => r matches Some((x, pk)) && x@ == k && p256_public_of(k) == Some(pk@),
            None => r is None,
        },
{
    let ghost s0 = rng.state;
    let mut tries: usize = 0;
    while tries < P256_KEY_ATTEMPTS
        invariant
            tries <= P256_KEY_ATTEMPTS,
            s0 == old(rng).state,
            p256_keygen(s0, P256_KEY_ATTEMPTS as nat) == p256_keygen(rng.state, (P256_KEY_ATTEMPTS - tries) as nat),
        decreases P256_KEY_ATTEMPTS - tries,
    {
        let ghost s = rng.state;
        let ghost n = (P256_KEY_ATTEMPTS - tries) as nat;
        let k = random_bytes32(rng);
        let got = p256_public_key(&k);
        assert(p256_keygen(s, n) == (if p256_public_of(rng_bytes(s, 32)) is Some {
            (Some(rng_bytes(s, 32)), rng_state(s, 4))
        } else {
            p256_keygen(rng_state(s, 4), (n - 1) as nat)
        }));
        match got {
            Some(pk) => {
                return Some((k, pk));
            },
            None => {},
        }
        tries = tries + 1;
    }
    None
}

impl Tls12Connection {
    /// Build the ClientHello record and add the message to the transcript.
    pub fn send_client_hello(&mut self, hostname: &str) -> (r: Vec<u8>)
        requires
            hostname.spec_bytes().len() <= isize::MAX,
        ensures
            ({
                let msg = handshake_message(HANDSHAKE_CLIENT_HELLO, client_hello_body(old(self).client_random@, hostname.spec_bytes()));
                &&& r@ == record(CONTENT_TYPE_HANDSHAKE, msg)
                &&& *final(self) == (Tls12Connection { transcript: final(self).transcript, ..*old(self) })
                &&& final(self).transcript@ == old(self).transcript@ + msg
            }),
    {
        let host = hostname.as_bytes();
        let mut ext: Vec<u8> = Vec::new();
        if host.len() > 0 {
            let mut sni: Vec<u8> = Vec::new();
            push_be16(&mut sni, host.len() + 3);
            sni.push(0);
            push_be16(&mut sni, host.len());
            push_bytes(&mut sni, host);
            push_be16(&mut ext, 0);
            push_be16(&mut ext, sni.len());
            push_bytes(&mut ext, sni.as_slice());
        }
        let fixed: [u8; 24] = [0, 10, 0, 6, 0, 4, 0, 23, 0, 29, 0, 11, 0, 2, 1, 0, 0, 13, 0, 4, 0, 2, 4, 1];
        push_bytes(&mut ext, &fixed);
        assert(ext@ =~= sni_extension(host@) + fixed_extensions());
        let mut hello: Vec<u8> = Vec::new();
        hello.push(3);
        hello.push(3);
        push_bytes(&mut hello, self.client_random.as_slice());
        let suites: [u8; 7] = [0, 0, 2, 0xc0, 0x2f, 1, 0];
        push_bytes(&mut hello, &suites);
        push_be16(&mut hello, ext.len());
        push_bytes(&mut hello, ext.as_slice());
        assert(hello@ =~= client_hello_body(self.client_random@, host@));
        let hs = build_handshake_message(HANDSHAKE_CLIENT_HELLO, hello.as_slice());
        push_bytes(&mut self.transcript, hs.as_slice());
        build_record(CONTENT_TYPE_HANDSHAKE, hs.as_slice())
    }

    /// Begin the handshake: draw the ephemeral keys and give the ClientHello
    /// record to send; the connection then waits for the ServerHello.
    pub fn start_handshake(&mut self, hostname: &str) -> (r: Result<Vec<u8>, TlsError>)
        requires
            hostname.spec_bytes().len() <= isize::MAX,
        ensures
            ({
                let s1 = rng_state(old(self).rng.state, 4);
                let k1 = rng_bytes(old(self).rng.state, 32);
                let (pk, s2) = p256_keygen(s1, P256_KEY_ATTEMPTS as nat);
                let msg = handshake_message(HANDSHAKE_CLIENT_HELLO, client_hello_body(old(self).client_random@, hostname.spec_bytes()));
                &&& final(self).x25519_secret matches Some(x) && x@ == k1
                &&& final(self).client_pubkey_x25519@ == x25519_of(k1, X25519_BASEPOINT@)
                &&& final(self).rng.state == s2
                &&& match pk {
                    Some(k) => {
                        &&& r matches Ok(rec) && rec@ == record(CONTENT_TYPE_HANDSHAKE, msg)
                        &&& final(self).p256_secret matches Some(p) && p@ == k
                        &&& Some(final(self).client_pubkey_p256@) == p256_public_of(k)
                        &&& final(self).transcript@ == old(self).transcript@ + msg
                        &&& final(self).stage == HandshakeStage::ServerHello
                    },
                    None => {
                        &&& r == Err::<Vec<u8>, TlsError>(TlsError::InternalError)
                        &&& final(self).p256_secret == old(self).p256_secret
                        &&& final(self).client_pubkey_p256 == old(self).client_pubkey_p256
                        &&& final(self).transcript == old(self).transcript
                        &&& final(self).stage == HandshakeStage::Failed
                    },
                }
            }),
            final(self).curve == old(self).curve,
            final(self).server_pubkey == old(self).server_pubkey,
            final(self).server_random == old(self).server_random,
            final(self).client_random == old(self).client_random,
            final(self).master_secret == old(self).master_secret,
            final(self).client_write_key == old(self).client_write_key,
            final(self).server_write_key == old(self).server_write_key,
            final(self).client_write_iv == old(self).client_write_iv,
            final(self).server_write_iv == old(self).server_write_iv,
            final(self).client_seq == old(self).client_seq,
            final(self).server_seq == old(self).server_seq,
            final(self).encrypted == old(self).encrypted,
    {
        match self.generate_keys() {
            Ok(()) => {},
            Err(e) => {
                self.stage = HandshakeStage::Failed;
                return Err(e);
            },
        }
        let rec = self.send_client_hello(hostname);
        self.stage = HandshakeStage::ServerHello;
        Ok(rec)
    }
}

/// The 24-bit length field of a handshake message.
pub open spec fn hs_len(d: Seq<u8>) -> int {
    d[1] as int * 65536 + d[2] as int * 256 + d[3] as int
}

/// The body of the handshake message that opens `d`.
pub open spec fn hs_body(d: Seq<u8>) -> Seq<u8> {
    d.subrange(4, 4 + hs_len(d))
}

/// Whether a plaintext record is an alert (which ends the handshake).
pub open spec fn is_alert(content_type: u8, data: Seq<u8>) -> bool {
    content_type == CONTENT_TYPE_ALERT && data.len() >= 2
}

/// The server random a ServerHello record carries, where its lengths allow
/// reading it.
pub open spec fn server_hello_random(content_type: u8, data: Seq<u8>) -> Option<Seq<u8>> {
    if content_type != CONTENT_TYPE_HANDSHAKE || data.len() < 4 || data[0] != HANDSHAKE_SERVER_HELLO
        || data.len() < 4 + hs_len(data) || hs_len(data) < 35 {
        None
    } else {
        Some(hs_body(data).subrange(2, 34))
    }
}

/// The verdict on a ServerHello record.
pub open spec fn server_hello_result(content_type: u8, data: Seq<u8>) -> Result<(), TlsError> {
    if content_type != CONTENT_TYPE_HANDSHAKE {
        Err(TlsError::TlsProtocolError)
    } else if data.len() < 4 {
        Err(TlsError::InvalidData)
    } else if data[0] != HANDSHAKE_SERVER_HELLO {
        Err(TlsError::TlsProtocolError)
    } else if data.len() < 4 + hs_len(data) || hs_len(data) < 35 {
        Err(TlsError::InvalidData)
    } else {
        let msg = hs_body(data);
        let pos = 35 + msg[34] as int;
        if pos + 2 > msg.len() {
            Err(TlsError::InvalidData)
        } else if msg[pos] != 0xc0 || msg[pos + 1] != 0x2f {
            Err(TlsError::TlsProtocolError)
        } else {
            Ok(())
        }
    }
}

/// The verdict on a record that must be a handshake message of type `t`
/// (Certificate, ServerHelloDone), whose body is not read.
pub open spec fn typed_message_result(content_type: u8, data: Seq<u8>, t: u8) -> Result<(), TlsError> {
    if content_type != CONTENT_TYPE_HANDSHAKE || data.len() == 0 || data[0] != t {
        Err(TlsError::TlsProtocolError)
    } else {
        Ok(())
    }
}

/// Where reading a ServerKeyExchange record would index past its end: a
/// message of that type shorter than its header.
pub open spec fn ske_truncated_header(content_type: u8, data: Seq<u8>) -> bool {
    content_type == CONTENT_TYPE_HANDSHAKE && data.len() > 0 && data[0] == HANDSHAKE_SERVER_KEY_EXCHANGE && data.len() < 4
}

/// The named curve a ServerKeyExchange record announces, where it gets that far.
pub open spec fn ske_curve(content_type: u8, data: Seq<u8>) -> Option<u16> {
    if content_type != CONTENT_TYPE_HANDSHAKE || data.len() == 0 || data[0] != HANDSHAKE_SERVER_KEY_EXCHANGE
        || data.len() < 4 + hs_len(data) || hs_len(data) < 5 || hs_body(data)[0] != 3 {
        None
    } else {
        Some((hs_body(data)[1] as int * 256 + hs_body(data)[2] as int) as u16)
    }
}

/// The verdict on a ServerKeyExchange record.
pub open spec fn ske_result(content_type: u8, data: Seq<u8>) -> Result<(), TlsError> {
    if content_type != CONTENT_TYPE_HANDSHAKE || data.len() == 0 || data[0] != HANDSHAKE_SERVER_KEY_EXCHANGE {
        Err(TlsError::TlsProtocolError)
    } else if data.len() < 4 + hs_len(data) || hs_len(data) < 5 {
        Err(TlsError::InvalidData)
    } else if hs_body(data)[0] != 3 {
        Err(TlsError::TlsProtocolError)
    } else {
        let curve = ske_curve(content_type, data).unwrap();
        if curve != NAMED_CURVE_X25519 && curve != NAMED_CURVE_SECP256R1 {
            Err(TlsError::TlsProtocolError)
        } else if hs_len(data) < 4 + hs_body(data)[3] as int {
            Err(TlsError::InvalidData)
        } else {
            Ok(())
        }
    }
}

/// The server's ECDHE public key in a ServerKeyExchange body.
pub open spec fn ske_pubkey(data: Seq<u8>) -> Seq<u8> {
    hs_body(data).subrange(4, 4 + hs_body(data)[3] as int)
}

/// The transcript after a server record: a handshake record is appended.
pub open spec fn transcript_after(t: Seq<u8>, content_type: u8, data: Seq<u8>) -> Seq<u8> {
    t + (if content_type == CONTENT_TYPE_HANDSHAKE {
        data
    } else {
        Seq::empty()
    })
}

/// The state change of taking a ServerHello.
pub open spec fn server_hello_post(o: Tls12Connection, n: Tls12Connection, content_type: u8, data: Seq<u8>) -> bool {
    &&& n.transcript@ == transcript_after(o.transcript@, content_type, data)
    &&& n.server_random@ == (match server_hello_random(content_type, data) {
        Some(sr) => sr,
        None => o.server_random@,
    })
    &&& n == (Tls12Connection { transcript: n.transcript, server_random: n.server_random, ..o })
}

/// The state change of taking a message whose body is not read.
pub open spec fn typed_post(o: Tls12Connection, n: Tls12Connection, content_type: u8, data: Seq<u8>) -> bool {
    &&& n.transcript@ == transcript_after(o.transcript@, content_type, data)
    &&& n == (Tls12Connection { transcript: n.transcript, ..o })
}

/// The state change of taking a ServerKeyExchange with verdict `r`.
pub open spec fn ske_post(o: Tls12Connection, n: Tls12Connection, content_type: u8, data: Seq<u8>, r: Result<(), TlsError>) -> bool {
    &&& n.transcript@ == transcript_after(o.transcript@, content_type, data)
    &&& n.curve == (match ske_curve(content_type, data) {
        Some(c) => c,
        None => o.curve,
    })
    &&& (if r is Ok {
        n.server_pubkey matches Some(k) && k@ == ske_pubkey(data)
    } else {
        n.server_pubkey == o.server_pubkey
    })
    &&& n == (Tls12Connection { transcript: n.transcript, curve: n.curve, server_pubkey: n.server_pubkey, ..o })
}

/// Read the handshake header of `d` (requires four bytes).
fn read_hs_len(d: &Vec<u8>) -> (n: usize)
    requires
        d@.len() >= 4,
    ensures
        n == hs_len(d@),
{
    (d[1] as usize) * 65536 + (d[2] as usize) * 256 + (d[3] as usize)
}

/// Copy `d[from..to]`.
fn sub_vec(d: &Vec<u8>, from: usize, to: usize) -> (r: Vec<u8>)
    requires
        from <= to <= d@.len(),
    ensures
        r@ == d@.subrange(from as int, to as int),
{
    let mut out: Vec<u8> = Vec::new();
    let mut i = from;
    while i < to
        invariant
            from <= i <= to,
            to <= d@.len(),
            out@ == d@.subrange(from as int, i as int),
        decreases to - i,
    {
        out.push(d[i]);
        i = i + 1;
        assert(out@ =~= d@.subrange(from as int, i as int));
    }
    out
}

impl Tls12Connection {
    /// Refuse an alert record.
    pub fn check_plain_record(rec: &TlsRecord) -> (r: Result<(), TlsError>)
        ensures
            r == (if is_alert(rec.content_type, rec.data@) {
                Err::<(), TlsError>(TlsError::TlsProtocolError)
            } else {
                Ok(())
            }),
    {
        if rec.content_type == CONTENT_TYPE_ALERT && rec.data.len() >= 2 {
            Err(TlsError::TlsProtocolError)
        } else {
            Ok(())
        }
    }

    /// Take the ServerHello: a handshake record goes into the transcript; the
    /// server random is kept; the cipher suite must be 0xc02f.
    pub fn recv_server_hello(&mut self, rec: &TlsRecord) -> (r: Result<(), TlsError>)
        requires
            old(self).wf(),
        ensures
            r == server_hello_result(rec.content_type, rec.data@),
            final(self).wf(),
            server_hello_post(*old(self), *final(self), rec.content_type, rec.data@),
    {
        if rec.content_type != CONTENT_TYPE_HANDSHAKE {
            return Err(TlsError::TlsProtocolError);
        }
        push_bytes(&mut self.transcript, rec.data.as_slice());
        let d = &rec.data;
        if d.len() < 4 {
            return Err(TlsError::InvalidData);
        }
        if d[0] != HANDSHAKE_SERVER_HELLO {
            return Err(TlsError::TlsProtocolError);
        }
        let msg_len = read_hs_len(d);
        if d.len() < 4 + msg_len {
            return Err(TlsError::InvalidData);
        }
        let msg = sub_vec(d, 4, 4 + msg_len);
        if msg.len() < 35 {
            return Err(TlsError::InvalidData);
        }
        self.server_random = sub_vec(&msg, 2, 34);
        let pos = 35 + msg[34] as usize;
        if pos + 2 > msg.len() {
            return Err(TlsError::InvalidData);
        }
        if msg[pos] != 0xc0 || msg[pos + 1] != 0x2f {
            return Err(TlsError::TlsProtocolError);
        }
        Ok(())
    }

    /// Take the Certificate (not validated).
    pub fn recv_certificate(&mut self, rec: &TlsRecord) -> (r: Result<(), TlsError>)
        ensures
            r == typed_message_result(rec.content_type, rec.data@, HANDSHAKE_CERTIFICATE),
            typed_post(*old(self), *final(self), rec.content_type, rec.data@),
    {
        self.recv_typed_message(rec, HANDSHAKE_CERTIFICATE)
    }

    /// Take the ServerHelloDone.
    pub fn recv_server_hello_done(&mut self, rec: &TlsRecord) -> (r: Result<(), TlsError>)
        ensures
            r == typed_message_result(rec.content_type, rec.data@, HANDSHAKE_SERVER_HELLO_DONE),
            typed_post(*old(self), *final(self), rec.content_type, rec.data@),
    {
        self.recv_typed_message(rec, HANDSHAKE_SERVER_HELLO_DONE)
    }

    fn recv_typed_message(&mut self, rec: &TlsRecord, t: u8) -> (r: Result<(), TlsError>)
        ensures
            r == typed_message_result(rec.content_type, rec.data@, t),
            typed_post(*old(self), *final(self), rec.content_type, rec.data@),
    {
        if rec.content_type != CONTENT_TYPE_HANDSHAKE {
            return Err(TlsError::TlsProtocolError);
        }
        push_bytes(&mut self.transcript, rec.data.as_slice());
        if rec.data.len() == 0 || rec.data[0] != t {
            return Err(TlsError::TlsProtocolError);
        }
        Ok(())
    }

    /// Take the ServerKeyExchange: the named curve (X25519 or P-256) and the
    /// server's ECDHE public key. The signature is not checked.
    pub fn recv_server_key_exchange(&mut self, rec: &TlsRecord) -> (r: Result<(), TlsError>)
        requires
            !ske_truncated_header(rec.content_type, rec.data@),
        ensures
            r == ske_result(rec.content_type, rec.data@),
            ske_post(*old(self), *final(self), rec.content_type, rec.data@, r),
    {
        if rec.content_type != CONTENT_TYPE_HANDSHAKE {
            return Err(TlsError::TlsProtocolError);
        }
        push_bytes(&mut self.transcript, rec.data.as_slice());
        let d = &rec.data;
        if d.len() == 0 || d[0] != HANDSHAKE_SERVER_KEY_EXCHANGE {
            return Err(TlsError::TlsProtocolError);
        }
        let msg_len = read_hs_len(d);
        if d.len() < 4 + msg_len {
            return Err(TlsError::InvalidData);
        }
        let msg = sub_vec(d, 4, 4 + msg_len);
        if msg.len() < 5 {
            return Err(TlsError::InvalidData);
        }
        if msg[0] != 3 {
            return Err(TlsError::TlsProtocolError);
        }
        let curve: u16 = (msg[1] as u16) * 256 + (msg[2] as u16);
        self.curve = curve;
        if curve != NAMED_CURVE_X25519 && curve != NAMED_CURVE_SECP256R1 {
            return Err(TlsError::TlsProtocolError);
        }
        let pubkey_len = msg[3] as usize;
        if msg.len() < 4 + pubkey_len {
            return Err(TlsError::InvalidData);
        }
        self.server_pubkey = Some(sub_vec(&msg, 4, 4 + pubkey_len));
        Ok(())
    }
}

/// The PRF labels.
pub open spec fn lit_master_secret() -> Seq<u8> {
    seq![0x6du8, 0x61, 0x73, 0x74, 0x65, 0x72, 0x20, 0x73, 0x65, 0x63, 0x72, 0x65, 0x74]
}

pub open spec fn lit_key_expansion() -> Seq<u8> {
    seq![0x6bu8, 0x65, 0x79, 0x20, 0x65, 0x78, 0x70, 0x61, 0x6e, 0x73, 0x69, 0x6f, 0x6e]
}

pub open spec fn lit_client_finished() -> Seq<u8> {
    seq![0x63u8, 0x6c, 0x69, 0x65, 0x6e, 0x74, 0x20, 0x66, 0x69, 0x6e, 0x69, 0x73, 0x68, 0x65, 0x64]
}

/// Our public key for the negotiated curve.
pub open spec fn client_pubkey_for(c: Tls12Connection) -> Option<Seq<u8>> {
    if c.curve == NAMED_CURVE_X25519 {
        Some(c.client_pubkey_x25519@)
    } else if c.curve == NAMED_CURVE_SECP256R1 {
        Some(c.client_pubkey_p256@)
    } else {
        None
    }
}

/// The ClientKeyExchange message: a one-byte length and our public key.
pub open spec fn cke_result(c: Tls12Connection) -> Result<Seq<u8>, TlsError> {
    match client_pubkey_for(c) {
        None => Err(TlsError::InternalError),
        Some(pk) => if pk.len() == 0 {
            Err(TlsError::InternalError)
        } else {
            Ok(handshake_message(HANDSHAKE_CLIENT_KEY_EXCHANGE, seq![(pk.len() % 256) as u8] + pk))
        },
    }
}

/// The pre-master secret: ECDH of our secret and the server's key on the
/// negotiated curve.
pub open spec fn pre_master(c: Tls12Connection) -> Result<Seq<u8>, TlsError> {
    match c.server_pubkey {
        None => Err(TlsError::InvalidData),
        Some(spk) => if c.curve == NAMED_CURVE_X25519 {
            if spk@.len() != 32 {
                Err(TlsError::InvalidData)
            } else {
                match c.x25519_secret {
                    None => Err(TlsError::InvalidData),
                    Some(x) => Ok(x25519_of(x@, spk@)),
                }
            }
        } else if c.curve == NAMED_CURVE_SECP256R1 {
            if spk@.len() != 65 {
                Err(TlsError::InvalidData)
            } else {
                match c.p256_secret {
                    None => Err(TlsError::InvalidData),
                    Some(k) => match p256_ecdh_of(k@, spk@) {
                        None => Err(TlsError::InvalidData),
                        Some(z) => Ok(z),
                    },
                }
            }
        } else {
            Err(TlsError::TlsProtocolError)
        },
    }
}

/// Whether the X25519 secret is used up by the key computation.
pub open spec fn x25519_consumed(c: Tls12Connection) -> bool {
    c.server_pubkey matches Some(spk) && c.curve == NAMED_CURVE_X25519 && spk@.len() == 32
}

/// master_secret = PRF(pre_master, "master secret", client_random + server_random)[..48]
pub open spec fn master_of(pms: Seq<u8>, cr: Seq<u8>, sr: Seq<u8>) -> Seq<u8> {
    prf(pms, lit_master_secret(), cr + sr, 48)
}

/// key_block = PRF(master, "key expansion", server_random + client_random)[..40]
pub open spec fn key_block_of(ms: Seq<u8>, sr: Seq<u8>, cr: Seq<u8>) -> Seq<u8> {
    prf(ms, lit_key_expansion(), sr + cr, 40)
}

/// Our Finished message over the transcript so far.
pub open spec fn finished_message(ms: Seq<u8>, transcript: Seq<u8>) -> Seq<u8> {
    handshake_message(HANDSHAKE_FINISHED, prf(ms, lit_client_finished(), sha256_of(transcript), 12))
}

/// The GCM nonce: the 4-byte implicit IV and the 8-byte explicit part.
pub open spec fn gcm_nonce(iv: Seq<u8>, explicit: Seq<u8>) -> Seq<u8> {
    iv + explicit
}

/// The associated data of a record: sequence number, type, version, length.
pub open spec fn record_aad(seq: u64, content_type: u8, len: int) -> Seq<u8> {
    be64(seq as int) + seq![content_type, 3u8, 3u8] + be16(len)
}

/// An encrypted record as sent: header, explicit nonce (the sequence
/// number), ciphertext and tag.
pub open spec fn sealed_record(key: Seq<u8>, iv: Seq<u8>, seq: u64, content_type: u8, pt: Seq<u8>) -> Seq<u8> {
    let c = aes128gcm_seal_of(key, gcm_nonce(iv, be64(seq as int)), record_aad(seq, content_type, pt.len() as int), pt);
    seq![content_type, 3u8, 3u8] + be16(8int + c.len()) + be64(seq as int) + c
}

/// The plaintext of a received encrypted record's payload, where it authenticates.
pub open spec fn opened_record(key: Seq<u8>, iv: Seq<u8>, seq: u64, content_type: u8, data: Seq<u8>) -> Option<Seq<u8>> {
    let body = data.subrange(8, data.len() as int);
    aes128gcm_open_of(key, gcm_nonce(iv, data.subrange(0, 8)), record_aad(seq, content_type, body.len() - 16), body)
}

/// The ChangeCipherSpec record.
pub open spec fn change_cipher_spec_record() -> Seq<u8> {
    seq![CONTENT_TYPE_CHANGE_CIPHER_SPEC, 3u8, 3u8, 0u8, 1u8, 1u8]
}

impl Tls12Connection {
    /// Build the ClientKeyExchange record with our key for the negotiated
    /// curve and add the message to the transcript.
    pub fn send_client_key_exchange(&mut self) -> (r: Result<Vec<u8>, TlsError>)
        ensures
            match cke_result(*old(self)) {
                Ok(m) => {
                    &&& r matches Ok(b) && b@ == record(CONTENT_TYPE_HANDSHAKE, m)
                    &&& final(self).transcript@ == old(self).transcript@ + m
                    &&& *final(self) == (Tls12Connection { transcript: final(self).transcript, ..*old(self) })
                },
                Err(e) => r == Err::<Vec<u8>, TlsError>(e) && *final(self) == *old(self),
            },
    {
        let pk: &Vec<u8> = if self.curve == NAMED_CURVE_X25519 {
            &self.client_pubkey_x25519
        } else if self.curve == NAMED_CURVE_SECP256R1 {
            &self.client_pubkey_p256
        } else {
            return Err(TlsError::InternalError);
        };
        if pk.len() == 0 {
            return Err(TlsError::InternalError);
        }
        let mut msg: Vec<u8> = Vec::new();
        msg.push((pk.len() % 256) as u8);
        push_bytes(&mut msg, pk.as_slice());
        let hs = build_handshake_message(HANDSHAKE_CLIENT_KEY_EXCHANGE, msg.as_slice());
        push_bytes(&mut self.transcript, hs.as_slice());
        Ok(build_record(CONTENT_TYPE_HANDSHAKE, hs.as_slice()))
    }

    /// The ECDH shared secret, using up our secret for the negotiated curve.
    fn pre_master_secret(&mut self) -> (r: Result<Vec<u8>, TlsError>)
        ensures
            match pre_master(*old(self)) {
                Ok(z) => r matches Ok(v) && v@ == z,
                Err(e) => r == Err::<Vec<u8>, TlsError>(e),
            },
            final(self).x25519_secret == (if x25519_consumed(*old(self)) {
                None
            } else {
                old(self).x25519_secret
            }),
            final(self).p256_secret == (if pre_master(*old(self)) is Ok && old(self).curve == NAMED_CURVE_SECP256R1 {
                None
            } else {
                old(self).p256_secret
            }),
            *final(self) == (Tls12Connection {
                x25519_secret: final(self).x25519_secret,
                p256_secret: final(self).p256_secret,
                ..*old(self)
            }),
    {
        let spk: Vec<u8> = match &self.server_pubkey {
            None => {
                return Err(TlsError::InvalidData);
            },
            Some(v) => v.clone(),
        };
        assert(spk@ == old(self).server_pubkey.unwrap()@);
        if self.curve == NAMED_CURVE_X25519 {
            if spk.len() != 32 {
                return Err(TlsError::InvalidData);
            }
            let secret = self.x25519_secret;
            self.x25519_secret = None;
            match secret {
                None => Err(TlsError::InvalidData),
                Some(x) => {
                    let mut u = [0u8; 32];
                    let mut i: usize = 0;
                    while i < 32
                        invariant
                            i <= 32,
                            spk@.len() == 32,
                            forall|j: int| 0 <= j < i ==> u@[j] == spk@[j],
                        decreases 32 - i,
                    {
                        u[i] = spk[i];
                        i = i + 1;
                    }
                    assert(u@ =~= spk@);
                    let z = x25519(x, u);
                    let mut out: Vec<u8> = Vec::new();
                    push_bytes(&mut out, &z);
                    Ok(out)
                },
            }
        } else if self.curve == NAMED_CURVE_SECP256R1 {
            if spk.len() != 65 {
                return Err(TlsError::InvalidData);
            }
            let k = match self.p256_secret {
                None => {
                    return Err(TlsError::InvalidData);
                },
                Some(k) => k,
            };
            match p256_ecdh(&k, spk.as_slice()) {
                None => Err(TlsError::InvalidData),
                Some(z) => {
                    self.p256_secret = None;
                    Ok(z)
                },
            }
        } else {
            Err(TlsError::TlsProtocolError)
        }
    }

    /// Compute the master secret and the key block: client key, server key,
    /// client IV, server IV (16, 16, 4, 4 bytes).
    pub fn compute_keys(&mut self) -> (r: Result<(), TlsError>)
        requires
            old(self).wf(),
        ensures
            final(self).wf(),
            final(self).x25519_secret == (if x25519_consumed(*old(self)) {
                None
            } else {
                old(self).x25519_secret
            }),
            final(self).p256_secret == (if pre_master(*old(self)) is Ok && old(self).curve == NAMED_CURVE_SECP256R1 {
                None
            } else {
                old(self).p256_secret
            }),
            match pre_master(*old(self)) {
                Err(e) => r == Err::<(), TlsError>(e) && *final(self) == (Tls12Connection {
                    x25519_secret: final(self).x25519_secret,
                    p256_secret: final(self).p256_secret,
                    ..*old(self)
                }),
                Ok(pms) => {
                    let ms = master_of(pms, old(self).client_random@, old(self).server_random@);
                    let kb = key_block_of(ms, old(self).server_random@, old(self).client_random@);
                    &&& r is Ok
                    &&& final(self).master_secret@ == ms
                    &&& final(self).client_write_key@ == kb.subrange(0, 16)
                    &&& final(self).server_write_key@ == kb.subrange(16, 32)
                    &&& final(self).client_write_iv@ == kb.subrange(32, 36)
                    &&& final(self).server_write_iv@ == kb.subrange(36, 40)
                    &&& *final(self) == (Tls12Connection {
                        x25519_secret: final(self).x25519_secret,
                        p256_secret: final(self).p256_secret,
                        master_secret: final(self).master_secret,
                        client_write_key: final(self).client_write_key,
                        server_write_key: final(self).server_write_key,
                        client_write_iv: final(self).client_write_iv,
                        server_write_iv: final(self).server_write_iv,
                        ..*old(self)
                    })
                },
            },
    {
        let pms = match self.pre_master_secret() {
            Ok(v) => v,
            Err(e) => {
                return Err(e);
            },
        };
        let ms_label: [u8; 13] = [0x6d, 0x61, 0x73, 0x74, 0x65, 0x72, 0x20, 0x73, 0x65, 0x63, 0x72, 0x65, 0x74];
        let ke_label: [u8; 13] = [0x6b, 0x65, 0x79, 0x20, 0x65, 0x78, 0x70, 0x61, 0x6e, 0x73, 0x69, 0x6f, 0x6e];
        assert(ms_label@ == lit_master_secret());
        assert(ke_label@ == lit_key_expansion());
        let seed = concat(self.client_random.as_slice(), self.server_random.as_slice());
        let ms = prf_sha256(pms.as_slice(), &ms_label, seed.as_slice(), 48);
        let seed2 = concat(self.server_random.as_slice(), self.client_random.as_slice());
        let kb = prf_sha256(ms.as_slice(), &ke_label, seed2.as_slice(), 40);
        self.master_secret = ms;
        self.client_write_key = sub_vec(&kb, 0, 16);
        self.server_write_key = sub_vec(&kb, 16, 32);
        self.client_write_iv = sub_vec(&kb, 32, 36);
        self.server_write_iv = sub_vec(&kb, 36, 40);
        Ok(())
    }
}

/// The state change of sealing one record: the bytes to send, and the
/// client sequence number moves on; or nothing changes.
pub open spec fn seal_post(o: Tls12Connection, n: Tls12Connection, content_type: u8, pt: Seq<u8>, r: Result<Vec<u8>, TlsError>) -> bool {
    match r {
        Ok(b) => {
            &&& b@ == sealed_record(o.client_write_key@, o.client_write_iv@, o.client_seq, content_type, pt)
            &&& n == (Tls12Connection { client_seq: (o.client_seq + 1) as u64, ..o })
        },
        Err(e) => e == TlsError::TlsProtocolError && n == o,
    }
}

/// The state change of opening one received encrypted record: its payload
/// must be at least nonce and tag long, and must authenticate.
pub open spec fn open_post(o: Tls12Connection, n: Tls12Connection, content_type: u8, data: Seq<u8>, r: Result<TlsRecord, TlsError>) -> bool {
    if data.len() < 24 {
        r == Err::<TlsRecord, TlsError>(TlsError::InvalidData) && n == o
    } else {
        match opened_record(o.server_write_key@, o.server_write_iv@, o.server_seq, content_type, data) {
            None => r == Err::<TlsRecord, TlsError>(TlsError::TlsProtocolError) && n == o,
            Some(p) => {
                &&& r matches Ok(rec) && rec.content_type == content_type && rec.data@ == p
                &&& n == (Tls12Connection { server_seq: (o.server_seq + 1) as u64, ..o })
            },
        }
    }
}

/// The client's second flight (ClientKeyExchange, ChangeCipherSpec,
/// encrypted Finished) with `t0` the transcript so far, and its state change.
pub open spec fn flight_post(o: Tls12Connection, t0: Seq<u8>, n: Tls12Connection, r: Result<Vec<u8>, TlsError>) -> bool {
    match cke_result(o) {
        Err(e) => r == Err::<Vec<u8>, TlsError>(e) && n.transcript@ == t0 && n == (Tls12Connection { transcript: n.transcript, ..o }),
        Ok(m1) => {
            let x_after = if x25519_consumed(o) {
                None
            } else {
                o.x25519_secret
            };
            match pre_master(o) {
                Err(e) => {
                    &&& r == Err::<Vec<u8>, TlsError>(e)
                    &&& n.transcript@ == t0 + m1
                    &&& n.x25519_secret == x_after
                    &&& n == (Tls12Connection { transcript: n.transcript, x25519_secret: n.x25519_secret, ..o })
                },
                Ok(pms) => {
                    let ms = master_of(pms, o.client_random@, o.server_random@);
                    let kb = key_block_of(ms, o.server_random@, o.client_random@);
                    let m2 = finished_message(ms, t0 + m1);
                    &&& r matches Ok(b) && b@ == record(CONTENT_TYPE_HANDSHAKE, m1) + change_cipher_spec_record()
                        + sealed_record(kb.subrange(0, 16), kb.subrange(32, 36), o.client_seq, CONTENT_TYPE_HANDSHAKE, m2)
                    &&& n.transcript@ == t0 + m1 + m2
                    &&& n.master_secret@ == ms
                    &&& n.client_write_key@ == kb.subrange(0, 16)
                    &&& n.server_write_key@ == kb.subrange(16, 32)
                    &&& n.client_write_iv@ == kb.subrange(32, 36)
                    &&& n.server_write_iv@ == kb.subrange(36, 40)
                    &&& n.x25519_secret == x_after
                    &&& n.p256_secret == (if o.curve == NAMED_CURVE_SECP256R1 {
                        None
                    } else {
                        o.p256_secret
                    })
                    &&& n == (Tls12Connection {
                        transcript: n.transcript,
                        x25519_secret: n.x25519_secret,
                        p256_secret: n.p256_secret,
                        master_secret: n.master_secret,
                        client_write_key: n.client_write_key,
                        server_write_key: n.server_write_key,
                        client_write_iv: n.client_write_iv,
                        server_write_iv: n.server_write_iv,
                        client_seq: (o.client_seq + 1) as u64,
                        encrypted: true,
                        ..o
                    })
                },
            }
        },
    }
}

/// The verdict on the server's (encrypted) Finished record.
pub open spec fn finished_result(o: Tls12Connection, content_type: u8, data: Seq<u8>) -> Result<(), TlsError> {
    if data.len() < 24 {
        Err(TlsError::InvalidData)
    } else {
        match opened_record(o.server_write_key@, o.server_write_iv@, o.server_seq, content_type, data) {
            None => Err(TlsError::TlsProtocolError),
            Some(p) => if content_type != CONTENT_TYPE_HANDSHAKE || p.len() == 0 || p[0] != HANDSHAKE_FINISHED {
                Err(TlsError::TlsProtocolError)
            } else {
                Ok(())
            },
        }
    }
}

/// What the handshake waits for after `s`, once that record is taken.
pub open spec fn next_stage(s: HandshakeStage) -> HandshakeStage {
    match s {
        HandshakeStage::ServerHello => HandshakeStage::Certificate,
        HandshakeStage::Certificate => HandshakeStage::ServerKeyExchange,
        HandshakeStage::ServerKeyExchange => HandshakeStage::ServerHelloDone,
        HandshakeStage::ServerHelloDone => HandshakeStage::ChangeCipherSpec,
        HandshakeStage::ChangeCipherSpec => HandshakeStage::Finished,
        HandshakeStage::Finished => HandshakeStage::Established,
        _ => HandshakeStage::Failed,
    }
}

/// The stages in which the handshake waits for a server record.
pub open spec fn awaits_record(s: HandshakeStage) -> bool {
    s is ServerHello || s is Certificate || s is ServerKeyExchange || s is ServerHelloDone || s is ChangeCipherSpec
        || s is Finished
}

/// A verdict with nothing to send.
pub open spec fn nothing_to_send(v: Result<(), TlsError>, r: Result<Vec<u8>, TlsError>) -> bool {
    match v {
        Ok(()) => r matches Ok(b) && b@.len() == 0,
        Err(e) => r == Err::<Vec<u8>, TlsError>(e),
    }
}

impl Tls12Connection {
    /// Encrypt one record: nonce = client IV + sequence number, associated
    /// data = sequence number, type, version, plaintext length.
    pub fn send_encrypted_record(&mut self, content_type: u8, plaintext: &[u8]) -> (r: Result<Vec<u8>, TlsError>)
        requires
            old(self).wf(),
            old(self).client_seq < u64::MAX,
            plaintext@.len() <= isize::MAX,
        ensures
            seal_post(*old(self), *final(self), content_type, plaintext@, r),
            plaintext@.len() <= 0x10_0000_0000 ==> r is Ok,
    {
        let mut nonce: Vec<u8> = Vec::new();
        push_bytes(&mut nonce, self.client_write_iv.as_slice());
        push_be64(&mut nonce, self.client_seq);
        let mut aad: Vec<u8> = Vec::new();
        push_be64(&mut aad, self.client_seq);
        aad.push(content_type);
        aad.push(3);
        aad.push(3);
        push_be16(&mut aad, plaintext.len());
        assert(aad@ =~= record_aad(self.client_seq, content_type, plaintext@.len() as int));
        let c = match aes128gcm_seal(self.client_write_key.as_slice(), nonce.as_slice(), aad.as_slice(), plaintext) {
            None => {
                return Err(TlsError::TlsProtocolError);
            },
            Some(c) => c,
        };
        let mut out: Vec<u8> = Vec::new();
        out.push(content_type);
        out.push(3);
        out.push(3);
        push_be16(&mut out, 8 + c.len());
        push_be64(&mut out, self.client_seq);
        push_bytes(&mut out, c.as_slice());
        assert(out@ =~= sealed_record(self.client_write_key@, self.client_write_iv@, self.client_seq, content_type, plaintext@));
        self.client_seq = self.client_seq + 1;
        Ok(out)
    }

    /// Decrypt one received record (payload: explicit nonce, ciphertext, tag).
    pub fn recv_encrypted_record(&mut self, content_type: u8, data: &[u8]) -> (r: Result<TlsRecord, TlsError>)
        requires
            old(self).wf(),
            old(self).server_seq < u64::MAX,
        ensures
            open_post(*old(self), *final(self), content_type, data@, r),
    {
        if data.len() < GCM_EXPLICIT_NONCE_SIZE + GCM_TAG_SIZE {
            return Err(TlsError::InvalidData);
        }
        let mut nonce: Vec<u8> = Vec::new();
        push_bytes(&mut nonce, self.server_write_iv.as_slice());
        let dv = slice_vec(data);
        let explicit = sub_vec(&dv, 0, 8);
        push_bytes(&mut nonce, explicit.as_slice());
        let body = sub_vec(&dv, 8, data.len());
        let plen = body.len() - GCM_TAG_SIZE;
        let mut aad: Vec<u8> = Vec::new();
        push_be64(&mut aad, self.server_seq);
        aad.push(content_type);
        aad.push(3);
        aad.push(3);
        push_be16(&mut aad, plen);
        assert(aad@ =~= record_aad(self.server_seq, content_type, body@.len() - 16));
        match aes128gcm_open(self.server_write_key.as_slice(), nonce.as_slice(), aad.as_slice(), body.as_slice()) {
            None => Err(TlsError::TlsProtocolError),
            Some(p) => {
                self.server_seq = self.server_seq + 1;
                Ok(TlsRecord { content_type, data: p })
            },
        }
    }

    /// The ChangeCipherSpec record.
    pub fn send_change_cipher_spec() -> (r: Vec<u8>)
        ensures
            r@ == change_cipher_spec_record(),
    {
        let r = vec![CONTENT_TYPE_CHANGE_CIPHER_SPEC, 3, 3, 0, 1, 1];
        assert(r@ =~= change_cipher_spec_record());
        r
    }

    /// Our Finished: PRF(master, "client finished", SHA-256(transcript))[..12]
    /// in a handshake message, added to the transcript and sent encrypted.
    pub fn send_finished(&mut self) -> (r: Result<Vec<u8>, TlsError>)
        requires
            old(self).wf(),
            old(self).client_seq < u64::MAX,
        ensures
            ({
                let m = finished_message(old(self).master_secret@, old(self).transcript@);
                &&& r matches Ok(b) && b@ == sealed_record(old(self).client_write_key@, old(self).client_write_iv@, old(self).client_seq, CONTENT_TYPE_HANDSHAKE, m)
                &&& final(self).transcript@ == old(self).transcript@ + m
                &&& *final(self) == (Tls12Connection { transcript: final(self).transcript, client_seq: (old(self).client_seq + 1) as u64, ..*old(self) })
            }),
    {
        let h = sha256(self.transcript.as_slice());
        let label: [u8; 15] = [0x63, 0x6c, 0x69, 0x65, 0x6e, 0x74, 0x20, 0x66, 0x69, 0x6e, 0x69, 0x73, 0x68, 0x65, 0x64];
        assert(label@ == lit_client_finished());
        let verify = prf_sha256(self.master_secret.as_slice(), &label, h.as_slice(), 12);
        let hs = build_handshake_message(HANDSHAKE_FINISHED, verify.as_slice());
        push_bytes(&mut self.transcript, hs.as_slice());
        self.send_encrypted_record(CONTENT_TYPE_HANDSHAKE, hs.as_slice())
    }

    /// The second flight: ClientKeyExchange, the keys, ChangeCipherSpec
    /// (encryption on from here), Finished; the records to send, in order.
    pub fn send_client_flight(&mut self) -> (r: Result<Vec<u8>, TlsError>)
        requires
            old(self).wf(),
            old(self).client_seq < u64::MAX,
        ensures
            final(self).wf(),
            flight_post(*old(self), old(self).transcript@, *final(self), r),
    {
        let cke = match self.send_client_key_exchange() {
            Ok(b) => b,
            Err(e) => {
                return Err(e);
            },
        };
        match self.compute_keys() {
            Ok(()) => {},
            Err(e) => {
                return Err(e);
            },
        }
        let ccs = Self::send_change_cipher_spec();
        self.encrypted = true;
        let fin = match self.send_finished() {
            Ok(b) => b,
            Err(e) => {
                return Err(e);
            },
        };
        let mut out = cke;
        push_bytes(&mut out, ccs.as_slice());
        push_bytes(&mut out, fin.as_slice());
        Ok(out)
    }

    /// Take the server's ChangeCipherSpec.
    pub fn recv_change_cipher_spec(&self, rec: &TlsRecord) -> (r: Result<(), TlsError>)
        ensures
            r == (if rec.content_type != CONTENT_TYPE_CHANGE_CIPHER_SPEC {
                Err::<(), TlsError>(TlsError::TlsProtocolError)
            } else {
                Ok(())
            }),
    {
        if rec.content_type != CONTENT_TYPE_CHANGE_CIPHER_SPEC {
            Err(TlsError::TlsProtocolError)
        } else {
            Ok(())
        }
    }

    /// Take the server's Finished (encrypted; its verify data is not checked).
    pub fn recv_finished(&mut self, content_type: u8, data: &[u8]) -> (r: Result<(), TlsError>)
        requires
            old(self).wf(),
            old(self).server_seq < u64::MAX,
        ensures
            r == finished_result(*old(self), content_type, data@),
            *final(self) == (if data@.len() >= 24 && opened_record(old(self).server_write_key@, old(self).server_write_iv@, old(self).server_seq, content_type, data@) is Some {
                Tls12Connection { server_seq: (old(self).server_seq + 1) as u64, ..*old(self) }
            } else {
                *old(self)
            }),
    {
        let rec = match self.recv_encrypted_record(content_type, data) {
            Ok(rec) => rec,
            Err(e) => {
                return Err(e);
            },
        };
        if rec.content_type != CONTENT_TYPE_HANDSHAKE {
            return Err(TlsError::TlsProtocolError);
        }
        if rec.data.len() == 0 || rec.data[0] != HANDSHAKE_FINISHED {
            return Err(TlsError::TlsProtocolError);
        }
        Ok(())
    }
}

/// Copy a slice into a vector.
fn slice_vec(d: &[u8]) -> (r: Vec<u8>)
    ensures
        r@ == d@,
{
    let mut v: Vec<u8> = Vec::new();
    push_bytes(&mut v, d);
    v
}

/// The verdict on application data received (`len` the caller's buffer):
/// how many bytes it yields.
pub open spec fn read_result(o: Tls12Connection, content_type: u8, data: Seq<u8>, len: int) -> Result<usize, TlsError> {
    if data.len() < 24 {
        Err(TlsError::InvalidData)
    } else {
        match opened_record(o.server_write_key@, o.server_write_iv@, o.server_seq, content_type, data) {
            None => Err(TlsError::TlsProtocolError),
            Some(p) => if content_type == CONTENT_TYPE_ALERT {
                Err(TlsError::ConnectionClosed)
            } else if content_type != CONTENT_TYPE_APPLICATION_DATA {
                Err(TlsError::TlsProtocolError)
            } else {
                Ok((if p.len() < len {
                    p.len() as int
                } else {
                    len
                }) as usize)
            },
        }
    }
}

impl Tls12Connection {
    /// Take the next record the handshake waits for; give the bytes to send
    /// in reply (nothing until the ServerHelloDone, then the client's second
    /// flight). A plaintext alert, or any refusal, fails the handshake.
    pub fn handshake_step(&mut self, rec: &TlsRecord) -> (r: Result<Vec<u8>, TlsError>)
        requires
            old(self).wf(),
            awaits_record(old(self).stage),
            old(self).stage == HandshakeStage::ServerKeyExchange ==> !ske_truncated_header(rec.content_type, rec.data@),
            old(self).client_seq < u64::MAX,
            old(self).server_seq < u64::MAX,
        ensures
            final(self).wf(),
            final(self).stage == (if r is Ok {
                next_stage(old(self).stage)
            } else {
                HandshakeStage::Failed
            }),
            ({
                let o = *old(self);
                let n = Tls12Connection { stage: o.stage, ..*final(self) };
                let ct = rec.content_type;
                let d = rec.data@;
                if o.stage is Finished {
                    &&& nothing_to_send(finished_result(o, ct, d), r)
                    &&& n == (if d.len() >= 24 && opened_record(o.server_write_key@, o.server_write_iv@, o.server_seq, ct, d) is Some {
                        Tls12Connection { server_seq: (o.server_seq + 1) as u64, ..o }
                    } else {
                        o
                    })
                } else if is_alert(ct, d) {
                    r == Err::<Vec<u8>, TlsError>(TlsError::TlsProtocolError) && n == o
                } else {
                    match o.stage {
                        HandshakeStage::ServerHello => nothing_to_send(server_hello_result(ct, d), r) && server_hello_post(o, n, ct, d),
                        HandshakeStage::Certificate => nothing_to_send(typed_message_result(ct, d, HANDSHAKE_CERTIFICATE), r)
                            && typed_post(o, n, ct, d),
                        HandshakeStage::ServerKeyExchange => nothing_to_send(ske_result(ct, d), r) && ske_post(o, n, ct, d, ske_result(ct, d)),
                        HandshakeStage::ServerHelloDone => match typed_message_result(ct, d, HANDSHAKE_SERVER_HELLO_DONE) {
                            Err(e) => r == Err::<Vec<u8>, TlsError>(e) && typed_post(o, n, ct, d),
                            Ok(()) => flight_post(o, transcript_after(o.transcript@, ct, d), n, r),
                        },
                        _ => nothing_to_send(
                            (if ct != CONTENT_TYPE_CHANGE_CIPHER_SPEC {
                                Err::<(), TlsError>(TlsError::TlsProtocolError)
                            } else {
                                Ok(())
                            }),
                            r,
                        ) && n == o,
                    }
                }
            }),
    {
        let stage = self.stage;
        let r: Result<Vec<u8>, TlsError> = if stage == HandshakeStage::Finished {
            match self.recv_finished(rec.content_type, rec.data.as_slice()) {
                Ok(()) => Ok(Vec::new()),
                Err(e) => Err(e),
            }
        } else if rec.content_type == CONTENT_TYPE_ALERT && rec.data.len() >= 2 {
            Err(TlsError::TlsProtocolError)
        } else if stage == HandshakeStage::ServerHello {
            match self.recv_server_hello(rec) {
                Ok(()) => Ok(Vec::new()),
                Err(e) => Err(e),
            }
        } else if stage == HandshakeStage::Certificate {
            match self.recv_certificate(rec) {
                Ok(()) => Ok(Vec::new()),
                Err(e) => Err(e),
            }
        } else if stage == HandshakeStage::ServerKeyExchange {
            match self.recv_server_key_exchange(rec) {
                Ok(()) => Ok(Vec::new()),
                Err(e) => Err(e),
            }
        } else if stage == HandshakeStage::ServerHelloDone {
            match self.recv_server_hello_done(rec) {
                Ok(()) => self.send_client_flight(),
                Err(e) => Err(e),
            }
        } else {
            match self.recv_change_cipher_spec(rec) {
                Ok(()) => Ok(Vec::new()),
                Err(e) => Err(e),
            }
        };
        self.stage = if r.is_ok() {
            match stage {
                HandshakeStage::ServerHello => HandshakeStage::Certificate,
                HandshakeStage::Certificate => HandshakeStage::ServerKeyExchange,
                HandshakeStage::ServerKeyExchange => HandshakeStage::ServerHelloDone,
                HandshakeStage::ServerHelloDone => HandshakeStage::ChangeCipherSpec,
                HandshakeStage::ChangeCipherSpec => HandshakeStage::Finished,
                HandshakeStage::Finished => HandshakeStage::Established,
                _ => HandshakeStage::Failed,
            }
        } else {
            HandshakeStage::Failed
        };
        r
    }

    /// Whether the next record the handshake waits for comes encrypted.
    pub fn expects_encrypted(&self) -> (r: bool)
        ensures
            r == (self.stage is Finished || self.stage is Established),
    {
        match self.stage {
            HandshakeStage::Finished | HandshakeStage::Established => true,
            _ => false,
        }
    }

    /// Application data to send: one encrypted record.
    pub fn write(&mut self, data: &[u8]) -> (r: Result<Vec<u8>, TlsError>)
        requires
            old(self).wf(),
            old(self).client_seq < u64::MAX,
            data@.len() <= isize::MAX,
        ensures
            seal_post(*old(self), *final(self), CONTENT_TYPE_APPLICATION_DATA, data@, r),
            data@.len() <= 0x10_0000_0000 ==> r is Ok,
    {
        self.send_encrypted_record(CONTENT_TYPE_APPLICATION_DATA, data)
    }

    /// Application data received: decrypt the record and copy as much of it
    /// as fits into `buf`. An alert means the peer closed.
    pub fn read(&mut self, content_type: u8, data: &[u8], buf: &mut [u8]) -> (r: Result<usize, TlsError>)
        requires
            old(self).wf(),
            old(self).server_seq < u64::MAX,
        ensures
            r == read_result(*old(self), content_type, data@, old(buf)@.len() as int),
            *final(self) == (if data@.len() >= 24 && opened_record(old(self).server_write_key@, old(self).server_write_iv@, old(self).server_seq, content_type, data@) is Some {
                Tls12Connection { server_seq: (old(self).server_seq + 1) as u64, ..*old(self) }
            } else {
                *old(self)
            }),
            final(buf)@.len() == old(buf)@.len(),
            match r {
                Ok(n) => {
                    let p = opened_record(old(self).server_write_key@, old(self).server_write_iv@, old(self).server_seq, content_type, data@).unwrap();
                    &&& final(buf)@.subrange(0, n as int) == p.subrange(0, n as int)
                    &&& final(buf)@.subrange(n as int, final(buf)@.len() as int) == old(buf)@.subrange(n as int, old(buf)@.len() as int)
                },
                Err(_) => final(buf)@ == old(buf)@,
            },
    {
        let rec = match self.recv_encrypted_record(content_type, data) {
            Ok(rec) => rec,
            Err(e) => {
                return Err(e);
            },
        };
        if rec.content_type == CONTENT_TYPE_ALERT {
            return Err(TlsError::ConnectionClosed);
        }
        if rec.content_type != CONTENT_TYPE_APPLICATION_DATA {
            return Err(TlsError::TlsProtocolError);
        }
        let len = if rec.data.len() < buf.len() {
            rec.data.len()
        } else {
            buf.len()
        };
        let mut i: usize = 0;
        while i < len
            invariant
                i <= len,
                len <= rec.data@.len(),
                len <= buf@.len(),
                buf@.len() == old(buf)@.len(),
                forall|j: int| 0 <= j < i ==> buf@[j] == rec.data@[j],
                forall|j: int| i <= j < buf@.len() ==> buf@[j] == old(buf)@[j],
            decreases len - i,
        {
            buf[i] = rec.data[i];
            i = i + 1;
        }
        assert(buf@.subrange(0, len as int) =~= rec.data@.subrange(0, len as int));
        assert(buf@.subrange(len as int, buf@.len() as int) =~= old(buf)@.subrange(len as int, old(buf)@.len() as int));
        Ok(len)
    }

    /// The close_notify alert (warning, close_notify), encrypted.
    pub fn close(&mut self) -> (r: Vec<u8>)
        requires
            old(self).wf(),
            old(self).client_seq < u64::MAX,
        ensures
            seal_post(*old(self), *final(self), CONTENT_TYPE_ALERT, seq![1u8, 0u8], Ok(r)),
    {
        let alert: [u8; 2] = [1, 0];
        assert(alert@ =~= seq![1u8, 0u8]);
        match self.send_encrypted_record(CONTENT_TYPE_ALERT, &alert) {
            Ok(b) => b,
            Err(_) => Vec::new(),
        }
    }
}

/// The header of a plaintext record: content type and payload length; a
/// length over `MAX_RECORD_LEN` is refused.
pub fn parse_record_header(header: &[u8; 5]) -> (r: Result<(u8, usize), TlsError>)
    ensures
        ({
            let len = header@[3] as int * 256 + header@[4] as int;
            if len > MAX_RECORD_LEN {
                r == Err::<(u8, usize), TlsError>(TlsError::InvalidData)
            } else {
                r == Ok::<(u8, usize), TlsError>((header@[0], len as usize))
            }
        }),
{
    let len = (header[3] as usize) * 256 + (header[4] as usize);
    if len > MAX_RECORD_LEN {
        Err(TlsError::InvalidData)
    } else {
        Ok((header[0], len))
    }
}

/// The header of an encrypted record: content type and payload length; a
/// payload shorter than explicit nonce and tag is refused.
pub fn parse_encrypted_header(header: &[u8; 5]) -> (r: Result<(u8, usize), TlsError>)
    ensures
        ({
            let len = header@[3] as int * 256 + header@[4] as int;
            if len < 24 {
                r == Err::<(u8, usize), TlsError>(TlsError::InvalidData)
            } else {
                r == Ok::<(u8, usize), TlsError>((header@[0], len as usize))
            }
        }),
{
    let len = (header[3] as usize) * 256 + (header[4] as usize);
    if len < GCM_EXPLICIT_NONCE_SIZE + GCM_TAG_SIZE {
        Err(TlsError::InvalidData)
    } else {
        Ok((header[0], len))
    }
}

/// What the HTTPS read loop does next.
#[derive(Clone, Copy, Debug, PartialEq, Eq, Structural)]
pub enum ResponseStep {
    Continue,
    Done,
    Fail(TlsError),
}

/// One turn of the HTTPS read loop, given what the TLS read gave: a closed
/// connection or an empty read ends it; data is appended and ends it once
/// the HTTP response is complete; any other error fails the request.
pub fn https_response_step(response: &mut Vec<u8>, read: Result<&[u8], TlsError>) -> (r: ResponseStep)
    ensures
        match read {
            Err(TlsError::ConnectionClosed) => r == ResponseStep::Done && final(response)@ == old(response)@,
            Err(e) => r == ResponseStep::Fail(e) && final(response)@ == old(response)@,
            Ok(chunk) => if chunk@.len() == 0 {
                r == ResponseStep::Done && final(response)@ == old(response)@
            } else {
                &&& final(response)@ == old(response)@ + chunk@
                &&& r == (if crate::tls::response_complete(old(response)@ + chunk@) {
                    ResponseStep::Done
                } else {
                    ResponseStep::Continue
                })
            },
        },
{
    match read {
        Err(TlsError::ConnectionClosed) => ResponseStep::Done,
        Err(e) => ResponseStep::Fail(e),
        Ok(chunk) => {
            if chunk.len() == 0 {
                ResponseStep::Done
            } else {
                push_bytes(response, chunk);
                if crate::tls::is_http_response_complete(response.as_slice()) {
                    ResponseStep::Done
                } else {
                    ResponseStep::Continue
                }
            }
        },
    }
}

} // verus!
