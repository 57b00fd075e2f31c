use aes_gcm::aead::AeadInPlace;
use aes_gcm::{Aes128Gcm, Key, KeyInit, Nonce};
use hmac::{Hmac, Mac};
use sha2::{Digest, Sha256};

use havy_kernel::tls::{SimpleRng, TlsError};
use havy_kernel::tls12::crypto::prf_sha256;
use havy_kernel::tls12::{
    build_handshake_message, build_record, https_response_step, parse_encrypted_header, parse_record_header,
    HandshakeStage, ResponseStep, Tls12Connection, TlsRecord,
};

fn seeded() -> SimpleRng {
    SimpleRng { state: 0x0123_4567_89ab_cdef }
}

fn reference_hmac(key: &[u8], msg: &[u8]) -> Vec<u8> {
    let mut m = <Hmac<Sha256> as Mac>::new_from_slice(key).unwrap();
    m.update(msg);
    m.finalize().into_bytes().to_vec()
}

fn reference_prf(secret: &[u8], label: &[u8], seed: &[u8], len: usize) -> Vec<u8> {
    let mut full_seed = label.to_vec();
    full_seed.extend_from_slice(seed);
    let mut a = reference_hmac(secret, &full_seed);
    let mut out = Vec::new();
    while out.len() < len {
        let mut msg = a.clone();
        msg.extend_from_slice(&full_seed);
        out.extend_from_slice(&reference_hmac(secret, &msg));
        a = reference_hmac(secret, &a);
    }
    out.truncate(len);
    out
}

fn seal(key: &[u8], iv: &[u8], seq: u64, ct: u8, pt: &[u8]) -> Vec<u8> {
    let mut nonce = iv.to_vec();
    nonce.extend_from_slice(&seq.to_be_bytes());
    let mut aad = seq.to_be_bytes().to_vec();
    aad.extend_from_slice(&[ct, 3, 3]);
    aad.extend_from_slice(&(pt.len() as u16).to_be_bytes());
    let cipher = Aes128Gcm::new(Key::<Aes128Gcm>::from_slice(key));
    let mut buf = pt.to_vec();
    cipher.encrypt_in_place(Nonce::from_slice(&nonce), &aad, &mut buf).unwrap();
    let mut payload = seq.to_be_bytes().to_vec();
    payload.extend_from_slice(&buf);
    payload
}

fn open(key: &[u8], iv: &[u8], seq: u64, ct: u8, payload: &[u8]) -> Option<Vec<u8>> {
    let mut nonce = iv.to_vec();
    nonce.extend_from_slice(&payload[..8]);
    let body = &payload[8..];
    let mut aad = seq.to_be_bytes().to_vec();
    aad.extend_from_slice(&[ct, 3, 3]);
    aad.extend_from_slice(&((body.len() - 16) as u16).to_be_bytes());
    let cipher = Aes128Gcm::new(Key::<Aes128Gcm>::from_slice(key));
    let mut buf = body.to_vec();
    cipher.decrypt_in_place(Nonce::from_slice(&nonce), &aad, &mut buf).ok()?;
    Some(buf)
}

fn hs(t: u8, body: &[u8]) -> Vec<u8> {
    let mut v = vec![t, 0, (body.len() >> 8) as u8, body.len() as u8];
    v.extend_from_slice(body);
    v
}

fn rec(ct: u8, data: Vec<u8>) -> TlsRecord {
    TlsRecord { content_type: ct, data }
}

#[test]
fn prf_agrees_with_hmac_reference() {
    let secret = [0x9bu8, 0xbe, 0x43, 0x6b, 0xa9, 0x40, 0xf0, 0x17];
    let seed = [0xa0u8, 0xba, 0x9f, 0x93, 0x6c, 0xda, 0x31, 0x18];
    for len in [0usize, 1, 12, 32, 33, 40, 48, 100] {
        let got = prf_sha256(&secret, b"test label", &seed, len);
        assert_eq!(got, reference_prf(&secret, b"test label", &seed, len));
        assert_eq!(got.len(), len);
    }
    assert_ne!(prf_sha256(&secret, b"test label", &seed, 32), seed.to_vec());
}

#[test]
fn handshake_message_and_record_framing() {
    assert_eq!(build_handshake_message(1, &[7, 8, 9]), vec![1, 0, 0, 3, 7, 8, 9]);
    assert_eq!(build_record(22, &[5, 6]), vec![22, 3, 3, 0, 2, 5, 6]);
    let big = vec![0u8; 300];
    let r = build_record(23, &big);
    assert_eq!(&r[..5], &[23, 3, 3, 1, 44]);
}

#[test]
fn record_header_limits() {
    assert_eq!(parse_record_header(&[22, 3, 3, 0x48, 0x00]), Ok((22, 18432)));
    assert_eq!(parse_record_header(&[22, 3, 3, 0x48, 0x01]), Err(TlsError::InvalidData));
    assert_eq!(parse_encrypted_header(&[23, 3, 3, 0, 23]), Err(TlsError::InvalidData));
    assert_eq!(parse_encrypted_header(&[23, 3, 3, 0, 24]), Ok((23, 24)));
}

#[test]
fn new_connection_draws_client_random() {
    let c = Tls12Connection::new(seeded());
    let mut r = seeded();
    let mut expect = [0u8; 32];
    r.fill_bytes(&mut expect);
    assert_eq!(c.client_random, expect.to_vec());
    assert_eq!(c.stage, HandshakeStage::Start);
    assert_eq!(c.rng.state, r.state);
}

#[test]
fn client_hello_layout() {
    let mut c = Tls12Connection::new(seeded());
    let out = c.start_handshake("example.com").unwrap();
    assert_eq!(c.stage, HandshakeStage::ServerHello);
    assert_eq!(&out[..3], &[22, 3, 3]);
    let len = ((out[3] as usize) << 8) | out[4] as usize;
    assert_eq!(len, out.len() - 5);
    let msg = &out[5..];
    assert_eq!(msg[0], 1);
    assert_eq!(&msg[4..6], &[3, 3]);
    assert_eq!(&msg[6..38], c.client_random.as_slice());
    assert_eq!(&msg[38..45], &[0, 0, 2, 0xc0, 0x2f, 1, 0]);
    let ext = &msg[47..];
    assert_eq!(((msg[45] as usize) << 8) | msg[46] as usize, ext.len());
    assert_eq!(&ext[..9], &[0, 0, 0, 16, 0, 14, 0, 0, 11]);
    assert_eq!(&ext[9..20], b"example.com");
    assert_eq!(&ext[20..], &[0, 10, 0, 6, 0, 4, 0, 23, 0, 29, 0, 11, 0, 2, 1, 0, 0, 13, 0, 4, 0, 2, 4, 1]);
    assert_eq!(c.transcript, msg.to_vec());
}

#[test]
fn client_hello_without_name_has_no_sni() {
    let mut c = Tls12Connection::new(seeded());
    let out = c.start_handshake("").unwrap();
    let ext = &out[5 + 47..];
    assert_eq!(ext, &[0, 10, 0, 6, 0, 4, 0, 23, 0, 29, 0, 11, 0, 2, 1, 0, 0, 13, 0, 4, 0, 2, 4, 1]);
}

#[test]
fn generated_keys_match_the_curve_crates() {
    let mut c = Tls12Connection::new(seeded());
    c.generate_keys().unwrap();
    let x = c.x25519_secret.unwrap();
    assert_eq!(c.client_pubkey_x25519, x25519_dalek::x25519(x, x25519_dalek::X25519_BASEPOINT_BYTES).to_vec());
    assert_ne!(c.client_pubkey_x25519, x.to_vec());
    let k = c.p256_secret.unwrap();
    let sk = p256::SecretKey::from_bytes(&k.into()).unwrap();
    let expect = p256::EncodedPoint::from(&sk.public_key()).as_bytes().to_vec();
    assert_eq!(c.client_pubkey_p256, expect);
    assert_eq!(c.client_pubkey_p256.len(), 65);
    assert_eq!(c.client_pubkey_p256[0], 4);
}

fn server_hello(cipher: [u8; 2]) -> Vec<u8> {
    let mut body = vec![3u8, 3];
    body.extend_from_slice(&[0x5a; 32]);
    body.push(0);
    body.extend_from_slice(&cipher);
    body.push(0);
    hs(2, &body)
}

#[test]
fn server_hello_checks() {
    let mut c = Tls12Connection::new(seeded());
    c.start_handshake("h").unwrap();
    let mut bad = c.clone_for_test();
    assert_eq!(bad.handshake_step(&rec(22, server_hello([0x00, 0x2f]))), Err(TlsError::TlsProtocolError));
    assert_eq!(bad.stage, HandshakeStage::Failed);
    assert_eq!(bad.server_random, vec![0x5a; 32]);
    let mut short = c.clone_for_test();
    assert_eq!(short.handshake_step(&rec(22, vec![2, 0, 0])), Err(TlsError::InvalidData));
    let mut wrong = c.clone_for_test();
    assert_eq!(wrong.handshake_step(&rec(22, hs(11, &[0; 40]))), Err(TlsError::TlsProtocolError));
    let mut alert = c.clone_for_test();
    assert_eq!(alert.handshake_step(&rec(21, vec![2, 40])), Err(TlsError::TlsProtocolError));
    let mut ok = c.clone_for_test();
    assert_eq!(ok.handshake_step(&rec(22, server_hello([0xc0, 0x2f]))), Ok(vec![]));
    assert_eq!(ok.stage, HandshakeStage::Certificate);
}

trait CloneForTest {
    fn clone_for_test(&self) -> Self;
}

impl CloneForTest for Tls12Connection {
    fn clone_for_test(&self) -> Self {
        Tls12Connection {
            stage: self.stage,
            curve: self.curve,
            x25519_secret: self.x25519_secret,
            p256_secret: self.p256_secret,
            client_pubkey_x25519: self.client_pubkey_x25519.clone(),
            client_pubkey_p256: self.client_pubkey_p256.clone(),
            server_pubkey: self.server_pubkey.clone(),
            server_random: self.server_random.clone(),
            client_random: self.client_random.clone(),
            master_secret: self.master_secret.clone(),
            client_write_key: self.client_write_key.clone(),
            server_write_key: self.server_write_key.clone(),
            client_write_iv: self.client_write_iv.clone(),
            server_write_iv: self.server_write_iv.clone(),
            client_seq: self.client_seq,
            server_seq: self.server_seq,
            transcript: self.transcript.clone(),
            encrypted: self.encrypted,
            rng: SimpleRng { state: self.rng.state },
        }
    }
}

#[test]
fn server_key_exchange_checks() {
    let mut c = Tls12Connection::new(seeded());
    c.start_handshake("h").unwrap();
    c.handshake_step(&rec(22, server_hello([0xc0, 0x2f]))).unwrap();
    c.handshake_step(&rec(22, hs(11, &[0, 0, 0]))).unwrap();
    assert_eq!(c.stage, HandshakeStage::ServerKeyExchange);
    let mut bad_curve = c.clone_for_test();
    let mut body = vec![3u8, 0, 24, 4, 1, 2, 3, 4];
    assert_eq!(bad_curve.handshake_step(&rec(22, hs(12, &body))), Err(TlsError::TlsProtocolError));
    assert_eq!(bad_curve.curve, 24);
    let mut bad_type = c.clone_for_test();
    body[0] = 1;
    assert_eq!(bad_type.handshake_step(&rec(22, hs(12, &body))), Err(TlsError::TlsProtocolError));
    let mut truncated = c.clone_for_test();
    assert_eq!(truncated.handshake_step(&rec(22, hs(12, &[3, 0, 29, 32, 1, 2]))), Err(TlsError::InvalidData));
    let mut ok = c.clone_for_test();
    let mut key_body = vec![3u8, 0, 29, 32];
    key_body.extend_from_slice(&[7u8; 32]);
    key_body.extend_from_slice(&[4, 1, 0, 0]);
    ok.handshake_step(&rec(22, hs(12, &key_body))).unwrap();
    assert_eq!(ok.curve, 29);
    assert_eq!(ok.server_pubkey, Some(vec![7u8; 32]));
}

fn drive_x25519_handshake() -> (Tls12Connection, Vec<u8>, Vec<u8>, Vec<u8>, Vec<u8>) {
    let mut c = Tls12Connection::new(seeded());
    let hello = c.start_handshake("example.com").unwrap();
    let mut transcript = hello[5..].to_vec();
    let server_secret = [0x42u8; 32];
    let server_pub = x25519_dalek::x25519(server_secret, x25519_dalek::X25519_BASEPOINT_BYTES);
    let sh = server_hello([0xc0, 0x2f]);
    let cert = hs(11, &[0, 0, 0]);
    let mut ske_body = vec![3u8, 0, 29, 32];
    ske_body.extend_from_slice(&server_pub);
    ske_body.extend_from_slice(&[4, 1, 0, 2, 0xaa, 0xbb]);
    let ske = hs(12, &ske_body);
    let done = hs(14, &[]);
    for m in [&sh, &cert, &ske] {
        assert_eq!(c.handshake_step(&rec(22, m.clone())), Ok(vec![]));
        transcript.extend_from_slice(m);
    }
    transcript.extend_from_slice(&done);
    let flight = c.handshake_step(&rec(22, done.clone())).unwrap();
    assert_eq!(c.stage, HandshakeStage::ChangeCipherSpec);
    assert!(c.encrypted);
    // ClientKeyExchange
    assert_eq!(&flight[..5], &[22, 3, 3, 0, 37]);
    let cke = flight[5..42].to_vec();
    assert_eq!(&cke[..5], &[16, 0, 0, 33, 32]);
    let client_pub: [u8; 32] = cke[5..37].try_into().unwrap();
    assert_eq!(client_pub.to_vec(), c.client_pubkey_x25519);
    transcript.extend_from_slice(&cke);
    // ChangeCipherSpec
    assert_eq!(&flight[42..48], &[20, 3, 3, 0, 1, 1]);
    // The server side of the key schedule.
    let pms = x25519_dalek::x25519(server_secret, client_pub);
    let mut seed = c.client_random.clone();
    seed.extend_from_slice(&[0x5a; 32]);
    let ms = reference_prf(&pms, b"master secret", &seed, 48);
    assert_eq!(c.master_secret, ms);
    let mut seed2 = vec![0x5au8; 32];
    seed2.extend_from_slice(&c.client_random);
    let kb = reference_prf(&ms, b"key expansion", &seed2, 40);
    assert_eq!(c.client_write_key, kb[0..16].to_vec());
    assert_eq!(c.server_write_key, kb[16..32].to_vec());
    // Finished, encrypted under the client key with sequence number 0.
    assert_eq!(&flight[48..53], &[22, 3, 3, 0, 40]);
    let fin = open(&kb[0..16], &kb[32..36], 0, 22, &flight[53..]).unwrap();
    let verify = reference_prf(&ms, b"client finished", &Sha256::digest(&transcript), 12);
    assert_eq!(fin, hs(20, &verify));
    assert_eq!(c.client_seq, 1);
    (c, kb[0..16].to_vec(), kb[16..32].to_vec(), kb[32..36].to_vec(), kb[36..40].to_vec())
}

#[test]
fn full_handshake_and_application_data() {
    let (mut c, ckey, skey, civ, siv) = drive_x25519_handshake();
    assert_eq!(c.handshake_step(&rec(20, vec![1])), Ok(vec![]));
    assert_eq!(c.stage, HandshakeStage::Finished);
    assert!(c.expects_encrypted());
    let fin = seal(&skey, &siv, 0, 22, &hs(20, &[9u8; 12]));
    assert_eq!(c.handshake_step(&rec(22, fin)), Ok(vec![]));
    assert_eq!(c.stage, HandshakeStage::Established);
    assert_eq!(c.server_seq, 1);
    // Request out.
    let out = c.write(b"GET / HTTP/1.1\r\n\r\n").unwrap();
    assert_eq!(parse_encrypted_header(&out[..5].try_into().unwrap()), Ok((23, out.len() - 5)));
    assert_eq!(open(&ckey, &civ, 1, 23, &out[5..]).unwrap(), b"GET / HTTP/1.1\r\n\r\n".to_vec());
    assert_eq!(c.client_seq, 2);
    // Response in, into a small buffer.
    let payload = seal(&skey, &siv, 1, 23, b"HTTP/1.1 200 OK\r\n");
    let mut buf = [0u8; 8];
    assert_eq!(c.read(23, &payload, &mut buf), Ok(8));
    assert_eq!(&buf, b"HTTP/1.1");
    // A tampered record does not authenticate and changes nothing.
    let mut bad = seal(&skey, &siv, 2, 23, b"x");
    let last = bad.len() - 1;
    bad[last] ^= 1;
    let mut big = [0u8; 64];
    assert_eq!(c.read(23, &bad, &mut big), Err(TlsError::TlsProtocolError));
    assert_eq!(c.server_seq, 2);
    // An alert means closed.
    let alert = seal(&skey, &siv, 2, 21, &[1, 0]);
    assert_eq!(c.read(21, &alert, &mut big), Err(TlsError::ConnectionClosed));
    assert_eq!(c.read(23, &[0u8; 10], &mut big), Err(TlsError::InvalidData));
    // close_notify.
    let close = c.close();
    assert_eq!(open(&ckey, &civ, 2, 21, &close[5..]).unwrap(), vec![1, 0]);
}

#[test]
fn wrong_server_finished_type_fails() {
    let (mut c, _ckey, skey, _civ, siv) = drive_x25519_handshake();
    c.handshake_step(&rec(20, vec![1])).unwrap();
    let fin = seal(&skey, &siv, 0, 22, &hs(16, &[9u8; 12]));
    assert_eq!(c.handshake_step(&rec(22, fin)), Err(TlsError::TlsProtocolError));
    assert_eq!(c.stage, HandshakeStage::Failed);
}

#[test]
fn change_cipher_spec_expected() {
    let (mut c, _, _, _, _) = drive_x25519_handshake();
    assert_eq!(c.handshake_step(&rec(22, vec![20, 0, 0, 0])), Err(TlsError::TlsProtocolError));
}

#[test]
fn p256_key_length_checked() {
    let mut c = Tls12Connection::new(seeded());
    c.start_handshake("h").unwrap();
    c.handshake_step(&rec(22, server_hello([0xc0, 0x2f]))).unwrap();
    c.handshake_step(&rec(22, hs(11, &[0, 0, 0]))).unwrap();
    let mut body = vec![3u8, 0, 23, 64];
    body.extend_from_slice(&[1u8; 64]);
    c.handshake_step(&rec(22, hs(12, &body))).unwrap();
    assert_eq!(c.handshake_step(&rec(22, hs(14, &[]))), Err(TlsError::InvalidData));
    assert_eq!(c.stage, HandshakeStage::Failed);
}

#[test]
fn p256_handshake_agrees_with_server_ecdh() {
    let mut c = Tls12Connection::new(seeded());
    c.start_handshake("h").unwrap();
    c.handshake_step(&rec(22, server_hello([0xc0, 0x2f]))).unwrap();
    c.handshake_step(&rec(22, hs(11, &[0, 0, 0]))).unwrap();
    let server_sk = p256::SecretKey::from_bytes(&[0x11u8; 32].into()).unwrap();
    let server_pub = p256::EncodedPoint::from(&server_sk.public_key()).as_bytes().to_vec();
    let mut body = vec![3u8, 0, 23, 65];
    body.extend_from_slice(&server_pub);
    c.handshake_step(&rec(22, hs(12, &body))).unwrap();
    let flight = c.handshake_step(&rec(22, hs(14, &[]))).unwrap();
    assert_eq!(&flight[..10], &[22, 3, 3, 0, 70, 16, 0, 0, 66, 65]);
    let client_pub = p256::PublicKey::from_sec1_bytes(&flight[10..75]).unwrap();
    let shared = p256::ecdh::diffie_hellman(server_sk.to_nonzero_scalar(), client_pub.as_affine());
    let mut seed = c.client_random.clone();
    seed.extend_from_slice(&[0x5a; 32]);
    assert_eq!(c.master_secret, reference_prf(shared.raw_secret_bytes(), b"master secret", &seed, 48));
    assert!(c.p256_secret.is_none());
}

#[test]
fn response_loop_steps() {
    let mut resp = Vec::new();
    assert_eq!(https_response_step(&mut resp, Ok(b"HTTP/1.1 200 OK\r\nContent-Length: 2\r\n\r\n")), ResponseStep::Continue);
    assert_eq!(https_response_step(&mut resp, Ok(b"hi")), ResponseStep::Done);
    assert_eq!(resp.len(), 40);
    assert_eq!(https_response_step(&mut resp, Ok(b"")), ResponseStep::Done);
    assert_eq!(https_response_step(&mut resp, Err(TlsError::ConnectionClosed)), ResponseStep::Done);
    assert_eq!(https_response_step(&mut resp, Err(TlsError::Io)), ResponseStep::Fail(TlsError::Io));
    assert_eq!(resp.len(), 40);
}
