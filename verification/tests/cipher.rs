use encrypted_zip::ZipCrypto;
use flate2::read::DeflateDecoder;
use std::io::Read;

fn inflate(data: &[u8]) -> Vec<u8> {
    let mut d = DeflateDecoder::new(data);
    let mut out = Vec::new();
    d.read_to_end(&mut out).unwrap();
    out
}

#[test]
fn encrypt_known_vector() {
    let mut zc = ZipCrypto::new(7);
    let out = zc.encrypt(b"hello", "secret", 0xdeadbeef);
    assert_eq!(
        out,
        vec![103, 197, 182, 180, 151, 173, 87, 48, 239, 64, 5, 133, 157, 73, 43, 210, 129]
    );
}

#[test]
fn password_schedule_sets_keystream() {
    let mut zc = ZipCrypto::new(7);
    for b in "secret".bytes() {
        zc.update(b);
    }
    assert_eq!(zc.decrypt_key(), 200);
    assert_eq!(zc.decrypt_key(), 200);
}

#[test]
fn random_header_ends_with_crc_byte() {
    let mut zc = ZipCrypto::new(7);
    let h = zc.random_header(0xdeadbeef);
    assert_eq!(h, vec![175, 196, 25, 246, 67, 211, 151, 103, 92, 185, 142, 222]);
    assert_eq!(h[11], 0xde);
}

#[test]
fn decrypt_inverts_encrypt() {
    let data = b"The quick brown fox jumps over the lazy dog".to_vec();
    let mut enc = ZipCrypto::new(99);
    let cipher = enc.encrypt(&data, "pässwörd", 0x12345678);
    assert_eq!(cipher.len(), 12 + data.len());
    let mut dec = ZipCrypto::new(99);
    for b in "pässwörd".bytes() {
        dec.update(b);
    }
    let plain = dec.upd(cipher, false);
    assert_eq!(&plain[12..], &data[..]);
    assert_eq!(plain[11], 0x12);
    let mut hdr = ZipCrypto::new(99);
    assert_eq!(&plain[..12], &hdr.random_header(0x12345678)[..]);
}

#[test]
fn upd_roundtrip_from_same_keys() {
    let buf: Vec<u8> = (0..=255u8).collect();
    let mut a = ZipCrypto::new(1);
    let mut b = ZipCrypto::new(1);
    let e = a.upd(buf.clone(), true);
    assert_ne!(e, buf);
    let d = b.upd(e, false);
    assert_eq!(d, buf);
    assert_eq!(a.decrypt_key(), b.decrypt_key());
}

#[test]
fn deflate_raw_roundtrip() {
    let data: Vec<u8> = b"abcabcabcabcabcabcabcabc hello hello hello".to_vec();
    for level in [0u32, 1, 6, 9] {
        let out = ZipCrypto::deflate_encode_raw(level, data.clone());
        assert_eq!(inflate(&out), data);
    }
    let out = ZipCrypto::deflate_encode_raw(9, vec![0u8; 10000]);
    assert!(out.len() < 100);
    assert_ne!(out, vec![0u8; 10000]);
}

#[test]
fn deflate_stream_roundtrip() {
    let chunks = vec![b"first ".to_vec(), Vec::new(), b"second ".to_vec(), b"third".to_vec()];
    let out = ZipCrypto::deflate_encode_raw_stream(6, chunks);
    assert_eq!(inflate(&out), b"first second third".to_vec());
    let empty = ZipCrypto::deflate_encode_raw_stream(6, Vec::new());
    assert_eq!(inflate(&empty), Vec::<u8>::new());
}
