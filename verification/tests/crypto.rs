use aardbin::crypto::Crypto;
use aardbin::plaintext::{decode_plaintext, encode_plaintext};

fn key() -> [u8; 32] {
    [7u8; 32]
}

#[test]
fn roundtrip() {
    let c = Crypto::new(&key());
    let blob = c.encrypt("标题 with emoji 🔒", "line1\nline2");
    let (t, b) = c.decrypt(&blob).unwrap();
    assert_eq!(t, "标题 with emoji 🔒");
    assert_eq!(b, "line1\nline2");
}

#[test]
fn empty_fields_roundtrip() {
    let c = Crypto::new(&key());
    let blob = c.encrypt("", "");
    let (t, b) = c.decrypt(&blob).unwrap();
    assert_eq!(t, "");
    assert_eq!(b, "");
}

#[test]
fn nonces_differ() {
    let c = Crypto::new(&key());
    let a = c.encrypt("same", "same");
    let b = c.encrypt("same", "same");
    assert_ne!(a, b, "each save must use a fresh nonce");
    assert_eq!(a[..12].len(), 12);
}

#[test]
fn tamper_detected() {
    let c = Crypto::new(&key());
    let mut blob = c.encrypt("t", "c");
    let n = blob.len();
    blob[n - 1] ^= 1;
    assert!(c.decrypt(&blob).is_err());
}

#[test]
fn wrong_key_fails() {
    let c1 = Crypto::new(&key());
    let c2 = Crypto::new(&[8u8; 32]);
    let blob = c1.encrypt("t", "c");
    assert!(c2.decrypt(&blob).is_err());
}

#[test]
fn truncated_fails() {
    let c = Crypto::new(&key());
    let blob = c.encrypt("t", "c");
    assert!(c.decrypt(&blob[..10]).is_err());
}

#[test]
fn blob_layout_and_ciphertext_hides_plaintext() {
    let c = Crypto::new(&key());
    let blob = c.encrypt("title", "secret content");
    let plain = encode_plaintext("title", "secret content");
    assert_eq!(blob.len(), 12 + plain.len() + 16);
    assert_ne!(&blob[12..12 + plain.len()], plain.as_bytes());
}

#[test]
fn plaintext_is_json() {
    let p = encode_plaintext("a\"b", "x\ny\u{1}\\");
    assert_eq!(p, "{\"title\":\"a\\\"b\",\"content\":\"x\\ny\\u0001\\\\\"}");
    let (t, c) = decode_plaintext(p.as_bytes()).unwrap();
    assert_eq!(t, "a\"b");
    assert_eq!(c, "x\ny\u{1}\\");
    assert!(decode_plaintext(b"{\"title\":1}").is_none());
    assert!(decode_plaintext(&[0xff, 0xfe]).is_none());
}

fn serde_plaintext(t: &str, c: &str) -> String {
    format!(
        "{{\"title\":{},\"content\":{}}}",
        serde_json::to_string(t).unwrap(),
        serde_json::to_string(c).unwrap()
    )
}

#[test]
fn plaintext_matches_serde_json() {
    let mut samples: Vec<String> = vec![
        String::new(),
        "plain".into(),
        "quote \" backslash \\ slash /".into(),
        "\u{7f} del, \u{2028} line sep, \u{feff} bom, 🔒 emoji, 汉字".into(),
    ];
    let all_controls: String = (0u32..0x20).map(|u| char::from_u32(u).unwrap()).collect();
    samples.push(all_controls);
    for u in [0x80u32, 0xff, 0x100, 0x7ff, 0x800, 0xd7ff, 0xe000, 0xfffd, 0x10000, 0x10ffff] {
        samples.push(char::from_u32(u).unwrap().to_string());
    }
    for t in &samples {
        for c in &samples {
            let ours = encode_plaintext(t, c);
            assert_eq!(ours, serde_plaintext(t, c));
            let (dt, dc) = decode_plaintext(ours.as_bytes()).unwrap();
            assert_eq!((&dt, &dc), (t, c));
        }
    }
}
