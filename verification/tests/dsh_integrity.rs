use dsh_launcher::dsh::integrity::{
    base64_decode, parse_integrity, sha512, verify_entry_exists, verify_installation,
    verify_tarball_integrity,
};

fn make_integrity(data: &[u8]) -> String {
    let digest = sha512(data);
    let b64 = base64_encode(&digest);
    format!("sha512-{b64}")
}

fn base64_encode(data: &[u8]) -> String {
    const ALPHABET: &[u8] = b"ABCDEFGHIJKLMNOPQRSTUVWXYZabcdefghijklmnopqrstuvwxyz0123456789+/";
    let mut out = String::with_capacity(data.len().div_ceil(3) * 4);
    let mut i = 0;
    while i + 3 <= data.len() {
        let n = ((data[i] as u32) << 16) | ((data[i + 1] as u32) << 8) | (data[i + 2] as u32);
        out.push(ALPHABET[(n >> 18) as usize & 0x3f] as char);
        out.push(ALPHABET[(n >> 12) as usize & 0x3f] as char);
        out.push(ALPHABET[(n >> 6) as usize & 0x3f] as char);
        out.push(ALPHABET[n as usize & 0x3f] as char);
        i += 3;
    }
    let rem = data.len() - i;
    if rem == 1 {
        let n = (data[i] as u32) << 16;
        out.push(ALPHABET[(n >> 18) as usize & 0x3f] as char);
        out.push(ALPHABET[(n >> 12) as usize & 0x3f] as char);
        out.push('=');
        out.push('=');
    } else if rem == 2 {
        let n = ((data[i] as u32) << 16) | ((data[i + 1] as u32) << 8);
        out.push(ALPHABET[(n >> 18) as usize & 0x3f] as char);
        out.push(ALPHABET[(n >> 12) as usize & 0x3f] as char);
        out.push(ALPHABET[(n >> 6) as usize & 0x3f] as char);
        out.push('=');
    }
    out
}

#[test]
fn parse_integrity_sha512_extracts_digest() {
    let data = b"hello dsh";
    let s = make_integrity(data);
    let (algo, digest) = parse_integrity(&s).expect("parse");
    assert_eq!(algo, "sha512");
    assert_eq!(digest, sha512(data));
}

#[test]
fn parse_integrity_rejects_non_sha512() {
    let s = "sha256-abc==";
    let err = parse_integrity(s).unwrap_err();
    assert!(err.message().contains("sha256"));
}

#[test]
fn parse_integrity_rejects_malformed() {
    let err = parse_integrity("nodashhere").unwrap_err();
    assert!(err.message().contains("malformed"));
}

#[test]
fn parse_integrity_reports_the_first_bad_digit() {
    let err = parse_integrity("sha512-ab!cd").unwrap_err();
    assert_eq!(err.message(), "dsh install error: invalid base64 char ! in integrity");
    let err = parse_integrity("sha512-abé").unwrap_err();
    assert_eq!(err.message(), "dsh install error: invalid base64 char \u{c3} in integrity");
}

#[test]
fn base64_stops_at_padding_and_decodes_partial_groups() {
    let chars = |s: &str| s.chars().collect::<Vec<char>>();
    assert_eq!(base64_decode(&chars("TWFu")).unwrap(), b"Man".to_vec());
    assert_eq!(base64_decode(&chars("TWE=")).unwrap(), b"Ma".to_vec());
    assert_eq!(base64_decode(&chars("TQ==")).unwrap(), b"M".to_vec());
    assert_eq!(base64_decode(&chars("TQ==!!")).unwrap(), b"M".to_vec());
    assert_eq!(base64_decode(&chars("")).unwrap(), Vec::<u8>::new());
}

#[test]
fn sha512_of_known_input() {
    let digest = sha512(b"abc");
    assert_eq!(digest.len(), 64);
    assert_eq!(digest[0], 0xdd);
    assert_eq!(digest[63], 0x9f);
}

#[test]
fn verify_tarball_matches() {
    let data = b"tarball content";
    let s = make_integrity(data);
    verify_tarball_integrity(data, &s).expect("should match");
}

#[test]
fn verify_tarball_mismatch_errors() {
    let data = b"tarball content";
    let s = make_integrity(b"different content");
    let err = verify_tarball_integrity(data, &s).unwrap_err();
    assert!(err.message().contains("mismatch"));
    assert_eq!(
        err.message(),
        "dsh install error: tarball integrity mismatch: expected 64 bytes, got 64 bytes (sha512)"
    );
}

#[test]
fn verify_entry_exists_passes_when_present() {
    verify_entry_exists("/tmp/module", true).expect("entry should exist");
}

#[test]
fn verify_entry_exists_errors_when_missing() {
    let err = verify_entry_exists("/tmp/module", false).unwrap_err();
    assert!(err.message().contains("not found"));
    assert!(err.message().contains("lib/bin.js"));
}

#[test]
fn verify_installation_combined_passes() {
    let data = b"tarball";
    let s = make_integrity(data);
    verify_installation("/tmp/module", true, data, &s).expect("ok");
}

#[test]
fn verify_installation_fails_when_entry_missing() {
    let data = b"tarball";
    let s = make_integrity(data);
    let err = verify_installation("/tmp/module", false, data, &s).unwrap_err();
    assert!(err.message().contains("not found"));
}

#[test]
fn verify_installation_fails_when_integrity_mismatch() {
    let s = make_integrity(b"original");
    let err = verify_installation("/tmp/module", true, b"tampered", &s).unwrap_err();
    assert!(err.message().contains("mismatch"));
}

#[test]
fn npm_real_integrity_format_round_trip() {
    let data = b"real tarball bytes 0123456789";
    let s = make_integrity(data);
    assert!(s.starts_with("sha512-"));
    assert_eq!(s.len(), "sha512-".len() + 88);
    let (algo, digest) = parse_integrity(&s).expect("parse");
    assert_eq!(algo, "sha512");
    assert_eq!(digest, sha512(data));
}

#[test]
fn integrity_reads_back_padded_and_unpadded_base64() {
    for (text, bytes) in [
        ("sha512-QQ==", b"A".to_vec()),
        ("sha512-QQ", b"A".to_vec()),
        ("sha512-QUI=", b"AB".to_vec()),
        ("sha512-QUI", b"AB".to_vec()),
        ("sha512-QUJD", b"ABC".to_vec()),
        ("sha512-/+8A", vec![0xff, 0xef, 0x00]),
    ] {
        let (algo, digest) = parse_integrity(text).unwrap();
        assert_eq!(algo, "sha512");
        assert_eq!(digest, bytes);
    }
}
