use wzkey::cursor::ByteCursor;
use wzkey::deduce::{deduce_key, try_key};
use wzkey::error::WzError;

/// Obfuscates `plain` under `key` with the running mask: the transform the
/// deducer inverts.
fn obfuscate(plain: &[u8], key: &[u8]) -> Vec<u8> {
    let mut out = Vec::new();
    let mut mask: u8 = 0xAA;
    for (i, &b) in plain.iter().enumerate() {
        out.push(b ^ key[i] ^ mask);
        mask = mask.wrapping_add(1);
    }
    out
}

#[test]
fn try_key_accepts_matching_key() {
    let plain = b"SampleText";
    let key = vec![0x13, 0x37, 0x42, 0x00, 0xFE, 0x01, 0x02, 0x03, 0x04, 0x05];
    let obf = obfuscate(plain, &key);
    assert!(try_key(&obf, &key));
}

#[test]
fn try_key_rejects_wrong_key() {
    let plain = b"SampleTextLongEnough";
    let key = vec![0xFF; 20];
    let wrong = vec![0x00; 20];
    let obf = obfuscate(plain, &key);
    assert!(try_key(&obf, &key));
    assert!(!try_key(&obf, &wrong));
}

#[test]
fn try_key_rejects_short_key() {
    let plain = b"OK";
    let key = vec![0x01, 0x02];
    let obf = obfuscate(plain, &key);
    assert!(!try_key(&obf, &vec![0x01]));
}

#[test]
fn try_key_accepts_empty_sample() {
    assert!(try_key(&vec![], &vec![]));
    assert!(try_key(&vec![], &vec![1, 2, 3]));
}

#[test]
fn deduce_key_selects_first_matching_candidate() {
    let plain = b"OK";
    let key2 = vec![0x01, 0x02];
    let obf = obfuscate(plain, &key2);
    // candidate 0 decrypts the first byte to 0xB1, outside the printable range
    let key1 = vec![0xFF, 0x00];
    let key3 = vec![0x10, 0x10];
    let mut buf = vec![0xFEu8]; // length byte -2
    buf.extend_from_slice(&obf);
    let mut c = ByteCursor::new(buf);
    let keys = vec![key1, key2, key3];
    assert_eq!(deduce_key(&mut c, &keys), Ok(1));
    assert_eq!(c.tell(), 3);
}

#[test]
fn deduce_key_reads_sentinel_length() {
    let plain = b"Abc";
    let key = vec![0x07, 0x07, 0x07];
    let obf = obfuscate(plain, &key);
    let mut buf = vec![0x80u8, 0x03, 0x00, 0x00, 0x00]; // sentinel, length 3
    buf.extend_from_slice(&obf);
    let mut c = ByteCursor::new(buf);
    let keys = vec![key];
    assert_eq!(deduce_key(&mut c, &keys), Ok(0));
    assert_eq!(c.tell(), 8);
}

#[test]
fn deduce_key_rejects_non_negative_length() {
    let mut c = ByteCursor::new(vec![0x05, 0x01, 0x02, 0x03, 0x04, 0x05]);
    let keys = vec![vec![0u8; 8]];
    assert_eq!(deduce_key(&mut c, &keys), Err(WzError::UnexpectedEncoding));
    assert_eq!(c.tell(), 0);
}

#[test]
fn deduce_key_fails_on_empty_buffer() {
    let mut c = ByteCursor::new(vec![]);
    let keys = vec![vec![0u8; 8]];
    assert_eq!(deduce_key(&mut c, &keys), Err(WzError::OutOfBounds));
}

#[test]
fn deduce_key_fails_on_truncated_sample() {
    // length byte promises 5 bytes, only 2 follow
    let mut c = ByteCursor::new(vec![0xFB, 0x01, 0x02]);
    let keys = vec![vec![0u8; 8]];
    assert_eq!(deduce_key(&mut c, &keys), Err(WzError::OutOfBounds));
    assert_eq!(c.tell(), 0);
}

#[test]
fn deduce_key_fails_for_unknown_key() {
    // a sample long enough that a wrong key is sure to trip the check here
    let plain = b"AveryPlainSample";
    let foreign = vec![0xFF; 16];
    let obf = obfuscate(plain, &foreign);
    let mut buf = vec![0xF0u8]; // length byte -16
    buf.extend_from_slice(&obf);
    let mut c = ByteCursor::new(buf);
    let keys = vec![vec![0x00; 16], vec![0x01; 16], vec![0x02; 16]];
    assert_eq!(deduce_key(&mut c, &keys), Err(WzError::KeyDeductionFailed));
    assert_eq!(c.tell(), 0);
}

#[test]
fn deduce_key_empty_sample_matches_first_candidate() {
    // sentinel length of zero: every candidate decrypts an empty sample
    let mut c = ByteCursor::new(vec![0x80, 0x00, 0x00, 0x00, 0x00]);
    let keys = vec![vec![0x55u8; 4], vec![0x66u8; 4]];
    assert_eq!(deduce_key(&mut c, &keys), Ok(0));
    assert_eq!(c.tell(), 5);
}
