use wzkey::error::WzError;
use wzkey::header::{HeaderParser, MAGIC};

fn obfuscate(plain: &[u8], key: &[u8]) -> Vec<u8> {
    let mut out = Vec::new();
    let mut mask: u8 = 0xAA;
    for (i, &b) in plain.iter().enumerate() {
        out.push(b ^ key[i] ^ mask);
        mask = mask.wrapping_add(1);
    }
    out
}

fn some_keys() -> Vec<Vec<u8>> {
    vec![vec![0xFF, 0x00], vec![0x01, 0x02], vec![0x10, 0x10]]
}

#[test]
fn magic_constant_reads_as_pkg1() {
    assert_eq!(MAGIC, u32::from_le_bytes(*b"PKG1"));
}

#[test]
fn invalid_magic_is_rejected_first() {
    // plenty of bytes, but the signature is wrong: nothing else is looked at
    let mut buf = vec![0x50, 0x4B, 0x47, 0x32]; // "PKG2"
    buf.extend_from_slice(&[0u8; 60]);
    let mut p = HeaderParser::new(buf, some_keys());
    assert_eq!(p.parse_header(), Err(WzError::InvalidMagic));
    // the session's recorded state is untouched by a failed parse
    assert_eq!(p.tell(), 0);
    assert_eq!(p.start(), 0);
    assert_eq!(p.deduced_key_index(), 0);
}

#[test]
fn short_buffer_is_out_of_bounds() {
    let mut p = HeaderParser::new(vec![0x50, 0x4B], some_keys());
    assert_eq!(p.parse_header(), Err(WzError::OutOfBounds));
}

#[test]
fn missing_header_size_is_out_of_bounds() {
    // valid magic, but the buffer ends before the tree root offset
    let mut buf = vec![0x50, 0x4B, 0x47, 0x31];
    buf.extend_from_slice(&[0u8; 8]);
    let mut p = HeaderParser::new(buf, some_keys());
    assert_eq!(p.parse_header(), Err(WzError::OutOfBounds));
}

#[test]
fn header_size_past_end_is_out_of_bounds() {
    let mut buf = vec![0x50, 0x4B, 0x47, 0x31];
    buf.extend_from_slice(&[0u8; 8]); // reserved
    buf.extend_from_slice(&0x1000u32.to_le_bytes()); // tree root far past the end
    let mut p = HeaderParser::new(buf, some_keys());
    assert_eq!(p.parse_header(), Err(WzError::OutOfBounds));
}

#[test]
fn end_to_end_selects_second_candidate() {
    let keys = some_keys();
    let obf = obfuscate(b"OK", &keys[1]);
    let mut buf = vec![0x50, 0x4B, 0x47, 0x31]; // magic "PKG1"
    buf.extend_from_slice(&[0u8; 8]); // reserved
    buf.extend_from_slice(&0x20u32.to_le_bytes()); // headerSize = 0x20
    buf.extend_from_slice(&[0u8; 0x22 - 0x10]); // padding up to headerSize + 2
    buf.push(0x05); // compact int, discarded
    buf.push(0x03); // node-type tag byte, skipped
    buf.push(0xFE); // sample length byte: -2
    buf.extend_from_slice(&obf);
    assert_eq!(buf.len(), 0x27);

    let mut p = HeaderParser::new(buf, keys);
    assert_eq!(p.parse_header(), Ok(1));
    assert_eq!(p.tell(), 0x22);
    assert_eq!(p.start(), 0x20);
    assert_eq!(p.deduced_key_index(), 1);
    assert_eq!(p.deduced_key(), &vec![0x01, 0x02]);
}

#[test]
fn unknown_key_fails_end_to_end() {
    let foreign = vec![0x99; 16];
    let obf = obfuscate(b"AveryPlainSample", &foreign);
    let mut buf = vec![0x50, 0x4B, 0x47, 0x31];
    buf.extend_from_slice(&[0u8; 8]);
    buf.extend_from_slice(&0x10u32.to_le_bytes()); // tree root right after the fixed header
    buf.extend_from_slice(&[0u8; 2]); // version/checksum bytes
    buf.push(0x00); // compact int, discarded
    buf.push(0x01); // tag byte
    buf.push(0xF0); // sample length byte: -16
    buf.extend_from_slice(&obf);
    let keys = vec![vec![0x00; 16], vec![0x01; 16], vec![0x02; 16]];
    let mut p = HeaderParser::new(buf, keys);
    assert_eq!(p.parse_header(), Err(WzError::KeyDeductionFailed));
    assert_eq!(p.tell(), 0);
    assert_eq!(p.start(), 0);
}

#[test]
fn encrypted_sample_required() {
    let mut buf = vec![0x50, 0x4B, 0x47, 0x31];
    buf.extend_from_slice(&[0u8; 8]);
    buf.extend_from_slice(&0x10u32.to_le_bytes());
    buf.extend_from_slice(&[0u8; 2]);
    buf.push(0x00); // compact int
    buf.push(0x01); // tag byte
    buf.push(0x02); // non-negative length byte: not an encrypted string
    buf.extend_from_slice(&[0x41, 0x42]);
    let mut p = HeaderParser::new(buf, some_keys());
    assert_eq!(p.parse_header(), Err(WzError::UnexpectedEncoding));
}

#[test]
fn error_descriptions() {
    assert_eq!(WzError::OutOfBounds.describe(), "read past end of buffer");
    assert_eq!(WzError::InvalidMagic.describe(), "not a valid WZ file");
    assert_eq!(
        WzError::UnexpectedEncoding.describe(),
        "sample string length was not negative"
    );
    assert_eq!(WzError::KeyDeductionFailed.describe(), "failed to deduce key");
}
