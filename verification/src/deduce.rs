use vstd::prelude::*;

use crate::codec::{i8_of, u32_le};
use crate::cursor::ByteCursor;
use crate::error::WzError;

verus! {

/// Whether `b` is printable ASCII: the range a correctly decrypted sample
/// byte must land in.
pub open spec fn printable(b: u8) -> bool {
    0x20 <= b && b < 0x80
}

/// The running mask byte at index `i`: it starts at 0xAA and increments by
/// one per processed byte, wrapping modulo 256.
pub open spec fn mask_at(i: int) -> u8
    recommends
        0 <= i,
{
    ((0xAA + i) % 0x100) as u8
}

/// Whether `key` decrypts the obfuscated `sample` to printable ASCII
/// throughout. A key shorter than the sample has no byte to offer at some
/// index and never matches.
pub open spec fn key_matches(sample: Seq<u8>, key: Seq<u8>) -> bool {
    &&& key.len() >= sample.len()
    &&& forall|i: int| 0 <= i < sample.len() ==> printable((sample[i] ^ key[i]) ^ mask_at(i))
}

/// The index of the first candidate at or after `k` that matches `sample`.
pub open spec fn first_match_from(sample: Seq<u8>, keys: Seq<Seq<u8>>, k: int) -> Option<int>
    decreases keys.len() - k,
{
    if k < 0 || k >= keys.len() {
        None
    } else if key_matches(sample, keys[k]) {
        Some(k)
    } else {
        first_match_from(sample, keys, k + 1)
    }
}

/// The index of the first candidate key that matches `sample`: candidate
/// order decides ties, the earliest plausible match wins.
pub open spec fn first_match(sample: Seq<u8>, keys: Seq<Seq<u8>>) -> Option<int> {
    first_match_from(sample, keys, 0)
}

/// Skipping candidates that do not match leaves the first match unchanged.
proof fn lemma_first_match_skip(sample: Seq<u8>, keys: Seq<Seq<u8>>, k: int)
    requires
        0 <= k <= keys.len(),
        forall|j: int| 0 <= j < k ==> !key_matches(sample, keys[j]),
    ensures
        first_match(sample, keys) == first_match_from(sample, keys, k),
    decreases k,
{
    if k > 0 {
        lemma_first_match_skip(sample, keys, k - 1);
    }
}

/// A matching candidate preceded only by non-matching ones is the first match.
pub proof fn lemma_first_match_is(sample: Seq<u8>, keys: Seq<Seq<u8>>, k: int)
    requires
        0 <= k < keys.len(),
        key_matches(sample, keys[k]),
        forall|j: int| 0 <= j < k ==> !key_matches(sample, keys[j]),
    ensures
        first_match(sample, keys) == Some(k),
{
    lemma_first_match_skip(sample, keys, k);
}

/// When no candidate matches, there is no first match.
pub proof fn lemma_first_match_none(sample: Seq<u8>, keys: Seq<Seq<u8>>)
    requires
        forall|j: int| 0 <= j < keys.len() ==> !key_matches(sample, keys[j]),
    ensures
        first_match(sample, keys) is None,
{
    lemma_first_match_skip(sample, keys, keys.len() as int);
}

/// Starting anywhere at or before a matching candidate, the search finds a
/// matching candidate no later than it.
proof fn lemma_first_match_from_finds(sample: Seq<u8>, keys: Seq<Seq<u8>>, i: int, k0: int)
    requires
        0 <= i <= k0 < keys.len(),
        key_matches(sample, keys[k0]),
    ensures
        (match first_match_from(sample, keys, i) {
            Some(j) => i <= j <= k0 && key_matches(sample, keys[j]),
            None => false,
        }),
    decreases k0 - i,
{
    if !key_matches(sample, keys[i]) {
        lemma_first_match_from_finds(sample, keys, i + 1, k0);
    }
}

/// Law: obfuscating a printable sample with a candidate key and the running
/// mask yields exactly the transform the deducer inverts. The same key
/// decrypts the result back to the original sample, so deduction over a
/// candidate set containing the key succeeds, selecting a matching candidate
/// no later than it (an earlier candidate that also decrypts the sample to
/// printable text wins the tie instead).
pub proof fn lemma_key_deduction_correct(
    s: Seq<u8>,
    key: Seq<u8>,
    obf: Seq<u8>,
    keys: Seq<Seq<u8>>,
    k0: int,
) -> (k: int)
    requires
        key.len() >= s.len(),
        obf.len() == s.len(),
        forall|i: int| 0 <= i < s.len() ==> printable(s[i]),
        forall|i: int| 0 <= i < s.len() ==> obf[i] == (s[i] ^ key[i]) ^ mask_at(i),
        0 <= k0 < keys.len(),
        keys[k0] == key,
    ensures
        forall|i: int| 0 <= i < s.len() ==> (obf[i] ^ key[i]) ^ mask_at(i) == s[i],
        key_matches(obf, key),
        first_match(obf, keys) == Some(k),
        0 <= k <= k0,
        key_matches(obf, keys[k]),
{
    assert forall|i: int| 0 <= i < s.len() implies (obf[i] ^ key[i]) ^ mask_at(i) == s[i] by {
        let a = s[i];
        let b = key[i];
        let m = mask_at(i);
        assert((((a ^ b) ^ m) ^ b) ^ m == a) by (bit_vector);
    }
    lemma_first_match_from_finds(obf, keys, 0, k0);
    match first_match(obf, keys) {
        Some(j) => j,
        None => 0,
    }
}

/// Where the sample's data bytes start, for a sample region at `pos`: one
/// byte past the length prefix, or five when the prefix is the sentinel -128.
pub open spec fn sample_data_pos(buf: Seq<u8>, pos: int) -> int
    recommends
        0 <= pos < buf.len(),
{
    if i8_of(buf[pos]) == -128 {
        pos + 5
    } else {
        pos + 1
    }
}

/// The byte length of the sample: the magnitude of the negative length
/// prefix, or the full unsigned 32-bit word after the sentinel -128.
pub open spec fn sample_len(buf: Seq<u8>, pos: int) -> int
    recommends
        0 <= pos < buf.len(),
        i8_of(buf[pos]) < 0,
{
    if i8_of(buf[pos]) == -128 {
        u32_le(buf.subrange(pos + 1, pos + 5))
    } else {
        -i8_of(buf[pos])
    }
}

/// What key deduction returns on a buffer whose sample region starts at
/// `pos`: the index of the first candidate that decrypts the sample to
/// printable ASCII throughout, or the exact failure. The length prefix must
/// be negative, the mark of an encrypted string; every incomplete read is
/// out of bounds; a sample no candidate matches leaves the key undeduced.
pub open spec fn spec_deduce(buf: Seq<u8>, pos: int, keys: Seq<Seq<u8>>) -> Result<int, WzError> {
    if pos < 0 || pos + 1 > buf.len() {
        Err(WzError::OutOfBounds)
    } else if i8_of(buf[pos]) >= 0 {
        Err(WzError::UnexpectedEncoding)
    } else if i8_of(buf[pos]) == -128 && pos + 5 > buf.len() {
        Err(WzError::OutOfBounds)
    } else if sample_data_pos(buf, pos) + sample_len(buf, pos) > buf.len() {
        Err(WzError::OutOfBounds)
    } else {
        let sample = buf.subrange(
            sample_data_pos(buf, pos),
            sample_data_pos(buf, pos) + sample_len(buf, pos),
        );
        match first_match(sample, keys) {
            Some(k) => Ok(k),
            None => Err(WzError::KeyDeductionFailed),
        }
    }
}

/// The next mask byte comes from the current one by a wrapping increment.
proof fn lemma_mask_step(i: int)
    requires
        0 <= i,
    ensures
        mask_at(i + 1) == if mask_at(i) == 0xff {
            0u8
        } else {
            (mask_at(i) + 1) as u8
        },
{
    vstd::arithmetic::div_mod::lemma_add_mod_noop(0xAA + i, 1, 0x100);
}

/// Tests one candidate: XOR-decrypts `sample` under `key` with the running
/// mask and reports whether every byte lands in the printable ASCII range.
/// Stops at the first byte that does not.
pub fn try_key(sample: &Vec<u8>, key: &Vec<u8>) -> (r: bool)
    ensures
        r == key_matches(sample@, key@),
{
    if key.len() < sample.len() {
        return false;
    }
    let mut i: usize = 0;
    let mut mask: u8 = 0xAA;
    while i < sample.len()
        invariant
            i <= sample@.len(),
            key@.len() >= sample@.len(),
            mask == mask_at(i as int),
            forall|j: int| 0 <= j < i ==> printable((sample@[j] ^ key@[j]) ^ mask_at(j)),
        decreases sample@.len() - i,
    {
        let c: u8 = (sample[i] ^ key[i]) ^ mask;
        if c < 0x20 || c >= 0x80 {
            assert(!printable((sample@[i as int] ^ key@[i as int]) ^ mask_at(i as int)));
            return false;
        }
        proof {
            lemma_mask_step(i as int);
        }
        mask = if mask == 0xff {
            0
        } else {
            mask + 1
        };
        i = i + 1;
    }
    true
}

/// Deduces the key: reads the length-prefixed encrypted sample at the current
/// position and returns the index of the first candidate in `keys` that
/// decrypts it to printable ASCII throughout. On success the cursor rests
/// just past the sample; on failure it is back where it started.
#[verifier::loop_isolation(false)]
pub fn deduce_key(cursor: &mut ByteCursor, keys: &Vec<Vec<u8>>) -> (r: Result<usize, WzError>)
    ensures
        final(cursor).data() == old(cursor).data(),
        (match r {
            Ok(k) => Ok(k as int),
            Err(e) => Err(e),
        }) == spec_deduce(
            old(cursor).data(),
            old(cursor).position(),
            keys@.map_values(|candidate: Vec<u8>| candidate@),
        ),
        (r matches Ok(k) ==> k < keys@.len()),
        r is Ok ==> final(cursor).position() == sample_data_pos(
            old(cursor).data(),
            old(cursor).position(),
        ) + sample_len(old(cursor).data(), old(cursor).position()),
        r is Err ==> final(cursor).position() == old(cursor).position(),
{
    let ghost keysv = keys@.map_values(|candidate: Vec<u8>| candidate@);
    let start: usize = cursor.tell();
    let len_byte: i8 = match cursor.read_i8() {
        Ok(v) => v,
        Err(e) => {
            return Err(e);
        },
    };
    if len_byte >= 0 {
        cursor.seek(start);
        return Err(WzError::UnexpectedEncoding);
    }
    let slen: usize = if len_byte == -128 {
        match cursor.read_u32_le() {
            Ok(v) => v as usize,
            Err(e) => {
                cursor.seek(start);
                return Err(e);
            },
        }
    } else {
        (-(len_byte as i32)) as usize
    };
    let sample: Vec<u8> = match cursor.read_bytes(slen) {
        Ok(v) => v,
        Err(e) => {
            cursor.seek(start);
            return Err(e);
        },
    };
    let mut k: usize = 0;
    while k < keys.len()
        invariant
            k <= keysv.len(),
            keysv == keys@.map_values(|candidate: Vec<u8>| candidate@),
            forall|j: int| 0 <= j < k ==> !key_matches(sample@, keysv[j]),
        decreases keysv.len() - k,
    {
        proof {
            assert(keysv[k as int] == keys@[k as int]@);
        }
        if try_key(&sample, &keys[k]) {
            proof {
                lemma_first_match_is(sample@, keysv, k as int);
            }
            return Ok(k);
        }
        k = k + 1;
    }
    proof {
        lemma_first_match_none(sample@, keysv);
    }
    cursor.seek(start);
    Err(WzError::KeyDeductionFailed)
}

} // verus!
