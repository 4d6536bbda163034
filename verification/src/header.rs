use vstd::prelude::*;

use crate::codec::{compact_readable, compact_width, u32_le};
use crate::cursor::ByteCursor;
use crate::deduce::{deduce_key, spec_deduce};
use crate::error::WzError;

verus! {

/// The archive signature: the bytes "PKG1" read as a little-endian u32.
pub const MAGIC: u32 = 0x31474B50;

/// The byte offset of the property-tree root, as the header states it.
pub open spec fn header_size_of(buf: Seq<u8>) -> int
    recommends
        buf.len() >= 16,
{
    u32_le(buf.subrange(12, 16))
}

/// Where the cursor rests once the header is parsed: two version/checksum
/// bytes past the property-tree root offset.
pub open spec fn tree_pos(buf: Seq<u8>) -> int
    recommends
        buf.len() >= 16,
{
    header_size_of(buf) + 2
}

/// What parsing the header returns: the index of the deduced candidate key,
/// or the exact failure. The magic number is checked first; then the tree
/// root offset is read from bytes 12..16; then one compact integer (a node
/// count, discarded) and one tag byte are passed over; what remains is key
/// deduction over the sample string behind them.
pub open spec fn spec_parse_header(buf: Seq<u8>, keys: Seq<Seq<u8>>) -> Result<int, WzError> {
    if buf.len() < 4 {
        Err(WzError::OutOfBounds)
    } else if u32_le(buf.subrange(0, 4)) != MAGIC {
        Err(WzError::InvalidMagic)
    } else if buf.len() < 16 {
        Err(WzError::OutOfBounds)
    } else if !compact_readable(buf, tree_pos(buf)) {
        Err(WzError::OutOfBounds)
    } else {
        spec_deduce(buf, tree_pos(buf) + compact_width(buf, tree_pos(buf)) + 1, keys)
    }
}

/// Law: a buffer whose first four bytes are not the archive signature always
/// fails with InvalidMagic, whatever follows them and whatever the candidate
/// set holds: no later field takes part in the outcome.
pub proof fn lemma_invalid_magic(buf: Seq<u8>, keys: Seq<Seq<u8>>)
    requires
        buf.len() >= 4,
        u32_le(buf.subrange(0, 4)) != MAGIC,
    ensures
        spec_parse_header(buf, keys) == Err::<int, WzError>(WzError::InvalidMagic),
{
}

/// A parsing session over one archive: it owns the cursor and the ordered
/// candidate key table, validates the fixed-layout header, and deduces which
/// candidate decrypts the archive's strings.
pub struct HeaderParser {
    cursor: ByteCursor,
    keys: Vec<Vec<u8>>,
    start: u32,
    key_index: usize,
}

impl HeaderParser {
    /// The bytes of the archive.
    pub closed spec fn data(&self) -> Seq<u8> {
        self.cursor.data()
    }

    /// The candidate keys, in the order they are tried.
    pub closed spec fn keys_view(&self) -> Seq<Seq<u8>> {
        self.keys@.map_values(|candidate: Vec<u8>| candidate@)
    }

    /// The cursor's position.
    pub closed spec fn position(&self) -> int {
        self.cursor.position()
    }

    /// The recorded property-tree root offset.
    pub closed spec fn header_start(&self) -> int {
        self.start as int
    }

    /// The index of the deduced key among the candidates.
    pub closed spec fn key_index(&self) -> int {
        self.key_index as int
    }

    /// Well-formedness: the candidate table is never empty and the recorded
    /// key index points into it.
    pub closed spec fn wf(&self) -> bool {
        self.keys@.len() > 0 && (self.key_index as int) < self.keys@.len()
    }

    /// Starts a session over `buf` with the ordered candidate key table
    /// `keys`. Until deduction succeeds the deduced key defaults to the
    /// first candidate.
    pub fn new(buf: Vec<u8>, keys: Vec<Vec<u8>>) -> (p: HeaderParser)
        requires
            keys@.len() > 0,
        ensures
            p.wf(),
            p.data() == buf@,
            p.keys_view() == keys@.map_values(|candidate: Vec<u8>| candidate@),
            p.position() == 0,
            p.header_start() == 0,
            p.key_index() == 0,
    {
        HeaderParser { cursor: ByteCursor::new(buf), keys, start: 0, key_index: 0 }
    }

    /// Parses the archive from its first byte: validates the magic number,
    /// reads the property-tree root offset, passes over the node count and
    /// tag byte, deduces the key from the sample string behind them, and
    /// leaves the cursor back at the tree root, ready for the tree walk.
    /// Returns the index of the deduced candidate key. On failure the
    /// session's recorded state is untouched and the cursor rests back at
    /// the start of the buffer.
    pub fn parse_header(&mut self) -> (r: Result<usize, WzError>)
        requires
            old(self).wf(),
        ensures
            final(self).wf(),
            final(self).data() == old(self).data(),
            final(self).keys_view() == old(self).keys_view(),
            (match r {
                Ok(k) => Ok(k as int),
                Err(e) => Err(e),
            }) == spec_parse_header(old(self).data(), old(self).keys_view()),
            (match r {
                Ok(k) => final(self).position() == tree_pos(old(self).data())
                    && final(self).key_index() == k as int
                    && final(self).header_start() == header_size_of(old(self).data()),
                Err(_) => final(self).position() == 0
                    && final(self).key_index() == old(self).key_index()
                    && final(self).header_start() == old(self).header_start(),
            }),
    {
        self.cursor.seek(0);
        let magic: u32 = match self.cursor.read_u32_le() {
            Ok(v) => v,
            Err(e) => {
                return Err(e);
            },
        };
        if magic != MAGIC {
            self.cursor.seek(0);
            return Err(WzError::InvalidMagic);
        }
        self.cursor.skip(8);
        let hs: u32 = match self.cursor.read_u32_le() {
            Ok(v) => v,
            Err(e) => {
                self.cursor.seek(0);
                return Err(e);
            },
        };
        let blen: usize = self.cursor.len();
        let start_offset: usize = hs as usize;
        if start_offset > usize::MAX - 2 {
            // the tree root would lie past the end of any addressable buffer
            self.cursor.seek(0);
            return Err(WzError::OutOfBounds);
        }
        let t: usize = start_offset + 2;
        self.cursor.seek(t);
        match self.cursor.read_compact_int() {
            Ok(_) => {},
            Err(e) => {
                self.cursor.seek(0);
                return Err(e);
            },
        };
        self.cursor.skip(1);
        proof {
            let buf = old(self).data();
            let p = tree_pos(buf) + compact_width(buf, tree_pos(buf)) + 1;
            if p > usize::MAX {
                assert(spec_deduce(buf, p, old(self).keys_view()) == Err::<int, WzError>(
                    WzError::OutOfBounds,
                ));
                assert(spec_deduce(buf, usize::MAX as int, old(self).keys_view()) == Err::<
                    int,
                    WzError,
                >(WzError::OutOfBounds));
            }
        }
        let k: usize = match deduce_key(&mut self.cursor, &self.keys) {
            Ok(k) => k,
            Err(e) => {
                self.cursor.seek(0);
                return Err(e);
            },
        };
        self.start = hs;
        self.key_index = k;
        self.cursor.seek(t);
        Ok(k)
    }

    /// The deduced key's index among the candidates.
    pub fn deduced_key_index(&self) -> (r: usize)
        ensures
            r == self.key_index(),
    {
        self.key_index
    }

    /// The deduced key's bytes.
    pub fn deduced_key(&self) -> (r: &Vec<u8>)
        requires
            self.wf(),
        ensures
            r@ == self.keys_view()[self.key_index()],
    {
        proof {
            assert(self.keys_view()[self.key_index()] == self.keys@[self.key_index as int]@);
        }
        &self.keys[self.key_index]
    }

    /// The property-tree root offset read from the header.
    pub fn start(&self) -> (r: u32)
        ensures
            r as int == self.header_start(),
    {
        self.start
    }

    /// The cursor's position.
    pub fn tell(&self) -> (r: usize)
        ensures
            r == self.position(),
    {
        self.cursor.tell()
    }
}

} // verus!
