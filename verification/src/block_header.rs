use vstd::prelude::*;
use vstd::bytes::{spec_u32_to_le_bytes, u32_from_le_bytes, u32_to_le_bytes,
    lemma_auto_spec_u32_to_from_le_bytes};
use vstd::slice::slice_subrange;
use sha2::Digest;
use crate::clock;

verus! {

broadcast use vstd::array::group_array_axioms;

/// The process-wide difficulty target: a header is valid when its double-SHA-256
/// hash, read most-significant byte first, is lexicographically at most this value.
pub open spec fn spec_difficulty_target() -> Seq<u8> {
    Seq::new(32, |i: int| if i == 0 { 0x00u8 } else if i == 1 { 0x01u8 } else { 0xffu8 })
}

/// The all-zero 32-byte value: the previous-hash field of a genesis header, and
/// the merkle-root field of every header (no transactions are modeled).
pub open spec fn spec_zero_hash() -> Seq<u8> {
    Seq::new(32, |i: int| 0u8)
}

/// The executable form of the difficulty target.
pub fn difficulty_target() -> (t: [u8; 32])
    ensures
        t@ == spec_difficulty_target(),
{
    let mut t: [u8; 32] = [0xffu8; 32];
    t[0] = 0x00;
    t[1] = 0x01;
    proof {
        assert(t@ =~= spec_difficulty_target());
    }
    t
}

/// Why a byte string was rejected by the decoder.
#[derive(Clone, Copy, Debug, PartialEq, Eq, Structural)]
pub enum DecodeError {
    /// The input is not exactly 108 bytes long.
    InvalidEncoding,
}

/// One block header, the unit of chain progress; exactly 108 bytes on the wire.
#[verifier::ext_equal]
#[derive(Clone, Copy, Debug)]
pub struct BlockHeader {
    /// The version of the block header layout; always 4 here.
    pub version: i32,
    /// The double-SHA-256 hash of the previous header's wire form, or all zero
    /// for a genesis header.
    pub prev_block_hash: [u8; 32],
    /// The merkle root of the transactions; always zero-filled here.
    pub merkle_root: [u8; 32],
    /// Seconds since the Unix epoch at creation.
    pub time: u32,
    /// The difficulty target this header was mined against.
    pub difficulty: [u8; 32],
    /// The proof-of-work search counter.
    pub nonce: u32,
}

/// The unsigned 32-bit value whose little-endian bytes encode `v` on the wire.
pub open spec fn spec_version_bits(v: i32) -> u32 {
    if v >= 0 {
        v as u32
    } else {
        (v + 0x1_0000_0000) as u32
    }
}

/// The signed 32-bit value read back from the wire representation `u`.
pub open spec fn spec_version_from_bits(u: u32) -> i32 {
    if u < 0x8000_0000 {
        u as i32
    } else {
        (u - 0x1_0000_0000) as i32
    }
}

/// The 108-byte wire form of a header: little-endian integers, raw byte arrays.
pub open spec fn spec_serialize(h: BlockHeader) -> Seq<u8> {
    spec_u32_to_le_bytes(spec_version_bits(h.version)) + h.prev_block_hash@ + h.merkle_root@
        + spec_u32_to_le_bytes(h.time) + h.difficulty@ + spec_u32_to_le_bytes(h.nonce)
}

pub proof fn lemma_serialize_len(h: BlockHeader)
    ensures
        spec_serialize(h).len() == 108,
{
    lemma_auto_spec_u32_to_from_le_bytes();
}

fn version_bits(v: i32) -> (u: u32)
    ensures
        u == spec_version_bits(v),
{
    if v >= 0 {
        v as u32
    } else {
        ((v as i64) + 0x1_0000_0000i64) as u32
    }
}

fn version_from_bits(u: u32) -> (v: i32)
    ensures
        v == spec_version_from_bits(u),
        spec_version_bits(v) == u,
{
    if u < 0x8000_0000 {
        u as i32
    } else {
        ((u as i64) - 0x1_0000_0000i64) as i32
    }
}

/// Appends all 32 bytes of `a` to `out`.
fn append_bytes32(out: &mut Vec<u8>, a: &[u8; 32])
    ensures
        final(out)@ == old(out)@ + a@,
{
    let mut i: usize = 0;
    while i < 32
        invariant
            i <= 32,
            out@.len() == old(out)@.len() + i,
            out@ =~= old(out)@ + a@.take(i as int),
        decreases 32 - i,
    {
        let b: u8 = a[i];
        out.push(b);
        i = i + 1;
    }
    proof {
        assert(out@ =~= old(out)@ + a@);
    }
}

/// Copies 32 bytes out of `bytes` starting at `start`.
fn copy_bytes32(bytes: &[u8], start: usize) -> (a: [u8; 32])
    requires
        start + 32 <= bytes@.len(),
    ensures
        a@ == bytes@.subrange(start as int, start as int + 32),
{
    let mut a: [u8; 32] = [0u8; 32];
    let total: usize = bytes.len();
    let mut i: usize = 0;
    while i < 32
        invariant
            start + 32 <= total,
            total == bytes@.len(),
            i <= 32,
            forall|j: int| 0 <= j < i ==> a@[j] == bytes@[start + j],
        decreases 32 - i,
    {
        a[i] = bytes[start + i];
        i = i + 1;
    }
    proof {
        assert(a@ =~= bytes@.subrange(start as int, start as int + 32));
    }
    a
}

/// True when the 32 bytes of `a` and `b` are equal.
fn bytes32_equal(a: &[u8; 32], b: &[u8; 32]) -> (r: bool)
    ensures
        r == (a@ == b@),
{
    let mut i: usize = 0;
    while i < 32
        invariant
            i <= 32,
            forall|j: int| 0 <= j < i ==> a@[j] == b@[j],
        decreases 32 - i,
    {
        if a[i] != b[i] {
            return false;
        }
        i = i + 1;
    }
    proof {
        assert(a@ =~= b@);
    }
    true
}

impl PartialEq for BlockHeader {
    fn eq(&self, other: &Self) -> bool {
        let r = self.version == other.version && bytes32_equal(&self.prev_block_hash,
            &other.prev_block_hash) && bytes32_equal(&self.merkle_root, &other.merkle_root)
            && self.time == other.time && bytes32_equal(&self.difficulty, &other.difficulty)
            && self.nonce == other.nonce;
        proof {
            if self.prev_block_hash@ == other.prev_block_hash@ {
                assert(self.prev_block_hash =~= other.prev_block_hash);
            }
            if self.merkle_root@ == other.merkle_root@ {
                assert(self.merkle_root =~= other.merkle_root);
            }
            if self.difficulty@ == other.difficulty@ {
                assert(self.difficulty =~= other.difficulty);
            }
            if r {
                assert(*self =~= *other);
            }
        }
        r
    }
}

impl vstd::std_specs::cmp::PartialEqSpecImpl for BlockHeader {
    open spec fn obeys_eq_spec() -> bool {
        true
    }

    open spec fn eq_spec(&self, other: &Self) -> bool {
        *self == *other
    }
}

impl Eq for BlockHeader {}

/// What the SHA-256 compression of a byte string is; a function of the bytes
/// alone, left without a definition and fixed only by the trusted `sha256`.
pub uninterp spec fn spec_sha256(data: Seq<u8>) -> Seq<u8>;

/// Relies on sha2::Sha256::digest: the 32-byte SHA-256 digest of the input,
/// a function of the input bytes alone.
#[verifier::external_body]
fn sha256(data: &[u8]) -> (r: [u8; 32])
    ensures
        r@ == spec_sha256(data@),
{
    sha2::Sha256::digest(data).into()
}

/// The double-SHA-256 hash of a header's wire form.
pub open spec fn spec_hash(h: BlockHeader) -> Seq<u8> {
    spec_sha256(spec_sha256(spec_serialize(h)))
}

/// Lexicographic comparison of byte strings, most-significant byte first:
/// true at the first position where `a` is below `b`, false at the first
/// position where it is above, and true when all compared bytes are equal.
pub open spec fn spec_bytes_at_most(a: Seq<u8>, b: Seq<u8>) -> bool
    decreases a.len(),
{
    if a.len() == 0 || b.len() == 0 {
        true
    } else if a[0] < b[0] {
        true
    } else if a[0] > b[0] {
        false
    } else {
        spec_bytes_at_most(a.skip(1), b.skip(1))
    }
}

/// A header meets difficulty when its hash is at most the fixed target.
pub open spec fn spec_meets_difficulty(h: BlockHeader) -> bool {
    spec_bytes_at_most(spec_hash(h), spec_difficulty_target())
}

/// Skipping an equal prefix does not change the lexicographic comparison.
proof fn lemma_bytes_at_most_skip_prefix(a: Seq<u8>, b: Seq<u8>, i: int)
    requires
        0 <= i <= a.len(),
        i <= b.len(),
        forall|j: int| 0 <= j < i ==> a[j] == b[j],
    ensures
        spec_bytes_at_most(a, b) == spec_bytes_at_most(a.skip(i), b.skip(i)),
    decreases i,
{
    if i > 0 {
        assert(a[0] == b[0]);
        assert forall|j: int| 0 <= j < i - 1 implies a.skip(1)[j] == b.skip(1)[j] by {
            assert(a.skip(1)[j] == a[j + 1]);
            assert(b.skip(1)[j] == b[j + 1]);
        }
        lemma_bytes_at_most_skip_prefix(a.skip(1), b.skip(1), i - 1);
        assert(a.skip(1).skip(i - 1) =~= a.skip(i));
        assert(b.skip(1).skip(i - 1) =~= b.skip(i));
    } else {
        assert(a.skip(0) =~= a);
        assert(b.skip(0) =~= b);
    }
}

impl BlockHeader {
    /// Builds a header for the given predecessor hash and creation time:
    /// version 4, zero merkle root, the fixed difficulty target, nonce 0.
    pub fn new_at(prev_block_hash: [u8; 32], time: u32) -> (h: BlockHeader)
        ensures
            h.version == 4,
            h.prev_block_hash == prev_block_hash,
            h.merkle_root@ == spec_zero_hash(),
            h.time == time,
            h.difficulty@ == spec_difficulty_target(),
            h.nonce == 0,
    {
        let merkle_root: [u8; 32] = [0u8; 32];
        proof {
            assert(merkle_root@ =~= spec_zero_hash());
        }
        BlockHeader {
            version: 0x04,
            prev_block_hash,
            merkle_root,
            time,
            difficulty: difficulty_target(),
            nonce: 0,
        }
    }

    /// Builds a header for the given predecessor hash, timestamped with the
    /// wall clock; apart from the time field it is fixed as in `new_at`.
    pub fn new(prev_block_hash: [u8; 32]) -> (h: BlockHeader)
        ensures
            h.version == 4,
            h.prev_block_hash == prev_block_hash,
            h.merkle_root@ == spec_zero_hash(),
            h.difficulty@ == spec_difficulty_target(),
            h.nonce == 0,
    {
        Self::new_at(prev_block_hash, clock::unix_time_secs())
    }

    /// Hashes the serialized header twice with SHA-256.
    pub fn hash(&self) -> (r: [u8; 32])
        ensures
            r@ == spec_hash(*self),
    {
        let serialized = self.serialize();
        let first = sha256(serialized.as_slice());
        sha256(first.as_slice())
    }

    /// Serializes the header into its 108-byte wire form.
    pub fn serialize(&self) -> (out: Vec<u8>)
        ensures
            out@ == spec_serialize(*self),
            out@.len() == 108,
    {
        let mut out: Vec<u8> = Vec::new();
        let mut ver = u32_to_le_bytes(version_bits(self.version));
        out.append(&mut ver);
        append_bytes32(&mut out, &self.prev_block_hash);
        append_bytes32(&mut out, &self.merkle_root);
        let mut time = u32_to_le_bytes(self.time);
        out.append(&mut time);
        append_bytes32(&mut out, &self.difficulty);
        let mut nonce = u32_to_le_bytes(self.nonce);
        out.append(&mut nonce);
        proof {
            lemma_serialize_len(*self);
            assert(out@ =~= spec_serialize(*self));
        }
        out
    }

    /// Decodes a header from its wire form; rejects exactly the inputs whose
    /// length is not 108 bytes, and otherwise returns the unique header whose
    /// serialization is the input.
    pub fn from_bytes(bytes: &[u8]) -> (r: Result<BlockHeader, DecodeError>)
        ensures
            r is Ok <==> bytes@.len() == 108,
            r matches Ok(h) ==> spec_serialize(h) == bytes@,
            r matches Err(e) ==> e == DecodeError::InvalidEncoding,
    {
        if bytes.len() != 108 {
            return Err(DecodeError::InvalidEncoding);
        }
        proof {
            lemma_auto_spec_u32_to_from_le_bytes();
        }
        let version = version_from_bits(u32_from_le_bytes(slice_subrange(bytes, 0, 4)));
        let prev_block_hash = copy_bytes32(bytes, 4);
        let merkle_root = copy_bytes32(bytes, 36);
        let time = u32_from_le_bytes(slice_subrange(bytes, 68, 72));
        let difficulty = copy_bytes32(bytes, 72);
        let nonce = u32_from_le_bytes(slice_subrange(bytes, 104, 108));
        let h = BlockHeader { version, prev_block_hash, merkle_root, time, difficulty, nonce };
        proof {
            assert(spec_serialize(h) =~= bytes@);
        }
        Ok(h)
    }

    /// Compares the header's hash byte by byte against the fixed difficulty
    /// target, most-significant byte first; ties continue to the next byte,
    /// and exhausting all bytes counts as meeting difficulty.
    pub fn is_less_than_difficulty(&self) -> (r: bool)
        ensures
            r == spec_meets_difficulty(*self),
    {
        let hash = self.hash();
        let target = difficulty_target();
        let mut i: usize = 0;
        while i < 32
            invariant
                i <= 32,
                hash@ == spec_hash(*self),
                target@ == spec_difficulty_target(),
                forall|j: int| 0 <= j < i ==> hash@[j] == target@[j],
            decreases 32 - i,
        {
            let h: u8 = hash[i];
            let d: u8 = target[i];
            if h < d {
                proof {
                    lemma_bytes_at_most_skip_prefix(hash@, target@, i as int);
                    assert(hash@.skip(i as int)[0] == hash@[i as int]);
                    assert(target@.skip(i as int)[0] == target@[i as int]);
                }
                return true;
            }
            if h > d {
                proof {
                    lemma_bytes_at_most_skip_prefix(hash@, target@, i as int);
                    assert(hash@.skip(i as int)[0] == hash@[i as int]);
                    assert(target@.skip(i as int)[0] == target@[i as int]);
                }
                return false;
            }
            i = i + 1;
        }
        proof {
            lemma_bytes_at_most_skip_prefix(hash@, target@, 32);
        }
        true
    }
}

/// Serialization is injective: two headers with the same wire form are equal.
/// Together with `from_bytes`'s contract this is the round-trip law: decoding
/// the serialization of a header gives that header back.
pub proof fn lemma_serialize_injective(a: BlockHeader, b: BlockHeader)
    requires
        spec_serialize(a) == spec_serialize(b),
    ensures
        a == b,
{
    lemma_auto_spec_u32_to_from_le_bytes();
    let sa = spec_serialize(a);
    let sb = spec_serialize(b);
    assert(spec_u32_to_le_bytes(spec_version_bits(a.version)) =~= sa.subrange(0, 4));
    assert(spec_u32_to_le_bytes(spec_version_bits(b.version)) =~= sb.subrange(0, 4));
    assert(spec_version_bits(a.version) == spec_version_bits(b.version));
    assert(a.version == b.version);
    assert(a.prev_block_hash@ =~= sa.subrange(4, 36));
    assert(b.prev_block_hash@ =~= sb.subrange(4, 36));
    assert(a.prev_block_hash =~= b.prev_block_hash);
    assert(a.merkle_root@ =~= sa.subrange(36, 68));
    assert(b.merkle_root@ =~= sb.subrange(36, 68));
    assert(a.merkle_root =~= b.merkle_root);
    assert(spec_u32_to_le_bytes(a.time) =~= sa.subrange(68, 72));
    assert(spec_u32_to_le_bytes(b.time) =~= sb.subrange(68, 72));
    assert(a.time == b.time);
    assert(a.difficulty@ =~= sa.subrange(72, 104));
    assert(b.difficulty@ =~= sb.subrange(72, 104));
    assert(a.difficulty =~= b.difficulty);
    assert(spec_u32_to_le_bytes(a.nonce) =~= sa.subrange(104, 108));
    assert(spec_u32_to_le_bytes(b.nonce) =~= sb.subrange(104, 108));
    assert(a.nonce == b.nonce);
    assert(a =~= b);
}

} // verus!

