//! The encrypted portable archive: its envelope contract, the header and
//! frame layout, the reader and writer state machines that seal and open
//! frames and split plaintext into lines, and the manifest accumulator.
//! Reading and writing the file, and turning lines into records, happen
//! around these.
use vstd::prelude::*;

use crate::crypto::{
    aead_open, aead_opened, aead_seal, aead_sealed, argon2id_derive, argon2id_key, ct_equal,
    sha256, sha256_of,
};
use crate::domain::{RepoError, UtcMillis};
use crate::entropy::random_bytes;
use crate::text::{copy_string, str_eq};
use crate::keyed::KeyedMap;
use crate::crypto::{absorbed, hasher_finish, hasher_new, hasher_update, IncrementalSha256};
use crate::domain::{hex_encode, hex_of};
use vstd::slice::{slice_subrange, slice_to_vec};
use vstd::string::StringSliceAdditionalSpecFns;

verus! {

pub const ARCHIVE_EXTENSION: &'static str = "mtgonotes";

pub const ARCHIVE_FORMAT_VERSION: u16 = 1;

/// `MTGONTS1`.
pub const ARCHIVE_MAGIC: [u8; 8] = [77, 84, 71, 79, 78, 84, 83, 49];

pub const STREAM_CHUNK_BYTES: usize = 65536;

pub const MAX_ENVELOPE_BYTES: usize = 16384;

pub const MAX_RECORD_BYTES: usize = 8388608;

pub const KDF_MEMORY_KIB: u32 = 32768;

pub const KDF_ITERATIONS: u32 = 3;

pub const KDF_PARALLELISM: u32 = 1;

pub const KDF_ALGORITHM: &'static str = "argon2id";

pub const KDF_VERSION: u32 = 19;

pub const CIPHER_ALGORITHM: &'static str = "chacha20poly1305_ietf";

pub const FINAL_FRAME: u8 = 1;

pub const DATA_FRAME: u8 = 0;

pub const TAG_BYTES: usize = 16;

pub const HEADER_CHECKSUM_BYTES: usize = 32;

pub const KEY_CHECK_LABEL: &'static str = "mtgo-opponent-notes-archive-key-check-v1";

#[derive(Debug, PartialEq, Eq)]
pub struct KdfContract {
    pub algorithm: String,
    pub version: u32,
    pub memory_kib: u32,
    pub iterations: u32,
    pub parallelism: u32,
    pub salt: [u8; 16],
}

#[derive(Debug, PartialEq, Eq)]
pub struct CipherContract {
    pub algorithm: String,
    pub chunk_bytes: u32,
    pub nonce_prefix: [u8; 4],
    pub key_check: [u8; 16],
}

/// The plaintext header of an archive: how its key is derived and how its
/// frames are sealed.
#[derive(Debug, PartialEq, Eq)]
pub struct ArchiveEnvelope {
    pub format_version: u16,
    pub kdf: KdfContract,
    pub cipher: CipherContract,
}

/// The contract this version writes and accepts.
pub open spec fn envelope_ok(e: ArchiveEnvelope) -> bool {
    &&& e.format_version == ARCHIVE_FORMAT_VERSION
    &&& e.kdf.algorithm@ == KDF_ALGORITHM@
    &&& e.kdf.version == KDF_VERSION
    &&& e.kdf.memory_kib == KDF_MEMORY_KIB
    &&& e.kdf.iterations == KDF_ITERATIONS
    &&& e.kdf.parallelism == KDF_PARALLELISM
    &&& e.cipher.algorithm@ == CIPHER_ALGORITHM@
    &&& e.cipher.chunk_bytes == STREAM_CHUNK_BYTES
}

impl ArchiveEnvelope {
    /// The contract over a given salt and nonce prefix, with the key check
    /// still zero.
    pub fn with_material(salt: [u8; 16], nonce_prefix: [u8; 4]) -> (r: Self)
        ensures
            envelope_ok(r),
            r.kdf.salt == salt,
            r.cipher.nonce_prefix == nonce_prefix,
            r.cipher.key_check@ == Seq::new(16, |i: int| 0u8),
    {
        let r = ArchiveEnvelope {
            format_version: ARCHIVE_FORMAT_VERSION,
            kdf: KdfContract {
                algorithm: copy_string(KDF_ALGORITHM),
                version: KDF_VERSION,
                memory_kib: KDF_MEMORY_KIB,
                iterations: KDF_ITERATIONS,
                parallelism: KDF_PARALLELISM,
                salt,
            },
            cipher: CipherContract {
                algorithm: copy_string(CIPHER_ALGORITHM),
                chunk_bytes: 65536u32,
                nonce_prefix,
                key_check: [0u8; 16],
            },
        };
        assert(r.cipher.key_check@ =~= Seq::new(16, |i: int| 0u8));
        r
    }

    /// The contract over a fresh random salt and nonce prefix. Fails when
    /// the operating system cannot supply randomness.
    pub fn random() -> (r: Result<Self, RepoError>)
        ensures
            r matches Ok(e) ==> envelope_ok(e) && e.cipher.key_check@ == Seq::new(16, |i: int| 0u8),
            r matches Err(e) ==> e == RepoError::InvalidBackup,
    {
        let salt_bytes = match random_bytes(16) {
            Some(b) => b,
            None => {
                return Err(RepoError::InvalidBackup);
            },
        };
        let prefix_bytes = match random_bytes(4) {
            Some(b) => b,
            None => {
                return Err(RepoError::InvalidBackup);
            },
        };
        let mut salt: [u8; 16] = [0u8; 16];
        let mut i: usize = 0;
        while i < 16
            invariant
                i <= 16,
                salt_bytes@.len() == 16,
            decreases 16 - i,
        {
            salt[i] = salt_bytes[i];
            i = i + 1;
        }
        let nonce_prefix: [u8; 4] = [prefix_bytes[0], prefix_bytes[1], prefix_bytes[2], prefix_bytes[3]];
        Ok(Self::with_material(salt, nonce_prefix))
    }

    /// Refuses any contract other than the one this version writes.
    pub fn validate(&self) -> (r: Result<(), RepoError>)
        ensures
            envelope_ok(*self) ==> r is Ok,
            !envelope_ok(*self) ==> r == Err::<(), RepoError>(RepoError::InvalidBackup),
    {
        if self.format_version != ARCHIVE_FORMAT_VERSION || !str_eq(
            self.kdf.algorithm.as_str(),
            KDF_ALGORITHM,
        ) || self.kdf.version != KDF_VERSION || self.kdf.memory_kib != KDF_MEMORY_KIB
            || self.kdf.iterations != KDF_ITERATIONS || self.kdf.parallelism != KDF_PARALLELISM
            || !str_eq(self.cipher.algorithm.as_str(), CIPHER_ALGORITHM)
            || self.cipher.chunk_bytes != 65536u32 {
            return Err(RepoError::InvalidBackup);
        }
        Ok(())
    }
}

/// The big-endian bytes of `n`, `width` of them.
pub open spec fn be_bytes(n: nat, width: nat) -> Seq<u8>
    decreases width,
{
    if width == 0 {
        Seq::empty()
    } else {
        be_bytes(n / 256, (width - 1) as nat).push((n % 256) as u8)
    }
}

fn be_u64(n: u64) -> (r: [u8; 8])
    ensures
        r@ == be_bytes(n as nat, 8),
{
    let r: [u8; 8] = [
        (n >> 56) as u8,
        ((n >> 48) & 255) as u8,
        ((n >> 40) & 255) as u8,
        ((n >> 32) & 255) as u8,
        ((n >> 24) & 255) as u8,
        ((n >> 16) & 255) as u8,
        ((n >> 8) & 255) as u8,
        (n & 255) as u8,
    ];
    proof {
        let v = n as nat;
        assert((n >> 56) as u8 == ((n / 0x100000000000000) % 256) as u8) by (bit_vector);
        assert(((n >> 48) & 255) as u8 == ((n / 0x1000000000000) % 256) as u8) by (bit_vector);
        assert(((n >> 40) & 255) as u8 == ((n / 0x10000000000) % 256) as u8) by (bit_vector);
        assert(((n >> 32) & 255) as u8 == ((n / 0x100000000) % 256) as u8) by (bit_vector);
        assert(((n >> 24) & 255) as u8 == ((n / 0x1000000) % 256) as u8) by (bit_vector);
        assert(((n >> 16) & 255) as u8 == ((n / 0x10000) % 256) as u8) by (bit_vector);
        assert(((n >> 8) & 255) as u8 == ((n / 0x100) % 256) as u8) by (bit_vector);
        assert((n & 255) as u8 == (n % 256) as u8) by (bit_vector);
        lemma_be8(v);
    }
    assert(r@ =~= be_bytes(n as nat, 8));
    r
}

proof fn lemma_be8(v: nat)
    ensures
        be_bytes(v, 8) == seq![
            ((v / 0x100000000000000) % 256) as u8,
            ((v / 0x1000000000000) % 256) as u8,
            ((v / 0x10000000000) % 256) as u8,
            ((v / 0x100000000) % 256) as u8,
            ((v / 0x1000000) % 256) as u8,
            ((v / 0x10000) % 256) as u8,
            ((v / 0x100) % 256) as u8,
            (v % 256) as u8,
        ],
{
    reveal_with_fuel(be_bytes, 9);
    assert(v / 256 / 256 == v / 0x10000) by (nonlinear_arith);
    assert(v / 0x10000 / 256 == v / 0x1000000) by (nonlinear_arith);
    assert(v / 0x1000000 / 256 == v / 0x100000000) by (nonlinear_arith);
    assert(v / 0x100000000 / 256 == v / 0x10000000000) by (nonlinear_arith);
    assert(v / 0x10000000000 / 256 == v / 0x1000000000000) by (nonlinear_arith);
    assert(v / 0x1000000000000 / 256 == v / 0x100000000000000) by (nonlinear_arith);
    assert(be_bytes(v, 8) =~= seq![
        ((v / 0x100000000000000) % 256) as u8,
        ((v / 0x1000000000000) % 256) as u8,
        ((v / 0x10000000000) % 256) as u8,
        ((v / 0x100000000) % 256) as u8,
        ((v / 0x1000000) % 256) as u8,
        ((v / 0x10000) % 256) as u8,
        ((v / 0x100) % 256) as u8,
        (v % 256) as u8,
    ]);
}

fn be_u32(n: u32) -> (r: [u8; 4])
    ensures
        r@ == be_bytes(n as nat, 4),
{
    let r: [u8; 4] = [(n >> 24) as u8, ((n >> 16) & 255) as u8, ((n >> 8) & 255) as u8, (n & 255) as u8];
    proof {
        let v = n as nat;
        assert((n >> 24) as u8 == ((n / 0x1000000) % 256) as u8) by (bit_vector);
        assert(((n >> 16) & 255) as u8 == ((n / 0x10000) % 256) as u8) by (bit_vector);
        assert(((n >> 8) & 255) as u8 == ((n / 0x100) % 256) as u8) by (bit_vector);
        assert((n & 255) as u8 == (n % 256) as u8) by (bit_vector);
        reveal_with_fuel(be_bytes, 5);
        assert(v / 256 / 256 == v / 0x10000) by (nonlinear_arith);
        assert(v / 0x10000 / 256 == v / 0x1000000) by (nonlinear_arith);
    }
    assert(r@ =~= be_bytes(n as nat, 4));
    r
}

/// The 32-bit big-endian number that four bytes spell.
pub open spec fn be_value(b: Seq<u8>) -> nat {
    ((b[0] as nat) * 0x1000000 + (b[1] as nat) * 0x10000 + (b[2] as nat) * 0x100 + (b[3] as nat)) as nat
}

pub fn read_be_u32(b: &[u8]) -> (r: u32)
    requires
        b@.len() == 4,
    ensures
        r as nat == be_value(b@),
{
    let (b0, b1, b2, b3) = (b[0], b[1], b[2], b[3]);
    let r = ((b0 as u32) << 24) | ((b1 as u32) << 16) | ((b2 as u32) << 8) | (b3 as u32);
    assert(r == (b0 as u32) * 0x1000000 + (b1 as u32) * 0x10000 + (b2 as u32) * 0x100 + (b3 as u32))
        by (bit_vector)
        requires
            r == ((b0 as u32) << 24) | ((b1 as u32) << 16) | ((b2 as u32) << 8) | (b3 as u32),
    ;
    r
}

/// The 12-byte nonce of frame `counter`: the 4-byte prefix, then the
/// counter in big-endian order.
pub open spec fn frame_nonce(prefix: Seq<u8>, counter: u64) -> Seq<u8> {
    prefix + be_bytes(counter as nat, 8)
}

/// The associated data of frame `counter`: the envelope digest, the counter
/// and the frame flag.
pub open spec fn frame_aad_of(digest: Seq<u8>, counter: u64, flag: u8) -> Seq<u8> {
    digest + be_bytes(counter as nat, 8) + seq![flag]
}

pub fn nonce_bytes(prefix: [u8; 4], counter: u64) -> (r: [u8; 12])
    ensures
        r@ == frame_nonce(prefix@, counter),
{
    let c = be_u64(counter);
    let r: [u8; 12] = [prefix[0], prefix[1], prefix[2], prefix[3], c[0], c[1], c[2], c[3], c[4], c[5], c[6], c[7]];
    assert(r@ =~= frame_nonce(prefix@, counter));
    r
}

pub fn frame_aad(envelope_digest: [u8; 32], counter: u64, flag: u8) -> (r: [u8; 41])
    ensures
        r@ == frame_aad_of(envelope_digest@, counter, flag),
{
    let mut aad: [u8; 41] = [0u8; 41];
    let mut i: usize = 0;
    while i < 32
        invariant
            i <= 32,
            forall|k: int| 0 <= k < i ==> aad@[k] == envelope_digest@[k],
        decreases 32 - i,
    {
        aad[i] = envelope_digest[i];
        i = i + 1;
    }
    let c = be_u64(counter);
    let mut j: usize = 0;
    while j < 8
        invariant
            j <= 8,
            forall|k: int| 0 <= k < 32 ==> aad@[k] == envelope_digest@[k],
            forall|k: int| 0 <= k < j ==> aad@[32 + k] == c@[k],
        decreases 8 - j,
    {
        aad[32 + j] = c[j];
        j = j + 1;
    }
    aad[40] = flag;
    assert(aad@ =~= frame_aad_of(envelope_digest@, counter, flag));
    aad
}

/// The first sixteen bytes of SHA-256 over the key-check label and the key.
pub open spec fn key_check_of(key: Seq<u8>) -> Seq<u8> {
    sha256_of(KEY_CHECK_LABEL.spec_bytes() + key).take(16)
}

pub fn key_check(key: &[u8]) -> (r: [u8; 16])
    ensures
        r@ == key_check_of(key@),
{
    let label = KEY_CHECK_LABEL.as_bytes();
    let mut input: Vec<u8> = Vec::new();
    let mut i: usize = 0;
    while i < label.len()
        invariant
            i <= label@.len(),
            input@ == label@.take(i as int),
        decreases label.len() - i,
    {
        input.push(label[i]);
        i = i + 1;
        assert(input@ =~= label@.take(i as int));
    }
    let mut j: usize = 0;
    let ghost head = input@;
    while j < key.len()
        invariant
            j <= key@.len(),
            input@ == head + key@.take(j as int),
        decreases key.len() - j,
    {
        input.push(key[j]);
        j = j + 1;
        assert(input@ =~= head + key@.take(j as int));
    }
    assert(label@.take(label@.len() as int) =~= label@);
    assert(key@.take(key@.len() as int) =~= key@);
    let digest = sha256(input.as_slice());
    let mut check: [u8; 16] = [0u8; 16];
    let mut k: usize = 0;
    while k < 16
        invariant
            k <= 16,
            digest@.len() == 32,
            forall|m: int| 0 <= m < k ==> check@[m] == digest@[m],
        decreases 16 - k,
    {
        check[k] = digest[k];
        k = k + 1;
    }
    assert(check@ =~= key_check_of(key@));
    check
}

/// The archive header: magic, envelope length, envelope, and the envelope's
/// SHA-256 checksum.
pub open spec fn header_of(envelope_bytes: Seq<u8>) -> Seq<u8> {
    ARCHIVE_MAGIC@ + be_bytes(envelope_bytes.len(), 4) + envelope_bytes + sha256_of(envelope_bytes)
}

pub fn encode_header(envelope_bytes: &[u8]) -> (r: Result<Vec<u8>, RepoError>)
    ensures
        envelope_bytes@.len() <= u32::MAX ==> (r matches Ok(h) && h@ == header_of(envelope_bytes@)),
        envelope_bytes@.len() > u32::MAX ==> r == Err::<Vec<u8>, RepoError>(RepoError::InvalidBackup),
{
    if envelope_bytes.len() > 4294967295usize {
        return Err(RepoError::InvalidBackup);
    }
    let length = be_u32(envelope_bytes.len() as u32);
    let mut out: Vec<u8> = Vec::new();
    let magic = ARCHIVE_MAGIC;
    let mut i: usize = 0;
    while i < 8
        invariant
            i <= 8,
            magic@ == ARCHIVE_MAGIC@,
            out@ == magic@.take(i as int),
        decreases 8 - i,
    {
        out.push(magic[i]);
        i = i + 1;
        assert(out@ =~= magic@.take(i as int));
    }
    let mut j: usize = 0;
    let ghost after_magic = out@;
    while j < 4
        invariant
            j <= 4,
            out@ == after_magic + length@.take(j as int),
        decreases 4 - j,
    {
        out.push(length[j]);
        j = j + 1;
        assert(out@ =~= after_magic + length@.take(j as int));
    }
    let ghost after_length = out@;
    let mut k: usize = 0;
    while k < envelope_bytes.len()
        invariant
            k <= envelope_bytes@.len(),
            out@ == after_length + envelope_bytes@.take(k as int),
        decreases envelope_bytes.len() - k,
    {
        out.push(envelope_bytes[k]);
        k = k + 1;
        assert(out@ =~= after_length + envelope_bytes@.take(k as int));
    }
    let digest = sha256(envelope_bytes);
    let ghost after_envelope = out@;
    let mut m: usize = 0;
    while m < digest.len()
        invariant
            m <= digest@.len(),
            out@ == after_envelope + digest@.take(m as int),
        decreases digest.len() - m,
    {
        out.push(digest[m]);
        m = m + 1;
        assert(out@ =~= after_envelope + digest@.take(m as int));
    }
    proof {
        assert(magic@.take(8) =~= ARCHIVE_MAGIC@);
        assert(length@.take(4) =~= length@);
        assert(envelope_bytes@.take(envelope_bytes@.len() as int) =~= envelope_bytes@);
        assert(digest@.take(digest@.len() as int) =~= digest@);
        assert(out@ =~= header_of(envelope_bytes@));
    }
    Ok(out)
}

/// Reads the fixed start of a header (magic and envelope length) and
/// returns the envelope length it announces.
pub fn read_header_start(start: &[u8]) -> (r: Result<usize, RepoError>)
    requires
        start@.len() == 12,
    ensures
        start@.take(8) == ARCHIVE_MAGIC@ && 0 < be_value(start@.subrange(8, 12)) <= MAX_ENVELOPE_BYTES
            ==> r == Ok::<usize, RepoError>(be_value(start@.subrange(8, 12)) as usize),
        !(start@.take(8) == ARCHIVE_MAGIC@ && 0 < be_value(start@.subrange(8, 12))
            <= MAX_ENVELOPE_BYTES) ==> r == Err::<usize, RepoError>(RepoError::InvalidBackup),
{
    let magic = ARCHIVE_MAGIC;
    let mut i: usize = 0;
    while i < 8
        invariant
            i <= 8,
            start@.len() == 12,
            magic@ == ARCHIVE_MAGIC@,
            forall|k: int| 0 <= k < i ==> start@[k] == magic@[k],
        decreases 8 - i,
    {
        if start[i] != magic[i] {
            proof {
                assert(start@.take(8)[i as int] != ARCHIVE_MAGIC@[i as int]);
            }
            return Err(RepoError::InvalidBackup);
        }
        i = i + 1;
    }
    assert(start@.take(8) =~= ARCHIVE_MAGIC@);
    let length_bytes = [start[8], start[9], start[10], start[11]];
    assert(length_bytes@ =~= start@.subrange(8, 12));
    let length = read_be_u32(&length_bytes);
    if length == 0 || length as usize > MAX_ENVELOPE_BYTES {
        return Err(RepoError::InvalidBackup);
    }
    Ok(length as usize)
}

/// Accepts the envelope only under its checksum, compared in constant time.
pub fn check_envelope(envelope_bytes: &[u8], checksum: &[u8]) -> (r: Result<(), RepoError>)
    ensures
        checksum@ == sha256_of(envelope_bytes@) ==> r is Ok,
        checksum@ != sha256_of(envelope_bytes@) ==> r == Err::<(), RepoError>(RepoError::InvalidBackup),
{
    let digest = sha256(envelope_bytes);
    if ct_equal(checksum, digest.as_slice()) {
        Ok(())
    } else {
        Err(RepoError::InvalidBackup)
    }
}


fn copy_range(buf: &[u8], from: usize, to: usize) -> (r: Vec<u8>)
    requires
        from <= to <= buf@.len(),
    ensures
        r@ == buf@.subrange(from as int, to as int),
{
    slice_to_vec(slice_subrange(buf, from, to))
}

fn concat_bytes(a: &[u8], b: &[u8]) -> (r: Vec<u8>)
    ensures
        r@ == a@ + b@,
{
    let mut out = slice_to_vec(a);
    let mut tail = slice_to_vec(b);
    out.append(&mut tail);
    out
}

/// The position of the first newline byte, or -1.
pub open spec fn first_newline(b: Seq<u8>) -> int
    decreases b.len(),
{
    if b.len() == 0 {
        -1
    } else if b[0] == 10u8 {
        0
    } else {
        let q = first_newline(b.drop_first());
        if q < 0 {
            -1
        } else {
            q + 1
        }
    }
}

proof fn lemma_first_newline(b: Seq<u8>)
    ensures
        -1 <= first_newline(b) < b.len(),
        first_newline(b) >= 0 ==> b[first_newline(b)] == 10u8 && forall|j: int|
            0 <= j < first_newline(b) ==> b[j] != 10u8,
        first_newline(b) < 0 ==> forall|j: int| 0 <= j < b.len() ==> b[j] != 10u8,
    decreases b.len(),
{
    if b.len() > 0 && b[0] != 10u8 {
        lemma_first_newline(b.drop_first());
        assert forall|j: int| 0 < j < b.len() implies b[j] == b.drop_first()[j - 1] by {}
    }
}

proof fn lemma_first_newline_at(b: Seq<u8>, p: int)
    requires
        0 <= p < b.len(),
        b[p] == 10u8,
        forall|j: int| 0 <= j < p ==> b[j] != 10u8,
    ensures
        first_newline(b) == p,
{
    lemma_first_newline(b);
    let q = first_newline(b);
    if q >= 0 && q < p {
        assert(b[q] != 10u8);
    }
    if q < 0 {
        assert(b[p] != 10u8);
    }
}

/// The complete lines of `b` (each without its newline).
pub open spec fn lines_of(b: Seq<u8>) -> Seq<Seq<u8>>
    decreases b.len(),
{
    let p = first_newline(b);
    if p < 0 || p >= b.len() {
        Seq::empty()
    } else {
        seq![b.take(p)] + lines_of(b.skip(p + 1))
    }
}

/// What follows the last newline of `b`.
pub open spec fn rest_of(b: Seq<u8>) -> Seq<u8>
    decreases b.len(),
{
    let p = first_newline(b);
    if p < 0 || p >= b.len() {
        b
    } else {
        rest_of(b.skip(p + 1))
    }
}

/// Every complete line is non-empty and within the record bound, and so is
/// the incomplete remainder.
pub open spec fn lines_ok(b: Seq<u8>) -> bool {
    &&& forall|i: int|
        0 <= i < lines_of(b).len() ==> 0 < #[trigger] lines_of(b)[i].len() <= MAX_RECORD_BYTES
    &&& rest_of(b).len() <= MAX_RECORD_BYTES
}

pub open spec fn line_views(v: Seq<Vec<u8>>) -> Seq<Seq<u8>> {
    v.map_values(|l: Vec<u8>| l@)
}

/// Splits buffered plaintext into its complete lines and the remainder.
pub fn split_lines(buf: &[u8]) -> (r: Result<(Vec<Vec<u8>>, Vec<u8>), RepoError>)
    ensures
        lines_ok(buf@) ==> (r matches Ok((lines, rest)) && line_views(lines@) == lines_of(buf@)
            && rest@ == rest_of(buf@)),
        !lines_ok(buf@) ==> r == Err::<(Vec<Vec<u8>>, Vec<u8>), RepoError>(RepoError::InvalidBackup),
{
    let mut lines: Vec<Vec<u8>> = Vec::new();
    let mut start: usize = 0;
    let mut i: usize = 0;
    assert(buf@.skip(0) =~= buf@);
    while i < buf.len()
        invariant
            start <= i <= buf@.len(),
            lines_of(buf@) == line_views(lines@) + lines_of(buf@.skip(start as int)),
            rest_of(buf@) == rest_of(buf@.skip(start as int)),
            forall|j: int| start <= j < i ==> buf@[j] != 10u8,
            forall|k: int|
                0 <= k < lines@.len() ==> 0 < #[trigger] lines@[k]@.len() <= MAX_RECORD_BYTES,
        decreases buf.len() - i,
    {
        if buf[i] == 10u8 {
            let ghost tail = buf@.skip(start as int);
            proof {
                assert forall|j: int| 0 <= j < i - start implies tail[j] != 10u8 by {
                    assert(tail[j] == buf@[start + j]);
                }
                lemma_first_newline_at(tail, i - start);
                assert(tail.take(i - start) =~= buf@.subrange(start as int, i as int));
                assert(tail.skip(i - start + 1) =~= buf@.skip(i + 1));
            }
            let ghost before = line_views(lines@);
            proof {
                assert(lines_of(tail) == seq![tail.take(i - start)] + lines_of(buf@.skip(i + 1)));
                assert(rest_of(tail) == rest_of(buf@.skip(i + 1)));
                assert((before + lines_of(tail))[before.len() as int] == tail.take(i - start));
            }
            let length = i - start;
            if length == 0 || length > MAX_RECORD_BYTES {
                proof {
                    assert(lines_of(buf@)[lines@.len() as int] == tail.take(i - start));
                }
                return Err(RepoError::InvalidBackup);
            }
            let line = copy_range(buf, start, i);
            lines.push(line);
            proof {
                assert(line_views(lines@) =~= before.push(line@));
                assert(before + lines_of(tail) =~= before.push(line@) + lines_of(buf@.skip(i + 1)));
            }
            start = i + 1;
        }
        i = i + 1;
    }
    let ghost tail = buf@.skip(start as int);
    proof {
        assert forall|j: int| 0 <= j < tail.len() implies tail[j] != 10u8 by {
            assert(tail[j] == buf@[start + j]);
        }
        lemma_first_newline(tail);
        if first_newline(tail) >= 0 {
            assert(tail[first_newline(tail)] != 10u8);
        }
        assert(lines_of(tail) =~= Seq::<Seq<u8>>::empty());
        assert(line_views(lines@) + lines_of(tail) =~= line_views(lines@));
    }
    if buf.len() - start > MAX_RECORD_BYTES {
        return Err(RepoError::InvalidBackup);
    }
    let rest = copy_range(buf, start, buf.len());
    proof {
        assert(rest@ =~= tail);
    }
    Ok((lines, rest))
}

/// The key an envelope's contract derives from a passphrase.
pub open spec fn envelope_key(passphrase: Seq<char>, e: ArchiveEnvelope) -> Option<Seq<u8>> {
    argon2id_key(
        vstd::utf8::encode_utf8(passphrase),
        e.kdf.salt@,
        e.kdf.memory_kib,
        e.kdf.iterations,
        e.kdf.parallelism,
    )
}

fn derive_key(passphrase: &str, envelope: &ArchiveEnvelope) -> (r: Result<Vec<u8>, RepoError>)
    requires
        envelope.kdf.parallelism <= 0xFF_FFFF,
    ensures
        passphrase@.len() == 0 ==> r == Err::<Vec<u8>, RepoError>(RepoError::InvalidRequest),
        passphrase@.len() > 0 ==> match envelope_key(passphrase@, *envelope) {
            Some(k) => r matches Ok(key) && key@ == k && key@.len() == 32,
            None => r == Err::<Vec<u8>, RepoError>(RepoError::InvalidBackup),
        },
{
    if passphrase.is_empty() {
        return Err(RepoError::InvalidRequest);
    }
    match argon2id_derive(
        passphrase.as_bytes(),
        envelope.kdf.salt.as_slice(),
        envelope.kdf.memory_kib,
        envelope.kdf.iterations,
        envelope.kdf.parallelism,
    ) {
        Some(key) => Ok(key),
        None => Err(RepoError::InvalidBackup),
    }
}

fn digest_array(bytes: &[u8]) -> (r: [u8; 32])
    ensures
        r@ == sha256_of(bytes@),
{
    let digest = sha256(bytes);
    let mut out: [u8; 32] = [0u8; 32];
    let mut i: usize = 0;
    while i < 32
        invariant
            i <= 32,
            digest@.len() == 32,
            forall|k: int| 0 <= k < i ==> out@[k] == digest@[k],
        decreases 32 - i,
    {
        out[i] = digest[i];
        i = i + 1;
    }
    assert(out@ =~= digest@);
    out
}

/// A ciphertext length a frame may announce: a tag and at most one chunk.
pub open spec fn frame_length_ok_spec(length: nat) -> bool {
    TAG_BYTES <= length <= STREAM_CHUNK_BYTES + TAG_BYTES
}

pub fn frame_length_ok(length: u32) -> (r: bool)
    ensures
        r == frame_length_ok_spec(length as nat),
{
    16u32 <= length && length <= 65552u32
}

/// Opens an archive's frames in order, after the passphrase has been
/// checked against the envelope.
pub struct ArchiveReader {
    pub key: Vec<u8>,
    pub nonce_prefix: [u8; 4],
    pub envelope_digest: [u8; 32],
    pub counter: u64,
    pub pending: Vec<u8>,
    pub saw_final: bool,
}

impl ArchiveReader {
    pub open spec fn wf(&self) -> bool {
        self.key@.len() == 32
    }

    /// Validates the envelope, derives the key and checks it against the
    /// envelope's key check in constant time; a mismatch is a wrong
    /// passphrase.
    pub fn open(passphrase: &str, envelope: &ArchiveEnvelope, envelope_bytes: &[u8]) -> (r: Result<
        ArchiveReader,
        RepoError,
    >)
        ensures
            !envelope_ok(*envelope) ==> r == Err::<ArchiveReader, RepoError>(RepoError::InvalidBackup),
            envelope_ok(*envelope) && passphrase@.len() == 0 ==> r == Err::<ArchiveReader, RepoError>(
                RepoError::InvalidRequest,
            ),
            envelope_ok(*envelope) && passphrase@.len() > 0 ==> match envelope_key(
                passphrase@,
                *envelope,
            ) {
                None => r == Err::<ArchiveReader, RepoError>(RepoError::InvalidBackup),
                Some(k) => if key_check_of(k) != envelope.cipher.key_check@ {
                    r == Err::<ArchiveReader, RepoError>(RepoError::WrongPassphrase)
                } else {
                    r matches Ok(reader) && reader.wf() && reader.key@ == k && reader.nonce_prefix
                        == envelope.cipher.nonce_prefix && reader.envelope_digest@ == sha256_of(
                        envelope_bytes@,
                    ) && reader.counter == 0 && reader.pending@.len() == 0 && !reader.saw_final
                },
            },
    {
        envelope.validate()?;
        let key = derive_key(passphrase, envelope)?;
        let check = key_check(key.as_slice());
        if !ct_equal(check.as_slice(), envelope.cipher.key_check.as_slice()) {
            return Err(RepoError::WrongPassphrase);
        }
        Ok(
            ArchiveReader {
                key,
                nonce_prefix: envelope.cipher.nonce_prefix,
                envelope_digest: digest_array(envelope_bytes),
                counter: 0,
                pending: Vec::new(),
                saw_final: false,
            },
        )
    }

    /// What opening the next frame yields, if it authenticates.
    pub open spec fn opened(&self, flag: u8, ciphertext: Seq<u8>) -> Option<Seq<u8>> {
        aead_opened(
            self.key@,
            frame_nonce(self.nonce_prefix@, self.counter),
            ciphertext,
            frame_aad_of(self.envelope_digest@, self.counter, flag),
        )
    }

    /// Whether the next frame is refused before any line is taken from it.
    pub open spec fn frame_refused(&self, flag: u8, ciphertext: Seq<u8>) -> bool {
        ||| self.saw_final
        ||| (flag != DATA_FRAME && flag != FINAL_FRAME)
        ||| !frame_length_ok_spec(ciphertext.len())
        ||| self.opened(flag, ciphertext) is None
        ||| !lines_ok(self.pending@ + self.opened(flag, ciphertext)->0)
        ||| self.counter == u64::MAX
    }

    /// Authenticates and decrypts the next frame under its counter and flag,
    /// and returns the lines it completes. Nothing follows a final frame.
    pub fn accept_frame(&mut self, flag: u8, ciphertext: &[u8]) -> (r: Result<Vec<Vec<u8>>, RepoError>)
        requires
            old(self).wf(),
        ensures
            final(self).wf(),
            old(self).frame_refused(flag, ciphertext@) ==> r == Err::<Vec<Vec<u8>>, RepoError>(
                RepoError::InvalidBackup,
            ) && *final(self) == *old(self),
            !old(self).frame_refused(flag, ciphertext@) ==> {
                let buf = old(self).pending@ + old(self).opened(flag, ciphertext@)->0;
                &&& r matches Ok(lines) && line_views(lines@) == lines_of(buf)
                &&& final(self).pending@ == rest_of(buf)
                &&& final(self).saw_final == (flag == FINAL_FRAME)
                &&& final(self).counter == old(self).counter + 1
                &&& final(self).key == old(self).key
                &&& final(self).nonce_prefix == old(self).nonce_prefix
                &&& final(self).envelope_digest == old(self).envelope_digest
            },
    {
        if self.saw_final || (flag != DATA_FRAME && flag != FINAL_FRAME) {
            return Err(RepoError::InvalidBackup);
        }
        if ciphertext.len() < TAG_BYTES || ciphertext.len() > STREAM_CHUNK_BYTES + TAG_BYTES {
            return Err(RepoError::InvalidBackup);
        }
        let nonce = nonce_bytes(self.nonce_prefix, self.counter);
        let aad = frame_aad(self.envelope_digest, self.counter, flag);
        let plaintext = match aead_open(self.key.as_slice(), nonce.as_slice(), ciphertext, aad.as_slice()) {
            Some(p) => p,
            None => {
                return Err(RepoError::InvalidBackup);
            },
        };
        let buffered = concat_bytes(self.pending.as_slice(), plaintext.as_slice());
        let (lines, rest) = split_lines(buffered.as_slice())?;
        if self.counter == u64::MAX {
            return Err(RepoError::InvalidBackup);
        }
        self.pending = rest;
        self.saw_final = flag == FINAL_FRAME;
        self.counter = self.counter + 1;
        Ok(lines)
    }

    /// The stream ends well only after a final frame, with no partial line.
    pub fn finish(&self) -> (r: Result<(), RepoError>)
        ensures
            self.saw_final && self.pending@.len() == 0 ==> r is Ok,
            !(self.saw_final && self.pending@.len() == 0) ==> r == Err::<(), RepoError>(
                RepoError::InvalidBackup,
            ),
    {
        if !self.saw_final || self.pending.len() != 0 {
            Err(RepoError::InvalidBackup)
        } else {
            Ok(())
        }
    }
}

/// The bytes of one frame: flag, ciphertext length, ciphertext.
pub open spec fn frame_bytes(flag: u8, ciphertext: Seq<u8>) -> Seq<u8> {
    seq![flag] + be_bytes(ciphertext.len(), 4) + ciphertext
}

/// The frame that seals `chunk` as frame `counter`.
pub open spec fn sealed_frame(
    key: Seq<u8>,
    prefix: Seq<u8>,
    digest: Seq<u8>,
    counter: u64,
    flag: u8,
    chunk: Seq<u8>,
) -> Seq<u8> {
    frame_bytes(
        flag,
        aead_sealed(key, frame_nonce(prefix, counter), chunk, frame_aad_of(digest, counter, flag)),
    )
}

/// Frame `counter` sealing `chunk` opens, under the same key, nonce prefix,
/// envelope digest, counter and flag, to `chunk`.
pub open spec fn frame_opens(
    key: Seq<u8>,
    prefix: Seq<u8>,
    digest: Seq<u8>,
    counter: u64,
    flag: u8,
    chunk: Seq<u8>,
) -> bool {
    let nonce = frame_nonce(prefix, counter);
    let aad = frame_aad_of(digest, counter, flag);
    aead_opened(key, nonce, aead_sealed(key, nonce, chunk, aad), aad) == Some(chunk)
}

/// How many full data frames a writer seals from `len` buffered bytes,
/// keeping back a last chunk of at most one chunk's size.
pub open spec fn data_frames(len: nat) -> nat {
    if len <= STREAM_CHUNK_BYTES {
        0
    } else {
        ((len - 1) / (STREAM_CHUNK_BYTES as int)) as nat
    }
}

/// The frame count that leaves between one byte and one chunk behind is
/// `data_frames`.
proof fn lemma_data_frames(len: nat, n: nat)
    requires
        len - n * STREAM_CHUNK_BYTES <= STREAM_CHUNK_BYTES,
        n > 0 ==> len - n * STREAM_CHUNK_BYTES > 0,
    ensures
        n == data_frames(len),
{
    if n > 0 {
        assert(((len - 1) / 65536int) == n) by (nonlinear_arith)
            requires
                len - n * 65536 <= 65536,
                len - n * 65536 > 0,
                n > 0,
        ;
    }
}

/// A frame sealed while more than a chunk is left is one of `data_frames`.
proof fn lemma_frame_before_last(len: nat, k: nat)
    requires
        len - k * STREAM_CHUNK_BYTES > STREAM_CHUNK_BYTES,
    ensures
        k + 1 <= data_frames(len),
{
    assert(k + 1 <= (len - 1) / 65536int) by (nonlinear_arith)
        requires
            len - k * 65536 > 65536,
    ;
}

/// Seals plaintext into frames of one chunk each, the last one final.
pub struct ArchiveWriter {
    pub key: Vec<u8>,
    pub envelope_digest: [u8; 32],
    pub nonce_prefix: [u8; 4],
    pub counter: u64,
    pub pending: Vec<u8>,
}

impl ArchiveWriter {
    pub open spec fn wf(&self) -> bool {
        self.key@.len() == 32 && self.pending@.len() <= STREAM_CHUNK_BYTES
    }

    /// The frame this writer seals `chunk` into as its frame `counter`.
    pub open spec fn frame_of(&self, counter: u64, flag: u8, chunk: Seq<u8>) -> Seq<u8> {
        sealed_frame(self.key@, self.nonce_prefix@, self.envelope_digest@, counter, flag, chunk)
    }

    /// Frame `counter` of this writer, sealing `chunk`, opens back to it.
    pub open spec fn opens(&self, counter: u64, flag: u8, chunk: Seq<u8>) -> bool {
        frame_opens(self.key@, self.nonce_prefix@, self.envelope_digest@, counter, flag, chunk)
    }

    /// Writing `bytes` took this writer to `after` and sealed `frames`: every
    /// full chunk of the buffered plaintext but the last, one data frame each
    /// under the next counters, keeping the rest buffered.
    pub open spec fn sealed_into(&self, after: ArchiveWriter, bytes: Seq<u8>, frames: Seq<Vec<u8>>) -> bool {
        let buf = self.pending@ + bytes;
        let n = frames.len();
        &&& n == data_frames(buf.len())
        &&& buf.len() - n * STREAM_CHUNK_BYTES <= STREAM_CHUNK_BYTES
        &&& (n > 0 ==> buf.len() - n * STREAM_CHUNK_BYTES > 0)
        &&& after.pending@ == buf.skip(n * STREAM_CHUNK_BYTES)
        &&& after.counter == self.counter + n
        &&& forall|i: int|
            0 <= i < n ==> #[trigger] frames[i]@ == self.frame_of(
                (self.counter + i) as u64,
                DATA_FRAME,
                buf.subrange(i * STREAM_CHUNK_BYTES, (i + 1) * STREAM_CHUNK_BYTES),
            ) && self.opens(
                (self.counter + i) as u64,
                DATA_FRAME,
                buf.subrange(i * STREAM_CHUNK_BYTES, (i + 1) * STREAM_CHUNK_BYTES),
            )
        &&& after.key == self.key
        &&& after.nonce_prefix == self.nonce_prefix
        &&& after.envelope_digest == self.envelope_digest
    }

    /// Validates the envelope, derives its key, and records the key check
    /// in it; the envelope is then serialized by the caller.
    pub fn prepare(passphrase: &str, envelope: ArchiveEnvelope) -> (r: Result<
        (ArchiveEnvelope, Vec<u8>),
        RepoError,
    >)
        ensures
            !envelope_ok(envelope) ==> r == Err::<(ArchiveEnvelope, Vec<u8>), RepoError>(
                RepoError::InvalidBackup,
            ),
            envelope_ok(envelope) && passphrase@.len() == 0 ==> r == Err::<
                (ArchiveEnvelope, Vec<u8>),
                RepoError,
            >(RepoError::InvalidRequest),
            envelope_ok(envelope) && passphrase@.len() > 0 ==> match envelope_key(
                passphrase@,
                envelope,
            ) {
                None => r == Err::<(ArchiveEnvelope, Vec<u8>), RepoError>(RepoError::InvalidBackup),
                Some(k) => r matches Ok((e, key)) && key@ == k && e.format_version
                    == envelope.format_version && e.kdf == envelope.kdf && e.cipher.algorithm
                    == envelope.cipher.algorithm && e.cipher.chunk_bytes
                    == envelope.cipher.chunk_bytes && e.cipher.nonce_prefix
                    == envelope.cipher.nonce_prefix && e.cipher.key_check@ == key_check_of(k),
            },
    {
        envelope.validate()?;
        let key = derive_key(passphrase, &envelope)?;
        let check = key_check(key.as_slice());
        let mut envelope = envelope;
        envelope.cipher.key_check = check;
        Ok((envelope, key))
    }

    /// Starts writing under a key, given the serialized envelope; returns
    /// the header bytes to write first.
    pub fn new(key: Vec<u8>, nonce_prefix: [u8; 4], envelope_bytes: &[u8]) -> (r: Result<
        (ArchiveWriter, Vec<u8>),
        RepoError,
    >)
        requires
            key@.len() == 32,
        ensures
            envelope_bytes@.len() > u32::MAX ==> r == Err::<(ArchiveWriter, Vec<u8>), RepoError>(
                RepoError::InvalidBackup,
            ),
            envelope_bytes@.len() <= u32::MAX ==> (r matches Ok((w, header)) && w.wf() && w.key@
                == key@ && w.nonce_prefix == nonce_prefix && w.envelope_digest@ == sha256_of(
                envelope_bytes@,
            ) && w.counter == 0 && w.pending@.len() == 0 && header@ == header_of(envelope_bytes@)),
    {
        let header = encode_header(envelope_bytes)?;
        Ok(
            (
                ArchiveWriter {
                    key,
                    envelope_digest: digest_array(envelope_bytes),
                    nonce_prefix,
                    counter: 0,
                    pending: Vec::new(),
                },
                header,
            ),
        )
    }

    fn seal_frame(&self, counter: u64, flag: u8, chunk: &[u8]) -> (r: Result<Vec<u8>, RepoError>)
        requires
            self.wf(),
            chunk@.len() <= STREAM_CHUNK_BYTES,
        ensures
            r matches Ok(f) && f@ == self.frame_of(counter, flag, chunk@) && self.opens(counter, flag, chunk@),
    {
        let nonce = nonce_bytes(self.nonce_prefix, counter);
        let aad = frame_aad(self.envelope_digest, counter, flag);
        let sealed = match aead_seal(self.key.as_slice(), nonce.as_slice(), chunk, aad.as_slice()) {
            Some(c) => c,
            None => {
                return Err(RepoError::InvalidBackup);
            },
        };
        let length = be_u32(sealed.len() as u32);
        let mut out: Vec<u8> = Vec::new();
        out.push(flag);
        out.push(length[0]);
        out.push(length[1]);
        out.push(length[2]);
        out.push(length[3]);
        let mut body = sealed;
        let ghost sealed_view = body@;
        out.append(&mut body);
        proof {
            assert(out@ =~= frame_bytes(flag, sealed_view));
        }
        Ok(out)
    }

    /// Buffers plaintext and seals every full chunk beyond the last one,
    /// returning the frames to write. On an error nothing changes.
    pub fn write_plaintext(&mut self, bytes: &[u8]) -> (r: Result<Vec<Vec<u8>>, RepoError>)
        requires
            old(self).wf(),
        ensures
            final(self).wf(),
            r is Err ==> *final(self) == *old(self) && r == Err::<Vec<Vec<u8>>, RepoError>(
                RepoError::InvalidBackup,
            ),
            r is Ok <==> old(self).counter + data_frames((old(self).pending@ + bytes@).len()) <= u64::MAX,
            r matches Ok(frames) ==> old(self).sealed_into(*final(self), bytes@, frames@),
    {
        let buf = concat_bytes(self.pending.as_slice(), bytes);
        let mut frames: Vec<Vec<u8>> = Vec::new();
        let mut offset: usize = 0;
        let mut counter = self.counter;
        while buf.len() - offset > STREAM_CHUNK_BYTES
            invariant
                self.wf(),
                *self == *old(self),
                buf@ == old(self).pending@ + bytes@,
                offset <= buf@.len(),
                offset == frames@.len() * STREAM_CHUNK_BYTES,
                frames@.len() > 0 ==> buf@.len() - offset > 0,
                counter == old(self).counter + frames@.len(),
                forall|i: int|
                    0 <= i < frames@.len() ==> #[trigger] frames@[i]@ == old(self).frame_of(
                        (old(self).counter + i) as u64,
                        DATA_FRAME,
                        buf@.subrange(i * STREAM_CHUNK_BYTES, (i + 1) * STREAM_CHUNK_BYTES),
                    ) && old(self).opens(
                        (old(self).counter + i) as u64,
                        DATA_FRAME,
                        buf@.subrange(i * STREAM_CHUNK_BYTES, (i + 1) * STREAM_CHUNK_BYTES),
                    ),
            decreases buf.len() - offset,
        {
            proof {
                lemma_frame_before_last(buf@.len(), frames@.len());
            }
            let chunk = copy_range(buf.as_slice(), offset, offset + STREAM_CHUNK_BYTES);
            let frame = self.seal_frame(counter, DATA_FRAME, chunk.as_slice())?;
            if counter == u64::MAX {
                return Err(RepoError::InvalidBackup);
            }
            let ghost n = frames@.len() as int;
            let ghost piece = buf@.subrange(n * STREAM_CHUNK_BYTES, (n + 1) * STREAM_CHUNK_BYTES);
            proof {
                assert(chunk@ == piece);
                assert(counter == (old(self).counter + n) as u64);
                assert(old(self).opens(counter, DATA_FRAME, piece));
            }
            let ghost prev = frames@;
            frames.push(frame);
            proof {
                assert forall|i: int| 0 <= i < frames@.len() implies #[trigger] frames@[i]@ == old(self).frame_of(
                    (old(self).counter + i) as u64,
                    DATA_FRAME,
                    buf@.subrange(i * STREAM_CHUNK_BYTES, (i + 1) * STREAM_CHUNK_BYTES),
                ) && old(self).opens(
                    (old(self).counter + i) as u64,
                    DATA_FRAME,
                    buf@.subrange(i * STREAM_CHUNK_BYTES, (i + 1) * STREAM_CHUNK_BYTES),
                ) by {
                    if i == n {
                        assert(frames@[i] == frame);
                    } else {
                        assert(frames@[i] == prev[i]);
                        assert(prev[i]@ == old(self).frame_of(
                            (old(self).counter + i) as u64,
                            DATA_FRAME,
                            buf@.subrange(i * STREAM_CHUNK_BYTES, (i + 1) * STREAM_CHUNK_BYTES),
                        ));
                    }
                }
            }
            offset = offset + STREAM_CHUNK_BYTES;
            counter = counter + 1;
        }
        let rest = copy_range(buf.as_slice(), offset, buf.len());
        proof {
            assert(rest@ =~= buf@.skip(offset as int));
            lemma_data_frames(buf@.len(), frames@.len());
        }
        self.pending = rest;
        self.counter = counter;
        Ok(frames)
    }

    /// Writes the manifest line and seals what remains as the final frame.
    pub fn finish(&mut self, manifest_line: &[u8]) -> (r: Result<Vec<Vec<u8>>, RepoError>)
        requires
            old(self).wf(),
        ensures
            final(self).wf(),
            r is Ok <==> old(self).counter + data_frames((old(self).pending@ + manifest_line@).len())
                < u64::MAX,
            r matches Err(e) ==> e == RepoError::InvalidBackup,
            r matches Ok(frames) ==> {
                let buf = old(self).pending@ + manifest_line@;
                let n = (frames@.len() - 1) as int;
                &&& frames@.len() == data_frames(buf.len()) + 1
                &&& forall|i: int|
                    0 <= i < n ==> #[trigger] frames@[i]@ == old(self).frame_of(
                        (old(self).counter + i) as u64,
                        DATA_FRAME,
                        buf.subrange(i * STREAM_CHUNK_BYTES, (i + 1) * STREAM_CHUNK_BYTES),
                    ) && old(self).opens(
                        (old(self).counter + i) as u64,
                        DATA_FRAME,
                        buf.subrange(i * STREAM_CHUNK_BYTES, (i + 1) * STREAM_CHUNK_BYTES),
                    )
                &&& frames@[n]@ == old(self).frame_of(
                    (old(self).counter + n) as u64,
                    FINAL_FRAME,
                    buf.skip(n * STREAM_CHUNK_BYTES),
                )
                &&& old(self).opens((old(self).counter + n) as u64, FINAL_FRAME, buf.skip(n * STREAM_CHUNK_BYTES))
                &&& buf.len() - n * STREAM_CHUNK_BYTES <= STREAM_CHUNK_BYTES
                &&& (n > 0 ==> buf.len() - n * STREAM_CHUNK_BYTES > 0)
            },
    {
        let mut frames = self.write_plaintext(manifest_line)?;
        let ghost n = frames@.len();
        if self.counter == u64::MAX {
            return Err(RepoError::InvalidBackup);
        }
        let last = self.seal_frame(self.counter, FINAL_FRAME, self.pending.as_slice())?;
        frames.push(last);
        self.pending = Vec::new();
        self.counter = self.counter + 1;
        Ok(frames)
    }
}

/// What a writer seals, a reader with the same key, nonce prefix and
/// envelope digest opens at the same frame counter and flag, back to the
/// same chunk.
pub proof fn law_reader_opens_writer_frames(
    writer: ArchiveWriter,
    reader: ArchiveReader,
    counter: u64,
    flag: u8,
    chunk: Seq<u8>,
)
    requires
        writer.opens(counter, flag, chunk),
        reader.key@ == writer.key@,
        reader.nonce_prefix == writer.nonce_prefix,
        reader.envelope_digest == writer.envelope_digest,
        reader.counter == counter,
    ensures
        reader.opened(
            flag,
            aead_sealed(
                writer.key@,
                frame_nonce(writer.nonce_prefix@, counter),
                chunk,
                frame_aad_of(writer.envelope_digest@, counter, flag),
            ),
        ) == Some(chunk),
{
}

/// The classifier build that made the classifications an archive carries.
#[derive(Debug, PartialEq, Eq)]
pub struct ClassifierProvenance {
    pub version: String,
    pub digest: String,
}

impl Clone for ClassifierProvenance {
    fn clone(&self) -> (r: Self)
        ensures
            r == *self,
    {
        ClassifierProvenance { version: self.version.clone(), digest: self.digest.clone() }
    }
}

/// The last line of an archive: versions, the record count, and per-table
/// counts and hashes.
#[derive(Debug, PartialEq, Eq)]
pub struct ArchiveManifest {
    pub format_version: u16,
    pub created_at: UtcMillis,
    pub schema_min: i64,
    pub schema_max: i64,
    pub record_count: u64,
    pub table_counts: Vec<(String, u64)>,
    pub table_hashes: Vec<(String, String)>,
    pub classifier_provenance: Vec<ClassifierProvenance>,
}

impl ArchiveManifest {
    /// A copy of the manifest, field for field.
    pub fn copy(&self) -> (r: ArchiveManifest)
        ensures
            r.format_version == self.format_version,
            r.created_at == self.created_at,
            r.schema_min == self.schema_min,
            r.schema_max == self.schema_max,
            r.record_count == self.record_count,
            r.table_counts@ == self.table_counts@,
            r.table_hashes@ == self.table_hashes@,
            r.classifier_provenance@ == self.classifier_provenance@,
    {
        let mut table_counts: Vec<(String, u64)> = Vec::new();
        let mut i: usize = 0;
        while i < self.table_counts.len()
            invariant
                i <= self.table_counts@.len(),
                table_counts@ == self.table_counts@.take(i as int),
            decreases self.table_counts.len() - i,
        {
            let entry = (self.table_counts[i].0.clone(), self.table_counts[i].1);
            table_counts.push(entry);
            proof {
                assert(self.table_counts@.take(i + 1) =~= self.table_counts@.take(i as int).push(self.table_counts@[i as int]));
            }
            i = i + 1;
        }
        let mut table_hashes: Vec<(String, String)> = Vec::new();
        let mut j: usize = 0;
        while j < self.table_hashes.len()
            invariant
                j <= self.table_hashes@.len(),
                table_hashes@ == self.table_hashes@.take(j as int),
            decreases self.table_hashes.len() - j,
        {
            let entry = (self.table_hashes[j].0.clone(), self.table_hashes[j].1.clone());
            table_hashes.push(entry);
            proof {
                assert(self.table_hashes@.take(j + 1) =~= self.table_hashes@.take(j as int).push(self.table_hashes@[j as int]));
            }
            j = j + 1;
        }
        let mut classifier_provenance: Vec<ClassifierProvenance> = Vec::new();
        let mut k: usize = 0;
        while k < self.classifier_provenance.len()
            invariant
                k <= self.classifier_provenance@.len(),
                classifier_provenance@ == self.classifier_provenance@.take(k as int),
            decreases self.classifier_provenance.len() - k,
        {
            let entry = self.classifier_provenance[k].clone();
            classifier_provenance.push(entry);
            proof {
                assert(self.classifier_provenance@.take(k + 1) =~= self.classifier_provenance@.take(k as int).push(self.classifier_provenance@[k as int]));
            }
            k = k + 1;
        }
        proof {
            assert(self.table_counts@.take(self.table_counts@.len() as int) =~= self.table_counts@);
            assert(self.table_hashes@.take(self.table_hashes@.len() as int) =~= self.table_hashes@);
            assert(self.classifier_provenance@.take(self.classifier_provenance@.len() as int) =~= self.classifier_provenance@);
        }
        ArchiveManifest {
            format_version: self.format_version,
            created_at: self.created_at,
            schema_min: self.schema_min,
            schema_max: self.schema_max,
            record_count: self.record_count,
            table_counts,
            table_hashes,
            classifier_provenance,
        }
    }
}

/// One notebook row in table-independent form. A real number is held by
/// its IEEE-754 bits.
#[derive(Debug, PartialEq, Eq)]
pub enum CanonicalValue {
    Null,
    Integer(i64),
    Real(u64),
    Text(String),
    Blob(String),
}

impl Clone for CanonicalValue {
    fn clone(&self) -> (r: Self)
        ensures
            r == *self,
    {
        match self {
            CanonicalValue::Null => CanonicalValue::Null,
            CanonicalValue::Integer(v) => CanonicalValue::Integer(*v),
            CanonicalValue::Real(v) => CanonicalValue::Real(*v),
            CanonicalValue::Text(v) => CanonicalValue::Text(v.clone()),
            CanonicalValue::Blob(v) => CanonicalValue::Blob(v.clone()),
        }
    }
}

#[derive(Debug, PartialEq, Eq)]
pub struct CanonicalRecord {
    pub table: String,
    pub key: String,
    pub values: Vec<CanonicalValue>,
}

/// An archive that authenticated end to end and matched its manifest.
#[derive(Debug, PartialEq, Eq)]
pub struct VerifiedArchive {
    pub envelope: ArchiveEnvelope,
    pub manifest: ArchiveManifest,
    pub archive_sha256: String,
}

/// Per-table record counts and running hashes of the record lines, as they
/// are written or read.
pub struct ManifestAccumulator {
    counts: KeyedMap<u64>,
    hashers: KeyedMap<IncrementalSha256>,
    total: u64,
}

impl ManifestAccumulator {
    pub closed spec fn wf(&self) -> bool {
        &&& self.counts.wf()
        &&& self.hashers.wf()
        &&& self.counts.map().dom() == self.hashers.map().dom()
        &&& forall|t: Seq<char>|
            #[trigger] self.counts.map().contains_key(t) ==> self.counts.map()[t] <= self.total
    }

    /// For each table seen: its record count and the bytes of its lines.
    pub closed spec fn tables(&self) -> Map<Seq<char>, (u64, Seq<u8>)> {
        Map::new(
            |t: Seq<char>| self.counts.map().contains_key(t),
            |t: Seq<char>| (self.counts.map()[t], absorbed(self.hashers.map()[t])),
        )
    }

    pub closed spec fn total(&self) -> u64 {
        self.total
    }

    pub fn new() -> (r: Self)
        ensures
            r.wf(),
            r.tables() == Map::<Seq<char>, (u64, Seq<u8>)>::empty(),
            r.total() == 0,
    {
        let r = ManifestAccumulator { counts: KeyedMap::new(), hashers: KeyedMap::new(), total: 0 };
        assert(r.tables() =~= Map::<Seq<char>, (u64, Seq<u8>)>::empty());
        r
    }

    /// Counts one record line (with its newline) of `table` and absorbs it
    /// into that table's hash.
    pub fn push(&mut self, table: &str, line: &[u8]) -> (r: Result<(), RepoError>)
        requires
            old(self).wf(),
            old(self).total() < u64::MAX,
        ensures
            r is Ok,
            final(self).wf(),
            final(self).total() == old(self).total() + 1,
            final(self).tables() == old(self).tables().insert(
                table@,
                if old(self).tables().contains_key(table@) {
                    (
                        (old(self).tables()[table@].0 + 1) as u64,
                        old(self).tables()[table@].1 + line@,
                    )
                } else {
                    (1u64, line@)
                },
            ),
    {
        let ghost old_tables = self.tables();
        let count = match self.counts.get(table) {
            Some(c) => *c,
            None => 0,
        };
        let mut hasher = match self.hashers.remove(table) {
            Some(h) => h,
            None => hasher_new(),
        };
        hasher_update(&mut hasher, line);
        self.counts.insert(copy_string(table), count + 1);
        self.hashers.insert(copy_string(table), hasher);
        self.total = self.total + 1;
        proof {
            assert(self.counts.map().dom() =~= self.hashers.map().dom());
            assert(self.tables() =~= old_tables.insert(
                table@,
                if old_tables.contains_key(table@) {
                    ((old_tables[table@].0 + 1) as u64, old_tables[table@].1 + line@)
                } else {
                    (1u64, line@)
                },
            ));
        }
        Ok(())
    }

    /// The manifest of everything pushed: counts and the lower-case hex
    /// SHA-256 of each table's lines.
    pub fn finish(
        self,
        created_at: UtcMillis,
        schema_version: i64,
        classifier_provenance: Vec<ClassifierProvenance>,
    ) -> (r: ArchiveManifest)
        requires
            self.wf(),
        ensures
            r.format_version == ARCHIVE_FORMAT_VERSION,
            r.created_at == created_at,
            r.schema_min == schema_version,
            r.schema_max == schema_version,
            r.record_count == self.total(),
            r.classifier_provenance == classifier_provenance,
            r.table_counts@.len() == r.table_hashes@.len(),
            unique_keys(r.table_counts@),
            forall|i: int|
                0 <= i < r.table_counts@.len() ==> #[trigger] r.table_counts@[i].0@
                    == r.table_hashes@[i].0@,
            forall|t: Seq<char>|
                self.tables().contains_key(t) <==> exists|i: int|
                    0 <= i < r.table_counts@.len() && #[trigger] r.table_counts@[i].0@ == t,
            forall|i: int|
                0 <= i < r.table_counts@.len() ==> {
                    let t = #[trigger] r.table_counts@[i].0@;
                    &&& r.table_counts@[i].1 == self.tables()[t].0
                    &&& r.table_hashes@[i].1@ == hex_of(sha256_of(self.tables()[t].1))
                },
    {
        let ManifestAccumulator { counts, hashers, total } = self;
        let ghost tables = Map::new(
            |t: Seq<char>| counts.map().contains_key(t),
            |t: Seq<char>| (counts.map()[t], absorbed(hashers.map()[t])),
        );
        let names = counts.keys();
        let mut hashers = hashers;
        let mut table_counts: Vec<(String, u64)> = Vec::new();
        let mut table_hashes: Vec<(String, String)> = Vec::new();
        let mut i: usize = 0;
        while i < names.len()
            invariant
                i <= names@.len(),
                counts.wf(),
                hashers.wf(),
                forall|k: Seq<char>| counts.map().contains_key(k) <==> exists|j: int|
                    0 <= j < names@.len() && #[trigger] names@[j]@ == k,
                forall|a: int, b: int| 0 <= a < b < names@.len() ==> names@[a]@ != names@[b]@,
                forall|j: int|
                    i <= j < names@.len() ==> hashers.map().contains_key(#[trigger] names@[j]@)
                        && absorbed(hashers.map()[names@[j]@]) == tables[names@[j]@].1,
                forall|k: Seq<char>| #[trigger] tables.contains_key(k) <==> counts.map().contains_key(k),
                forall|k: Seq<char>| #[trigger] tables.contains_key(k) ==> tables[k].0 == counts.map()[k],
                table_counts@.len() == i,
                table_hashes@.len() == i,
                forall|j: int| 0 <= j < i ==> #[trigger] table_counts@[j].0@ == names@[j]@,
                forall|j: int| 0 <= j < i ==> #[trigger] table_hashes@[j].0@ == names@[j]@,
                forall|j: int| 0 <= j < i ==> #[trigger] table_counts@[j].1 == tables[names@[j]@].0,
                forall|j: int|
                    0 <= j < i ==> #[trigger] table_hashes@[j].1@ == hex_of(
                        sha256_of(tables[names@[j]@].1),
                    ),
            decreases names.len() - i,
        {
            let name = &names[i];
            proof {
                assert(names@[i as int]@ == name@);
                assert(counts.map().contains_key(name@));
                assert(tables.contains_key(name@));
            }
            let count = match counts.get(name.as_str()) {
                Some(c) => *c,
                None => 0,
            };
            let ghost before = hashers.map();
            let hasher = match hashers.remove(name.as_str()) {
                Some(h) => h,
                None => hasher_new(),
            };
            let digest = hasher_finish(hasher);
            let hex = hex_encode(digest.as_slice());
            table_counts.push((name.clone(), count));
            table_hashes.push((name.clone(), hex));
            proof {
                assert forall|j: int|
                    i + 1 <= j < names@.len() implies hashers.map().contains_key(#[trigger] names@[j]@)
                        && absorbed(hashers.map()[names@[j]@]) == tables[names@[j]@].1 by {
                    assert(names@[j]@ != names@[i as int]@);
                }
                assert(table_counts@[i as int].0@ == names@[i as int]@);
                assert(table_hashes@[i as int].0@ == names@[i as int]@);
                assert(table_counts@[i as int].1 == tables[names@[i as int]@].0);
                assert(table_hashes@[i as int].1@ == hex_of(sha256_of(tables[names@[i as int]@].1)));
            }
            i = i + 1;
        }
        proof {
            assert forall|a: int, b: int| 0 <= a < b < table_counts@.len() implies table_counts@[a].0@
                != table_counts@[b].0@ by {
                assert(table_counts@[a].0@ == names@[a]@);
                assert(table_counts@[b].0@ == names@[b]@);
            }
            assert forall|t: Seq<char>|
                tables.contains_key(t) <==> exists|j: int|
                    0 <= j < table_counts@.len() && #[trigger] table_counts@[j].0@ == t by {
                if tables.contains_key(t) {
                    let j = choose|j: int| 0 <= j < names@.len() && #[trigger] names@[j]@ == t;
                    assert(table_counts@[j].0@ == t);
                }
                if exists|j: int| 0 <= j < table_counts@.len() && #[trigger] table_counts@[j].0@ == t {
                    let j = choose|j: int| 0 <= j < table_counts@.len() && #[trigger] table_counts@[j].0@ == t;
                    assert(names@[j]@ == t);
                }
            }
        }
        ArchiveManifest {
            format_version: ARCHIVE_FORMAT_VERSION,
            created_at,
            schema_min: schema_version,
            schema_max: schema_version,
            record_count: total,
            table_counts,
            table_hashes,
            classifier_provenance,
        }
    }
}

/// No key occurs twice.
pub open spec fn unique_keys<V>(pairs: Seq<(String, V)>) -> bool {
    forall|a: int, b: int| 0 <= a < b < pairs.len() ==> pairs[a].0@ != pairs[b].0@
}

/// `b` holds `value` under `key`.
pub open spec fn count_found(b: Seq<(String, u64)>, key: Seq<char>, value: u64) -> bool {
    exists|j: int| 0 <= j < b.len() && #[trigger] b[j].0@ == key && b[j].1 == value
}

pub open spec fn text_found(b: Seq<(String, String)>, key: Seq<char>, value: Seq<char>) -> bool {
    exists|j: int| 0 <= j < b.len() && #[trigger] b[j].0@ == key && b[j].1@ == value
}

/// Two key-count lists hold the same map: unique keys, the same length,
/// and every pair of the first in the second.
pub open spec fn same_count_pairs(a: Seq<(String, u64)>, b: Seq<(String, u64)>) -> bool {
    &&& unique_keys(a)
    &&& unique_keys(b)
    &&& a.len() == b.len()
    &&& forall|i: int| 0 <= i < a.len() ==> count_found(b, #[trigger] a[i].0@, a[i].1)
}

/// Two key-text lists hold the same map, as above.
pub open spec fn same_text_pairs(a: Seq<(String, String)>, b: Seq<(String, String)>) -> bool {
    &&& unique_keys(a)
    &&& unique_keys(b)
    &&& a.len() == b.len()
    &&& forall|i: int| 0 <= i < a.len() ==> text_found(b, #[trigger] a[i].0@, a[i].1@)
}

fn find_count(b: &Vec<(String, u64)>, key: &str, value: u64) -> (r: bool)
    ensures
        r == count_found(b@, key@, value),
{
    let mut j: usize = 0;
    while j < b.len()
        invariant
            j <= b@.len(),
            forall|m: int| 0 <= m < j ==> !(#[trigger] b@[m].0@ == key@ && b@[m].1 == value),
        decreases b.len() - j,
    {
        if str_eq(b[j].0.as_str(), key) && b[j].1 == value {
            assert(b@[j as int].0@ == key@ && b@[j as int].1 == value);
            return true;
        }
        j = j + 1;
    }
    false
}

fn find_text(b: &Vec<(String, String)>, key: &str, value: &str) -> (r: bool)
    ensures
        r == text_found(b@, key@, value@),
{
    let mut j: usize = 0;
    while j < b.len()
        invariant
            j <= b@.len(),
            forall|m: int| 0 <= m < j ==> !(#[trigger] b@[m].0@ == key@ && b@[m].1@ == value@),
        decreases b.len() - j,
    {
        if str_eq(b[j].0.as_str(), key) && str_eq(b[j].1.as_str(), value) {
            assert(b@[j as int].0@ == key@ && b@[j as int].1@ == value@);
            return true;
        }
        j = j + 1;
    }
    false
}

fn same_counts(a: &Vec<(String, u64)>, b: &Vec<(String, u64)>) -> (r: bool)
    ensures
        r == same_count_pairs(a@, b@),
{
    if !distinct_keys(a) || !distinct_keys(b) || a.len() != b.len() {
        return false;
    }
    let mut i: usize = 0;
    while i < a.len()
        invariant
            i <= a@.len(),
            unique_keys(a@),
            unique_keys(b@),
            a@.len() == b@.len(),
            forall|k: int| 0 <= k < i ==> count_found(b@, #[trigger] a@[k].0@, a@[k].1),
        decreases a.len() - i,
    {
        if !find_count(b, a[i].0.as_str(), a[i].1) {
            return false;
        }
        i = i + 1;
    }
    true
}

fn same_hashes(a: &Vec<(String, String)>, b: &Vec<(String, String)>) -> (r: bool)
    ensures
        r == same_text_pairs(a@, b@),
{
    if !distinct_keys(a) || !distinct_keys(b) || a.len() != b.len() {
        return false;
    }
    let mut i: usize = 0;
    while i < a.len()
        invariant
            i <= a@.len(),
            unique_keys(a@),
            unique_keys(b@),
            a@.len() == b@.len(),
            forall|k: int| 0 <= k < i ==> text_found(b@, #[trigger] a@[k].0@, a@[k].1@),
        decreases a.len() - i,
    {
        if !find_text(b, a[i].0.as_str(), a[i].1.as_str()) {
            return false;
        }
        i = i + 1;
    }
    true
}

fn distinct_keys<V>(v: &Vec<(String, V)>) -> (r: bool)
    ensures
        r == unique_keys(v@),
{
    let mut a: usize = 0;
    while a < v.len()
        invariant
            a <= v@.len(),
            forall|x: int, y: int| 0 <= x < y < v@.len() && x < a ==> v@[x].0@ != v@[y].0@,
        decreases v.len() - a,
    {
        let mut b: usize = a + 1;
        while b < v.len()
            invariant
                a < v@.len(),
                a < b <= v@.len(),
                forall|x: int, y: int| 0 <= x < y < v@.len() && x < a ==> v@[x].0@ != v@[y].0@,
                forall|y: int| a < y < b ==> v@[a as int].0@ != v@[y].0@,
            decreases v.len() - b,
        {
            if str_eq(v[a].0.as_str(), v[b].0.as_str()) {
                return false;
            }
            b = b + 1;
        }
        a = a + 1;
    }
    true
}

/// Whether a read manifest matches the one recomputed from the records.
pub open spec fn manifest_matches(m: ArchiveManifest, expected: ArchiveManifest) -> bool {
    &&& m.format_version == ARCHIVE_FORMAT_VERSION
    &&& m.schema_min == m.schema_max
    &&& m.record_count == expected.record_count
    &&& same_count_pairs(m.table_counts@, expected.table_counts@)
    &&& same_text_pairs(m.table_hashes@, expected.table_hashes@)
}

pub fn check_manifest(m: &ArchiveManifest, expected: &ArchiveManifest) -> (r: Result<(), RepoError>)
    ensures
        manifest_matches(*m, *expected) ==> r is Ok,
        !manifest_matches(*m, *expected) ==> r == Err::<(), RepoError>(RepoError::InvalidBackup),
{
    if m.format_version != ARCHIVE_FORMAT_VERSION || m.schema_min != m.schema_max
        || m.record_count != expected.record_count || !same_counts(&m.table_counts, &expected.table_counts)
        || !same_hashes(&m.table_hashes, &expected.table_hashes) {
        return Err(RepoError::InvalidBackup);
    }
    Ok(())
}

fn copy_provenance(v: &Vec<ClassifierProvenance>) -> (r: Vec<ClassifierProvenance>)
    ensures
        r@ == v@,
{
    let mut out: Vec<ClassifierProvenance> = Vec::new();
    let mut i: usize = 0;
    while i < v.len()
        invariant
            i <= v@.len(),
            out@ == v@.take(i as int),
        decreases v.len() - i,
    {
        out.push(v[i].clone());
        i = i + 1;
        assert(out@ =~= v@.take(i as int));
    }
    assert(v@.take(v@.len() as int) =~= v@);
    out
}

/// The identity of an archive file: SHA-256 of all its bytes, in lower-case
/// hexadecimal.
pub fn archive_digest(bytes: &[u8]) -> (r: String)
    ensures
        r@ == hex_of(sha256_of(bytes@)),
{
    let digest = sha256(bytes);
    hex_encode(digest.as_slice())
}

/// A read manifest agrees with the records read: this format, one schema
/// version, the record count, and for each table seen (and no other) its
/// record count and the lower-case hex SHA-256 of its lines, each named once.
pub open spec fn manifest_agrees(
    m: ArchiveManifest,
    tables: Map<Seq<char>, (u64, Seq<u8>)>,
    records: u64,
) -> bool {
    &&& m.format_version == ARCHIVE_FORMAT_VERSION
    &&& m.schema_min == m.schema_max
    &&& m.record_count == records
    &&& unique_keys(m.table_counts@)
    &&& unique_keys(m.table_hashes@)
    &&& m.table_counts@.len() == tables.dom().len()
    &&& m.table_hashes@.len() == tables.dom().len()
    &&& forall|i: int| 0 <= i < m.table_counts@.len() ==> {
        let t = #[trigger] m.table_counts@[i].0@;
        tables.contains_key(t) && m.table_counts@[i].1 == tables[t].0
    }
    &&& forall|i: int| 0 <= i < m.table_hashes@.len() ==> {
        let t = #[trigger] m.table_hashes@[i].0@;
        tables.contains_key(t) && m.table_hashes@[i].1@ == hex_of(sha256_of(tables[t].1))
    }
}

/// The items of an archive as they are read: records, then exactly one
/// manifest, which must match what the records add up to.
pub struct ArchiveVerification {
    accumulator: ManifestAccumulator,
    manifest: Option<ArchiveManifest>,
}

impl ArchiveVerification {
    pub closed spec fn wf(&self) -> bool {
        self.accumulator.wf()
    }

    pub closed spec fn tables(&self) -> Map<Seq<char>, (u64, Seq<u8>)> {
        self.accumulator.tables()
    }

    pub closed spec fn records(&self) -> u64 {
        self.accumulator.total()
    }

    pub closed spec fn read_manifest(&self) -> Option<ArchiveManifest> {
        self.manifest
    }

    pub fn new() -> (r: Self)
        ensures
            r.wf(),
            r.records() == 0,
            r.tables() == Map::<Seq<char>, (u64, Seq<u8>)>::empty(),
            r.read_manifest() is None,
    {
        ArchiveVerification { accumulator: ManifestAccumulator::new(), manifest: None }
    }

    /// A record line (re-encoded, with its newline); none may follow the
    /// manifest.
    pub fn record(&mut self, table: &str, line: &[u8]) -> (r: Result<(), RepoError>)
        requires
            old(self).wf(),
        ensures
            final(self).wf(),
            old(self).read_manifest() is Some || old(self).records() == u64::MAX ==> r == Err::<(), RepoError>(
                RepoError::InvalidBackup,
            ) && final(self).tables() == old(self).tables() && final(self).records() == old(self).records(),
            !(old(self).read_manifest() is Some || old(self).records() == u64::MAX) ==> {
                &&& r is Ok
                &&& final(self).records() == old(self).records() + 1
                &&& final(self).read_manifest() == old(self).read_manifest()
                &&& final(self).tables() == old(self).tables().insert(
                    table@,
                    if old(self).tables().contains_key(table@) {
                        (
                            (old(self).tables()[table@].0 + 1) as u64,
                            old(self).tables()[table@].1 + line@,
                        )
                    } else {
                        (1u64, line@)
                    },
                )
            },
    {
        if self.manifest.is_some() || self.accumulator.total == u64::MAX {
            return Err(RepoError::InvalidBackup);
        }
        self.accumulator.push(table, line)
    }

    /// The manifest line; a second one is refused.
    pub fn accept_manifest(&mut self, manifest: ArchiveManifest) -> (r: Result<(), RepoError>)
        requires
            old(self).wf(),
        ensures
            final(self).wf(),
            final(self).tables() == old(self).tables(),
            final(self).records() == old(self).records(),
            old(self).read_manifest() is Some ==> r == Err::<(), RepoError>(RepoError::InvalidBackup),
            old(self).read_manifest() is None ==> r is Ok && final(self).read_manifest() == Some(manifest),
    {
        if self.manifest.is_some() {
            return Err(RepoError::InvalidBackup);
        }
        self.manifest = Some(manifest);
        Ok(())
    }

    /// After the last frame: there was a manifest, and it matches the
    /// records read; the archive is identified by the digest of its bytes.
    pub fn conclude(self, envelope: ArchiveEnvelope, archive_bytes: &[u8]) -> (r: Result<
        VerifiedArchive,
        RepoError,
    >)
        requires
            self.wf(),
        ensures
            self.read_manifest() is None ==> r == Err::<VerifiedArchive, RepoError>(RepoError::InvalidBackup),
            self.read_manifest() matches Some(m) ==> {
                &&& r is Ok <==> manifest_agrees(m, self.tables(), self.records())
                &&& r matches Ok(v) ==> v.manifest == m && v.envelope == envelope && v.archive_sha256@
                    == hex_of(sha256_of(archive_bytes@))
                &&& r matches Err(e) ==> e == RepoError::InvalidBackup
            },
    {
        let ArchiveVerification { accumulator, manifest } = self;
        let ghost tables = accumulator.tables();
        let m = match manifest {
            Some(m) => m,
            None => {
                return Err(RepoError::InvalidBackup);
            },
        };
        let provenance = copy_provenance(&m.classifier_provenance);
        let expected = accumulator.finish(m.created_at, m.schema_min, provenance);
        proof {
            lemma_dom_len(tables, expected.table_counts@);
            if manifest_agrees(m, tables, accumulator.total()) {
                assert forall|i: int| 0 <= i < m.table_counts@.len() implies count_found(
                    expected.table_counts@,
                    #[trigger] m.table_counts@[i].0@,
                    m.table_counts@[i].1,
                ) by {
                    let t = m.table_counts@[i].0@;
                    assert(tables.contains_key(t));
                    let j = choose|j: int| 0 <= j < expected.table_counts@.len() && #[trigger] expected.table_counts@[j].0@ == t;
                    assert(expected.table_counts@[j].1 == tables[t].0);
                }
                assert forall|a: int, b: int| 0 <= a < b < expected.table_hashes@.len() implies expected.table_hashes@[a].0@
                    != expected.table_hashes@[b].0@ by {
                    assert(expected.table_counts@[a].0@ == expected.table_hashes@[a].0@);
                    assert(expected.table_counts@[b].0@ == expected.table_hashes@[b].0@);
                }
                assert forall|i: int| 0 <= i < m.table_hashes@.len() implies text_found(
                    expected.table_hashes@,
                    #[trigger] m.table_hashes@[i].0@,
                    m.table_hashes@[i].1@,
                ) by {
                    let t = m.table_hashes@[i].0@;
                    assert(tables.contains_key(t));
                    let j = choose|j: int| 0 <= j < expected.table_counts@.len() && #[trigger] expected.table_counts@[j].0@ == t;
                    assert(expected.table_counts@[j].0@ == expected.table_hashes@[j].0@);
                    assert(expected.table_hashes@[j].1@ == hex_of(sha256_of(tables[t].1)));
                }
                assert(manifest_matches(m, expected));
            }
        }
        check_manifest(&m, &expected)?;
        proof {
            assert forall|i: int| 0 <= i < m.table_counts@.len() implies {
                let t = #[trigger] m.table_counts@[i].0@;
                tables.contains_key(t) && m.table_counts@[i].1 == tables[t].0
            } by {
                assert(count_found(expected.table_counts@, m.table_counts@[i].0@, m.table_counts@[i].1));
                let j = choose|j: int| 0 <= j < expected.table_counts@.len() && #[trigger] expected.table_counts@[j].0@ == m.table_counts@[i].0@ && expected.table_counts@[j].1 == m.table_counts@[i].1;
                assert(expected.table_counts@[j].0@ == expected.table_counts@[j].0@);
            }
            assert forall|i: int| 0 <= i < m.table_hashes@.len() implies {
                let t = #[trigger] m.table_hashes@[i].0@;
                tables.contains_key(t) && m.table_hashes@[i].1@ == hex_of(sha256_of(tables[t].1))
            } by {
                assert(text_found(expected.table_hashes@, m.table_hashes@[i].0@, m.table_hashes@[i].1@));
                let j = choose|j: int| 0 <= j < expected.table_hashes@.len() && #[trigger] expected.table_hashes@[j].0@ == m.table_hashes@[i].0@ && expected.table_hashes@[j].1@ == m.table_hashes@[i].1@;
                assert(expected.table_counts@[j].0@ == expected.table_hashes@[j].0@);
                assert(tables.contains_key(expected.table_counts@[j].0@));
            }
            lemma_dom_len(tables, expected.table_counts@);
        }
        let archive_sha256 = archive_digest(archive_bytes);
        Ok(VerifiedArchive { envelope, manifest: m, archive_sha256 })
    }
}

proof fn lemma_dom_len(tables: Map<Seq<char>, (u64, Seq<u8>)>, pairs: Seq<(String, u64)>)
    requires
        unique_keys(pairs),
        forall|t: Seq<char>| tables.contains_key(t) <==> exists|i: int|
            0 <= i < pairs.len() && #[trigger] pairs[i].0@ == t,
    ensures
        tables.dom().len() == pairs.len(),
        tables.dom().finite(),
{
    let keys = pairs.map_values(|p: (String, u64)| p.0@);
    assert forall|a: int, b: int| 0 <= a < b < keys.len() implies keys[a] != keys[b] by {}
    keys.unique_seq_to_set();
    assert(keys.to_set() =~= tables.dom()) by {
        assert forall|t: Seq<char>| keys.to_set().contains(t) <==> tables.dom().contains(t) by {
            if tables.contains_key(t) {
                let i = choose|i: int| 0 <= i < pairs.len() && #[trigger] pairs[i].0@ == t;
                assert(keys[i] == t);
            }
            if keys.to_set().contains(t) {
                let i = choose|i: int| 0 <= i < keys.len() && keys[i] == t;
                assert(pairs[i].0@ == t);
            }
        }
    }
}

} // verus!
