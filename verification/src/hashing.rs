//! SHA-1 and SHA-256 digests, their hexadecimal notation, and the rule by
//! which a byte range is hashed chunk by chunk.

use sha1::Digest;
use vstd::prelude::*;

verus! {

/// Most bytes one read asks for while a file is hashed.
pub const HASH_CHUNK: usize = 8192;

/// The SHA-1 digest of a byte string, as the `sha1` crate computes it.
pub uninterp spec fn sha1_digest(data: Seq<u8>) -> Seq<u8>;

/// The SHA-256 digest of a byte string, as the `sha2` crate computes it.
pub uninterp spec fn sha256_digest(data: Seq<u8>) -> Seq<u8>;

/// The bytes a SHA-1 computation has taken in so far, in order.
pub uninterp spec fn sha1_absorbed(h: Sha1Hasher) -> Seq<u8>;

/// The bytes a SHA-256 computation has taken in so far, in order.
pub uninterp spec fn sha256_absorbed(h: Sha256Hasher) -> Seq<u8>;

/// A SHA-1 computation in progress: a `sha1::Sha1`, of which the library
/// knows only the bytes it has taken in.
#[verifier::external_body]
pub struct Sha1Hasher {
    inner: sha1::Sha1,
}

/// A SHA-256 computation in progress: a `sha2::Sha256`, of which the
/// library knows only the bytes it has taken in.
#[verifier::external_body]
pub struct Sha256Hasher {
    inner: sha2::Sha256,
}

/// Calls `Sha1::new`: a computation that has taken in nothing.
#[verifier::external_body]
pub(crate) fn sha1_new() -> (h: Sha1Hasher)
    ensures
        sha1_absorbed(h) == Seq::<u8>::empty(),
{
    Sha1Hasher { inner: sha1::Sha1::new() }
}

/// Calls `Digest::update` on a `Sha1`: the computation takes in `data`
/// after what it has taken in before.
#[verifier::external_body]
pub(crate) fn sha1_update(h: &mut Sha1Hasher, data: &[u8])
    ensures
        sha1_absorbed(*final(h)) == sha1_absorbed(*old(h)) + data@,
{
    h.inner.update(data);
}

/// Calls `Digest::finalize` on a `Sha1`: the digest of everything taken in,
/// which has 20 bytes.
#[verifier::external_body]
pub(crate) fn sha1_finalize(h: Sha1Hasher) -> (digest: Vec<u8>)
    ensures
        digest@ == sha1_digest(sha1_absorbed(h)),
        digest@.len() == 20,
{
    h.inner.finalize().to_vec()
}

/// Calls `Sha256::new`: a computation that has taken in nothing.
#[verifier::external_body]
pub(crate) fn sha256_new() -> (h: Sha256Hasher)
    ensures
        sha256_absorbed(h) == Seq::<u8>::empty(),
{
    Sha256Hasher { inner: sha2::Sha256::new() }
}

/// Calls `Digest::update` on a `Sha256`: the computation takes in `data`
/// after what it has taken in before.
#[verifier::external_body]
pub(crate) fn sha256_update(h: &mut Sha256Hasher, data: &[u8])
    ensures
        sha256_absorbed(*final(h)) == sha256_absorbed(*old(h)) + data@,
{
    h.inner.update(data);
}

/// Calls `Digest::finalize` on a `Sha256`: the digest of everything taken
/// in, which has 32 bytes.
#[verifier::external_body]
pub(crate) fn sha256_finalize(h: Sha256Hasher) -> (digest: Vec<u8>)
    ensures
        digest@ == sha256_digest(sha256_absorbed(h)),
        digest@.len() == 32,
{
    h.inner.finalize().to_vec()
}

/// The lower-case hexadecimal digit for `n`.
pub open spec fn hex_digit(n: int) -> char {
    seq!['0', '1', '2', '3', '4', '5', '6', '7', '8', '9', 'a', 'b', 'c', 'd', 'e', 'f'][n]
}

/// The lower-case hexadecimal notation of a byte string: two digits per
/// byte, the high half first.
pub open spec fn hex_lower(bytes: Seq<u8>) -> Seq<char> {
    Seq::new(
        2 * bytes.len(),
        |i: int|
            if i % 2 == 0 {
                hex_digit(bytes[i / 2] as int / 16)
            } else {
                hex_digit(bytes[i / 2] as int % 16)
            },
    )
}

fn hex_char(n: u8) -> (c: char)
    requires
        n < 16,
    ensures
        c == hex_digit(n as int),
{
    let digits: [char; 16] = [
        '0',
        '1',
        '2',
        '3',
        '4',
        '5',
        '6',
        '7',
        '8',
        '9',
        'a',
        'b',
        'c',
        'd',
        'e',
        'f',
    ];
    digits[n as usize]
}

/// The lower-case hexadecimal notation of `bytes`.
pub fn to_hex(bytes: &[u8]) -> (s: String)
    ensures
        s@ == hex_lower(bytes@),
        s@.len() == 2 * bytes@.len(),
{
    let mut chars: Vec<char> = Vec::new();
    let mut i: usize = 0;
    assert(chars@ =~= hex_lower(bytes@.take(0)));
    while i < bytes.len()
        invariant
            i <= bytes@.len(),
            chars@ == hex_lower(bytes@.take(i as int)),
        decreases bytes@.len() - i,
    {
        let b = bytes[i];
        let ghost before = bytes@.take(i as int);
        let ghost after = bytes@.take(i + 1);
        chars.push(hex_char(b / 16));
        chars.push(hex_char(b % 16));
        assert(chars@ =~= hex_lower(after)) by {
            assert(after.len() == i + 1);
            assert(after[i as int] == b);
            assert forall|j: int| 0 <= j < 2 * i implies chars@[j] == hex_lower(after)[j] by {
                assert(j / 2 < i);
                assert(after[j / 2] == before[j / 2]);
                assert(chars@[j] == hex_lower(before)[j]);
            }
        }
        i += 1;
    }
    assert(bytes@.take(bytes@.len() as int) =~= bytes@);
    crate::text::from_chars(chars.as_slice())
}

/// The two digest algorithms the daemon offers.
#[derive(Clone, Copy, Debug, PartialEq, Eq, Structural)]
pub enum HashAlgorithm {
    Sha1,
    Sha256,
}

/// The digest of `data` under `algorithm`.
pub open spec fn digest(algorithm: HashAlgorithm, data: Seq<u8>) -> Seq<u8> {
    match algorithm {
        HashAlgorithm::Sha1 => sha1_digest(data),
        HashAlgorithm::Sha256 => sha256_digest(data),
    }
}

/// Number of bytes in a digest of `algorithm`.
pub open spec fn digest_len(algorithm: HashAlgorithm) -> nat {
    match algorithm {
        HashAlgorithm::Sha1 => 20,
        HashAlgorithm::Sha256 => 32,
    }
}

/// A digest computation of either algorithm.
pub enum Hasher {
    Sha1(Sha1Hasher),
    Sha256(Sha256Hasher),
}

impl Hasher {
    /// The algorithm of this computation.
    pub open spec fn algorithm(&self) -> HashAlgorithm {
        match *self {
            Hasher::Sha1(_) => HashAlgorithm::Sha1,
            Hasher::Sha256(_) => HashAlgorithm::Sha256,
        }
    }

    /// The bytes taken in so far.
    pub open spec fn absorbed(&self) -> Seq<u8> {
        match *self {
            Hasher::Sha1(h) => sha1_absorbed(h),
            Hasher::Sha256(h) => sha256_absorbed(h),
        }
    }

    /// A computation of `algorithm` that has taken in nothing.
    pub fn new(algorithm: HashAlgorithm) -> (h: Hasher)
        ensures
            h.algorithm() == algorithm,
            h.absorbed() == Seq::<u8>::empty(),
    {
        match algorithm {
            HashAlgorithm::Sha1 => Hasher::Sha1(sha1_new()),
            HashAlgorithm::Sha256 => Hasher::Sha256(sha256_new()),
        }
    }

    /// Takes in `data`.
    pub fn update(&mut self, data: &[u8])
        ensures
            final(self).algorithm() == old(self).algorithm(),
            final(self).absorbed() == old(self).absorbed() + data@,
    {
        match self {
            Hasher::Sha1(h) => sha1_update(h, data),
            Hasher::Sha256(h) => sha256_update(h, data),
        }
    }

    /// The digest of everything taken in.
    pub fn finalize(self) -> (d: Vec<u8>)
        ensures
            d@ == digest(self.algorithm(), self.absorbed()),
            d@.len() == digest_len(self.algorithm()),
    {
        match self {
            Hasher::Sha1(h) => sha1_finalize(h),
            Hasher::Sha256(h) => sha256_finalize(h),
        }
    }
}

/// The digest of `data` under `algorithm`: 20 bytes for SHA-1, 32 for
/// SHA-256.
pub fn digest_bytes(algorithm: HashAlgorithm, data: &[u8]) -> (d: Vec<u8>)
    ensures
        d@ == digest(algorithm, data@),
        d@.len() == digest_len(algorithm),
{
    let mut h = Hasher::new(algorithm);
    h.update(data);
    assert(h.absorbed() =~= data@);
    h.finalize()
}

/// The digest of `data` under `algorithm` in lower-case hexadecimal.
pub fn digest_hex(algorithm: HashAlgorithm, data: &[u8]) -> (s: String)
    ensures
        s@ == hex_lower(digest(algorithm, data@)),
{
    let d = digest_bytes(algorithm, data);
    to_hex(d.as_slice())
}

/// The smaller of the chunk size and what is left of the range.
pub open spec fn chunk_len(remaining: u64, chunk: usize) -> nat {
    if remaining < chunk {
        remaining as nat
    } else {
        chunk as nat
    }
}

/// Hashes a byte range of a file as it is read, chunk by chunk.
///
/// The caller asks how many bytes to read next, reads at most that many,
/// and feeds what it got; it stops when it is told that nothing is to be
/// read, or when a read returns no bytes.
pub struct RangeHasher {
    hasher: Hasher,
    remaining: u64,
    chunk: usize,
}

impl RangeHasher {
    /// The algorithm in use.
    pub closed spec fn algorithm(&self) -> HashAlgorithm {
        self.hasher.algorithm()
    }

    /// The bytes hashed so far.
    pub closed spec fn consumed(&self) -> Seq<u8> {
        self.hasher.absorbed()
    }

    /// How many bytes of the range are still to be hashed.
    pub closed spec fn remaining(&self) -> u64 {
        self.remaining
    }

    /// Most bytes one read asks for.
    pub closed spec fn chunk(&self) -> usize {
        self.chunk
    }

    /// Starts on a range of `length` bytes, read in chunks of 8 KiB;
    /// without a length the range runs to the end of the file.
    pub fn new(algorithm: HashAlgorithm, length: Option<u64>) -> (r: RangeHasher)
        ensures
            r.algorithm() == algorithm,
            r.consumed() == Seq::<u8>::empty(),
            r.chunk() == HASH_CHUNK,
            r.remaining() == (match length {
                Some(n) => n,
                None => u64::MAX,
            }),
    {
        RangeHasher::with_chunk(algorithm, length, HASH_CHUNK)
    }

    /// Starts on a range of `length` bytes, read in chunks of at most
    /// `chunk` bytes.
    pub fn with_chunk(algorithm: HashAlgorithm, length: Option<u64>, chunk: usize) -> (r:
        RangeHasher)
        ensures
            r.algorithm() == algorithm,
            r.consumed() == Seq::<u8>::empty(),
            r.chunk() == chunk,
            r.remaining() == (match length {
                Some(n) => n,
                None => u64::MAX,
            }),
    {
        let remaining = match length {
            Some(n) => n,
            None => u64::MAX,
        };
        RangeHasher { hasher: Hasher::new(algorithm), remaining, chunk }
    }

    /// How many bytes the next read should ask for: 0 once the range is
    /// exhausted.
    pub fn next_read(&self) -> (n: usize)
        ensures
            n == chunk_len(self.remaining(), self.chunk()),
    {
        if self.remaining < self.chunk as u64 {
            self.remaining as usize
        } else {
            self.chunk
        }
    }

    /// Takes what a read returned. Only as many bytes as were asked for
    /// are hashed. Returns whether to read on: not after an empty read, and
    /// not once the range is exhausted.
    pub fn feed(&mut self, chunk: &[u8]) -> (more: bool)
        ensures
            final(self).algorithm() == old(self).algorithm(),
            final(self).chunk() == old(self).chunk(),
            ({
                let wanted = chunk_len(old(self).remaining(), old(self).chunk());
                let taken = if chunk@.len() <= wanted {
                    chunk@.len() as int
                } else {
                    wanted as int
                };
                &&& final(self).consumed() == old(self).consumed() + chunk@.take(taken)
                &&& final(self).remaining() == old(self).remaining() - taken
                &&& more == (taken > 0 && final(self).remaining() > 0)
            }),
    {
        let wanted = self.next_read();
        let taken = if chunk.len() <= wanted {
            chunk.len()
        } else {
            wanted
        };
        let part = vstd::slice::slice_subrange(chunk, 0, taken);
        assert(part@ =~= chunk@.take(taken as int));
        self.hasher.update(part);
        self.remaining = self.remaining - taken as u64;
        taken > 0 && self.remaining > 0
    }

    /// The digest of the bytes hashed, in lower-case hexadecimal.
    pub fn finish(self) -> (s: String)
        ensures
            s@ == hex_lower(digest(self.algorithm(), self.consumed())),
    {
        let d = self.hasher.finalize();
        to_hex(d.as_slice())
    }
}

} // verus!
