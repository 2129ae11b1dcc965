//! Proof-of-work mining state and nonce checking.
//!
//! The digest comes from the `uhash-core` engine behind a trusted wrapper;
//! everything around it — difficulty checking, input assembly, proof
//! bookkeeping — is verified.  Worker threads and timing live in the host.

use vstd::prelude::*;
use vstd::bytes::{spec_u64_to_le_bytes, u64_to_le_bytes};
use vstd::utf8::encode_utf8;
use vstd::string::{StrSliceExecFns, StringSliceAdditionalSpecFns};

verus! {

/// A nonce whose digest met the difficulty, ready to submit.
#[derive(Clone, Debug)]
pub struct FoundProof {
    pub hash: String,
    pub nonce: u64,
    pub timestamp: u64,
}

/// Shared mining bookkeeping: the run flag, the hash counter, and the
/// proofs found but not yet collected.  The host wraps it in its own
/// synchronization for the worker threads.
pub struct MiningState {
    mining: bool,
    hash_count: u64,
    pending_proofs: Vec<FoundProof>,
}

impl MiningState {
    /// A fresh, idle mining state.
    pub fn new() -> (s: MiningState)
        ensures
            !s.is_mining_spec(),
            s.hash_count_spec() == 0,
            s.proofs_spec() == Seq::<FoundProof>::empty(),
    {
        MiningState { mining: false, hash_count: 0, pending_proofs: Vec::new() }
    }

    /// Whether mining is running.
    pub closed spec fn is_mining_spec(self) -> bool {
        self.mining
    }

    /// Hashes attempted since mining began.
    pub closed spec fn hash_count_spec(self) -> u64 {
        self.hash_count
    }

    /// The proofs found and not yet collected.
    pub closed spec fn proofs_spec(self) -> Seq<FoundProof> {
        self.pending_proofs@
    }

    /// Whether mining is running.
    pub fn is_mining(&self) -> (r: bool)
        ensures
            r == self.is_mining_spec(),
    {
        self.mining
    }

    /// Hashes attempted since mining began.
    pub fn hash_count(&self) -> (r: u64)
        ensures
            r == self.hash_count_spec(),
    {
        self.hash_count
    }

    /// Number of proofs found and not yet collected.
    pub fn pending_count(&self) -> (r: usize)
        ensures
            r as int == self.proofs_spec().len(),
    {
        self.pending_proofs.len()
    }

    /// Start a run: false (and no change) when already mining, else the
    /// counter and pending proofs reset.
    pub fn begin(&mut self) -> (started: bool)
        ensures
            old(self).is_mining_spec() ==> !started && *final(self) == *old(self),
            !old(self).is_mining_spec() ==> started && final(self).is_mining_spec()
                && final(self).hash_count_spec() == 0
                && final(self).proofs_spec() == Seq::<FoundProof>::empty(),
    {
        if self.mining {
            return false;
        }
        self.mining = true;
        self.hash_count = 0;
        self.pending_proofs.clear();
        true
    }

    /// Stop the run; counters and pending proofs are kept for reporting.
    pub fn end(&mut self)
        ensures
            !final(self).is_mining_spec(),
            final(self).hash_count_spec() == old(self).hash_count_spec(),
            final(self).proofs_spec() == old(self).proofs_spec(),
    {
        self.mining = false;
    }

    /// Count `n` more attempted hashes (wrapping, as a shared counter does).
    pub fn record_hashes(&mut self, n: u64)
        ensures
            final(self).hash_count_spec() == vstd::wrapping::u64_specs::wrapping_add(
                old(self).hash_count_spec(),
                n,
            ),
            final(self).is_mining_spec() == old(self).is_mining_spec(),
            final(self).proofs_spec() == old(self).proofs_spec(),
    {
        self.hash_count = self.hash_count.wrapping_add(n);
    }

    /// Record one found proof.
    pub fn push_proof(&mut self, p: FoundProof)
        ensures
            final(self).proofs_spec() == old(self).proofs_spec().push(p),
            final(self).is_mining_spec() == old(self).is_mining_spec(),
            final(self).hash_count_spec() == old(self).hash_count_spec(),
    {
        self.pending_proofs.push(p);
    }

    /// Collect the found proofs, leaving none pending.
    pub fn take_proofs(&mut self) -> (r: Vec<FoundProof>)
        ensures
            r@ == old(self).proofs_spec(),
            final(self).proofs_spec() == Seq::<FoundProof>::empty(),
            final(self).is_mining_spec() == old(self).is_mining_spec(),
            final(self).hash_count_spec() == old(self).hash_count_spec(),
    {
        let mut taken: Vec<FoundProof> = Vec::new();
        core::mem::swap(&mut taken, &mut self.pending_proofs);
        taken
    }
}

/// Leading zero bits of one byte.
pub open spec fn byte_leading_zeros(b: u8) -> int {
    if b >= 128 {
        0
    } else if b >= 64 {
        1
    } else if b >= 32 {
        2
    } else if b >= 16 {
        3
    } else if b >= 8 {
        4
    } else if b >= 4 {
        5
    } else if b >= 2 {
        6
    } else if b >= 1 {
        7
    } else {
        8
    }
}

/// Leading zero bits of a byte string: 8 per zero byte, stopping inside the
/// first nonzero byte.
pub open spec fn leading_zero_bits(s: Seq<u8>) -> int
    decreases s.len(),
{
    if s.len() == 0 {
        0
    } else if s[0] == 0 {
        8 + leading_zero_bits(s.drop_first())
    } else {
        byte_leading_zeros(s[0])
    }
}

/// The leading-zero count is never negative.
proof fn lemma_lz_nonneg(s: Seq<u8>)
    ensures
        leading_zero_bits(s) >= 0,
    decreases s.len(),
{
    if s.len() > 0 && s[0] == 0 {
        lemma_lz_nonneg(s.drop_first());
    }
}

/// When the first `i` bytes are zero, at least `8 * i` bits lead.
proof fn lemma_lz_prefix(s: Seq<u8>, i: int)
    requires
        0 <= i <= s.len(),
        forall|j: int| 0 <= j < i ==> s[j] == 0,
    ensures
        leading_zero_bits(s) >= 8 * i,
    decreases i,
{
    if i > 0 {
        assert(s[0] == 0);
        assert forall|j: int| 0 <= j < i - 1 implies s.drop_first()[j] == 0 by {
            assert(s.drop_first()[j] == s[j + 1]);
        }
        lemma_lz_prefix(s.drop_first(), i - 1);
        assert(leading_zero_bits(s) == 8 + leading_zero_bits(s.drop_first()));
    } else {
        lemma_lz_nonneg(s);
    }
}

/// When the first `i` bytes are zero and byte `i` is not, the count is
/// exactly `8 * i` plus that byte's own leading zeros.
proof fn lemma_lz_exact(s: Seq<u8>, i: int)
    requires
        0 <= i < s.len(),
        forall|j: int| 0 <= j < i ==> s[j] == 0,
        s[i] != 0,
    ensures
        leading_zero_bits(s) == 8 * i + byte_leading_zeros(s[i]),
    decreases i,
{
    if i == 0 {
    } else {
        assert(s[0] == 0);
        assert(s.drop_first()[i - 1] == s[i]);
        assert forall|j: int| 0 <= j < i - 1 implies s.drop_first()[j] == 0 by {
            assert(s.drop_first()[j] == s[j + 1]);
        }
        lemma_lz_exact(s.drop_first(), i - 1);
    }
}

/// When every byte is zero, the count is exactly `8 * len`.
proof fn lemma_lz_all_zero(s: Seq<u8>)
    requires
        forall|j: int| 0 <= j < s.len() ==> s[j] == 0,
    ensures
        leading_zero_bits(s) == 8 * s.len(),
    decreases s.len(),
{
    if s.len() > 0 {
        assert(s[0] == 0);
        assert forall|j: int| 0 <= j < s.len() - 1 implies s.drop_first()[j] == 0 by {
            assert(s.drop_first()[j] == s[j + 1]);
        }
        lemma_lz_all_zero(s.drop_first());
    }
}

/// Leading zero bits of one byte.
fn byte_lz(b: u8) -> (r: u32)
    ensures
        r as int == byte_leading_zeros(b),
{
    if b >= 128 {
        0
    } else if b >= 64 {
        1
    } else if b >= 32 {
        2
    } else if b >= 16 {
        3
    } else if b >= 8 {
        4
    } else if b >= 4 {
        5
    } else if b >= 2 {
        6
    } else if b >= 1 {
        7
    } else {
        8
    }
}

/// Whether a digest has at least `difficulty` leading zero bits.
pub fn meets_difficulty(hash: &[u8], difficulty: u32) -> (r: bool)
    ensures
        r == (leading_zero_bits(hash@) >= difficulty),
{
    let mut i: usize = 0;
    let mut zeros: u64 = 0;
    while i < hash.len()
        invariant
            i <= hash@.len(),
            zeros == 8 * (i as int),
            zeros <= u32::MAX as u64,
            forall|j: int| 0 <= j < i ==> hash@[j] == 0,
        decreases hash@.len() - i,
    {
        let b = hash[i];
        if b != 0 {
            let total = zeros + byte_lz(b) as u64;
            proof {
                lemma_lz_exact(hash@, i as int);
            }
            return total >= difficulty as u64;
        }
        zeros = zeros + 8;
        if zeros > u32::MAX as u64 {
            proof {
                lemma_lz_prefix(hash@, i + 1);
            }
            return true;
        }
        i = i + 1;
    }
    proof {
        lemma_lz_all_zero(hash@);
    }
    zeros >= difficulty as u64
}

/// A digest name for the `uhash-core` engine: a function of the input
/// bytes alone.
pub uninterp spec fn uhash_of(input: Seq<u8>) -> Seq<u8>;

/// Relies on uhash_core::hash: a one-shot digest of the input bytes (the
/// engine re-seeds its scratchpads from the input on every call), 32 bytes.
#[verifier::external_body]
fn uhash_digest(input: &Vec<u8>) -> (r: Vec<u8>)
    ensures
        r@ == uhash_of(input@),
        r@.len() == 32,
{
    uhash_core::hash(input.as_slice()).to_vec()
}

/// One hex digit, lower case.
pub open spec fn hex_digit(n: int) -> char {
    if n == 0 {
        '0'
    } else if n == 1 {
        '1'
    } else if n == 2 {
        '2'
    } else if n == 3 {
        '3'
    } else if n == 4 {
        '4'
    } else if n == 5 {
        '5'
    } else if n == 6 {
        '6'
    } else if n == 7 {
        '7'
    } else if n == 8 {
        '8'
    } else if n == 9 {
        '9'
    } else if n == 10 {
        'a'
    } else if n == 11 {
        'b'
    } else if n == 12 {
        'c'
    } else if n == 13 {
        'd'
    } else if n == 14 {
        'e'
    } else {
        'f'
    }
}

/// Lower-case hex encoding: two digits per byte, high nibble first.
pub open spec fn hex_encoding(s: Seq<u8>) -> Seq<char>
    decreases s.len(),
{
    if s.len() == 0 {
        Seq::empty()
    } else {
        seq![hex_digit(s[0] as int / 16), hex_digit(s[0] as int % 16)] + hex_encoding(
            s.drop_first(),
        )
    }
}

/// Relies on hex::encode: the lower-case hex string of the bytes, two
/// digits per byte, high nibble first.
#[verifier::external_body]
fn hex_encode(b: &Vec<u8>) -> (r: String)
    ensures
        r@ == hex_encoding(b@),
{
    hex::encode(b.as_slice())
}

/// A hex digit character (either case).
pub open spec fn is_hex_digit_char(c: char) -> bool {
    ('0' <= c && c <= '9') || ('a' <= c && c <= 'f') || ('A' <= c && c <= 'F')
}

/// The value of one hex digit character.
pub open spec fn hex_char_val(c: char) -> int {
    if '0' <= c && c <= '9' {
        c as int - '0' as int
    } else if 'a' <= c && c <= 'f' {
        10 + c as int - 'a' as int
    } else {
        10 + c as int - 'A' as int
    }
}

/// A string that hex-decodes: even length, hex digits only.
pub open spec fn is_valid_hex(s: Seq<char>) -> bool {
    s.len() % 2 == 0 && (forall|i: int| 0 <= i < s.len() ==> is_hex_digit_char(#[trigger] s[i]))
}

/// The bytes a hex string decodes to, pairing digits high nibble first.
pub open spec fn hex_decoding(s: Seq<char>) -> Seq<u8>
    decreases s.len(),
{
    if s.len() < 2 {
        Seq::empty()
    } else {
        seq![(hex_char_val(s[0]) * 16 + hex_char_val(s[1])) as u8] + hex_decoding(s.skip(2))
    }
}

/// Relies on hex::decode: bytes exactly when the input has even length and
/// only hex digits (of either case); the digit pairs give the bytes, high
/// nibble first.
#[verifier::external_body]
fn hex_decode(s: &str) -> (r: Option<Vec<u8>>)
    ensures
        r is Some <==> is_valid_hex(s@),
        r matches Some(v) ==> v@ == hex_decoding(s@),
{
    match hex::decode(s) {
        Ok(v) => Some(v),
        Err(_) => None,
    }
}

/// The mining seed as bytes: its hex decoding when it is valid hex, else
/// the seed's own UTF-8 bytes.
pub fn decode_seed(seed: &str) -> (r: Vec<u8>)
    ensures
        is_valid_hex(seed@) ==> r@ == hex_decoding(seed@),
        !is_valid_hex(seed@) ==> r@ == encode_utf8(seed@),
{
    match hex_decode(seed) {
        Some(v) => v,
        None => seed.as_bytes_vec(),
    }
}

/// The digest input for one nonce attempt:
/// `seed_bytes || address || timestamp || nonce`, integers little-endian.
pub open spec fn spec_mining_input(
    seed_bytes: Seq<u8>,
    address: Seq<char>,
    timestamp: u64,
    nonce: u64,
) -> Seq<u8> {
    seed_bytes + encode_utf8(address) + spec_u64_to_le_bytes(timestamp) + spec_u64_to_le_bytes(
        nonce,
    )
}

/// Assemble the digest input for one nonce attempt.
pub fn mining_input(seed_bytes: &Vec<u8>, address: &str, timestamp: u64, nonce: u64) -> (r: Vec<
    u8,
>)
    requires
        seed_bytes@.len() + address.spec_bytes().len() + 16 <= usize::MAX,
    ensures
        r@ == spec_mining_input(seed_bytes@, address@, timestamp, nonce),
{
    let mut out: Vec<u8> = Vec::new();
    out.extend_from_slice(seed_bytes.as_slice());
    out.extend_from_slice(address.as_bytes());
    let mut ts = u64_to_le_bytes(timestamp);
    out.append(&mut ts);
    let mut nn = u64_to_le_bytes(nonce);
    out.append(&mut nn);
    proof {
        assert(out@ =~= spec_mining_input(seed_bytes@, address@, timestamp, nonce));
    }
    out
}

/// Try one nonce: hash the assembled input and, when the digest meets the
/// difficulty, build the proof carrying the hex digest, nonce and timestamp.
pub fn try_nonce(
    seed_bytes: &Vec<u8>,
    address: &str,
    timestamp: u64,
    nonce: u64,
    difficulty: u32,
) -> (r: Option<FoundProof>)
    requires
        seed_bytes@.len() + address.spec_bytes().len() + 16 <= usize::MAX,
    ensures
        ({
            let digest = uhash_of(spec_mining_input(seed_bytes@, address@, timestamp, nonce));
            if leading_zero_bits(digest) >= difficulty {
                r matches Some(p) && p.hash@ == hex_encoding(digest) && p.nonce == nonce
                    && p.timestamp == timestamp
            } else {
                r is None
            }
        }),
{
    let input = mining_input(seed_bytes, address, timestamp, nonce);
    let digest = uhash_digest(&input);
    if meets_difficulty(digest.as_slice(), difficulty) {
        let hash = hex_encode(&digest);
        Some(FoundProof { hash, nonce, timestamp })
    } else {
        None
    }
}

} // verus!
