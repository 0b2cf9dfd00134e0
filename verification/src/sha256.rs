//! SHA-256, with a state that can be kept after whole blocks and resumed,
//! and the mask generation function built on it.

use vstd::prelude::*;
use crate::utils::{u32_be_bytes, u32_to_bytes, u64_be_bytes, u64_to_bytes};

verus! {

/// Bytes in a block of SHA-256.
pub const SPX_SHA256_BLOCK_BYTES: usize = 64;

/// Bytes in a digest of SHA-256.
pub const SPX_SHA256_OUTPUT_BYTES: usize = 32;

/// A message of this many bytes or more has no SHA-256 digest: its length in
/// bits does not fit the 64-bit field of the padding.
pub const SPX_SHA256_MAX_BYTES: u64 = 0x2000_0000_0000_0000;

/// The initial hash value.
pub const SHA256_IV: [u32; 8] = [
    0x6a09e667, 0xbb67ae85, 0x3c6ef372, 0xa54ff53a,
    0x510e527f, 0x9b05688c, 0x1f83d9ab, 0x5be0cd19,
];

/// The round constants.
pub const SHA256_K: [u32; 64] = [
    0x428a2f98, 0x71374491, 0xb5c0fbcf, 0xe9b5dba5, 0x3956c25b, 0x59f111f1,
    0x923f82a4, 0xab1c5ed5, 0xd807aa98, 0x12835b01, 0x243185be, 0x550c7dc3,
    0x72be5d74, 0x80deb1fe, 0x9bdc06a7, 0xc19bf174, 0xe49b69c1, 0xefbe4786,
    0x0fc19dc6, 0x240ca1cc, 0x2de92c6f, 0x4a7484aa, 0x5cb0a9dc, 0x76f988da,
    0x983e5152, 0xa831c66d, 0xb00327c8, 0xbf597fc7, 0xc6e00bf3, 0xd5a79147,
    0x06ca6351, 0x14292967, 0x27b70a85, 0x2e1b2138, 0x4d2c6dfc, 0x53380d13,
    0x650a7354, 0x766a0abb, 0x81c2c92e, 0x92722c85, 0xa2bfe8a1, 0xa81a664b,
    0xc24b8b70, 0xc76c51a3, 0xd192e819, 0xd6990624, 0xf40e3585, 0x106aa070,
    0x19a4c116, 0x1e376c08, 0x2748774c, 0x34b0bcb5, 0x391c0cb3, 0x4ed8aa4a,
    0x5b9cca4f, 0x682e6ff3, 0x748f82ee, 0x78a5636f, 0x84c87814, 0x8cc70208,
    0x90befffa, 0xa4506ceb, 0xbef9a3f7, 0xc67178f2,
];

/// `x` rotated right by `n` bits, for `n` from 1 to 31.
pub open spec fn rotr32(x: u32, n: u32) -> u32 {
    (x >> n) | (x << ((32 - n) as u32))
}

pub open spec fn ch32(x: u32, y: u32, z: u32) -> u32 {
    (x & y) ^ (!x & z)
}

pub open spec fn maj32(x: u32, y: u32, z: u32) -> u32 {
    (x & y) ^ (x & z) ^ (y & z)
}

pub open spec fn big_sigma0_32(x: u32) -> u32 {
    rotr32(x, 2) ^ rotr32(x, 13) ^ rotr32(x, 22)
}

pub open spec fn big_sigma1_32(x: u32) -> u32 {
    rotr32(x, 6) ^ rotr32(x, 11) ^ rotr32(x, 25)
}

pub open spec fn small_sigma0_32(x: u32) -> u32 {
    rotr32(x, 7) ^ rotr32(x, 18) ^ (x >> 3)
}

pub open spec fn small_sigma1_32(x: u32) -> u32 {
    rotr32(x, 17) ^ rotr32(x, 19) ^ (x >> 10)
}

/// The big-endian word in the 4 bytes of `bytes` from `at` on.
pub open spec fn be_word32(bytes: Seq<u8>, at: int) -> u32 {
    ((bytes[at] as u32) << 24) | ((bytes[at + 1] as u32) << 16) | ((bytes[at + 2] as u32) << 8) | (
    bytes[at + 3] as u32)
}

/// Word `t` of the message schedule of a 64-byte block, for `t` below 64.
pub open spec fn schedule256(block: Seq<u8>, t: int) -> u32
    decreases t,
{
    if t < 16 {
        be_word32(block, 4 * t)
    } else {
        small_sigma1_32(schedule256(block, t - 2)).wrapping_add(
            schedule256(block, t - 7),
        ).wrapping_add(small_sigma0_32(schedule256(block, t - 15))).wrapping_add(
            schedule256(block, t - 16),
        )
    }
}

/// The eight working variables of the compression function.
pub struct Working256 {
    pub a: u32,
    pub b: u32,
    pub c: u32,
    pub d: u32,
    pub e: u32,
    pub f: u32,
    pub g: u32,
    pub h: u32,
}

/// One round: the working variables after a round with constant `k` and
/// schedule word `w`.
pub open spec fn round256(v: Working256, k: u32, w: u32) -> Working256 {
    let t1 = v.h.wrapping_add(big_sigma1_32(v.e)).wrapping_add(ch32(v.e, v.f, v.g)).wrapping_add(
        k,
    ).wrapping_add(w);
    let t2 = big_sigma0_32(v.a).wrapping_add(maj32(v.a, v.b, v.c));
    Working256 {
        a: t1.wrapping_add(t2),
        b: v.a,
        c: v.b,
        d: v.c,
        e: v.d.wrapping_add(t1),
        f: v.e,
        g: v.f,
        h: v.g,
    }
}

/// The working variables after the first `t` rounds on `block`.
pub open spec fn rounds256(init: Working256, block: Seq<u8>, t: nat) -> Working256
    decreases t,
{
    if t == 0 {
        init
    } else {
        round256(
            rounds256(init, block, (t - 1) as nat),
            SHA256_K[t - 1],
            schedule256(block, t - 1),
        )
    }
}

/// The compression function: the hash value after the 64-byte `block`, from
/// the hash value `h` before it.
pub open spec fn compress256(h: Seq<u32>, block: Seq<u8>) -> Seq<u32> {
    let init = Working256 {
        a: h[0],
        b: h[1],
        c: h[2],
        d: h[3],
        e: h[4],
        f: h[5],
        g: h[6],
        h: h[7],
    };
    let v = rounds256(init, block, 64);
    seq![
        h[0].wrapping_add(v.a),
        h[1].wrapping_add(v.b),
        h[2].wrapping_add(v.c),
        h[3].wrapping_add(v.d),
        h[4].wrapping_add(v.e),
        h[5].wrapping_add(v.f),
        h[6].wrapping_add(v.g),
        h[7].wrapping_add(v.h),
    ]
}

/// The hash value after the first `blocks` blocks of `data`, from the hash
/// value `h`.
pub open spec fn absorb256(h: Seq<u32>, data: Seq<u8>, blocks: nat) -> Seq<u32>
    decreases blocks,
{
    if blocks == 0 {
        h
    } else {
        compress256(
            absorb256(h, data, (blocks - 1) as nat),
            data.subrange(64 * (blocks - 1), 64 * (blocks as int)),
        )
    }
}

/// What is appended to a message of `len` bytes: the byte 0x80, the least
/// number of zero bytes that brings the whole to 8 bytes below a multiple of
/// 64, and the length of the message in bits as 8 big-endian bytes.
pub open spec fn padding256(len: nat) -> Seq<u8> {
    seq![0x80u8] + Seq::new(((119 - len % 64) % 64) as nat, |i: int| 0u8) + u64_be_bytes(
        (8 * len) as u64,
    )
}

/// The 32 bytes of a hash value, each word big-endian.
pub open spec fn digest256_bytes(h: Seq<u32>) -> Seq<u8> {
    Seq::new(32, |k: int| u32_be_bytes(h[k / 4])[k % 4])
}

/// The SHA-256 digest of `msg`, for a message of less than 2^61 bytes.
pub open spec fn sha256_digest(msg: Seq<u8>) -> Seq<u8> {
    let padded = msg + padding256(msg.len());
    digest256_bytes(absorb256(SHA256_IV@, padded, padded.len() / 64))
}

/// `x` rotated right by `n` bits.
fn rotate_right32(x: u32, n: u32) -> (r: u32)
    requires
        0 < n < 32,
    ensures
        r == rotr32(x, n),
{
    (x >> n) | (x << (32 - n))
}

/// The big-endian word in the 4 bytes of `data` from `at` on.
fn load_be32(data: &[u8], at: usize) -> (w: u32)
    requires
        at + 4 <= data.len(),
    ensures
        w == be_word32(data@, at as int),
{
    ((data[at] as u32) << 24) | ((data[at + 1] as u32) << 16) | ((data[at + 2] as u32) << 8) | (
    data[at + 3] as u32)
}

/// The message schedule of the block that starts at `at` in `data`.
fn expand_block256(data: &[u8], at: usize) -> (w: [u32; 64])
    requires
        at + 64 <= data.len(),
    ensures
        forall|j: int|
            0 <= j < 64 ==> w@[j] == #[trigger] schedule256(
                data@.subrange(at as int, at + 64),
                j,
            ),
{
    let ghost block = data@.subrange(at as int, at + 64);
    let mut w = [0u32; 64];
    for t in 0..16usize
        invariant
            at + 64 <= data.len(),
            block == data@.subrange(at as int, at + 64),
            forall|j: int| 0 <= j < t ==> w@[j] == #[trigger] schedule256(block, j),
    {
        w[t] = load_be32(data, at + 4 * t);
    }
    for t in 16..64usize
        invariant
            forall|j: int| 0 <= j < t ==> w@[j] == #[trigger] schedule256(block, j),
    {
        let s0: u32 = rotate_right32(w[t - 15], 7) ^ rotate_right32(w[t - 15], 18) ^ (w[t - 15]
            >> 3);
        let s1: u32 = rotate_right32(w[t - 2], 17) ^ rotate_right32(w[t - 2], 19) ^ (w[t - 2]
            >> 10);
        w[t] = s1.wrapping_add(w[t - 7]).wrapping_add(s0).wrapping_add(w[t - 16]);
        assert(w@[t as int] == schedule256(block, t as int)) by {
            assert(w@[t - 2] == schedule256(block, t - 2));
            assert(w@[t - 7] == schedule256(block, t - 7));
            assert(w@[t - 15] == schedule256(block, t - 15));
            assert(w@[t - 16] == schedule256(block, t - 16));
        }
    }
    w
}

/// Replaces the hash value in `state` by the one after the block that
/// starts at `at` in `data`.
fn compress_block256(state: &mut [u32; 8], data: &[u8], at: usize)
    requires
        at + 64 <= data.len(),
    ensures
        final(state)@ == compress256(old(state)@, data@.subrange(at as int, at + 64)),
{
    let ghost block = data@.subrange(at as int, at + 64);
    let w = expand_block256(data, at);
    let mut a: u32 = state[0];
    let mut b: u32 = state[1];
    let mut c: u32 = state[2];
    let mut d: u32 = state[3];
    let mut e: u32 = state[4];
    let mut f: u32 = state[5];
    let mut g: u32 = state[6];
    let mut h: u32 = state[7];
    let ghost init = Working256 { a, b, c, d, e, f, g, h };
    for t in 0..64usize
        invariant
            forall|j: int| 0 <= j < 64 ==> w@[j] == #[trigger] schedule256(block, j),
            (Working256 { a, b, c, d, e, f, g, h }) == rounds256(init, block, t as nat),
    {
        let s1: u32 = rotate_right32(e, 6) ^ rotate_right32(e, 11) ^ rotate_right32(e, 25);
        let choice: u32 = (e & f) ^ (!e & g);
        let t1: u32 = h.wrapping_add(s1).wrapping_add(choice).wrapping_add(
            SHA256_K[t],
        ).wrapping_add(w[t]);
        let s0: u32 = rotate_right32(a, 2) ^ rotate_right32(a, 13) ^ rotate_right32(a, 22);
        let majority: u32 = (a & b) ^ (a & c) ^ (b & c);
        let t2: u32 = s0.wrapping_add(majority);
        h = g;
        g = f;
        f = e;
        e = d.wrapping_add(t1);
        d = c;
        c = b;
        b = a;
        a = t1.wrapping_add(t2);
    }
    state[0] = state[0].wrapping_add(a);
    state[1] = state[1].wrapping_add(b);
    state[2] = state[2].wrapping_add(c);
    state[3] = state[3].wrapping_add(d);
    state[4] = state[4].wrapping_add(e);
    state[5] = state[5].wrapping_add(f);
    state[6] = state[6].wrapping_add(g);
    state[7] = state[7].wrapping_add(h);
    assert(state@ =~= compress256(old(state)@, block));
}

/// The hash value after some blocks depends on the bytes of those blocks
/// only.
pub proof fn lemma_absorb256_prefix(h: Seq<u32>, a: Seq<u8>, b: Seq<u8>, blocks: nat)
    requires
        64 * blocks <= a.len(),
        64 * blocks <= b.len(),
        forall|i: int| 0 <= i < 64 * blocks ==> a[i] == b[i],
    ensures
        absorb256(h, a, blocks) == absorb256(h, b, blocks),
    decreases blocks,
{
    if blocks > 0 {
        lemma_absorb256_prefix(h, a, b, (blocks - 1) as nat);
        assert(a.subrange(64 * (blocks - 1), 64 * (blocks as int)) =~= b.subrange(
            64 * (blocks - 1),
            64 * (blocks as int),
        ));
    }
}

/// Absorbing the `m` blocks of `a` and then `n` blocks of `b` is absorbing
/// `m + n` blocks of `a + b`.
pub proof fn lemma_absorb256_split(h: Seq<u32>, a: Seq<u8>, b: Seq<u8>, m: nat, n: nat)
    requires
        a.len() == 64 * m,
        64 * n <= b.len(),
    ensures
        absorb256(h, a + b, m + n) == absorb256(absorb256(h, a, m), b, n),
    decreases n,
{
    if n == 0 {
        lemma_absorb256_prefix(h, a + b, a, m);
    } else {
        lemma_absorb256_split(h, a, b, m, (n - 1) as nat);
        assert((a + b).subrange(64 * (m + n - 1), 64 * ((m + n) as int)) =~= b.subrange(
            64 * (n - 1),
            64 * (n as int),
        ));
    }
}

/// Replaces the hash value in `state` by the one after the whole blocks of
/// `data`.
fn absorb_whole256(state: &mut [u32; 8], data: &[u8])
    ensures
        final(state)@ == absorb256(old(state)@, data@, (data@.len() / 64) as nat),
{
    let blocks: usize = data.len() / 64;
    for i in 0..blocks
        invariant
            blocks == data.len() / 64,
            state@ == absorb256(old(state)@, data@, i as nat),
    {
        compress_block256(state, data, 64 * i);
    }
}

/// The end of a padded message of `total` bytes that ends with `data`: the
/// bytes of `data` after its whole blocks, then the padding. It fills the
/// first block, or both blocks, of the result.
fn padded_tail256(data: &[u8], total: u64) -> (r: ([u8; 128], usize))
    requires
        total < SPX_SHA256_MAX_BYTES,
        total % 64 == data@.len() % 64,
    ensures
        r.1 == 1 || r.1 == 2,
        r.0@.take(64 * r.1) == data@.skip(64 * (data@.len() as int / 64)) + padding256(total as nat),
{
    let full: usize = data.len() / 64;
    let rest: usize = data.len() - 64 * full;
    let blocks: usize = if rest < 56 {
        1
    } else {
        2
    };
    let length: [u8; 8] = u64_to_bytes(total * 8);
    let ghost tail = data@.skip(64 * full) + padding256(total as nat);
    assert(padding256(total as nat).len() == 64 * blocks - rest);
    let mut last = [0u8; 128];
    for j in 0..rest
        invariant
            rest == data.len() - 64 * full,
            rest < 64,
            tail == data@.skip(64 * full) + padding256(total as nat),
            forall|k: int| 0 <= k < j ==> last@[k] == tail[k],
            forall|k: int| j <= k < 128 ==> last@[k] == 0,
    {
        last[j] = data[64 * full + j];
    }
    last[rest] = 0x80;
    for j in 0..8usize
        invariant
            rest < 64,
            blocks == if rest < 56 {
                1usize
            } else {
                2usize
            },
            tail.len() == 64 * blocks,
            length@ == u64_be_bytes((8 * total) as u64),
            tail == data@.skip(64 * full) + padding256(total as nat),
            data@.skip(64 * full).len() == rest,
            forall|k: int| 0 <= k < 64 * blocks - 8 ==> last@[k] == tail[k],
            forall|k: int| 0 <= k < j ==> last@[64 * blocks - 8 + k] == length@[k],
    {
        last[64 * blocks - 8 + j] = length[j];
    }
    proof {
        assert forall|k: int| 0 <= k < 64 * blocks implies last@[k] == tail[k] by {
            if k >= 64 * blocks - 8 {
                let j = k - (64 * blocks - 8);
                assert(last@[64 * blocks - 8 + j] == length@[j]);
            }
        }
        assert(last@.take(64 * blocks) =~= tail);
    }
    (last, blocks)
}

/// The bytes of the hash value `h`, each word big-endian.
fn digest256(h: &[u32; 8]) -> (digest: [u8; 32])
    ensures
        digest@ == digest256_bytes(h@),
{
    let mut digest = [0u8; 32];
    for i in 0..8usize
        invariant
            forall|k: int| 0 <= k < 4 * i ==> digest@[k] == #[trigger] digest256_bytes(h@)[k],
    {
        let word: [u8; 4] = u32_to_bytes(h[i]);
        digest[4 * i] = word[0];
        digest[4 * i + 1] = word[1];
        digest[4 * i + 2] = word[2];
        digest[4 * i + 3] = word[3];
    }
    assert(digest@ =~= digest256_bytes(h@));
    digest
}

/// A digest may be computed in three steps: over the whole blocks `before`,
/// over the whole blocks of `data`, and over the rest of `data` with the
/// padding, which `last` holds in its first `tail_blocks` blocks.
proof fn lemma_sha256_resumed(
    before: Seq<u8>,
    data: Seq<u8>,
    last: Seq<u8>,
    tail_blocks: nat,
)
    requires
        before.len() % 64 == 0,
        tail_blocks == 1 || tail_blocks == 2,
        last.len() >= 64 * tail_blocks,
        last.take(64 * (tail_blocks as int)) == data.skip(64 * (data.len() as int / 64)) + padding256(
            before.len() + data.len(),
        ),
    ensures
        sha256_digest(before + data) == digest256_bytes(
            absorb256(
                absorb256(
                    absorb256(SHA256_IV@, before, before.len() / 64),
                    data,
                    data.len() / 64,
                ),
                last,
                tail_blocks,
            ),
        ),
{
    let first = before.len() / 64;
    let full = data.len() / 64;
    let whole = 64 * (full as int);
    let padding = padding256(before.len() + data.len());
    let tail = data.skip(whole) + padding;
    let body = data.take(whole) + tail;
    let padded = (before + data) + padding;
    let start = absorb256(SHA256_IV@, before, first);
    assert(tail.len() == 64 * tail_blocks);
    assert(padded =~= before + body);
    assert(padded.len() / 64 == first + (full + tail_blocks));
    lemma_absorb256_split(SHA256_IV@, before, body, first, full + tail_blocks);
    lemma_absorb256_split(start, data.take(whole), tail, full, tail_blocks);
    lemma_absorb256_prefix(start, data, data.take(whole), full);
    lemma_absorb256_prefix(absorb256(start, data, full), last, tail, tail_blocks);
}

/// The state of a SHA-256 computation after whole blocks.
pub struct Sha256State {
    h: [u32; 8],
    len: u64,
    absorbed: Ghost<Seq<u8>>,
}

impl View for Sha256State {
    type V = Seq<u8>;

    /// The bytes absorbed so far.
    closed spec fn view(&self) -> Seq<u8> {
        self.absorbed@
    }
}

impl Sha256State {
    /// The state holds the hash value after the bytes of its view, which are
    /// whole blocks, and their number.
    pub closed spec fn wf(&self) -> bool {
        &&& self.absorbed@.len() == self.len
        &&& self.len % 64 == 0
        &&& self.h@ == absorb256(SHA256_IV@, self.absorbed@, (self.len / 64) as nat)
    }

    /// The state before any byte.
    pub fn new() -> (state: Sha256State)
        ensures
            state.wf(),
            state@ == Seq::<u8>::empty(),
    {
        Sha256State { h: SHA256_IV, len: 0, absorbed: Ghost(Seq::empty()) }
    }

    /// Absorbs `data`, which is whole blocks.
    pub fn absorb_blocks(&mut self, data: &[u8])
        requires
            old(self).wf(),
            data@.len() % 64 == 0,
            old(self)@.len() + data@.len() <= u64::MAX,
        ensures
            final(self).wf(),
            final(self)@ == old(self)@ + data@,
    {
        let ghost before = self.absorbed@;
        absorb_whole256(&mut self.h, data);
        proof {
            lemma_absorb256_split(
                SHA256_IV@,
                before,
                data@,
                (self.len / 64) as nat,
                (data@.len() / 64) as nat,
            );
            self.absorbed = Ghost(before + data@);
        }
        self.len = self.len + data.len() as u64;
    }

    /// The digest of the bytes absorbed so far followed by `data`.
    pub fn finalize(&self, data: &[u8]) -> (digest: [u8; 32])
        requires
            self.wf(),
            self@.len() + data@.len() < SPX_SHA256_MAX_BYTES,
        ensures
            digest@ == sha256_digest(self@ + data@),
    {
        let mut h: [u32; 8] = self.h;
        absorb_whole256(&mut h, data);
        let ghost mid = h@;
        let (last, tail_blocks) = padded_tail256(data, self.len + data.len() as u64);
        compress_block256(&mut h, &last, 0);
        if tail_blocks == 2 {
            compress_block256(&mut h, &last, 64);
        }
        proof {
            reveal_with_fuel(absorb256, 3);
            assert(h@ == absorb256(mid, last@, tail_blocks as nat));
            lemma_sha256_resumed(self.absorbed@, data@, last@, tail_blocks as nat);
        }
        digest256(&h)
    }
}

/// The SHA-256 digest of `data`.
pub fn sha256(data: &[u8]) -> (digest: [u8; 32])
    requires
        data@.len() < SPX_SHA256_MAX_BYTES,
    ensures
        digest@ == sha256_digest(data@),
{
    let state = Sha256State::new();
    assert(state@ + data@ =~= data@);
    state.finalize(data)
}

/// The longest mask that the 4-byte counter of the mask generation function
/// reaches.
pub const SPX_MGF1_256_MAX_BYTES: u64 = 0x20_0000_0000;

/// The first `count` blocks of the mask of `seed`: block `i` is the digest
/// of `seed` followed by `i` as 4 big-endian bytes.
pub open spec fn mgf1_256_blocks(seed: Seq<u8>, count: nat) -> Seq<u8>
    decreases count,
{
    if count == 0 {
        Seq::empty()
    } else {
        mgf1_256_blocks(seed, (count - 1) as nat) + sha256_digest(
            seed + u32_be_bytes((count - 1) as u32),
        )
    }
}

/// The mask of `len` bytes that MGF1 over SHA-256 makes from `seed`.
pub open spec fn mgf1_256_mask(seed: Seq<u8>, len: nat) -> Seq<u8> {
    mgf1_256_blocks(seed, (len + 31) / 32).take(len as int)
}

/// `count` blocks of a mask are `32 * count` bytes.
pub proof fn lemma_mgf1_256_blocks_len(seed: Seq<u8>, count: nat)
    ensures
        mgf1_256_blocks(seed, count).len() == 32 * count,
    decreases count,
{
    if count > 0 {
        lemma_mgf1_256_blocks_len(seed, (count - 1) as nat);
    }
}

/// The mask of `out_len` bytes that MGF1 over SHA-256 makes from `seed`.
pub fn mgf1_256(seed: &[u8], out_len: usize) -> (mask: Vec<u8>)
    requires
        seed@.len() + 4 < SPX_SHA256_MAX_BYTES,
        out_len <= SPX_MGF1_256_MAX_BYTES,
    ensures
        mask@ == mgf1_256_mask(seed@, out_len as nat),
        mask@.len() == out_len,
{
    let mut inbuf: Vec<u8> = Vec::new();
    inbuf.extend_from_slice(seed);
    inbuf.push(0);
    inbuf.push(0);
    inbuf.push(0);
    inbuf.push(0);
    let seed_len: usize = seed.len();
    let mut mask: Vec<u8> = Vec::new();
    let mut counter: u64 = 0;
    while mask.len() < out_len
        invariant
            seed@.len() + 4 < SPX_SHA256_MAX_BYTES,
            out_len <= SPX_MGF1_256_MAX_BYTES,
            seed_len == seed@.len(),
            inbuf.len() == seed_len + 4,
            inbuf@.take(seed_len as int) == seed@,
            32 * counter <= out_len + 31,
            mask@.len() == if 32 * counter <= out_len {
                32 * counter
            } else {
                out_len as int
            },
            mask@ == mgf1_256_blocks(seed@, counter as nat).take(mask@.len() as int),
        decreases out_len - mask.len(),
    {
        proof {
            lemma_mgf1_256_blocks_len(seed@, counter as nat);
        }
        let ghost full = mask@;
        let index: [u8; 4] = u32_to_bytes(counter as u32);
        inbuf[seed_len] = index[0];
        inbuf[seed_len + 1] = index[1];
        inbuf[seed_len + 2] = index[2];
        inbuf[seed_len + 3] = index[3];
        assert(inbuf@ =~= seed@ + u32_be_bytes(counter as u32));
        let block: [u8; 32] = sha256(inbuf.as_slice());
        let mut j: usize = 0;
        while j < 32 && mask.len() < out_len
            invariant
                j <= 32,
                full.len() == 32 * counter,
                full.len() < out_len,
                mask@.len() == full.len() + j,
                mask@.len() <= out_len,
                mask@ == full + block@.take(j as int),
                seed_len == seed@.len(),
                inbuf.len() == seed_len + 4,
                inbuf@.take(seed_len as int) == seed@,
            decreases 32 - j,
        {
            mask.push(block[j]);
            j += 1;
            assert(mask@ =~= full + block@.take(j as int));
        }
        counter += 1;
        proof {
            assert(mask@ =~= mgf1_256_blocks(seed@, counter as nat).take(mask@.len() as int));
        }
    }
    proof {
        lemma_mgf1_256_blocks_len(seed@, counter as nat);
        assert(counter == (out_len + 31) / 32);
    }
    mask
}

} // verus!
