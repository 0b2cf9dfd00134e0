//! SHA-512, with a state that can be kept after whole blocks and resumed,
//! and the mask generation function built on it.

use vstd::prelude::*;
use crate::utils::{u128_be_bytes, u128_to_bytes, u32_be_bytes, u32_to_bytes, u64_be_bytes, u64_to_bytes};

verus! {

/// Bytes in a block of SHA-512.
pub const SPX_SHA512_BLOCK_BYTES: usize = 128;

/// Bytes in a digest of SHA-512.
pub const SPX_SHA512_OUTPUT_BYTES: usize = 64;

/// The initial hash value.
pub const SHA512_IV: [u64; 8] = [
    0x6a09e667f3bcc908, 0xbb67ae8584caa73b,
    0x3c6ef372fe94f82b, 0xa54ff53a5f1d36f1,
    0x510e527fade682d1, 0x9b05688c2b3e6c1f,
    0x1f83d9abfb41bd6b, 0x5be0cd19137e2179,
];

/// The round constants.
pub const SHA512_K: [u64; 80] = [
    0x428a2f98d728ae22, 0x7137449123ef65cd, 0xb5c0fbcfec4d3b2f,
    0xe9b5dba58189dbbc, 0x3956c25bf348b538, 0x59f111f1b605d019,
    0x923f82a4af194f9b, 0xab1c5ed5da6d8118, 0xd807aa98a3030242,
    0x12835b0145706fbe, 0x243185be4ee4b28c, 0x550c7dc3d5ffb4e2,
    0x72be5d74f27b896f, 0x80deb1fe3b1696b1, 0x9bdc06a725c71235,
    0xc19bf174cf692694, 0xe49b69c19ef14ad2, 0xefbe4786384f25e3,
    0x0fc19dc68b8cd5b5, 0x240ca1cc77ac9c65, 0x2de92c6f592b0275,
    0x4a7484aa6ea6e483, 0x5cb0a9dcbd41fbd4, 0x76f988da831153b5,
    0x983e5152ee66dfab, 0xa831c66d2db43210, 0xb00327c898fb213f,
    0xbf597fc7beef0ee4, 0xc6e00bf33da88fc2, 0xd5a79147930aa725,
    0x06ca6351e003826f, 0x142929670a0e6e70, 0x27b70a8546d22ffc,
    0x2e1b21385c26c926, 0x4d2c6dfc5ac42aed, 0x53380d139d95b3df,
    0x650a73548baf63de, 0x766a0abb3c77b2a8, 0x81c2c92e47edaee6,
    0x92722c851482353b, 0xa2bfe8a14cf10364, 0xa81a664bbc423001,
    0xc24b8b70d0f89791, 0xc76c51a30654be30, 0xd192e819d6ef5218,
    0xd69906245565a910, 0xf40e35855771202a, 0x106aa07032bbd1b8,
    0x19a4c116b8d2d0c8, 0x1e376c085141ab53, 0x2748774cdf8eeb99,
    0x34b0bcb5e19b48a8, 0x391c0cb3c5c95a63, 0x4ed8aa4ae3418acb,
    0x5b9cca4f7763e373, 0x682e6ff3d6b2b8a3, 0x748f82ee5defb2fc,
    0x78a5636f43172f60, 0x84c87814a1f0ab72, 0x8cc702081a6439ec,
    0x90befffa23631e28, 0xa4506cebde82bde9, 0xbef9a3f7b2c67915,
    0xc67178f2e372532b, 0xca273eceea26619c, 0xd186b8c721c0c207,
    0xeada7dd6cde0eb1e, 0xf57d4f7fee6ed178, 0x06f067aa72176fba,
    0x0a637dc5a2c898a6, 0x113f9804bef90dae, 0x1b710b35131c471b,
    0x28db77f523047d84, 0x32caab7b40c72493, 0x3c9ebe0a15c9bebc,
    0x431d67c49c100d4c, 0x4cc5d4becb3e42b6, 0x597f299cfc657e2a,
    0x5fcb6fab3ad6faec, 0x6c44198c4a475817,
];

/// `x` rotated right by `n` bits, for `n` from 1 to 63.
pub open spec fn rotr64(x: u64, n: u64) -> u64 {
    (x >> n) | (x << ((64 - n) as u64))
}

pub open spec fn ch64(x: u64, y: u64, z: u64) -> u64 {
    (x & y) ^ (!x & z)
}

pub open spec fn maj64(x: u64, y: u64, z: u64) -> u64 {
    (x & y) ^ (x & z) ^ (y & z)
}

pub open spec fn big_sigma0_64(x: u64) -> u64 {
    rotr64(x, 28) ^ rotr64(x, 34) ^ rotr64(x, 39)
}

pub open spec fn big_sigma1_64(x: u64) -> u64 {
    rotr64(x, 14) ^ rotr64(x, 18) ^ rotr64(x, 41)
}

pub open spec fn small_sigma0_64(x: u64) -> u64 {
    rotr64(x, 1) ^ rotr64(x, 8) ^ (x >> 7)
}

pub open spec fn small_sigma1_64(x: u64) -> u64 {
    rotr64(x, 19) ^ rotr64(x, 61) ^ (x >> 6)
}

/// The big-endian word in the 8 bytes of `bytes` from `at` on.
pub open spec fn be_word64(bytes: Seq<u8>, at: int) -> u64 {
    ((bytes[at] as u64) << 56) | ((bytes[at + 1] as u64) << 48) | ((bytes[at + 2] as u64) << 40) | (
    (bytes[at + 3] as u64) << 32) | ((bytes[at + 4] as u64) << 24) | ((bytes[at + 5] as u64) << 16)
        | ((bytes[at + 6] as u64) << 8) | (bytes[at + 7] as u64)
}

/// Word `t` of the message schedule of a 128-byte block, for `t` below 80.
pub open spec fn schedule512(block: Seq<u8>, t: int) -> u64
    decreases t,
{
    if t < 16 {
        be_word64(block, 8 * t)
    } else {
        small_sigma1_64(schedule512(block, t - 2)).wrapping_add(
            schedule512(block, t - 7),
        ).wrapping_add(small_sigma0_64(schedule512(block, t - 15))).wrapping_add(
            schedule512(block, t - 16),
        )
    }
}

/// The eight working variables of the compression function.
pub struct Working512 {
    pub a: u64,
    pub b: u64,
    pub c: u64,
    pub d: u64,
    pub e: u64,
    pub f: u64,
    pub g: u64,
    pub h: u64,
}

/// One round: the working variables after a round with constant `k` and
/// schedule word `w`.
pub open spec fn round512(v: Working512, k: u64, w: u64) -> Working512 {
    let t1 = v.h.wrapping_add(big_sigma1_64(v.e)).wrapping_add(ch64(v.e, v.f, v.g)).wrapping_add(
        k,
    ).wrapping_add(w);
    let t2 = big_sigma0_64(v.a).wrapping_add(maj64(v.a, v.b, v.c));
    Working512 {
        a: t1.wrapping_add(t2),
        b: v.a,
        c: v.b,
        d: v.c,
        e: v.d.wrapping_add(t1),
        f: v.e,
        g: v.f,
        h: v.g,
    }
}

/// The working variables after the first `t` rounds on `block`.
pub open spec fn rounds512(init: Working512, block: Seq<u8>, t: nat) -> Working512
    decreases t,
{
    if t == 0 {
        init
    } else {
        round512(
            rounds512(init, block, (t - 1) as nat),
            SHA512_K[t - 1],
            schedule512(block, t - 1),
        )
    }
}

/// The compression function: the hash value after the 128-byte `block`,
/// from the hash value `h` before it.
pub open spec fn compress512(h: Seq<u64>, block: Seq<u8>) -> Seq<u64> {
    let init = Working512 {
        a: h[0],
        b: h[1],
        c: h[2],
        d: h[3],
        e: h[4],
        f: h[5],
        g: h[6],
        h: h[7],
    };
    let v = rounds512(init, block, 80);
    seq![
        h[0].wrapping_add(v.a),
        h[1].wrapping_add(v.b),
        h[2].wrapping_add(v.c),
        h[3].wrapping_add(v.d),
        h[4].wrapping_add(v.e),
        h[5].wrapping_add(v.f),
        h[6].wrapping_add(v.g),
        h[7].wrapping_add(v.h),
    ]
}

/// The hash value after the first `blocks` blocks of `data`, from the hash
/// value `h`.
pub open spec fn absorb512(h: Seq<u64>, data: Seq<u8>, blocks: nat) -> Seq<u64>
    decreases blocks,
{
    if blocks == 0 {
        h
    } else {
        compress512(
            absorb512(h, data, (blocks - 1) as nat),
            data.subrange(128 * (blocks - 1), 128 * (blocks as int)),
        )
    }
}

/// What is appended to a message of `len` bytes: the byte 0x80, the least
/// number of zero bytes that brings the whole to 16 bytes below a multiple
/// of 128, and the length of the message in bits as 16 big-endian bytes.
pub open spec fn padding512(len: nat) -> Seq<u8> {
    seq![0x80u8] + Seq::new(((239 - len % 128) % 128) as nat, |i: int| 0u8) + u128_be_bytes(
        (8 * len) as u128,
    )
}

/// The 64 bytes of a hash value, each word big-endian.
pub open spec fn digest512_bytes(h: Seq<u64>) -> Seq<u8> {
    Seq::new(64, |k: int| u64_be_bytes(h[k / 8])[k % 8])
}

/// The SHA-512 digest of `msg`, for a message of less than 2^125 bytes.
pub open spec fn sha512_digest(msg: Seq<u8>) -> Seq<u8> {
    let padded = msg + padding512(msg.len());
    digest512_bytes(absorb512(SHA512_IV@, padded, padded.len() / 128))
}

/// `x` rotated right by `n` bits.
fn rotate_right64(x: u64, n: u64) -> (r: u64)
    requires
        0 < n < 64,
    ensures
        r == rotr64(x, n),
{
    (x >> n) | (x << (64 - n))
}

/// The big-endian word in the 8 bytes of `data` from `at` on.
fn load_be64(data: &[u8], at: usize) -> (w: u64)
    requires
        at + 8 <= data.len(),
    ensures
        w == be_word64(data@, at as int),
{
    ((data[at] as u64) << 56) | ((data[at + 1] as u64) << 48) | ((data[at + 2] as u64) << 40) | ((
    data[at + 3] as u64) << 32) | ((data[at + 4] as u64) << 24) | ((data[at + 5] as u64) << 16) | ((
    data[at + 6] as u64) << 8) | (data[at + 7] as u64)
}

/// The message schedule of the block that starts at `at` in `data`.
fn expand_block512(data: &[u8], at: usize) -> (w: [u64; 80])
    requires
        at + 128 <= data.len(),
    ensures
        forall|j: int|
            0 <= j < 80 ==> w@[j] == #[trigger] schedule512(
                data@.subrange(at as int, at + 128),
                j,
            ),
{
    let ghost block = data@.subrange(at as int, at + 128);
    let mut w = [0u64; 80];
    for t in 0..16usize
        invariant
            at + 128 <= data.len(),
            block == data@.subrange(at as int, at + 128),
            forall|j: int| 0 <= j < t ==> w@[j] == #[trigger] schedule512(block, j),
    {
        w[t] = load_be64(data, at + 8 * t);
    }
    for t in 16..80usize
        invariant
            forall|j: int| 0 <= j < t ==> w@[j] == #[trigger] schedule512(block, j),
    {
        let s0: u64 = rotate_right64(w[t - 15], 1) ^ rotate_right64(w[t - 15], 8) ^ (w[t - 15]
            >> 7);
        let s1: u64 = rotate_right64(w[t - 2], 19) ^ rotate_right64(w[t - 2], 61) ^ (w[t - 2]
            >> 6);
        w[t] = s1.wrapping_add(w[t - 7]).wrapping_add(s0).wrapping_add(w[t - 16]);
        assert(w@[t as int] == schedule512(block, t as int)) by {
            assert(w@[t - 2] == schedule512(block, t - 2));
            assert(w@[t - 7] == schedule512(block, t - 7));
            assert(w@[t - 15] == schedule512(block, t - 15));
            assert(w@[t - 16] == schedule512(block, t - 16));
        }
    }
    w
}

/// Replaces the hash value in `state` by the one after the block that
/// starts at `at` in `data`.
fn compress_block512(state: &mut [u64; 8], data: &[u8], at: usize)
    requires
        at + 128 <= data.len(),
    ensures
        final(state)@ == compress512(old(state)@, data@.subrange(at as int, at + 128)),
{
    let ghost block = data@.subrange(at as int, at + 128);
    let w = expand_block512(data, at);
    let mut a: u64 = state[0];
    let mut b: u64 = state[1];
    let mut c: u64 = state[2];
    let mut d: u64 = state[3];
    let mut e: u64 = state[4];
    let mut f: u64 = state[5];
    let mut g: u64 = state[6];
    let mut h: u64 = state[7];
    let ghost init = Working512 { a, b, c, d, e, f, g, h };
    for t in 0..80usize
        invariant
            forall|j: int| 0 <= j < 80 ==> w@[j] == #[trigger] schedule512(block, j),
            (Working512 { a, b, c, d, e, f, g, h }) == rounds512(init, block, t as nat),
    {
        let s1: u64 = rotate_right64(e, 14) ^ rotate_right64(e, 18) ^ rotate_right64(e, 41);
        let choice: u64 = (e & f) ^ (!e & g);
        let t1: u64 = h.wrapping_add(s1).wrapping_add(choice).wrapping_add(
            SHA512_K[t],
        ).wrapping_add(w[t]);
        let s0: u64 = rotate_right64(a, 28) ^ rotate_right64(a, 34) ^ rotate_right64(a, 39);
        let majority: u64 = (a & b) ^ (a & c) ^ (b & c);
        let t2: u64 = s0.wrapping_add(majority);
        h = g;
        g = f;
        f = e;
        e = d.wrapping_add(t1);
        d = c;
        c = b;
        b = a;
        a = t1.wrapping_add(t2);
    }
    state[0] = state[0].wrapping_add(a);
    state[1] = state[1].wrapping_add(b);
    state[2] = state[2].wrapping_add(c);
    state[3] = state[3].wrapping_add(d);
    state[4] = state[4].wrapping_add(e);
    state[5] = state[5].wrapping_add(f);
    state[6] = state[6].wrapping_add(g);
    state[7] = state[7].wrapping_add(h);
    assert(state@ =~= compress512(old(state)@, block));
}

/// The hash value after some blocks depends on the bytes of those blocks
/// only.
pub proof fn lemma_absorb512_prefix(h: Seq<u64>, a: Seq<u8>, b: Seq<u8>, blocks: nat)
    requires
        128 * blocks <= a.len(),
        128 * blocks <= b.len(),
        forall|i: int| 0 <= i < 128 * blocks ==> a[i] == b[i],
    ensures
        absorb512(h, a, blocks) == absorb512(h, b, blocks),
    decreases blocks,
{
    if blocks > 0 {
        lemma_absorb512_prefix(h, a, b, (blocks - 1) as nat);
        assert(a.subrange(128 * (blocks - 1), 128 * (blocks as int)) =~= b.subrange(
            128 * (blocks - 1),
            128 * (blocks as int),
        ));
    }
}

/// Absorbing the `m` blocks of `a` and then `n` blocks of `b` is absorbing
/// `m + n` blocks of `a + b`.
pub proof fn lemma_absorb512_split(h: Seq<u64>, a: Seq<u8>, b: Seq<u8>, m: nat, n: nat)
    requires
        a.len() == 128 * m,
        128 * n <= b.len(),
    ensures
        absorb512(h, a + b, m + n) == absorb512(absorb512(h, a, m), b, n),
    decreases n,
{
    if n == 0 {
        lemma_absorb512_prefix(h, a + b, a, m);
    } else {
        lemma_absorb512_split(h, a, b, m, (n - 1) as nat);
        assert((a + b).subrange(128 * (m + n - 1), 128 * ((m + n) as int)) =~= b.subrange(
            128 * (n - 1),
            128 * (n as int),
        ));
    }
}

/// Replaces the hash value in `state` by the one after the whole blocks of
/// `data`.
fn absorb_whole512(state: &mut [u64; 8], data: &[u8])
    ensures
        final(state)@ == absorb512(old(state)@, data@, (data@.len() / 128) as nat),
{
    let blocks: usize = data.len() / 128;
    for i in 0..blocks
        invariant
            blocks == data.len() / 128,
            state@ == absorb512(old(state)@, data@, i as nat),
    {
        compress_block512(state, data, 128 * i);
    }
}

/// The end of a padded message of `total` bytes that ends with `data`: the
/// bytes of `data` after its whole blocks, then the padding. It fills the
/// first block, or both blocks, of the result.
fn padded_tail512(data: &[u8], total: u64) -> (r: ([u8; 256], usize))
    requires
        total % 128 == data@.len() % 128,
    ensures
        r.1 == 1 || r.1 == 2,
        r.0@.take(128 * r.1) == data@.skip(128 * (data@.len() as int / 128)) + padding512(
            total as nat,
        ),
{
    let full: usize = data.len() / 128;
    let rest: usize = data.len() - 128 * full;
    let blocks: usize = if rest < 112 {
        1
    } else {
        2
    };
    let length: [u8; 16] = u128_to_bytes((total as u128) * 8);
    let ghost tail = data@.skip(128 * full) + padding512(total as nat);
    assert(padding512(total as nat).len() == 128 * blocks - rest);
    let mut last = [0u8; 256];
    for j in 0..rest
        invariant
            rest == data.len() - 128 * full,
            rest < 128,
            tail == data@.skip(128 * full) + padding512(total as nat),
            forall|k: int| 0 <= k < j ==> last@[k] == tail[k],
            forall|k: int| j <= k < 256 ==> last@[k] == 0,
    {
        last[j] = data[128 * full + j];
    }
    last[rest] = 0x80;
    for j in 0..16usize
        invariant
            rest < 128,
            blocks == if rest < 112 {
                1usize
            } else {
                2usize
            },
            tail.len() == 128 * blocks,
            length@ == u128_be_bytes((8 * total) as u128),
            tail == data@.skip(128 * full) + padding512(total as nat),
            data@.skip(128 * full).len() == rest,
            forall|k: int| 0 <= k < 128 * blocks - 16 ==> last@[k] == tail[k],
            forall|k: int| 0 <= k < j ==> last@[128 * blocks - 16 + k] == length@[k],
    {
        last[128 * blocks - 16 + j] = length[j];
    }
    proof {
        assert forall|k: int| 0 <= k < 128 * blocks implies last@[k] == tail[k] by {
            if k >= 128 * blocks - 16 {
                let j = k - (128 * blocks - 16);
                assert(last@[128 * blocks - 16 + j] == length@[j]);
            }
        }
        assert(last@.take(128 * blocks) =~= tail);
    }
    (last, blocks)
}

/// The bytes of the hash value `h`, each word big-endian.
fn digest512(h: &[u64; 8]) -> (digest: [u8; 64])
    ensures
        digest@ == digest512_bytes(h@),
{
    let mut digest = [0u8; 64];
    for i in 0..8usize
        invariant
            forall|k: int| 0 <= k < 8 * i ==> digest@[k] == #[trigger] digest512_bytes(h@)[k],
    {
        let word: [u8; 8] = u64_to_bytes(h[i]);
        for j in 0..8usize
            invariant
                i < 8,
                word@ == u64_be_bytes(h@[i as int]),
                forall|k: int|
                    0 <= k < 8 * i + j ==> digest@[k] == #[trigger] digest512_bytes(h@)[k],
        {
            digest[8 * i + j] = word[j];
        }
    }
    assert(digest@ =~= digest512_bytes(h@));
    digest
}

/// A digest may be computed in three steps: over the whole blocks `before`,
/// over the whole blocks of `data`, and over the rest of `data` with the
/// padding, which `last` holds in its first `tail_blocks` blocks.
proof fn lemma_sha512_resumed(
    before: Seq<u8>,
    data: Seq<u8>,
    last: Seq<u8>,
    tail_blocks: nat,
)
    requires
        before.len() % 128 == 0,
        tail_blocks == 1 || tail_blocks == 2,
        last.len() >= 128 * tail_blocks,
        last.take(128 * (tail_blocks as int)) == data.skip(128 * (data.len() as int / 128))
            + padding512(before.len() + data.len()),
    ensures
        sha512_digest(before + data) == digest512_bytes(
            absorb512(
                absorb512(
                    absorb512(SHA512_IV@, before, before.len() / 128),
                    data,
                    data.len() / 128,
                ),
                last,
                tail_blocks,
            ),
        ),
{
    let first = before.len() / 128;
    let full = data.len() / 128;
    let whole = 128 * (full as int);
    let padding = padding512(before.len() + data.len());
    let tail = data.skip(whole) + padding;
    let body = data.take(whole) + tail;
    let padded = (before + data) + padding;
    let start = absorb512(SHA512_IV@, before, first);
    assert(tail.len() == 128 * tail_blocks);
    assert(padded =~= before + body);
    assert(padded.len() / 128 == first + (full + tail_blocks));
    lemma_absorb512_split(SHA512_IV@, before, body, first, full + tail_blocks);
    lemma_absorb512_split(start, data.take(whole), tail, full, tail_blocks);
    lemma_absorb512_prefix(start, data, data.take(whole), full);
    lemma_absorb512_prefix(absorb512(start, data, full), last, tail, tail_blocks);
}

/// The state of a SHA-512 computation after whole blocks.
pub struct Sha512State {
    h: [u64; 8],
    len: u64,
    absorbed: Ghost<Seq<u8>>,
}

impl View for Sha512State {
    type V = Seq<u8>;

    /// The bytes absorbed so far.
    closed spec fn view(&self) -> Seq<u8> {
        self.absorbed@
    }
}

impl Sha512State {
    /// The state holds the hash value after the bytes of its view, which are
    /// whole blocks, and their number.
    pub closed spec fn wf(&self) -> bool {
        &&& self.absorbed@.len() == self.len
        &&& self.len % 128 == 0
        &&& self.h@ == absorb512(SHA512_IV@, self.absorbed@, (self.len / 128) as nat)
    }

    /// The state before any byte.
    pub fn new() -> (state: Sha512State)
        ensures
            state.wf(),
            state@ == Seq::<u8>::empty(),
    {
        Sha512State { h: SHA512_IV, len: 0, absorbed: Ghost(Seq::empty()) }
    }

    /// Absorbs `data`, which is whole blocks.
    pub fn absorb_blocks(&mut self, data: &[u8])
        requires
            old(self).wf(),
            data@.len() % 128 == 0,
            old(self)@.len() + data@.len() <= u64::MAX,
        ensures
            final(self).wf(),
            final(self)@ == old(self)@ + data@,
    {
        let ghost before = self.absorbed@;
        absorb_whole512(&mut self.h, data);
        proof {
            lemma_absorb512_split(
                SHA512_IV@,
                before,
                data@,
                (self.len / 128) as nat,
                (data@.len() / 128) as nat,
            );
            self.absorbed = Ghost(before + data@);
        }
        self.len = self.len + data.len() as u64;
    }

    /// The digest of the bytes absorbed so far followed by `data`.
    pub fn finalize(&self, data: &[u8]) -> (digest: [u8; 64])
        requires
            self.wf(),
            self@.len() + data@.len() <= u64::MAX,
        ensures
            digest@ == sha512_digest(self@ + data@),
    {
        let mut h: [u64; 8] = self.h;
        absorb_whole512(&mut h, data);
        let ghost mid = h@;
        let (last, tail_blocks) = padded_tail512(data, self.len + data.len() as u64);
        compress_block512(&mut h, &last, 0);
        if tail_blocks == 2 {
            compress_block512(&mut h, &last, 128);
        }
        proof {
            reveal_with_fuel(absorb512, 3);
            assert(h@ == absorb512(mid, last@, tail_blocks as nat));
            lemma_sha512_resumed(self.absorbed@, data@, last@, tail_blocks as nat);
        }
        digest512(&h)
    }
}

/// The SHA-512 digest of `data`.
pub fn sha512(data: &[u8]) -> (digest: [u8; 64])
    requires
        data@.len() <= u64::MAX,
    ensures
        digest@ == sha512_digest(data@),
{
    let state = Sha512State::new();
    assert(state@ + data@ =~= data@);
    state.finalize(data)
}

/// The longest mask that the 4-byte counter of the mask generation function
/// reaches.
pub const SPX_MGF1_512_MAX_BYTES: u64 = 0x40_0000_0000;

/// The first `count` blocks of the mask of `seed`: block `i` is the digest
/// of `seed` followed by `i` as 4 big-endian bytes.
pub open spec fn mgf1_512_blocks(seed: Seq<u8>, count: nat) -> Seq<u8>
    decreases count,
{
    if count == 0 {
        Seq::empty()
    } else {
        mgf1_512_blocks(seed, (count - 1) as nat) + sha512_digest(
            seed + u32_be_bytes((count - 1) as u32),
        )
    }
}

/// The mask of `len` bytes that MGF1 over SHA-512 makes from `seed`.
pub open spec fn mgf1_512_mask(seed: Seq<u8>, len: nat) -> Seq<u8> {
    mgf1_512_blocks(seed, (len + 63) / 64).take(len as int)
}

/// `count` blocks of a mask are `64 * count` bytes.
pub proof fn lemma_mgf1_512_blocks_len(seed: Seq<u8>, count: nat)
    ensures
        mgf1_512_blocks(seed, count).len() == 64 * count,
    decreases count,
{
    if count > 0 {
        lemma_mgf1_512_blocks_len(seed, (count - 1) as nat);
    }
}

/// The mask of `out_len` bytes that MGF1 over SHA-512 makes from `seed`.
pub fn mgf1_512(seed: &[u8], out_len: usize) -> (mask: Vec<u8>)
    requires
        seed@.len() + 4 <= u64::MAX,
        out_len <= SPX_MGF1_512_MAX_BYTES,
    ensures
        mask@ == mgf1_512_mask(seed@, out_len as nat),
        mask@.len() == out_len,
{
    let mut inbuf: Vec<u8> = Vec::new();
    inbuf.extend_from_slice(seed);
    inbuf.push(0);
    inbuf.push(0);
    inbuf.push(0);
    inbuf.push(0);
    let seed_len: usize = seed.len();
    let mut mask: Vec<u8> = Vec::new();
    let mut counter: u64 = 0;
    while mask.len() < out_len
        invariant
            seed@.len() + 4 <= u64::MAX,
            out_len <= SPX_MGF1_512_MAX_BYTES,
            seed_len == seed@.len(),
            inbuf.len() == seed_len + 4,
            inbuf@.take(seed_len as int) == seed@,
            64 * counter <= out_len + 63,
            mask@.len() == if 64 * counter <= out_len {
                64 * counter
            } else {
                out_len as int
            },
            mask@ == mgf1_512_blocks(seed@, counter as nat).take(mask@.len() as int),
        decreases out_len - mask.len(),
    {
        proof {
            lemma_mgf1_512_blocks_len(seed@, counter as nat);
        }
        let ghost full = mask@;
        let index: [u8; 4] = u32_to_bytes(counter as u32);
        inbuf[seed_len] = index[0];
        inbuf[seed_len + 1] = index[1];
        inbuf[seed_len + 2] = index[2];
        inbuf[seed_len + 3] = index[3];
        assert(inbuf@ =~= seed@ + u32_be_bytes(counter as u32));
        let block: [u8; 64] = sha512(inbuf.as_slice());
        let mut j: usize = 0;
        while j < 64 && mask.len() < out_len
            invariant
                j <= 64,
                full.len() == 64 * counter,
                full.len() < out_len,
                mask@.len() == full.len() + j,
                mask@.len() <= out_len,
                mask@ == full + block@.take(j as int),
                seed_len == seed@.len(),
                inbuf.len() == seed_len + 4,
                inbuf@.take(seed_len as int) == seed@,
            decreases 64 - j,
        {
            mask.push(block[j]);
            j += 1;
            assert(mask@ =~= full + block@.take(j as int));
        }
        counter += 1;
        proof {
            assert(mask@ =~= mgf1_512_blocks(seed@, counter as nat).take(mask@.len() as int));
        }
    }
    proof {
        lemma_mgf1_512_blocks_len(seed@, counter as nat);
        assert(counter == (out_len + 63) / 64);
    }
    mask
}

} // verus!
