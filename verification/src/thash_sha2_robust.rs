//! The tweakable hash: a digest of some blocks of input that is bound to the
//! public seed and to an address.
//!
//! The input is masked before it is hashed. The mask comes from the mask
//! generation function over the seed and the address; the hash runs over the
//! block of the seed, the address and the masked input. Of the address the
//! first bytes only are used, which hold all of its fields.

use vstd::prelude::*;
use crate::address::{address_bytes, address_to_bytes};
use crate::context::{seed_block, SpxCtx};
use crate::params::{Params, SPX_SHA256_ADDR_BYTES, SPX_SHA512_ADDR_BYTES};
use crate::sha256::{mgf1_256, mgf1_256_mask, sha256_digest};
use crate::sha512::{mgf1_512, mgf1_512_mask, sha512_digest};

verus! {

/// The bytes of `a`, each combined by exclusive or with the byte of `b` at
/// its place.
pub open spec fn xor_bytes(a: Seq<u8>, b: Seq<u8>) -> Seq<u8> {
    Seq::new(a.len(), |i: int| a[i] ^ b[i])
}

/// What is hashed on the 256-bit path: the block of the seed, the first
/// bytes of the address, and the input under the mask that the mask
/// generation function over SHA-256 makes from the seed and those bytes.
pub open spec fn thash_256_message(pub_seed: Seq<u8>, adrs: Seq<u8>, input: Seq<u8>) -> Seq<u8> {
    let tweak = adrs.take(SPX_SHA256_ADDR_BYTES as int);
    let mask = mgf1_256_mask(pub_seed + tweak, input.len());
    seed_block(pub_seed, 64) + tweak + xor_bytes(input, mask)
}

/// What is hashed on the 512-bit path: the block of the seed, the first
/// bytes of the address, and the input under the mask that the mask
/// generation function over SHA-512 makes from the seed and those bytes.
pub open spec fn thash_512_message(pub_seed: Seq<u8>, adrs: Seq<u8>, input: Seq<u8>) -> Seq<u8> {
    let tweak = adrs.take(SPX_SHA512_ADDR_BYTES as int);
    let mask = mgf1_512_mask(pub_seed + tweak, input.len());
    seed_block(pub_seed, 128) + tweak + xor_bytes(input, mask)
}

/// The digest on the 256-bit path: the first `n` bytes of the SHA-256 digest
/// of what is hashed there.
pub open spec fn thash_256_digest(n: nat, pub_seed: Seq<u8>, adrs: Seq<u8>, input: Seq<u8>) -> Seq<
    u8,
> {
    sha256_digest(thash_256_message(pub_seed, adrs, input)).take(n as int)
}

/// The digest on the 512-bit path: the first `n` bytes of the SHA-512 digest
/// of what is hashed there.
pub open spec fn thash_512_digest(n: nat, pub_seed: Seq<u8>, adrs: Seq<u8>, input: Seq<u8>) -> Seq<
    u8,
> {
    sha512_digest(thash_512_message(pub_seed, adrs, input)).take(n as int)
}

/// Whether an input of `inblocks` blocks goes through the 512-bit hash: the
/// parameter set enables it, and the input is more than one block.
pub open spec fn uses_sha512(params: Params, inblocks: u32) -> bool {
    params.sha512() && inblocks > 1
}

/// The digest of `input`, which is `inblocks` blocks, under the seed
/// `pub_seed` and the address with the byte view `adrs`.
pub open spec fn thash_digest(
    params: Params,
    pub_seed: Seq<u8>,
    adrs: Seq<u8>,
    input: Seq<u8>,
    inblocks: u32,
) -> Seq<u8> {
    if uses_sha512(params, inblocks) {
        thash_512_digest(params.n() as nat, pub_seed, adrs, input)
    } else {
        thash_256_digest(params.n() as nat, pub_seed, adrs, input)
    }
}

/// The seed followed by the first `len` bytes of the address.
fn seed_and_tweak(pub_seed: &[u8], addr_bytes: &[u8; 32], len: usize) -> (buf: Vec<u8>)
    requires
        len <= 32,
    ensures
        buf@ == pub_seed@ + addr_bytes@.take(len as int),
{
    let mut buf: Vec<u8> = Vec::new();
    buf.extend_from_slice(pub_seed);
    for i in 0..len
        invariant
            len <= 32,
            buf@ == pub_seed@ + addr_bytes@.take(i as int),
    {
        buf.push(addr_bytes[i]);
        assert(addr_bytes@.take(i + 1) =~= addr_bytes@.take(i as int).push(addr_bytes@[i as int]));
    }
    buf
}

/// The first `len` bytes of the address followed by the input under the
/// mask. Every byte of the input is treated alike, whatever it holds.
fn tweak_and_masked(addr_bytes: &[u8; 32], len: usize, input: &[u8], bitmask: &[u8]) -> (buf: Vec<
    u8,
>)
    requires
        len <= 32,
        bitmask@.len() == input@.len(),
    ensures
        buf@ == addr_bytes@.take(len as int) + xor_bytes(input@, bitmask@),
{
    let mut buf: Vec<u8> = Vec::new();
    for i in 0..len
        invariant
            len <= 32,
            buf@ == addr_bytes@.take(i as int),
    {
        buf.push(addr_bytes[i]);
        assert(addr_bytes@.take(i + 1) =~= addr_bytes@.take(i as int).push(addr_bytes@[i as int]));
    }
    let ghost tweak = buf@;
    for i in 0..input.len()
        invariant
            bitmask@.len() == input@.len(),
            buf@ == tweak + xor_bytes(input@, bitmask@).take(i as int),
    {
        buf.push(input[i] ^ bitmask[i]);
        assert(buf@ =~= tweak + xor_bytes(input@, bitmask@).take(i + 1));
    }
    assert(buf@ =~= tweak + xor_bytes(input@, bitmask@));
    buf
}

/// Writes `digest` over the first bytes of `out`.
fn write_digest(out: &mut [u8], digest: &[u8], n: usize)
    requires
        n <= digest@.len(),
        n <= old(out)@.len(),
    ensures
        final(out)@ == digest@.take(n as int) + old(out)@.skip(n as int),
{
    for i in 0..n
        invariant
            n <= digest@.len(),
            out@.len() == old(out)@.len(),
            n <= out@.len(),
            forall|k: int| 0 <= k < i ==> out@[k] == digest@[k],
            forall|k: int| i <= k < out@.len() ==> out@[k] == old(out)@[k],
    {
        out[i] = digest[i];
    }
    assert(out@ =~= digest@.take(n as int) + old(out)@.skip(n as int));
}

/// The tweakable hash of `input`, which is `inblocks` blocks of `n` bytes,
/// under the seed of `ctx` and the address `addr`. The digest goes to the
/// first `n` bytes of `out`; the address is left as it was.
///
/// An input of one block, or none, always goes through SHA-256. An input of
/// more blocks goes through SHA-512 where the parameter set enables it, and
/// through SHA-256 where it does not.
pub fn thash(out: &mut [u8], input: &[u8], inblocks: u32, ctx: &SpxCtx, addr: &mut [u32; 8])
    requires
        ctx.wf(),
        input@.len() == inblocks * ctx.params().n(),
        old(out)@.len() >= ctx.params().n(),
    ensures
        *final(addr) == *old(addr),
        final(out)@ == thash_digest(
            ctx.params(),
            ctx.pub_seed(),
            address_bytes(old(addr)@),
            input@,
            inblocks,
        ) + old(out)@.skip(ctx.params().n() as int),
{
    if ctx.params().sha512() && inblocks > 1 {
        thash_512(out, input, inblocks, ctx, addr);
        return ;
    }
    let n: usize = ctx.params().n();
    assert(inblocks * n <= 0xffff_ffff * 32) by (nonlinear_arith)
        requires
            inblocks <= 0xffff_ffff,
            n <= 32,
    ;
    let addr_bytes: [u8; 32] = address_to_bytes(addr.as_slice());
    let buf = seed_and_tweak(ctx.pub_seed_bytes(), &addr_bytes, SPX_SHA256_ADDR_BYTES);
    let bitmask = mgf1_256(buf.as_slice(), input.len());
    let masked = tweak_and_masked(&addr_bytes, SPX_SHA256_ADDR_BYTES, input, bitmask.as_slice());
    let outbuf: [u8; 32] = ctx.seeded_state().finalize(masked.as_slice());
    proof {
        let tweak = addr_bytes@.take(SPX_SHA256_ADDR_BYTES as int);
        assert(seed_block(ctx.pub_seed(), 64) + masked@ =~= seed_block(ctx.pub_seed(), 64) + tweak
            + xor_bytes(input@, bitmask@));
    }
    write_digest(out, outbuf.as_slice(), n);
}

/// The tweakable hash on the 512-bit path, which the parameter set must
/// enable: of `input`, which is `inblocks` blocks of `n` bytes, under the
/// seed of `ctx` and the address `addr`. The digest goes to the first `n`
/// bytes of `out`; the address is left as it was.
pub fn thash_512(out: &mut [u8], input: &[u8], inblocks: u32, ctx: &SpxCtx, addr: &mut [u32; 8])
    requires
        ctx.wf(),
        ctx.params().sha512(),
        input@.len() == inblocks * ctx.params().n(),
        old(out)@.len() >= ctx.params().n(),
    ensures
        *final(addr) == *old(addr),
        final(out)@ == thash_512_digest(
            ctx.params().n() as nat,
            ctx.pub_seed(),
            address_bytes(old(addr)@),
            input@,
        ) + old(out)@.skip(ctx.params().n() as int),
{
    let n: usize = ctx.params().n();
    assert(inblocks * n <= 0xffff_ffff * 32) by (nonlinear_arith)
        requires
            inblocks <= 0xffff_ffff,
            n <= 32,
    ;
    let addr_bytes: [u8; 32] = address_to_bytes(addr.as_slice());
    let buf = seed_and_tweak(ctx.pub_seed_bytes(), &addr_bytes, SPX_SHA512_ADDR_BYTES);
    let bitmask = mgf1_512(buf.as_slice(), input.len());
    let masked = tweak_and_masked(&addr_bytes, SPX_SHA512_ADDR_BYTES, input, bitmask.as_slice());
    if let Some(state) = ctx.seeded_state_512() {
        let outbuf: [u8; 64] = state.finalize(masked.as_slice());
        proof {
            let tweak = addr_bytes@.take(SPX_SHA512_ADDR_BYTES as int);
            assert(seed_block(ctx.pub_seed(), 128) + masked@ =~= seed_block(ctx.pub_seed(), 128)
                + tweak + xor_bytes(input@, bitmask@));
        }
        write_digest(out, outbuf.as_slice(), n);
    }
}

/// The digest is a function of the parameter set, the seed, the address,
/// the input and the number of blocks: two contexts with the same
/// parameter set and seed, however they were made, give the same digest for
/// the same address and input.
pub proof fn thash_deterministic(
    ctx1: SpxCtx,
    ctx2: SpxCtx,
    addr1: Seq<u32>,
    addr2: Seq<u32>,
    input1: Seq<u8>,
    input2: Seq<u8>,
    inblocks1: u32,
    inblocks2: u32,
)
    requires
        ctx1.params() == ctx2.params(),
        ctx1.pub_seed() == ctx2.pub_seed(),
        addr1 == addr2,
        input1 == input2,
        inblocks1 == inblocks2,
    ensures
        thash_digest(ctx1.params(), ctx1.pub_seed(), address_bytes(addr1), input1, inblocks1)
            == thash_digest(
            ctx2.params(),
            ctx2.pub_seed(),
            address_bytes(addr2),
            input2,
            inblocks2,
        ),
{
}

/// With the 512-bit hash enabled, an input of one block goes through
/// SHA-256 and an input of more blocks through SHA-512; with it disabled,
/// every input goes through SHA-256.
pub proof fn thash_path_selection(
    params: Params,
    pub_seed: Seq<u8>,
    adrs: Seq<u8>,
    input: Seq<u8>,
    inblocks: u32,
)
    ensures
        params.sha512() && inblocks == 1 ==> thash_digest(params, pub_seed, adrs, input, inblocks)
            == thash_256_digest(params.n() as nat, pub_seed, adrs, input),
        params.sha512() && inblocks > 1 ==> thash_digest(params, pub_seed, adrs, input, inblocks)
            == thash_512_digest(params.n() as nat, pub_seed, adrs, input),
        !params.sha512() ==> thash_digest(params, pub_seed, adrs, input, inblocks)
            == thash_256_digest(params.n() as nat, pub_seed, adrs, input),
{
}

/// Two addresses that differ in one of the bytes that enter the hash give
/// different messages to the hash, on either path, for the same seed and
/// the same input. (That the digests differ too is what is expected of the
/// hash; it is not proved.)
pub proof fn thash_messages_differ(
    pub_seed: Seq<u8>,
    adrs1: Seq<u8>,
    adrs2: Seq<u8>,
    input: Seq<u8>,
    i: int,
)
    requires
        pub_seed.len() <= 64,
        adrs1.len() == 32,
        adrs2.len() == 32,
        0 <= i < SPX_SHA256_ADDR_BYTES,
        adrs1[i] != adrs2[i],
    ensures
        thash_256_message(pub_seed, adrs1, input) != thash_256_message(pub_seed, adrs2, input),
        thash_512_message(pub_seed, adrs1, input) != thash_512_message(pub_seed, adrs2, input),
{
    let m1 = thash_256_message(pub_seed, adrs1, input);
    let m2 = thash_256_message(pub_seed, adrs2, input);
    assert(m1[64 + i] == adrs1[i]);
    assert(m2[64 + i] == adrs2[i]);
    let w1 = thash_512_message(pub_seed, adrs1, input);
    let w2 = thash_512_message(pub_seed, adrs2, input);
    assert(w1[128 + i] == adrs1[i]);
    assert(w2[128 + i] == adrs2[i]);
}

} // verus!
