use spx_thash::address::{
    bytes_to_address, set_chain_addr, set_hash_addr, set_keypair_addr, set_layer_addr,
    set_tree_addr, set_tree_height, set_tree_index, set_type,
};
use spx_thash::context::SpxCtx;
use spx_thash::params::Params;
use spx_thash::sha256::{mgf1_256, sha256};
use spx_thash::sha512::{mgf1_512, sha512};
use spx_thash::thash_sha2_robust::{thash, thash_512};

fn hex(bytes: &[u8]) -> String {
    let mut s = String::new();
    for b in bytes {
        s.push_str(&format!("{:02x}", b));
    }
    s
}

/// The bytes `start`, `start + step`, ...
fn stepping(len: usize, start: u8, step: u8) -> Vec<u8> {
    (0..len).map(|i| start.wrapping_add(step.wrapping_mul(i as u8))).collect()
}

/// The address with the bytes 0xa0, 0xa1, ...
fn sample_address() -> [u32; 8] {
    let bytes = stepping(32, 0xa0, 1);
    let mut addr = [0u32; 8];
    bytes_to_address(&mut addr, &bytes);
    addr
}

/// The context of the seed 1, 2, ..., n.
fn context(n: usize, sha512: bool) -> SpxCtx {
    SpxCtx::new(Params::new(n, 63, 7, sha512).unwrap(), &stepping(n, 1, 1)).unwrap()
}

/// The digest of the input 7, 10, 13, ... of `inblocks` blocks under the
/// sample address.
fn digest(n: usize, sha512: bool, inblocks: u32) -> Vec<u8> {
    let ctx = context(n, sha512);
    let mut addr = sample_address();
    let input = stepping(inblocks as usize * n, 7, 3);
    let mut out = vec![0u8; n];
    thash(&mut out, &input, inblocks, &ctx, &mut addr);
    out
}

#[test]
fn thash_known_answers() {
    assert_eq!(hex(&digest(16, false, 1)), "021fc5ef27f009476a13c22b5ad9beb9");
    assert_eq!(hex(&digest(16, false, 3)), "1d1c14314695237c160c312290c2406c");
    assert_eq!(hex(&digest(24, true, 1)), "bc7c7961f3449512547ea3dfc20f80b6d9ad2a4c5812aca5");
    assert_eq!(hex(&digest(24, true, 2)), "3a8f2737faecb30f5f655aa4a26a96f1395075d403cddd8a");
    assert_eq!(
        hex(&digest(32, true, 1)),
        "18906ff43c401cab9f0199ff1a4ee158da144222e4dd805482fbef0563fec7e6"
    );
    assert_eq!(
        hex(&digest(32, true, 35)),
        "b7549b1f190b464a80a950554dae7eddd7f97ece9237002bdf96a361301369a2"
    );
    assert_eq!(
        hex(&digest(32, false, 35)),
        "30a780ef6ef314db775ae580701e72272cca377414399052487dc7b186bbb97c"
    );
}

#[test]
fn thash_of_no_block() {
    assert_eq!(hex(&digest(16, false, 0)), "8e4e08507ee247fe8982aa70574f1266");
    assert_eq!(hex(&digest(16, true, 0)), "8e4e08507ee247fe8982aa70574f1266");
    assert_eq!(hex(&digest(24, true, 0)), "46c0f34c3872a36a63af6b1827e69d9bd037da59dd5a81af");
}

#[test]
fn thash_is_the_hash_of_seed_block_address_and_masked_input() {
    let n = 16;
    let seed = stepping(n, 1, 1);
    let input = stepping(2 * n, 7, 3);
    let tweak = stepping(22, 0xa0, 1);

    let mut mask_seed = seed.clone();
    mask_seed.extend_from_slice(&tweak);
    let mask = mgf1_256(&mask_seed, input.len());
    let mut message = seed.clone();
    message.resize(64, 0);
    message.extend_from_slice(&tweak);
    for i in 0..input.len() {
        message.push(input[i] ^ mask[i]);
    }
    assert_eq!(digest(n, false, 2), sha256(&message)[..n]);

    let mask = mgf1_512(&mask_seed, input.len());
    let mut message = seed.clone();
    message.resize(128, 0);
    message.extend_from_slice(&tweak);
    for i in 0..input.len() {
        message.push(input[i] ^ mask[i]);
    }
    assert_eq!(digest(n, true, 2), sha512(&message)[..n]);
}

#[test]
fn thash_gives_the_same_digest_again() {
    for (n, sha512, inblocks) in [(16, false, 1), (24, true, 1), (24, true, 4), (32, false, 4)] {
        assert_eq!(digest(n, sha512, inblocks), digest(n, sha512, inblocks));
        let ctx = context(n, sha512);
        let mut addr = sample_address();
        let input = stepping(inblocks as usize * n, 7, 3);
        let mut first = vec![0u8; n];
        let mut second = vec![0xffu8; n];
        thash(&mut first, &input, inblocks, &ctx, &mut addr);
        thash(&mut second, &input, inblocks, &ctx, &mut addr);
        assert_eq!(first, second);
    }
}

#[test]
fn thash_one_block_never_takes_the_wide_hash() {
    for n in [16usize, 24, 32] {
        assert_eq!(digest(n, true, 1), digest(n, false, 1));
    }
}

#[test]
fn thash_more_blocks_take_the_wide_hash_where_enabled() {
    for n in [16usize, 24, 32] {
        for inblocks in [2u32, 3, 35] {
            let ctx = context(n, true);
            let mut addr = sample_address();
            let input = stepping(inblocks as usize * n, 7, 3);
            let mut by_thash = vec![0u8; n];
            let mut by_wide = vec![0u8; n];
            thash(&mut by_thash, &input, inblocks, &ctx, &mut addr);
            thash_512(&mut by_wide, &input, inblocks, &ctx, &mut addr);
            assert_eq!(by_thash, by_wide);
            assert_ne!(by_thash, digest(n, false, inblocks));
        }
    }
}

#[test]
fn thash_512_known_answer_on_one_block() {
    // Called by name, the wide hash serves any number of blocks.
    let n = 16;
    let ctx = context(n, true);
    let mut addr = sample_address();
    let input = stepping(n, 7, 3);
    let mut out = vec![0u8; n];
    thash_512(&mut out, &input, 1, &ctx, &mut addr);

    let seed = stepping(n, 1, 1);
    let tweak = stepping(22, 0xa0, 1);
    let mut mask_seed = seed.clone();
    mask_seed.extend_from_slice(&tweak);
    let mask = mgf1_512(&mask_seed, n);
    let mut message = seed.clone();
    message.resize(128, 0);
    message.extend_from_slice(&tweak);
    for i in 0..n {
        message.push(input[i] ^ mask[i]);
    }
    assert_eq!(out, sha512(&message)[..n]);
    assert_ne!(out, digest(n, true, 1));
}

#[test]
fn thash_writes_n_bytes_and_leaves_the_rest() {
    let ctx = context(16, false);
    let mut addr = sample_address();
    let input = stepping(16, 7, 3);
    let mut out = [0x5au8; 40];
    thash(&mut out, &input, 1, &ctx, &mut addr);
    assert_eq!(hex(&out[..16]), "021fc5ef27f009476a13c22b5ad9beb9");
    assert_eq!(out[16..], [0x5au8; 24]);
}

#[test]
fn thash_leaves_the_address_as_it_was() {
    let ctx = context(24, true);
    let mut addr = sample_address();
    let mut out = [0u8; 24];
    thash(&mut out, &stepping(24, 7, 3), 1, &ctx, &mut addr);
    assert_eq!(addr, sample_address());
    thash(&mut out, &stepping(48, 7, 3), 2, &ctx, &mut addr);
    assert_eq!(addr, sample_address());
}

#[test]
fn thash_separates_the_types() {
    let want = [
        "23d792e07ebaab1b39c39b9c4551a8bb",
        "e4a6cb9be71c992a9d08e663137cb1ba",
        "bb8c1624147b369fd369cbb7a85a6a1f",
        "6b05a62b69d7ea0168e154e885acfdf8",
        "b5523209d13705660e4725884da8bf83",
        "71c7036c1e45b0d904295eecaabd1a82",
        "2f20ea273d523717e866ecd84914c4a7",
    ];
    let ctx = context(16, false);
    let input = stepping(16, 7, 3);
    let mut seen: Vec<Vec<u8>> = Vec::new();
    for addr_type in 0..7u32 {
        let mut addr = [0u32; 8];
        set_type(&mut addr, addr_type);
        let mut out = vec![0u8; 16];
        thash(&mut out, &input, 1, &ctx, &mut addr);
        assert_eq!(hex(&out), want[addr_type as usize]);
        assert!(!seen.contains(&out));
        seen.push(out);
    }
}

#[test]
fn thash_separates_every_field() {
    let params = Params::new(16, 63, 7, true).unwrap();
    let ctx = SpxCtx::new(params, &stepping(16, 1, 1)).unwrap();
    for inblocks in [1u32, 2] {
        let input = stepping(inblocks as usize * 16, 7, 3);
        let base = sample_address();
        let mut base_out = vec![0u8; 16];
        let mut addr = base;
        thash(&mut base_out, &input, inblocks, &ctx, &mut addr);

        let mut variants: Vec<[u32; 8]> = Vec::new();
        let mut a = base;
        set_layer_addr(&mut a, 1);
        variants.push(a);
        let mut a = base;
        set_tree_addr(&mut a, 1);
        variants.push(a);
        let mut a = base;
        set_type(&mut a, 1);
        variants.push(a);
        let mut a = base;
        set_keypair_addr(&mut a, 1, &params);
        variants.push(a);
        let mut a = base;
        set_chain_addr(&mut a, 1);
        variants.push(a);
        let mut a = base;
        set_hash_addr(&mut a, 1);
        variants.push(a);
        let mut a = base;
        set_tree_height(&mut a, 2);
        variants.push(a);
        let mut a = base;
        set_tree_index(&mut a, 1);
        variants.push(a);

        let mut seen = vec![base_out];
        for variant in variants.iter_mut() {
            assert_ne!(*variant, base);
            let mut out = vec![0u8; 16];
            thash(&mut out, &input, inblocks, &ctx, variant);
            assert!(!seen.contains(&out));
            seen.push(out);
        }
    }
}

#[test]
fn thash_separates_seeds_and_inputs() {
    let params = Params::new(16, 63, 7, false).unwrap();
    let ctx = SpxCtx::new(params, &stepping(16, 1, 1)).unwrap();
    let other = SpxCtx::new(params, &stepping(16, 2, 1)).unwrap();
    let mut addr = sample_address();
    let input = stepping(16, 7, 3);
    let mut changed = input.clone();
    changed[15] ^= 1;
    let mut a = [0u8; 16];
    let mut b = [0u8; 16];
    let mut c = [0u8; 16];
    thash(&mut a, &input, 1, &ctx, &mut addr);
    thash(&mut b, &input, 1, &other, &mut addr);
    thash(&mut c, &changed, 1, &ctx, &mut addr);
    assert_ne!(a, b);
    assert_ne!(a, c);
    assert_ne!(b, c);
}

#[test]
fn thash_reads_the_first_22_bytes_of_the_address() {
    let ctx = context(16, false);
    let input = stepping(16, 7, 3);
    let mut bytes = stepping(32, 0xa0, 1);
    for b in bytes[22..].iter_mut() {
        *b = 0;
    }
    let mut addr = [0u32; 8];
    bytes_to_address(&mut addr, &bytes);
    let mut out = vec![0u8; 16];
    thash(&mut out, &input, 1, &ctx, &mut addr);
    assert_eq!(out, digest(16, false, 1));
}
