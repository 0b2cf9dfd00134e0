use spx_thash::address::{
    address_to_bytes, bytes_to_address, copy_keypair_addr, copy_subtree_addr, set_chain_addr,
    set_hash_addr, set_keypair_addr, set_layer_addr, set_tree_addr, set_tree_height,
    set_tree_index, set_type, SPX_ADDR_TYPE_FORSPK, SPX_ADDR_TYPE_FORSPRF, SPX_ADDR_TYPE_FORSTREE,
    SPX_ADDR_TYPE_HASHTREE, SPX_ADDR_TYPE_WOTS, SPX_ADDR_TYPE_WOTSPK, SPX_ADDR_TYPE_WOTSPRF,
};
use spx_thash::params::{
    Params, SPX_OFFSET_CHAIN_ADDR, SPX_OFFSET_HASH_ADDR, SPX_OFFSET_KP_ADDR1, SPX_OFFSET_KP_ADDR2,
    SPX_OFFSET_LAYER, SPX_OFFSET_TREE, SPX_OFFSET_TREE_HGT, SPX_OFFSET_TREE_INDEX,
    SPX_OFFSET_TYPE,
};

/// Bytes `start`, `start + step`, ... : all different for an odd step.
fn pattern(start: u8, step: u8) -> [u8; 32] {
    let mut bytes = [0u8; 32];
    for i in 0..32 {
        bytes[i] = start.wrapping_add(step.wrapping_mul(i as u8));
    }
    bytes
}

fn address_of(bytes: &[u8; 32]) -> [u32; 8] {
    let mut addr = [0u32; 8];
    bytes_to_address(&mut addr, bytes);
    addr
}

/// A parameter set with a one-byte keypair field: 64 / 8 = 8.
fn narrow() -> Params {
    Params::new(32, 64, 8, true).unwrap()
}

/// A parameter set with a two-byte keypair field: 63 / 7 = 9.
fn wide() -> Params {
    Params::new(16, 63, 7, false).unwrap()
}

/// Checks that `after` is `before` with `field` written at `offset`, and
/// nothing else.
fn assert_only_field(before: &[u8; 32], after: &[u8; 32], offset: usize, field: &[u8]) {
    for i in 0..32 {
        if i >= offset && i < offset + field.len() {
            assert_eq!(after[i], field[i - offset], "byte {} of the field", i);
        } else {
            assert_eq!(after[i], before[i], "byte {} outside the field", i);
        }
    }
}

#[test]
fn bytes_round_trip_through_words() {
    for (start, step) in [(0u8, 1u8), (0x80, 3), (0xff, 0), (0, 0), (0x13, 0xfd)] {
        let bytes = pattern(start, step);
        let addr = address_of(&bytes);
        assert_eq!(address_to_bytes(&addr), bytes);
    }
}

#[test]
fn words_round_trip_through_bytes() {
    let addr: [u32; 8] = [
        0, 1, 0xffff_ffff, 0x0102_0304, 0x8000_0000, 0xdead_beef, 0x00ff_00ff, 0x1234_5678,
    ];
    let bytes = address_to_bytes(&addr);
    let mut back = [0u32; 8];
    bytes_to_address(&mut back, &bytes);
    assert_eq!(back, addr);
}

#[test]
fn a_word_holds_its_first_byte_lowest() {
    let mut bytes = [0u8; 32];
    bytes[4] = 0x01;
    bytes[5] = 0x02;
    bytes[6] = 0x03;
    bytes[7] = 0x04;
    let addr = address_of(&bytes);
    assert_eq!(addr, [0, 0x0403_0201, 0, 0, 0, 0, 0, 0]);
    assert_eq!(address_to_bytes(&[0x0403_0201, 0, 0, 0, 0, 0, 0, 0])[..4], [1, 2, 3, 4]);
}

#[test]
fn set_layer_addr_writes_one_byte() {
    let before = pattern(0x11, 7);
    let mut addr = address_of(&before);
    set_layer_addr(&mut addr, 5);
    assert_only_field(&before, &address_to_bytes(&addr), SPX_OFFSET_LAYER, &[5]);
}

#[test]
fn set_layer_addr_keeps_the_low_byte() {
    let before = pattern(0x11, 7);
    let mut addr = address_of(&before);
    set_layer_addr(&mut addr, 0x1234_56ab);
    assert_only_field(&before, &address_to_bytes(&addr), SPX_OFFSET_LAYER, &[0xab]);
}

#[test]
fn set_tree_addr_is_big_endian() {
    let mut addr = [0u32; 8];
    set_tree_addr(&mut addr, 0x0102030405060708);
    let bytes = address_to_bytes(&addr);
    assert_eq!(bytes[SPX_OFFSET_TREE..SPX_OFFSET_TREE + 8], [1, 2, 3, 4, 5, 6, 7, 8]);
    assert_only_field(&[0u8; 32], &bytes, 1, &[1, 2, 3, 4, 5, 6, 7, 8]);
}

#[test]
fn set_tree_addr_changes_only_the_tree() {
    let before = pattern(0x21, 5);
    let mut addr = address_of(&before);
    set_tree_addr(&mut addr, 0xfedc_ba98_7654_3210);
    assert_only_field(
        &before,
        &address_to_bytes(&addr),
        SPX_OFFSET_TREE,
        &[0xfe, 0xdc, 0xba, 0x98, 0x76, 0x54, 0x32, 0x10],
    );
    set_tree_addr(&mut addr, 0);
    assert_only_field(&before, &address_to_bytes(&addr), SPX_OFFSET_TREE, &[0; 8]);
    set_tree_addr(&mut addr, u64::MAX);
    assert_only_field(&before, &address_to_bytes(&addr), SPX_OFFSET_TREE, &[0xff; 8]);
}

#[test]
fn set_type_writes_each_type() {
    let types = [
        SPX_ADDR_TYPE_WOTS,
        SPX_ADDR_TYPE_WOTSPK,
        SPX_ADDR_TYPE_HASHTREE,
        SPX_ADDR_TYPE_FORSTREE,
        SPX_ADDR_TYPE_FORSPK,
        SPX_ADDR_TYPE_WOTSPRF,
        SPX_ADDR_TYPE_FORSPRF,
    ];
    for (want, addr_type) in types.iter().enumerate() {
        let before = pattern(0x31, 9);
        let mut addr = address_of(&before);
        set_type(&mut addr, *addr_type as u32);
        assert_only_field(&before, &address_to_bytes(&addr), SPX_OFFSET_TYPE, &[want as u8]);
    }
}

#[test]
fn set_type_keeps_the_low_byte() {
    let before = pattern(0x31, 9);
    let mut addr = address_of(&before);
    set_type(&mut addr, 0x0000_0103);
    assert_only_field(&before, &address_to_bytes(&addr), SPX_OFFSET_TYPE, &[3]);
}

#[test]
fn set_keypair_addr_narrow_writes_one_byte() {
    let before = pattern(0x41, 11);
    let mut addr = address_of(&before);
    set_keypair_addr(&mut addr, 0x0000_00c7, &narrow());
    let after = address_to_bytes(&addr);
    assert_only_field(&before, &after, SPX_OFFSET_KP_ADDR1, &[0xc7]);
    assert_eq!(after[SPX_OFFSET_KP_ADDR2], before[SPX_OFFSET_KP_ADDR2]);
}

#[test]
fn set_keypair_addr_narrow_drops_the_high_bytes() {
    let before = pattern(0x41, 11);
    let mut addr = address_of(&before);
    set_keypair_addr(&mut addr, 0xa1b2_c3d4, &narrow());
    let after = address_to_bytes(&addr);
    assert_only_field(&before, &after, SPX_OFFSET_KP_ADDR1, &[0xd4]);
    assert_eq!(after[SPX_OFFSET_KP_ADDR2], before[SPX_OFFSET_KP_ADDR2]);
}

#[test]
fn set_keypair_addr_wide_writes_two_bytes_high_first() {
    let before = pattern(0x41, 11);
    let mut addr = address_of(&before);
    set_keypair_addr(&mut addr, 0x0000_01c7, &wide());
    assert_only_field(&before, &address_to_bytes(&addr), SPX_OFFSET_KP_ADDR2, &[0x01, 0xc7]);
}

#[test]
fn set_keypair_addr_wide_drops_the_high_bytes() {
    let before = pattern(0x41, 11);
    let mut addr = address_of(&before);
    set_keypair_addr(&mut addr, 0xa1b2_c3d4, &wide());
    assert_only_field(&before, &address_to_bytes(&addr), SPX_OFFSET_KP_ADDR2, &[0xc3, 0xd4]);
}

#[test]
fn keypair_width_follows_the_tree_height() {
    // 8 levels in a tree: 256 leaves, one byte is enough.
    assert!(!Params::new(16, 64, 8, false).unwrap().wide_keypair());
    assert!(!Params::new(16, 66, 22, false).unwrap().wide_keypair());
    assert!(!Params::new(16, 71, 8, false).unwrap().wide_keypair());
    // 9 levels and more: two bytes.
    assert!(Params::new(16, 63, 7, false).unwrap().wide_keypair());
    assert!(Params::new(16, 72, 8, false).unwrap().wide_keypair());
    assert!(Params::new(16, 9, 1, false).unwrap().wide_keypair());
}

#[test]
fn set_chain_addr_writes_one_byte() {
    let before = pattern(0x51, 13);
    let mut addr = address_of(&before);
    set_chain_addr(&mut addr, 0x0000_0242);
    assert_only_field(&before, &address_to_bytes(&addr), SPX_OFFSET_CHAIN_ADDR, &[0x42]);
}

#[test]
fn set_hash_addr_writes_one_byte() {
    let before = pattern(0x61, 15);
    let mut addr = address_of(&before);
    set_hash_addr(&mut addr, 0x0000_030f);
    assert_only_field(&before, &address_to_bytes(&addr), SPX_OFFSET_HASH_ADDR, &[0x0f]);
}

#[test]
fn set_tree_height_writes_one_byte() {
    let before = pattern(0x71, 17);
    let mut addr = address_of(&before);
    set_tree_height(&mut addr, 0x0000_0409);
    assert_only_field(&before, &address_to_bytes(&addr), SPX_OFFSET_TREE_HGT, &[0x09]);
}

#[test]
fn set_tree_index_is_big_endian() {
    let mut addr = [0u32; 8];
    set_tree_index(&mut addr, 0x11223344);
    let bytes = address_to_bytes(&addr);
    assert_eq!(
        bytes[SPX_OFFSET_TREE_INDEX..SPX_OFFSET_TREE_INDEX + 4],
        [0x11, 0x22, 0x33, 0x44]
    );
    assert_only_field(&[0u8; 32], &bytes, 18, &[0x11, 0x22, 0x33, 0x44]);
}

#[test]
fn set_tree_index_changes_only_the_index() {
    let before = pattern(0x81, 19);
    let mut addr = address_of(&before);
    set_tree_index(&mut addr, 0xffff_fffe);
    assert_only_field(
        &before,
        &address_to_bytes(&addr),
        SPX_OFFSET_TREE_INDEX,
        &[0xff, 0xff, 0xff, 0xfe],
    );
}

#[test]
fn setters_of_one_address_kind_do_not_disturb_each_other() {
    let mut addr = [0u32; 8];
    set_layer_addr(&mut addr, 3);
    set_tree_addr(&mut addr, 0x0a0b_0c0d_0e0f_1011);
    set_type(&mut addr, SPX_ADDR_TYPE_WOTS as u32);
    set_keypair_addr(&mut addr, 0x0123, &wide());
    set_chain_addr(&mut addr, 0x22);
    set_hash_addr(&mut addr, 0x0e);
    let mut want = [0u8; 32];
    want[0] = 3;
    want[1..9].copy_from_slice(&[0x0a, 0x0b, 0x0c, 0x0d, 0x0e, 0x0f, 0x10, 0x11]);
    want[9] = 0;
    want[12] = 0x01;
    want[13] = 0x23;
    want[17] = 0x22;
    want[21] = 0x0e;
    assert_eq!(address_to_bytes(&addr), want);

    let mut node = [0u32; 8];
    set_layer_addr(&mut node, 1);
    set_tree_addr(&mut node, 2);
    set_type(&mut node, SPX_ADDR_TYPE_HASHTREE as u32);
    set_tree_height(&mut node, 4);
    set_tree_index(&mut node, 0x0506_0708);
    let mut want = [0u8; 32];
    want[0] = 1;
    want[8] = 2;
    want[9] = 2;
    want[17] = 4;
    want[18..22].copy_from_slice(&[5, 6, 7, 8]);
    assert_eq!(address_to_bytes(&node), want);
}

#[test]
fn copy_subtree_addr_copies_the_first_twelve_bytes() {
    let source = pattern(0x01, 3);
    let target = pattern(0xf0, 5);
    let mut input = address_of(&source);
    let mut out = address_of(&target);
    copy_subtree_addr(&mut out, &mut input);
    let after = address_to_bytes(&out);
    assert_eq!(after[..12], source[..12]);
    assert_eq!(after[12..], target[12..]);
    assert_eq!(address_to_bytes(&input), source);
}

#[test]
fn copy_keypair_addr_narrow_copies_the_low_byte() {
    let source = pattern(0x01, 3);
    let target = pattern(0xf0, 5);
    let mut input = address_of(&source);
    let mut out = address_of(&target);
    copy_keypair_addr(&mut out, &mut input, &narrow());
    let after = address_to_bytes(&out);
    assert_eq!(after[..12], source[..12]);
    assert_eq!(after[12], target[12]);
    assert_eq!(after[13], source[13]);
    assert_eq!(after[14..], target[14..]);
    assert_eq!(address_to_bytes(&input), source);
}

#[test]
fn copy_keypair_addr_wide_copies_both_bytes() {
    let source = pattern(0x01, 3);
    let target = pattern(0xf0, 5);
    let mut input = address_of(&source);
    let mut out = address_of(&target);
    copy_keypair_addr(&mut out, &mut input, &wide());
    let after = address_to_bytes(&out);
    assert_eq!(after[..14], source[..14]);
    assert_eq!(after[14..], target[14..]);
    assert_eq!(address_to_bytes(&input), source);
}
