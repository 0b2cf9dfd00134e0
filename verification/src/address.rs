//! The 32-byte address that tags every hash of the scheme.
//!
//! An address is held as 8 words and read as 32 bytes. Word `i` holds bytes
//! `4 * i` to `4 * i + 3`, the first of them in its lowest 8 bits, on every
//! machine. Fields have their meaning in the byte view only, and every
//! function here is specified over that view.
//!
//! The layer, the tree, the type and the keypair lie in front. Behind them
//! one address holds either a chain and a position in it, or the height and
//! the index of a tree node: the two pairs share their bytes, and which pair
//! is meant follows from the type.
//!
//! A field takes of a value as many low bytes as it is wide. A value that
//! needs more is cut down to them and never refused: the layers of the
//! scheme that walk the trees count on indices that wrap around.

use vstd::prelude::*;
use crate::utils::{low_byte, u32_be_bytes, u32_to_bytes, u64_be_bytes, u64_to_bytes};
use crate::params::{
    Params, SPX_OFFSET_CHAIN_ADDR, SPX_OFFSET_HASH_ADDR, SPX_OFFSET_KP_ADDR1, SPX_OFFSET_KP_ADDR2,
    SPX_OFFSET_LAYER, SPX_OFFSET_TREE, SPX_OFFSET_TREE_HGT, SPX_OFFSET_TREE_INDEX, SPX_OFFSET_TYPE,
    SPX_SUBTREE_WORDS,
};

verus! {

/// A step of a chain of the one-time signature.
pub const SPX_ADDR_TYPE_WOTS: usize = 0;

/// The public key of the one-time signature.
pub const SPX_ADDR_TYPE_WOTSPK: usize = 1;

/// A node of a tree of the hypertree.
pub const SPX_ADDR_TYPE_HASHTREE: usize = 2;

/// A node of a tree of the few-time signature.
pub const SPX_ADDR_TYPE_FORSTREE: usize = 3;

/// The public key of the few-time signature.
pub const SPX_ADDR_TYPE_FORSPK: usize = 4;

/// A secret value of the one-time signature.
pub const SPX_ADDR_TYPE_WOTSPRF: usize = 5;

/// A secret value of the few-time signature.
pub const SPX_ADDR_TYPE_FORSPRF: usize = 6;

/// Byte `j` of a word, where byte 0 is the lowest 8 bits.
pub open spec fn word_byte(w: u32, j: int) -> u8 {
    (w >> ((8 * j) as u32)) as u8
}

/// The word whose bytes are `b0` to `b3`, `b0` in the lowest 8 bits.
pub open spec fn word_of_bytes(b0: u8, b1: u8, b2: u8, b3: u8) -> u32 {
    (b0 as u32) | ((b1 as u32) << 8) | ((b2 as u32) << 16) | ((b3 as u32) << 24)
}

/// The byte view of 8 words.
pub open spec fn address_bytes(words: Seq<u32>) -> Seq<u8> {
    Seq::new(32, |k: int| word_byte(words[k / 4], k % 4))
}

/// The word view of 32 bytes.
pub open spec fn address_words(bytes: Seq<u8>) -> Seq<u32> {
    Seq::new(
        8,
        |i: int| word_of_bytes(bytes[4 * i], bytes[4 * i + 1], bytes[4 * i + 2], bytes[4 * i + 3]),
    )
}

/// Splitting a word into bytes and joining them gives the word back.
pub proof fn lemma_word_of_its_bytes(w: u32)
    ensures
        word_of_bytes(word_byte(w, 0), word_byte(w, 1), word_byte(w, 2), word_byte(w, 3)) == w,
{
    assert(((w >> 0u32) as u8 as u32) | (((w >> 8u32) as u8 as u32) << 8) | (((w >> 16u32) as u8
        as u32) << 16) | (((w >> 24u32) as u8 as u32) << 24) == w) by (bit_vector);
}

/// Joining four bytes into a word and splitting it gives the bytes back.
pub proof fn lemma_bytes_of_their_word(b0: u8, b1: u8, b2: u8, b3: u8)
    ensures
        word_byte(word_of_bytes(b0, b1, b2, b3), 0) == b0,
        word_byte(word_of_bytes(b0, b1, b2, b3), 1) == b1,
        word_byte(word_of_bytes(b0, b1, b2, b3), 2) == b2,
        word_byte(word_of_bytes(b0, b1, b2, b3), 3) == b3,
{
    let w = word_of_bytes(b0, b1, b2, b3);
    assert(w == (b0 as u32) | ((b1 as u32) << 8) | ((b2 as u32) << 16) | ((b3 as u32) << 24));
    assert((w >> 0u32) as u8 == b0 && (w >> 8u32) as u8 == b1 && (w >> 16u32) as u8 == b2 && (w
        >> 24u32) as u8 == b3) by (bit_vector)
        requires
            w == (b0 as u32) | ((b1 as u32) << 8) | ((b2 as u32) << 16) | ((b3 as u32) << 24),
    ;
}

/// An address turned into bytes and back is the address.
pub proof fn address_words_round_trip(words: Seq<u32>)
    requires
        words.len() == 8,
    ensures
        address_words(address_bytes(words)) == words,
{
    let bytes = address_bytes(words);
    assert forall|i: int| 0 <= i < 8 implies address_words(bytes)[i] == words[i] by {
        lemma_word_of_its_bytes(words[i]);
        assert((4 * i) / 4 == i && (4 * i + 1) / 4 == i && (4 * i + 2) / 4 == i && (4 * i + 3) / 4
            == i);
    }
    assert(address_words(bytes) =~= words);
}

/// 32 bytes turned into an address and back are those bytes.
pub proof fn address_bytes_round_trip(bytes: Seq<u8>)
    requires
        bytes.len() == 32,
    ensures
        address_bytes(address_words(bytes)) == bytes,
{
    let words = address_words(bytes);
    assert forall|k: int| 0 <= k < 32 implies address_bytes(words)[k] == bytes[k] by {
        let i = k / 4;
        lemma_bytes_of_their_word(bytes[4 * i], bytes[4 * i + 1], bytes[4 * i + 2], bytes[4 * i + 3]);
    }
    assert(address_bytes(words) =~= bytes);
}

/// Two addresses with the same byte view are the same address.
pub proof fn address_bytes_injective(a: Seq<u32>, b: Seq<u32>)
    requires
        a.len() == 8,
        b.len() == 8,
        address_bytes(a) == address_bytes(b),
    ensures
        a == b,
{
    address_words_round_trip(a);
    address_words_round_trip(b);
}

/// Byte `j` of `w`, for `j` below 4.
fn byte_of_word(w: u32, j: usize) -> (b: u8)
    requires
        j < 4,
    ensures
        b == word_byte(w, j as int),
{
    let shift: u32 = 8 * (j as u32);
    #[verifier::truncate]
    ((w >> shift) as u8)
}

/// Writes the byte view of `bytes` into the 8 words of `addr`.
pub fn bytes_to_address(addr: &mut [u32], bytes: &[u8])
    requires
        old(addr)@.len() == 8,
        bytes@.len() == 32,
    ensures
        final(addr)@ == address_words(bytes@),
        address_bytes(final(addr)@) == bytes@,
{
    for i in 0..8usize
        invariant
            addr@.len() == 8,
            bytes@.len() == 32,
            forall|m: int| 0 <= m < i ==> addr@[m] == #[trigger] address_words(bytes@)[m],
    {
        let w: u32 = (bytes[4 * i] as u32) | ((bytes[4 * i + 1] as u32) << 8) | ((bytes[4 * i
            + 2] as u32) << 16) | ((bytes[4 * i + 3] as u32) << 24);
        addr[i] = w;
    }
    proof {
        assert(addr@ =~= address_words(bytes@));
        address_bytes_round_trip(bytes@);
    }
}

/// The byte view of the 8 words of `addr`.
pub fn address_to_bytes(addr: &[u32]) -> (bytes: [u8; 32])
    requires
        addr@.len() == 8,
    ensures
        bytes@ == address_bytes(addr@),
{
    let mut tmp_addr = [0u8; 32];
    for i in 0..8usize
        invariant
            addr@.len() == 8,
            forall|k: int| 0 <= k < 4 * i ==> tmp_addr@[k] == #[trigger] address_bytes(addr@)[k],
    {
        let w: u32 = addr[i];
        tmp_addr[4 * i] = byte_of_word(w, 0);
        tmp_addr[4 * i + 1] = byte_of_word(w, 1);
        tmp_addr[4 * i + 2] = byte_of_word(w, 2);
        tmp_addr[4 * i + 3] = byte_of_word(w, 3);
    }
    proof {
        assert(tmp_addr@ =~= address_bytes(addr@));
    }
    tmp_addr
}

/// `bytes` with `field` written over the bytes from `at` on.
pub open spec fn write_field(bytes: Seq<u8>, at: int, field: Seq<u8>) -> Seq<u8> {
    Seq::new(
        bytes.len(),
        |i: int|
            if at <= i < at + field.len() {
                field[i - at]
            } else {
                bytes[i]
            },
    )
}

/// Whether `after` has the bytes of `before` everywhere but in the `width`
/// bytes from `at` on.
pub open spec fn same_outside(before: Seq<u8>, after: Seq<u8>, at: int, width: int) -> bool {
    &&& after.len() == before.len()
    &&& forall|i: int|
        0 <= i < before.len() && !(at <= i < at + width) ==> after[i] == before[i]
}

/// Writing a field puts the field where it belongs, keeps the length, and
/// leaves every byte outside the field as it was.
pub proof fn write_field_isolated(bytes: Seq<u8>, at: int, field: Seq<u8>)
    requires
        0 <= at,
        at + field.len() <= bytes.len(),
    ensures
        write_field(bytes, at, field).subrange(at, at + field.len()) == field,
        same_outside(bytes, write_field(bytes, at, field), at, field.len() as int),
{
    assert(write_field(bytes, at, field).subrange(at, at + field.len()) =~= field);
}

/// Whether byte `i` of an address lies in what `copy_subtree_addr` copies:
/// the first `SPX_SUBTREE_WORDS` words, which end where the keypair field
/// begins.
pub open spec fn in_subtree_prefix(i: int) -> bool {
    0 <= i < 4 * SPX_SUBTREE_WORDS
}

/// Whether byte `i` of an address lies in what `copy_keypair_addr` copies:
/// the subtree prefix and the keypair field, which is one byte, or two when
/// `wide`.
pub open spec fn in_keypair_prefix(i: int, wide: bool) -> bool {
    in_subtree_prefix(i) || i == SPX_OFFSET_KP_ADDR1 || (wide && i == SPX_OFFSET_KP_ADDR2)
}

/// The bytes of the keypair field for `keypair`: its low byte, after its
/// second byte when `wide`. Higher bytes of `keypair` are dropped.
pub open spec fn keypair_field(keypair: u32, wide: bool) -> Seq<u8> {
    if wide {
        seq![(keypair >> 8) as u8, keypair as u8]
    } else {
        seq![keypair as u8]
    }
}

/// The offset of the first byte of the keypair field.
pub open spec fn keypair_offset(wide: bool) -> int {
    if wide {
        SPX_OFFSET_KP_ADDR2 as int
    } else {
        SPX_OFFSET_KP_ADDR1 as int
    }
}

/// Writes the low byte of `value` at byte `offset` of the address.
fn set_addr(addr: &mut [u32], offset: usize, value: u32)
    requires
        old(addr)@.len() == 8,
        offset < 32,
    ensures
        final(addr)@.len() == 8,
        address_bytes(final(addr)@) == address_bytes(old(addr)@).update(
            offset as int,
            value as u8,
        ),
{
    let mut tmp_addr = address_to_bytes(addr);
    tmp_addr[offset] = low_byte(value);
    bytes_to_address(addr, &tmp_addr);
}

/// Byte `offset` of the address.
fn get_addr(addr: &[u32], offset: usize) -> (value: u32)
    requires
        addr@.len() == 8,
        offset < 32,
    ensures
        value == address_bytes(addr@)[offset as int],
{
    let tmp_addr = address_to_bytes(addr);
    tmp_addr[offset] as u32
}

/// Sets the layer of the hypertree, 0 for the bottom one. The field is one
/// byte: of `layer` its low 8 bits are kept.
pub fn set_layer_addr(addr: &mut [u32], layer: u32)
    requires
        old(addr)@.len() == 8,
    ensures
        final(addr)@.len() == 8,
        address_bytes(final(addr)@) == address_bytes(old(addr)@).update(
            SPX_OFFSET_LAYER as int,
            layer as u8,
        ),
        same_outside(
            address_bytes(old(addr)@),
            address_bytes(final(addr)@),
            SPX_OFFSET_LAYER as int,
            1,
        ),
{
    set_addr(addr, SPX_OFFSET_LAYER, layer)
}

/// Sets which tree within the layer: all 8 bytes of `tree`, most significant
/// first.
pub fn set_tree_addr(addr: &mut [u32], tree: u64)
    requires
        old(addr)@.len() == 8,
    ensures
        final(addr)@.len() == 8,
        address_bytes(final(addr)@) == write_field(
            address_bytes(old(addr)@),
            SPX_OFFSET_TREE as int,
            u64_be_bytes(tree),
        ),
        same_outside(
            address_bytes(old(addr)@),
            address_bytes(final(addr)@),
            SPX_OFFSET_TREE as int,
            8,
        ),
{
    let be64 = u64_to_bytes(tree);
    let mut tmp_addr = address_to_bytes(addr);
    let ghost before = tmp_addr@;
    for i in 0..8usize
        invariant
            be64@ == u64_be_bytes(tree),
            before.len() == 32,
            forall|k: int|
                0 <= k < 32 ==> tmp_addr@[k] == if SPX_OFFSET_TREE <= k < SPX_OFFSET_TREE + i {
                    be64@[k - SPX_OFFSET_TREE]
                } else {
                    before[k]
                },
    {
        tmp_addr[SPX_OFFSET_TREE + i] = be64[i];
    }
    assert(tmp_addr@ =~= write_field(before, SPX_OFFSET_TREE as int, u64_be_bytes(tree)));
    bytes_to_address(addr, &tmp_addr);
}

/// Sets what the address is used for, one of the `SPX_ADDR_TYPE` constants,
/// so that hashes of different kinds never share an address. The field is
/// one byte: of `addr_type` its low 8 bits are kept.
pub fn set_type(addr: &mut [u32], addr_type: u32)
    requires
        old(addr)@.len() == 8,
    ensures
        final(addr)@.len() == 8,
        address_bytes(final(addr)@) == address_bytes(old(addr)@).update(
            SPX_OFFSET_TYPE as int,
            addr_type as u8,
        ),
        same_outside(
            address_bytes(old(addr)@),
            address_bytes(final(addr)@),
            SPX_OFFSET_TYPE as int,
            1,
        ),
{
    let mut tmp_addr = address_to_bytes(addr);
    tmp_addr[SPX_OFFSET_TYPE] = low_byte(addr_type);
    bytes_to_address(addr, &tmp_addr);
}

/// Copies the first `SPX_SUBTREE_WORDS` words from `input` to `out`: the
/// layer and the tree, and with them the other bytes in front of the keypair
/// field, the type among them.
pub fn copy_subtree_addr(out: &mut [u32], input: &mut [u32])
    requires
        old(out)@.len() == 8,
        old(input)@.len() == 8,
    ensures
        final(out)@.len() == 8,
        final(input)@ == old(input)@,
        forall|i: int|
            0 <= i < 32 ==> address_bytes(final(out)@)[i] == if in_subtree_prefix(i) {
                address_bytes(old(input)@)[i]
            } else {
                address_bytes(old(out)@)[i]
            },
{
    for i in 0..SPX_SUBTREE_WORDS
        invariant
            out@.len() == 8,
            input@ == old(input)@,
            input@.len() == 8,
            forall|m: int|
                0 <= m < 8 ==> out@[m] == if m < i {
                    input@[m]
                } else {
                    old(out)@[m]
                },
    {
        out[i] = input[i];
    }
}

/// Sets which one-time keypair at the leaves of the tree. The field is one
/// byte, or two, most significant first, when a tree has more than 256
/// leaves (`full_height / d > 8`): of `keypair` its low 8, or 16, bits are
/// kept. With the one-byte field the byte in front of it is left as it was.
pub fn set_keypair_addr(addr: &mut [u32], keypair: u32, params: &Params)
    requires
        old(addr)@.len() == 8,
        params.wf(),
    ensures
        final(addr)@.len() == 8,
        address_bytes(final(addr)@) == write_field(
            address_bytes(old(addr)@),
            keypair_offset(params.full_height() / params.d() > 8),
            keypair_field(keypair, params.full_height() / params.d() > 8),
        ),
        params.full_height() / params.d() > 8 ==> same_outside(
            address_bytes(old(addr)@),
            address_bytes(final(addr)@),
            SPX_OFFSET_KP_ADDR2 as int,
            2,
        ),
        params.full_height() / params.d() <= 8 ==> same_outside(
            address_bytes(old(addr)@),
            address_bytes(final(addr)@),
            SPX_OFFSET_KP_ADDR1 as int,
            1,
        ),
{
    let mut tmp_addr = address_to_bytes(addr);
    let ghost before = tmp_addr@;
    if params.wide_keypair() {
        tmp_addr[SPX_OFFSET_KP_ADDR2] = low_byte(keypair >> 8);
    }
    tmp_addr[SPX_OFFSET_KP_ADDR1] = low_byte(keypair);
    assert(tmp_addr@ =~= write_field(
        before,
        keypair_offset(params.wide_keypair()),
        keypair_field(keypair, params.wide_keypair()),
    ));
    bytes_to_address(addr, &tmp_addr);
}

/// Copies the layer, the tree and the keypair from `input` to `out`: the
/// first `SPX_SUBTREE_WORDS` words, then the keypair field, which is one
/// byte, or two when a tree has more than 256 leaves (`full_height / d > 8`).
pub fn copy_keypair_addr(out: &mut [u32], input: &mut [u32], params: &Params)
    requires
        old(out)@.len() == 8,
        old(input)@.len() == 8,
        params.wf(),
    ensures
        final(out)@.len() == 8,
        final(input)@ == old(input)@,
        forall|i: int|
            0 <= i < 32 ==> address_bytes(final(out)@)[i] == if in_keypair_prefix(
                i,
                params.full_height() / params.d() > 8,
            ) {
                address_bytes(old(input)@)[i]
            } else {
                address_bytes(old(out)@)[i]
            },
{
    copy_subtree_addr(out, input);
    if params.wide_keypair() {
        let value = get_addr(input, SPX_OFFSET_KP_ADDR2);
        set_addr(out, SPX_OFFSET_KP_ADDR2, value);
    }
    let value = get_addr(input, SPX_OFFSET_KP_ADDR1);
    set_addr(out, SPX_OFFSET_KP_ADDR1, value);
}

/// Sets which chain of the one-time signature. The field is one byte: of
/// `chain` its low 8 bits are kept.
pub fn set_chain_addr(addr: &mut [u32], chain: u32)
    requires
        old(addr)@.len() == 8,
    ensures
        final(addr)@.len() == 8,
        address_bytes(final(addr)@) == address_bytes(old(addr)@).update(
            SPX_OFFSET_CHAIN_ADDR as int,
            chain as u8,
        ),
        same_outside(
            address_bytes(old(addr)@),
            address_bytes(final(addr)@),
            SPX_OFFSET_CHAIN_ADDR as int,
            1,
        ),
{
    let mut tmp_addr = address_to_bytes(addr);
    tmp_addr[SPX_OFFSET_CHAIN_ADDR] = low_byte(chain);
    bytes_to_address(addr, &tmp_addr);
}

/// Sets the position within the chain. The field is one byte: of `hash` its
/// low 8 bits are kept.
pub fn set_hash_addr(addr: &mut [u32], hash: u32)
    requires
        old(addr)@.len() == 8,
    ensures
        final(addr)@.len() == 8,
        address_bytes(final(addr)@) == address_bytes(old(addr)@).update(
            SPX_OFFSET_HASH_ADDR as int,
            hash as u8,
        ),
        same_outside(
            address_bytes(old(addr)@),
            address_bytes(final(addr)@),
            SPX_OFFSET_HASH_ADDR as int,
            1,
        ),
{
    set_addr(addr, SPX_OFFSET_HASH_ADDR, hash);
}

/// Sets the height of a node in its tree. The field is one byte: of
/// `tree_height` its low 8 bits are kept.
pub fn set_tree_height(addr: &mut [u32], tree_height: u32)
    requires
        old(addr)@.len() == 8,
    ensures
        final(addr)@.len() == 8,
        address_bytes(final(addr)@) == address_bytes(old(addr)@).update(
            SPX_OFFSET_TREE_HGT as int,
            tree_height as u8,
        ),
        same_outside(
            address_bytes(old(addr)@),
            address_bytes(final(addr)@),
            SPX_OFFSET_TREE_HGT as int,
            1,
        ),
{
    let mut tmp_addr = address_to_bytes(addr);
    tmp_addr[SPX_OFFSET_TREE_HGT] = low_byte(tree_height);
    bytes_to_address(addr, &tmp_addr);
}

/// Sets how far a node is from the left edge of its tree: all 4 bytes of
/// `tree_index`, most significant first.
pub fn set_tree_index(addr: &mut [u32], tree_index: u32)
    requires
        old(addr)@.len() == 8,
    ensures
        final(addr)@.len() == 8,
        address_bytes(final(addr)@) == write_field(
            address_bytes(old(addr)@),
            SPX_OFFSET_TREE_INDEX as int,
            u32_be_bytes(tree_index),
        ),
        same_outside(
            address_bytes(old(addr)@),
            address_bytes(final(addr)@),
            SPX_OFFSET_TREE_INDEX as int,
            4,
        ),
{
    let be32 = u32_to_bytes(tree_index);
    let mut tmp_addr = address_to_bytes(addr);
    let ghost before = tmp_addr@;
    tmp_addr[SPX_OFFSET_TREE_INDEX] = be32[0];
    tmp_addr[SPX_OFFSET_TREE_INDEX + 1] = be32[1];
    tmp_addr[SPX_OFFSET_TREE_INDEX + 2] = be32[2];
    tmp_addr[SPX_OFFSET_TREE_INDEX + 3] = be32[3];
    assert(tmp_addr@ =~= write_field(
        before,
        SPX_OFFSET_TREE_INDEX as int,
        u32_be_bytes(tree_index),
    ));
    bytes_to_address(addr, &tmp_addr);
}

} // verus!
