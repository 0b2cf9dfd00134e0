//! The parameter set, and the byte layout of an address.

use vstd::prelude::*;

verus! {

/// Bytes in an address.
pub const SPX_ADDR_BYTES: usize = 32;

/// The byte that holds the hypertree layer.
pub const SPX_OFFSET_LAYER: usize = 0;

/// First of the 8 bytes that hold the tree index.
pub const SPX_OFFSET_TREE: usize = 1;

/// The byte that holds the type of the hash.
pub const SPX_OFFSET_TYPE: usize = 9;

/// The high byte of the keypair index.
pub const SPX_OFFSET_KP_ADDR2: usize = 12;

/// The low byte of the keypair index.
pub const SPX_OFFSET_KP_ADDR1: usize = 13;

/// The byte that holds the chain index.
pub const SPX_OFFSET_CHAIN_ADDR: usize = 17;

/// The byte that holds the position within a chain.
pub const SPX_OFFSET_HASH_ADDR: usize = 21;

/// The byte that holds the height of a tree node.
pub const SPX_OFFSET_TREE_HGT: usize = 17;

/// First of the 4 bytes that hold the index of a tree node.
pub const SPX_OFFSET_TREE_INDEX: usize = 18;

/// Words that `copy_subtree_addr` copies: the least number that holds the
/// layer and the tree index.
pub const SPX_SUBTREE_WORDS: usize = 3;

/// Bytes of the address that enter a hash on the 256-bit path.
pub const SPX_SHA256_ADDR_BYTES: usize = 22;

/// Bytes of the address that enter a hash on the 512-bit path.
pub const SPX_SHA512_ADDR_BYTES: usize = 22;

/// Longest digest that a parameter set may ask for: the output of the
/// 256-bit hash.
pub const SPX_MAX_N: usize = 32;

/// A parameter set: what the scheme fixes once, before any key is made.
#[derive(Clone, Copy, Debug)]
pub struct Params {
    n: usize,
    full_height: usize,
    d: usize,
    sha512: bool,
    wide_keypair: bool,
}

impl Params {
    /// Length of a digest and of the public seed, in bytes.
    pub closed spec fn spec_n(&self) -> usize {
        self.n
    }

    /// Height of the whole hypertree.
    pub closed spec fn spec_full_height(&self) -> usize {
        self.full_height
    }

    /// Number of layers of the hypertree.
    pub closed spec fn spec_d(&self) -> usize {
        self.d
    }

    /// Whether inputs of more than one block go through the 512-bit hash.
    pub closed spec fn spec_sha512(&self) -> bool {
        self.sha512
    }

    /// Whether the keypair index takes two bytes of an address.
    pub closed spec fn spec_wide_keypair(&self) -> bool {
        self.wide_keypair
    }

    /// The values from which a parameter set can be made.
    pub open spec fn valid(n: usize, d: usize) -> bool {
        0 < n <= SPX_MAX_N && d > 0
    }

    /// A parameter set is well formed when its values are valid and the
    /// keypair width is the one that its tree geometry asks for: two bytes
    /// exactly when a single tree has more than 256 leaves.
    pub open spec fn wf(&self) -> bool {
        &&& Self::valid(self.n(), self.d())
        &&& self.wide_keypair() == (self.full_height() / self.d() > 8)
    }

    /// Makes a parameter set; `None` exactly when `n` is 0 or more than
    /// `SPX_MAX_N`, or `d` is 0.
    pub fn new(n: usize, full_height: usize, d: usize, sha512: bool) -> (r: Option<Params>)
        ensures
            r is Some <==> Self::valid(n, d),
            r matches Some(p) ==> {
                &&& p.wf()
                &&& p.n() == n
                &&& p.full_height() == full_height
                &&& p.d() == d
                &&& p.sha512() == sha512
            },
    {
        if n == 0 || n > SPX_MAX_N || d == 0 {
            None
        } else {
            Some(Params { n, full_height, d, sha512, wide_keypair: full_height / d > 8 })
        }
    }

    /// Length of a digest and of the public seed, in bytes.
    #[verifier::when_used_as_spec(spec_n)]
    pub fn n(&self) -> (r: usize)
        ensures
            r == self.spec_n(),
    {
        self.n
    }

    /// Height of the whole hypertree.
    #[verifier::when_used_as_spec(spec_full_height)]
    pub fn full_height(&self) -> (r: usize)
        ensures
            r == self.spec_full_height(),
    {
        self.full_height
    }

    /// Number of layers of the hypertree.
    #[verifier::when_used_as_spec(spec_d)]
    pub fn d(&self) -> (r: usize)
        ensures
            r == self.spec_d(),
    {
        self.d
    }

    /// Whether inputs of more than one block go through the 512-bit hash.
    #[verifier::when_used_as_spec(spec_sha512)]
    pub fn sha512(&self) -> (r: bool)
        ensures
            r == self.spec_sha512(),
    {
        self.sha512
    }

    /// Whether the keypair index takes two bytes of an address: settled once, when the parameter set is made.
    #[verifier::when_used_as_spec(spec_wide_keypair)]
    pub fn wide_keypair(&self) -> (r: bool)
        ensures
            r == self.spec_wide_keypair(),
    {
        self.wide_keypair
    }
}

} // verus!
