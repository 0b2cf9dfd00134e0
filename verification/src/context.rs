//! The hash context: the public seed, and the hash states that have already
//! absorbed it.

use vstd::prelude::*;
use crate::params::Params;
use crate::sha256::Sha256State;
use crate::sha512::Sha512State;

verus! {

/// `pub_seed` followed by zero bytes up to `block` bytes: the one block that
/// a seeded hash state has absorbed.
pub open spec fn seed_block(pub_seed: Seq<u8>, block: nat) -> Seq<u8> {
    pub_seed + Seq::new((block - pub_seed.len()) as nat, |i: int| 0u8)
}

/// What every hash of one key shares: the parameter set, the public seed,
/// and the state of SHA-256 after the block of the seed; with the 512-bit
/// hash enabled, the state of SHA-512 after its block of the seed too.
/// It is made once and only read afterwards.
pub struct SpxCtx {
    params: Params,
    pub_seed: Vec<u8>,
    state_seeded: Sha256State,
    state_seeded_512: Option<Sha512State>,
}

impl SpxCtx {
    /// The parameter set.
    pub closed spec fn spec_params(&self) -> Params {
        self.params
    }

    /// The public seed.
    pub closed spec fn pub_seed(&self) -> Seq<u8> {
        self.pub_seed@
    }

    /// The state of SHA-256 after the block of the seed.
    pub closed spec fn state_seeded(&self) -> Sha256State {
        self.state_seeded
    }

    /// The state of SHA-512 after its block of the seed, where the parameter
    /// set enables the 512-bit hash.
    pub closed spec fn state_seeded_512(&self) -> Option<Sha512State> {
        self.state_seeded_512
    }

    /// The seed has the length that the parameter set gives, and each state
    /// has absorbed the block of the seed and nothing else.
    pub open spec fn wf(&self) -> bool {
        &&& self.params().wf()
        &&& self.pub_seed().len() == self.params().n()
        &&& self.state_seeded().wf()
        &&& self.state_seeded()@ == seed_block(self.pub_seed(), 64)
        &&& self.params().sha512() ==> {
            &&& self.state_seeded_512() is Some
            &&& self.state_seeded_512().unwrap().wf()
            &&& self.state_seeded_512().unwrap()@ == seed_block(self.pub_seed(), 128)
        }
        &&& !self.params().sha512() ==> self.state_seeded_512() is None
    }

    /// Makes the context of `pub_seed`: absorbs the seed, once for each hash
    /// that the parameter set enables. `None` exactly when the seed does not
    /// have the length that the parameter set gives.
    pub fn new(params: Params, pub_seed: &[u8]) -> (r: Option<SpxCtx>)
        requires
            params.wf(),
        ensures
            r is Some <==> pub_seed@.len() == params.n(),
            r matches Some(ctx) ==> {
                &&& ctx.wf()
                &&& ctx.params() == params
                &&& ctx.pub_seed() == pub_seed@
            },
    {
        let n: usize = params.n();
        if pub_seed.len() != n {
            return None;
        }
        let mut block = [0u8; 128];
        for i in 0..n
            invariant
                n == pub_seed@.len(),
                n <= 32,
                forall|k: int| 0 <= k < i ==> block@[k] == pub_seed@[k],
                forall|k: int| i <= k < 128 ==> block@[k] == 0,
        {
            block[i] = pub_seed[i];
        }
        let mut seed: Vec<u8> = Vec::new();
        seed.extend_from_slice(pub_seed);
        assert(seed@ =~= pub_seed@);
        let mut state_seeded = Sha256State::new();
        let short = vstd::slice::slice_subrange(block.as_slice(), 0, 64);
        assert(short@ =~= seed_block(pub_seed@, 64));
        state_seeded.absorb_blocks(short);
        assert(state_seeded@ =~= seed_block(pub_seed@, 64));
        let state_seeded_512 = if params.sha512() {
            let mut state = Sha512State::new();
            assert(block@ =~= seed_block(pub_seed@, 128));
            state.absorb_blocks(block.as_slice());
            assert(state@ =~= seed_block(pub_seed@, 128));
            Some(state)
        } else {
            None
        };
        Some(SpxCtx { params, pub_seed: seed, state_seeded, state_seeded_512 })
    }

    /// The parameter set.
    #[verifier::when_used_as_spec(spec_params)]
    pub fn params(&self) -> (r: Params)
        ensures
            r == self.spec_params(),
    {
        self.params
    }

    /// The public seed.
    pub fn pub_seed_bytes(&self) -> (seed: &[u8])
        ensures
            seed@ == self.pub_seed(),
    {
        self.pub_seed.as_slice()
    }

    /// The state of SHA-256 after the block of the seed.
    pub fn seeded_state(&self) -> (state: &Sha256State)
        ensures
            *state == self.state_seeded(),
    {
        &self.state_seeded
    }

    /// The state of SHA-512 after its block of the seed, where the parameter
    /// set enables the 512-bit hash.
    pub fn seeded_state_512(&self) -> (state: Option<&Sha512State>)
        ensures
            state is Some <==> self.state_seeded_512() is Some,
            state matches Some(s) ==> *s == self.state_seeded_512().unwrap(),
    {
        self.state_seeded_512.as_ref()
    }
}

} // verus!
