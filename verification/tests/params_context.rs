use spx_thash::context::SpxCtx;
use spx_thash::params::Params;

#[test]
fn params_keep_what_they_were_made_of() {
    let p = Params::new(24, 63, 7, true).unwrap();
    assert_eq!(p.n(), 24);
    assert_eq!(p.full_height(), 63);
    assert_eq!(p.d(), 7);
    assert!(p.sha512());
    assert!(p.wide_keypair());
    let q = Params::new(16, 66, 22, false).unwrap();
    assert_eq!(q.n(), 16);
    assert!(!q.sha512());
    assert!(!q.wide_keypair());
}

#[test]
fn params_refuse_a_digest_of_no_bytes() {
    assert!(Params::new(0, 63, 7, false).is_none());
}

#[test]
fn params_refuse_a_digest_longer_than_the_hash() {
    assert!(Params::new(33, 63, 7, true).is_none());
    assert!(Params::new(usize::MAX, 63, 7, true).is_none());
    assert!(Params::new(32, 63, 7, true).is_some());
    assert!(Params::new(1, 63, 7, true).is_some());
}

#[test]
fn params_refuse_a_hypertree_of_no_layers() {
    assert!(Params::new(16, 63, 0, false).is_none());
    assert!(Params::new(16, 0, 1, false).is_some());
}

#[test]
fn context_keeps_seed_and_params() {
    let params = Params::new(16, 63, 7, false).unwrap();
    let seed: Vec<u8> = (1..=16).collect();
    let ctx = SpxCtx::new(params, &seed).unwrap();
    assert_eq!(ctx.pub_seed_bytes(), &seed[..]);
    assert_eq!(ctx.params().n(), 16);
    assert!(ctx.seeded_state_512().is_none());
    let wide = SpxCtx::new(Params::new(16, 63, 7, true).unwrap(), &seed).unwrap();
    assert!(wide.seeded_state_512().is_some());
}

#[test]
fn context_refuses_a_seed_of_another_length() {
    let params = Params::new(16, 63, 7, false).unwrap();
    assert!(SpxCtx::new(params, &[0u8; 15]).is_none());
    assert!(SpxCtx::new(params, &[0u8; 17]).is_none());
    assert!(SpxCtx::new(params, &[]).is_none());
    assert!(SpxCtx::new(params, &[0u8; 16]).is_some());
}
