use farmer_core::pot::{derive_key, prove, verify, PotError, PotOutput, NUM_CHECKPOINTS};

const SEED: [u8; 16] = [7u8; 16];

#[test]
fn prove_returns_all_checkpoints_and_verify_accepts_them() {
    let checkpoints = prove(SEED, 16).unwrap();
    assert_eq!(checkpoints.len(), NUM_CHECKPOINTS as usize);
    assert_eq!(verify(SEED, 16, &checkpoints), Ok(true));
}

#[test]
fn prove_then_verify_for_larger_iterations() {
    let checkpoints = prove([1u8; 16], 160).unwrap();
    assert_eq!(verify([1u8; 16], 160, &checkpoints), Ok(true));
}

#[test]
fn checkpoints_follow_one_chain() {
    let short = prove(SEED, 16).unwrap();
    let long = prove(SEED, 32).unwrap();
    // Two encryptions per checkpoint against four: every second short
    // checkpoint is a long one.
    assert_eq!(long[0], short[1]);
    assert_eq!(long[1], short[3]);
    assert_eq!(long[3], short[7]);
}

#[test]
fn checkpoints_differ_from_seed_and_from_each_other() {
    let checkpoints = prove(SEED, 16).unwrap();
    assert_ne!(checkpoints[0], SEED);
    assert_ne!(checkpoints[0], checkpoints[1]);
}

#[test]
fn different_seeds_give_different_checkpoints() {
    let a = prove([0u8; 16], 16).unwrap();
    let b = prove([1u8; 16], 16).unwrap();
    assert_ne!(a, b);
    assert_eq!(verify([1u8; 16], 16, &a), Ok(false));
}

#[test]
fn derived_key_is_not_the_seed() {
    let key = derive_key(&SEED);
    assert_ne!(key, SEED);
    assert_eq!(key, derive_key(&SEED));
}

#[test]
fn changing_one_byte_of_any_checkpoint_fails_verification() {
    let checkpoints = prove(SEED, 16).unwrap();
    for i in 0..checkpoints.len() {
        for j in [0usize, 5, 15] {
            let mut changed: Vec<PotOutput> = checkpoints.clone();
            changed[i][j] ^= 0x01;
            assert_eq!(verify(SEED, 16, &changed), Ok(false));
        }
    }
}

#[test]
fn prove_rejects_odd_multiple_of_checkpoints() {
    assert_eq!(
        prove(SEED, 8),
        Err(PotError::NotMultipleOfCheckpoints { iterations: 8, num_checkpoints: 8 })
    );
    assert_eq!(
        prove(SEED, 24),
        Err(PotError::NotMultipleOfCheckpoints { iterations: 24, num_checkpoints: 8 })
    );
}

#[test]
fn prove_rejects_non_multiple() {
    assert_eq!(
        prove(SEED, 17),
        Err(PotError::NotMultipleOfCheckpoints { iterations: 17, num_checkpoints: 8 })
    );
}

#[test]
fn verify_rejects_invalid_iterations() {
    let checkpoints = prove(SEED, 16).unwrap();
    assert_eq!(
        verify(SEED, 8, &checkpoints),
        Err(PotError::NotMultipleOfCheckpoints { iterations: 8, num_checkpoints: 8 })
    );
    assert_eq!(
        verify(SEED, 20, &checkpoints),
        Err(PotError::NotMultipleOfCheckpoints { iterations: 20, num_checkpoints: 8 })
    );
}

#[test]
fn verify_uses_the_given_number_of_checkpoints() {
    let checkpoints = prove(SEED, 16).unwrap();
    // Three checkpoints of two encryptions each are the first three of eight.
    let first_three: Vec<PotOutput> = checkpoints[..3].to_vec();
    assert_eq!(verify(SEED, 6, &first_three), Ok(true));
    assert_eq!(
        verify(SEED, 9, &first_three),
        Err(PotError::NotMultipleOfCheckpoints { iterations: 9, num_checkpoints: 3 })
    );
}

#[test]
fn verify_without_checkpoints() {
    assert_eq!(
        verify(SEED, 4, &[]),
        Err(PotError::NotMultipleOfCheckpoints { iterations: 4, num_checkpoints: 0 })
    );
    assert_eq!(verify(SEED, 0, &[]), Ok(true));
}
