//! Proof of time: a sequential chain of AES-128 block encryptions, recorded
//! at evenly spaced checkpoints, and its verification.

use aes::cipher::generic_array::GenericArray;
use aes::cipher::{BlockEncrypt, KeyInit};
use vstd::prelude::*;

verus! {

/// Size in bytes of a seed, a key and an output.
pub const BLOCK_SIZE: usize = 16;

/// Number of checkpoints that `prove` records.
pub const NUM_CHECKPOINTS: u32 = 8;

/// Seed of a proof of time chain.
pub type PotSeed = [u8; 16];

/// Cipher key derived from a seed.
pub type PotKey = [u8; 16];

/// One checkpoint: the chain's state at a checkpoint boundary.
pub type PotOutput = [u8; 16];

/// What BLAKE3 hashes `data` to (32 bytes).
pub uninterp spec fn blake3_digest(data: Seq<u8>) -> Seq<u8>;

/// What AES-128 under `key` encrypts the 16-byte `block` to.
pub uninterp spec fn aes128_encrypt(key: Seq<u8>, block: Seq<u8>) -> Seq<u8>;

/// Relies on `blake3::hash`: the 32-byte digest of the input, a function of
/// the input alone.
#[verifier::external_body]
fn blake3_hash(data: &[u8]) -> (r: [u8; 32])
    ensures
        r@ == blake3_digest(data@),
{
    blake3::hash(data).into()
}

/// Relies on `aes::Aes128` (`KeyInit::new`, `BlockEncrypt::encrypt_block`):
/// one encryption of one block, a function of the key and the block alone.
#[verifier::external_body]
fn encrypt_block(key: &PotKey, block: &[u8; 16]) -> (r: [u8; 16])
    ensures
        r@ == aes128_encrypt(key@, block@),
{
    let cipher = aes::Aes128::new(&GenericArray::from(*key));
    let mut b = GenericArray::from(*block);
    cipher.encrypt_block(&mut b);
    b.into()
}

/// The key of a seed: the first 16 bytes of the seed's BLAKE3 digest.
pub open spec fn key_of(seed: Seq<u8>) -> Seq<u8> {
    blake3_digest(seed).subrange(0, 16)
}

/// `block` encrypted `n` times in a row under `key`.
pub open spec fn encrypt_n(key: Seq<u8>, block: Seq<u8>, n: nat) -> Seq<u8>
    decreases n,
{
    if n == 0 {
        block
    } else {
        aes128_encrypt(key, encrypt_n(key, block, (n - 1) as nat))
    }
}

/// Checkpoint `i` of the chain that starts at `seed` and runs `per`
/// encryptions between checkpoints.
pub open spec fn checkpoint_at(seed: Seq<u8>, per: nat, i: nat) -> Seq<u8>
    decreases i,
{
    let start = if i == 0 { seed } else { checkpoint_at(seed, per, (i - 1) as nat) };
    encrypt_n(key_of(seed), start, per)
}

/// Whether `iterations` is a multiple of `2 * count`.
pub open spec fn is_valid_iterations(iterations: nat, count: nat) -> bool {
    if count == 0 {
        iterations == 0
    } else {
        iterations % (2 * count) == 0
    }
}

/// Whether `checkpoints` are exactly the checkpoints of the chain from `seed`,
/// with `per` encryptions between two of them.
pub open spec fn is_chain(seed: Seq<u8>, per: nat, checkpoints: Seq<PotOutput>) -> bool {
    forall|i: int| 0 <= i < checkpoints.len() ==> (#[trigger] checkpoints[i])@ == checkpoint_at(seed, per, i as nat)
}

/// Error of proving and verifying.
#[derive(Debug, Clone, Copy, PartialEq, Eq)]
pub enum PotError {
    /// Iterations is not a multiple of the number of checkpoints times two.
    NotMultipleOfCheckpoints {
        /// Iterations asked for.
        iterations: u32,
        /// Number of checkpoints.
        num_checkpoints: u32,
    },
}

/// The cipher key of `seed`.
pub fn derive_key(seed: &PotSeed) -> (r: PotKey)
    ensures
        r@ == key_of(seed@),
{
    let digest = blake3_hash(seed);
    let mut key: PotKey = [0u8; 16];
    let mut i: usize = 0;
    while i < BLOCK_SIZE
        invariant
            0 <= i <= 16,
            digest@ == blake3_digest(seed@),
            digest@.len() == 32,
            key@.len() == 16,
            forall|j: int| 0 <= j < i ==> key@[j] == digest@[j],
        decreases 16 - i,
    {
        key[i] = digest[i];
        i = i + 1;
    }
    assert(key@ =~= blake3_digest(seed@).subrange(0, 16));
    key
}

/// Encrypts `block` `n` times in a row under `key`.
fn run_chain(key: &PotKey, block: &[u8; 16], n: u32) -> (r: [u8; 16])
    ensures
        r@ == encrypt_n(key@, block@, n as nat),
{
    let mut cur: [u8; 16] = *block;
    let mut j: u32 = 0;
    while j < n
        invariant
            0 <= j <= n,
            cur@ == encrypt_n(key@, block@, j as nat),
        decreases n - j,
    {
        cur = encrypt_block(key, &cur);
        j = j + 1;
    }
    cur
}

/// Runs the chain from `seed` and records `count` checkpoints, `per`
/// encryptions apart.
fn create_checkpoints(seed: &PotSeed, per: u32, count: u32) -> (r: Vec<PotOutput>)
    ensures
        r.len() == count,
        is_chain(seed@, per as nat, r@),
{
    let key = derive_key(seed);
    let mut out: Vec<PotOutput> = Vec::new();
    let mut cur: [u8; 16] = *seed;
    let mut i: u32 = 0;
    while i < count
        invariant
            0 <= i <= count,
            key@ == key_of(seed@),
            out.len() == i,
            is_chain(seed@, per as nat, out@),
            i > 0 ==> cur@ == checkpoint_at(seed@, per as nat, (i - 1) as nat),
            i == 0 ==> cur@ == seed@,
        decreases count - i,
    {
        cur = run_chain(&key, &cur, per);
        out.push(cur);
        i = i + 1;
    }
    out
}

/// Runs proof of time from `seed` for `iterations` encryptions and returns
/// the `NUM_CHECKPOINTS` checkpoints.
///
/// Fails when `iterations` is not a multiple of `2 * NUM_CHECKPOINTS`.
pub fn prove(seed: PotSeed, iterations: u32) -> (r: Result<Vec<PotOutput>, PotError>)
    ensures
        is_valid_iterations(iterations as nat, NUM_CHECKPOINTS as nat) ==> (match r {
            Ok(cps) => cps.len() == NUM_CHECKPOINTS && is_chain(
                seed@,
                (iterations / NUM_CHECKPOINTS) as nat,
                cps@,
            ),
            Err(_) => false,
        }),
        !is_valid_iterations(iterations as nat, NUM_CHECKPOINTS as nat) ==> r == Err::<
            Vec<PotOutput>,
            PotError,
        >(PotError::NotMultipleOfCheckpoints { iterations, num_checkpoints: NUM_CHECKPOINTS }),
{
    if iterations % (NUM_CHECKPOINTS * 2) != 0 {
        return Err(
            PotError::NotMultipleOfCheckpoints { iterations, num_checkpoints: NUM_CHECKPOINTS },
        );
    }
    Ok(create_checkpoints(&seed, iterations / NUM_CHECKPOINTS, NUM_CHECKPOINTS))
}

/// Checks `checkpoints` against the chain from `seed`: `iterations`
/// encryptions spread evenly over `checkpoints.len()` checkpoints.
///
/// Fails when `iterations` is not a multiple of `2 * checkpoints.len()`; the
/// error reports the count as `u32`, truncated when it does not fit.
pub fn verify(seed: PotSeed, iterations: u32, checkpoints: &[PotOutput]) -> (r: Result<
    bool,
    PotError,
>)
    ensures
        is_valid_iterations(iterations as nat, checkpoints@.len()) ==> (match r {
            Ok(ok) => ok == is_chain(
                seed@,
                (iterations as nat / checkpoints@.len()) as nat,
                checkpoints@,
            ),
            Err(_) => false,
        }),
        !is_valid_iterations(iterations as nat, checkpoints@.len()) ==> r == Err::<
            bool,
            PotError,
        >(
            PotError::NotMultipleOfCheckpoints {
                iterations,
                num_checkpoints: checkpoints@.len() as u32,
            },
        ),
{
    let count = checkpoints.len() as u128;
    let modulus = count * 2;
    if (modulus == 0 && iterations != 0) || (modulus != 0 && iterations as u128 % modulus != 0) {
        return Err(
            PotError::NotMultipleOfCheckpoints {
                iterations,
                num_checkpoints: checkpoints.len() as u32,
            },
        );
    }
    assert(is_valid_iterations(iterations as nat, checkpoints@.len()));
    if count == 0 {
        return Ok(true);
    }
    let per_wide = iterations as u128 / count;
    assert(per_wide <= iterations) by (nonlinear_arith)
        requires
            per_wide == iterations as int / count as int,
            count > 0,
    ;
    let per = per_wide as u32;
    let key = derive_key(&seed);
    let mut i: usize = 0;
    while i < checkpoints.len()
        invariant
            0 <= i <= checkpoints@.len(),
            count == checkpoints@.len(),
            per == iterations as nat / checkpoints@.len(),
            is_valid_iterations(iterations as nat, checkpoints@.len()),
            key@ == key_of(seed@),
            forall|j: int| 0 <= j < i ==> (#[trigger] checkpoints@[j])@ == checkpoint_at(seed@, per as nat, j as nat),
        decreases checkpoints@.len() - i,
    {
        let start: [u8; 16] = if i == 0 { seed } else { checkpoints[i - 1] };
        let end = run_chain(&key, &start, per);
        if !same_block(&end, &checkpoints[i]) {
            assert(checkpoints@[i as int]@ != checkpoint_at(seed@, per as nat, i as nat));
            return Ok(false);
        }
        i = i + 1;
    }
    Ok(true)
}

/// Whether two blocks hold the same bytes.
fn same_block(a: &[u8; 16], b: &[u8; 16]) -> (r: bool)
    ensures
        r == (a@ == b@),
{
    let mut i: usize = 0;
    while i < BLOCK_SIZE
        invariant
            0 <= i <= 16,
            a@.len() == 16,
            b@.len() == 16,
            forall|j: int| 0 <= j < i ==> a@[j] == b@[j],
        decreases 16 - i,
    {
        if a[i] != b[i] {
            return false;
        }
        i = i + 1;
    }
    assert(a@ =~= b@);
    true
}

/// Checkpoints that `prove` returns for a seed and a valid number of
/// iterations are accepted by `verify` with the same seed and iterations.
pub proof fn lemma_prove_then_verify(seed: PotSeed, iterations: u32, checkpoints: Seq<PotOutput>)
    requires
        is_valid_iterations(iterations as nat, NUM_CHECKPOINTS as nat),
        checkpoints.len() == NUM_CHECKPOINTS,
        is_chain(seed@, (iterations / NUM_CHECKPOINTS) as nat, checkpoints),
    ensures
        is_valid_iterations(iterations as nat, checkpoints.len()),
        is_chain(seed@, (iterations as nat / checkpoints.len()) as nat, checkpoints),
{
}

/// Checkpoints that differ from the true ones in any byte of any checkpoint
/// are rejected: in particular, changing one byte of one checkpoint that
/// `prove` returned makes `verify` answer `false`.
pub proof fn lemma_changed_checkpoint_rejected(
    seed: PotSeed,
    per: nat,
    checkpoints: Seq<PotOutput>,
    changed: Seq<PotOutput>,
    i: int,
    j: int,
)
    requires
        is_chain(seed@, per, checkpoints),
        changed.len() == checkpoints.len(),
        0 <= i < checkpoints.len(),
        0 <= j < 16,
        changed[i]@[j] != checkpoints[i]@[j],
    ensures
        !is_chain(seed@, per, changed),
{
    assert(checkpoints[i]@ == checkpoint_at(seed@, per, i as nat));
    assert(changed[i]@ != checkpoint_at(seed@, per, i as nat));
}

} // verus!
