//! Consensus strategies: proof-of-work (difficulty-gated nonce search) and
//! proof-of-stake (stake-weighted validator selection).
//!
//! Both produce the material a block header is sealed with; neither touches
//! account balances — applying a sealed block is the chain's job.

use vstd::prelude::*;
use rand::distributions::Distribution;
use crate::types::{SealError, SealProof, SealProofV, Transaction, User, UserV};
use crate::encode::{block_payload, spec_block_payload};
use crate::crypto::{sha256_hex, spec_sha256_hex};

verus! {

/// The consensus rule a chain seals blocks under, chosen at construction.
pub enum ConsensusStrategy {
    /// Difficulty-gated nonce search: the content hash's first `difficulty`
    /// characters, read as a decimal number, must be zero. The search gives up
    /// after `max_attempts` nonces, so a sealing attempt always terminates;
    /// the block reward is credited to the account registered under `miner`.
    ProofOfWork { difficulty: usize, max_attempts: u64, miner: String },
    /// Stake-weighted validator selection: one account is drawn with
    /// probability proportional to its balance and receives the block reward.
    ProofOfStake,
}

/// Mathematical model of a consensus strategy.
pub ghost enum ConsensusStrategyV {
    ProofOfWork { difficulty: usize, max_attempts: u64, miner: Seq<char> },
    ProofOfStake,
}

impl View for ConsensusStrategy {
    type V = ConsensusStrategyV;

    open spec fn view(&self) -> ConsensusStrategyV {
        match self {
            ConsensusStrategy::ProofOfWork { difficulty, max_attempts, miner } =>
                ConsensusStrategyV::ProofOfWork {
                difficulty: *difficulty,
                max_attempts: *max_attempts,
                miner: miner@,
            },
            ConsensusStrategy::ProofOfStake => ConsensusStrategyV::ProofOfStake,
        }
    }
}

/// The proof-of-work difficulty condition: each of the hash's first `d`
/// characters is the digit zero — equivalently, the prefix parses as a
/// decimal number equal to zero. With `d == 0` every hash qualifies.
pub open spec fn pow_ok(hash: Seq<char>, d: usize) -> bool {
    forall|i: int| 0 <= i < d ==> i < hash.len() && #[trigger] hash[i] == '0'
}

/// An account's stake: its balance, or none while the balance is negative.
pub open spec fn stake_of(u: UserV) -> int {
    if u.balance > 0 {
        u.balance as int
    } else {
        0
    }
}

/// The combined stake of all accounts.
pub open spec fn total_stake(users: Seq<UserV>) -> int
    decreases users.len(),
{
    if users.len() == 0 {
        0
    } else {
        stake_of(users[0]) + total_stake(users.drop_first())
    }
}

/// Sum of a weight list.
pub open spec fn sum_weights(ws: Seq<u64>) -> int
    decreases ws.len(),
{
    if ws.len() == 0 {
        0
    } else {
        ws[0] + sum_weights(ws.drop_first())
    }
}

/// A weight list that matches the accounts' stakes pointwise sums to the
/// total stake.
proof fn lemma_sum_matches(ws: Seq<u64>, users: Seq<UserV>)
    requires
        ws.len() == users.len(),
        forall|j: int| 0 <= j < ws.len() ==> ws[j] == stake_of(users[j]),
    ensures
        sum_weights(ws) == total_stake(users),
    decreases ws.len(),
{
    if ws.len() > 0 {
        assert forall|j: int| 0 <= j < ws.len() - 1 implies ws.drop_first()[j] == stake_of(
            users.drop_first()[j],
        ) by {
            assert(ws.drop_first()[j] == ws[j + 1]);
            assert(users.drop_first()[j] == users[j + 1]);
        }
        lemma_sum_matches(ws.drop_first(), users.drop_first());
    }
}

/// Extending a stake prefix by one account adds that account's stake.
proof fn lemma_total_stake_snoc(users: Seq<UserV>, i: int)
    requires
        0 <= i < users.len(),
    ensures
        total_stake(users.take(i + 1)) == total_stake(users.take(i)) + stake_of(users[i]),
    decreases i,
{
    if i == 0 {
        assert(users.take(1)[0] == users[0]);
        assert(users.take(1).drop_first() =~= Seq::<UserV>::empty());
        assert(users.take(0) =~= Seq::<UserV>::empty());
        assert(total_stake(users.take(1).drop_first()) == 0);
    } else {
        assert(users.take(i + 1)[0] == users[0]);
        assert(users.take(i)[0] == users[0]);
        assert(users.take(i + 1).drop_first() =~= users.drop_first().take(i));
        assert(users.take(i).drop_first() =~= users.drop_first().take(i - 1));
        lemma_total_stake_snoc(users.drop_first(), i - 1);
        assert(users.drop_first()[i - 1] == users[i]);
    }
}

/// A positive combined stake comes from some account with positive stake.
proof fn lemma_total_stake_pos(users: Seq<UserV>)
    requires
        total_stake(users) > 0,
    ensures
        exists|j: int| 0 <= j < users.len() && stake_of(users[j]) > 0,
    decreases users.len(),
{
    if stake_of(users[0]) > 0 {
        assert(0 <= 0 < users.len() && stake_of(users[0]) > 0);
    } else {
        lemma_total_stake_pos(users.drop_first());
        let j = choose|j: int|
            0 <= j < users.drop_first().len() && stake_of(users.drop_first()[j]) > 0;
        assert(users.drop_first()[j] == users[j + 1]);
        assert(0 <= j + 1 < users.len() && stake_of(users[j + 1]) > 0);
    }
}

/// Relies on `rand::distributions::WeightedIndex::new` and its
/// `Distribution::sample` with `rand::thread_rng`: the returned index is
/// drawn with probability proportional to its weight, so it is in bounds and
/// its weight is positive (a zero-weight index lies in an empty sampling
/// interval and is never returned). `new` accumulates the weights into a
/// 64-bit total, so the sum must fit; it rejects an all-zero list, which the
/// positive-weight requirement rules out.
#[verifier::external_body]
fn weighted_draw(weights: &Vec<u64>) -> (r: usize)
    requires
        exists|i: int| 0 <= i < weights@.len() && weights@[i] > 0,
        sum_weights(weights@) <= u64::MAX,
    ensures
        r < weights@.len(),
        weights@[r as int] > 0,
{
    let dist = rand::distributions::WeightedIndex::new(weights.iter()).unwrap();
    dist.sample(&mut rand::thread_rng())
}

/// Stake-weighted validator selection: draws one account with probability
/// proportional to its balance. Zero combined stake is an explicit error, and
/// a combined stake beyond the sampler's 64-bit range is a distinct one.
pub fn select_validator(users: &Vec<User>) -> (r: Result<usize, SealError>)
    ensures
        match r {
            Ok(i) => i < users@.len() && users.deep_view()[i as int].balance > 0 && 0 < total_stake(
                users.deep_view(),
            ) <= u64::MAX,
            Err(e) => (e == SealError::ZeroStake <==> total_stake(users.deep_view()) == 0) && (e
                == SealError::StakeOverflow <==> total_stake(users.deep_view()) > u64::MAX) && (e
                == SealError::ZeroStake || e == SealError::StakeOverflow),
        },
{
    let ghost uv = users.deep_view();
    let mut weights: Vec<u64> = Vec::new();
    let mut acc: u128 = 0;
    let n = users.len();
    for i in 0..n
        invariant
            uv == users.deep_view(),
            n == users@.len(),
            weights@.len() == i as int,
            forall|j: int| 0 <= j < i ==> weights@[j] == stake_of(uv[j]),
            acc == total_stake(uv.take(i as int)),
            acc <= u64::MAX,
    {
        let b = users[i].balance;
        let w: u64 = if b > 0 {
            b as u64
        } else {
            0
        };
        proof {
            assert(uv[i as int] == users@[i as int]@);
            lemma_total_stake_snoc(uv, i as int);
        }
        let next: u128 = acc + w as u128;
        if next > u64::MAX as u128 {
            proof {
                lemma_stake_prefix_bounds(uv, i + 1);
            }
            return Err(SealError::StakeOverflow);
        }
        acc = next;
        weights.push(w);
    }
    proof {
        assert(uv.take(n as int) =~= uv);
    }
    if acc == 0 {
        return Err(SealError::ZeroStake);
    }
    proof {
        lemma_total_stake_pos(uv);
        lemma_sum_matches(weights@, uv);
        let j = choose|j: int| 0 <= j < uv.len() && stake_of(uv[j]) > 0;
        assert(weights@[j] > 0);
    }
    let idx = weighted_draw(&weights);
    Ok(idx)
}

/// The combined stake is at least the stake of any prefix.
proof fn lemma_stake_prefix_bounds(users: Seq<UserV>, k: int)
    requires
        0 <= k <= users.len(),
    ensures
        total_stake(users) >= total_stake(users.take(k)),
    decreases users.len() - k,
{
    if k < users.len() {
        lemma_total_stake_snoc(users, k);
        lemma_stake_prefix_bounds(users, k + 1);
        assert(stake_of(users[k]) >= 0);
    } else {
        assert(users.take(k) =~= users);
    }
}

/// Whether each of the hash's first `difficulty` characters is the digit
/// zero, as `pow_ok` asks.
pub fn check_difficulty(hash: &String, difficulty: usize) -> (r: bool)
    ensures
        r == pow_ok(hash@, difficulty),
{
    let s = hash.as_str();
    let n = s.unicode_len();
    if difficulty > n {
        proof {
            let w = n as int;
            assert(0 <= w);
            assert(w < difficulty);
            assert(n == hash@.len());
            assert(!(w < hash@.len()));
            if pow_ok(hash@, difficulty) {
                assert(hash@[w] == '0');
                assert(false);
            }
        }
        return false;
    }
    for i in 0..difficulty
        invariant
            s@ == hash@,
            n == s@.len(),
            difficulty <= n,
            forall|j: int| 0 <= j < i ==> s@[j] == '0',
    {
        let c = s.get_char(i);
        if c != '0' {
            assert(!pow_ok(hash@, difficulty));
            return false;
        }
    }
    true
}

/// The difficulty-gated nonce search: tries nonces from zero upward until the
/// candidate block's content hash meets the difficulty, giving up exactly
/// when no nonce within the `max_attempts` budget meets it — so with a
/// nonzero budget and difficulty zero the first nonce seals at once.
pub fn seal_pow(
    time: u128,
    prev_hash: &String,
    index: u32,
    ts: &Vec<Transaction>,
    difficulty: usize,
    max_attempts: u64,
) -> (r: Result<(u64, String), SealError>)
    ensures
        match r {
            Ok((nonce, hash)) => hash@ == spec_sha256_hex(
                spec_block_payload(
                    time,
                    prev_hash@,
                    SealProofV::Work { nonce, difficulty },
                    index,
                    ts.deep_view(),
                ),
            ) && pow_ok(hash@, difficulty),
            Err(e) => e == SealError::AttemptsExhausted && forall|n: u64|
                n < max_attempts ==> !pow_ok(
                    spec_sha256_hex(
                        spec_block_payload(
                            time,
                            prev_hash@,
                            SealProofV::Work { nonce: n, difficulty },
                            index,
                            ts.deep_view(),
                        ),
                    ),
                    difficulty,
                ),
        },
{
    let mut nonce: u64 = 0;
    while nonce < max_attempts
        invariant
            nonce <= max_attempts,
            forall|n: u64|
                n < nonce ==> !pow_ok(
                    spec_sha256_hex(
                        spec_block_payload(
                            time,
                            prev_hash@,
                            SealProofV::Work { nonce: n, difficulty },
                            index,
                            ts.deep_view(),
                        ),
                    ),
                    difficulty,
                ),
        decreases max_attempts - nonce,
    {
        let proof_data = SealProof::Work { nonce, difficulty };
        let payload = block_payload(time, prev_hash.as_str(), &proof_data, index, ts);
        let hash = sha256_hex(&payload);
        if check_difficulty(&hash, difficulty) {
            return Ok((nonce, hash));
        }
        nonce = nonce + 1;
    }
    Err(SealError::AttemptsExhausted)
}

} // verus!
