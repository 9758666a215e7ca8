//! The ledger's laws: chain linkage, balance conservation, and the signature
//! round trip, each proved over the same spec functions the methods'
//! contracts are stated with.

use vstd::prelude::*;
use crate::types::{BlockV, TransactionV, UserV, has_user, lemma_user_index_props, system_handle,
    total_balance, user_index, users_wf};
use crate::encode::spec_signing_payload;
use crate::crypto::{ed25519_public_of, ed25519_signature_of, ed25519_verifies};
use crate::balances::{apply_tx, apply_txs, lemma_apply_tx_same_identities, lemma_apply_tx_total,
    lemma_user_index_same_identities};
use crate::types::SealProofV;
use crate::consensus::{ConsensusStrategyV, pow_ok, total_stake};
use crate::chain::{ChainV, blocks_linked, candidate_txs, gen_fail, generate_post,
    pow_search_fails, reward_tx, sealed_block_ok, signed_tx, spec_last_hash, tx_valid, valid_txs};
use crate::crypto::spec_sha256_hex;
use crate::encode::spec_block_payload;
use crate::BLOCK_REWARD;

verus! {

/// Chain-link invariant: in any ledger satisfying the invariant — and every
/// ledger the chain's operations produce does — each sealed block's
/// `prev_hash` equals its predecessor's `hash`, the very condition
/// `is_chain_valid` reports on.
pub proof fn lemma_wf_chain_linked(c: ChainV)
    requires
        c.wf(),
    ensures
        blocks_linked(c.chain),
{
}

/// What one transaction debits its sender: the transferred amount.
pub open spec fn tx_debit(t: TransactionV) -> int {
    t.amount as int
}

/// What one transaction credits its recipient: the transferred amount.
pub open spec fn tx_credit(t: TransactionV) -> int {
    t.amount as int
}

/// Combined debits of a transaction list.
pub open spec fn sum_debits(ts: Seq<TransactionV>) -> int
    decreases ts.len(),
{
    if ts.len() == 0 {
        0
    } else {
        tx_debit(ts[0]) + sum_debits(ts.drop_first())
    }
}

/// Combined credits of a transaction list.
pub open spec fn sum_credits(ts: Seq<TransactionV>) -> int
    decreases ts.len(),
{
    if ts.len() == 0 {
        0
    } else {
        tx_credit(ts[0]) + sum_credits(ts.drop_first())
    }
}

/// Balance conservation, first half: among a block's non-reward transactions,
/// the sum of all debits equals the sum of all credits — each transfer moves
/// value, never makes it.
pub proof fn lemma_block_debits_equal_credits(b: BlockV)
    requires
        b.transaction.len() >= 1,
    ensures
        sum_debits(b.transaction.drop_first()) == sum_credits(b.transaction.drop_first()),
{
    lemma_sums_agree(b.transaction.drop_first());
}

/// Debits and credits agree on every transaction list.
proof fn lemma_sums_agree(ts: Seq<TransactionV>)
    ensures
        sum_debits(ts) == sum_credits(ts),
    decreases ts.len(),
{
    if ts.len() > 0 {
        lemma_sums_agree(ts.drop_first());
    }
}

/// Applying transactions whose senders and recipients are all registered
/// moves value around but conserves the table's total balance.
pub proof fn lemma_apply_txs_conserve(users: Seq<UserV>, ts: Seq<TransactionV>)
    requires
        apply_txs(users, ts) is Some,
        forall|i: int|
            0 <= i < ts.len() ==> has_user(users, (#[trigger] ts[i]).sender) && has_user(
                users,
                ts[i].recipient,
            ),
    ensures
        total_balance(apply_txs(users, ts).unwrap()) == total_balance(users),
    decreases ts.len(),
{
    if ts.len() > 0 {
        let u1 = apply_tx(users, ts[0]).unwrap();
        lemma_apply_tx_total(users, ts[0]);
        lemma_apply_tx_same_identities(users, ts[0]);
        assert forall|i: int|
            0 <= i < ts.drop_first().len() implies has_user(
            u1,
            (#[trigger] ts.drop_first()[i]).sender,
        ) && has_user(u1, ts.drop_first()[i].recipient) by {
            assert(ts.drop_first()[i] == ts[i + 1]);
            lemma_user_index_same_identities(users, u1, ts[i + 1].sender);
            lemma_user_index_same_identities(users, u1, ts[i + 1].recipient);
        }
        lemma_apply_txs_conserve(u1, ts.drop_first());
    }
}

/// Balance conservation, second half: applying a sealed block whose reward
/// transaction credits a registered account and whose other transactions move
/// value between registered accounts raises the total balance by exactly the
/// fixed block reward — the reward transaction is the sole source of net new
/// value.
pub proof fn lemma_balance_conservation(users: Seq<UserV>, b: BlockV)
    requires
        users_wf(users),
        b.transaction.len() >= 1,
        b.transaction[0] == reward_tx(b.transaction[0].recipient),
        has_user(users, b.transaction[0].recipient),
        forall|i: int|
            1 <= i < b.transaction.len() ==> has_user(users, (#[trigger] b.transaction[i]).sender)
                && has_user(users, b.transaction[i].recipient),
        apply_txs(users, b.transaction) is Some,
    ensures
        total_balance(apply_txs(users, b.transaction).unwrap()) == total_balance(users)
            + BLOCK_REWARD,
{
    let ts = b.transaction;
    let rt = ts[0];
    lemma_user_index_props(users, system_handle());
    assert(user_index(users, system_handle()) == -1) by {
        if user_index(users, system_handle()) >= 0 {
            assert(users[user_index(users, system_handle())].email == system_handle());
        }
    }
    let u1 = apply_tx(users, rt).unwrap();
    lemma_apply_tx_total(users, rt);
    assert(total_balance(u1) == total_balance(users) + BLOCK_REWARD);
    lemma_apply_tx_same_identities(users, rt);
    assert forall|i: int|
        0 <= i < ts.drop_first().len() implies has_user(
        u1,
        (#[trigger] ts.drop_first()[i]).sender,
    ) && has_user(u1, ts.drop_first()[i].recipient) by {
        assert(ts.drop_first()[i] == ts[i + 1]);
        lemma_user_index_same_identities(users, u1, ts[i + 1].sender);
        lemma_user_index_same_identities(users, u1, ts[i + 1].recipient);
    }
    lemma_apply_txs_conserve(u1, ts.drop_first());
}

/// Every transaction the pool filter lets through passes the signature check.
proof fn lemma_valid_txs_all_valid(users: Seq<UserV>, ts: Seq<TransactionV>)
    ensures
        forall|j: int|
            0 <= j < valid_txs(users, ts).len() ==> tx_valid(
                users,
                #[trigger] valid_txs(users, ts)[j],
            ),
    decreases ts.len(),
{
    if ts.len() > 0 {
        lemma_valid_txs_all_valid(users, ts.drop_first());
        if tx_valid(users, ts[0]) {
            assert forall|j: int| 0 <= j < valid_txs(users, ts).len() implies tx_valid(
                users,
                #[trigger] valid_txs(users, ts)[j],
            ) by {
                if j > 0 {
                    assert(valid_txs(users, ts)[j] == valid_txs(users, ts.drop_first())[j - 1]);
                }
            }
        }
    }
}

/// The pool filter keeps only pool entries, so their recipients stay
/// registered.
proof fn lemma_valid_txs_recipients(users: Seq<UserV>, ts: Seq<TransactionV>)
    requires
        forall|k: int| 0 <= k < ts.len() ==> has_user(users, (#[trigger] ts[k]).recipient),
    ensures
        forall|j: int|
            0 <= j < valid_txs(users, ts).len() ==> has_user(
                users,
                (#[trigger] valid_txs(users, ts)[j]).recipient,
            ),
    decreases ts.len(),
{
    if ts.len() > 0 {
        assert forall|k: int| 0 <= k < ts.drop_first().len() implies has_user(
            users,
            (#[trigger] ts.drop_first()[k]).recipient,
        ) by {
            assert(ts.drop_first()[k] == ts[k + 1]);
        }
        lemma_valid_txs_recipients(users, ts.drop_first());
        if tx_valid(users, ts[0]) {
            assert forall|j: int| 0 <= j < valid_txs(users, ts).len() implies has_user(
                users,
                (#[trigger] valid_txs(users, ts)[j]).recipient,
            ) by {
                if j > 0 {
                    assert(valid_txs(users, ts)[j] == valid_txs(users, ts.drop_first())[j - 1]);
                }
            }
        }
    }
}

/// Balance conservation across sealing, from the contracts alone: whenever a
/// sealing attempt on a well-formed ledger reports success, the combined
/// balance of all accounts rises by exactly the fixed block reward.
pub proof fn lemma_generate_block_conserves(pre: ChainV, post: ChainV)
    requires
        pre.wf(),
        generate_post(pre, post, true),
    ensures
        total_balance(post.users) == total_balance(pre.users) + BLOCK_REWARD,
{
    let b = post.chain.last();
    assert(sealed_block_ok(pre, b));
    let recipient = b.transaction[0].recipient;
    match b.header.proof {
        SealProofV::Work { .. } => {},
        SealProofV::Stake { selected_user, validator } => {
            let vi = choose|vi: int|
                0 <= vi < pre.users.len() && (#[trigger] pre.users[vi]).id == selected_user
                    && pre.users[vi].public_key == validator && pre.users[vi].balance > 0
                    && recipient == pre.users[vi].email;
            lemma_user_index_props(pre.users, recipient);
        },
    }
    assert(has_user(pre.users, recipient));
    lemma_valid_txs_all_valid(pre.users, pre.curr_trans);
    lemma_valid_txs_recipients(pre.users, pre.curr_trans);
    assert forall|i: int|
        1 <= i < b.transaction.len() implies has_user(
        pre.users,
        (#[trigger] b.transaction[i]).sender,
    ) && has_user(pre.users, b.transaction[i].recipient) by {
        assert(b.transaction[i] == b.transaction.drop_first()[i - 1]);
        assert(tx_valid(pre.users, b.transaction[i]));
        lemma_user_index_props(pre.users, b.transaction[i].sender);
    }
    lemma_balance_conservation(pre.users, b);
}

/// Proof-of-stake sealing is owed success: with a nonempty pool, a free block
/// index, a combined stake the sampler can hold, and clean balance
/// application under every account the draw could pick, a sealing attempt
/// cannot report failure.
pub proof fn lemma_stake_seal_owed(pre: ChainV, post: ChainV, r: bool)
    requires
        generate_post(pre, post, r),
        pre.curr_trans.len() > 0,
        pre.chain.len() < u32::MAX,
        pre.strategy is ProofOfStake,
        0 < total_stake(pre.users) <= u64::MAX,
        forall|vi: int|
            0 <= vi < pre.users.len() && (#[trigger] pre.users[vi]).balance > 0 ==> apply_txs(
                pre.users,
                candidate_txs(pre, pre.users[vi].email),
            ) is Some,
    ensures
        r,
{
    if !r {
        assert(gen_fail(pre));
    }
}

/// Proof-of-work at difficulty zero seals at once: any hash meets an empty
/// target, so with a nonzero attempt budget, a registered miner, a nonempty
/// pool, a free index and clean balance application, a sealing attempt
/// cannot report failure.
pub proof fn lemma_pow_difficulty_zero_seals(pre: ChainV, post: ChainV, r: bool)
    requires
        generate_post(pre, post, r),
        pre.curr_trans.len() > 0,
        pre.chain.len() < u32::MAX,
        pre.strategy matches ConsensusStrategyV::ProofOfWork { difficulty, max_attempts, miner }
            && difficulty == 0 && max_attempts > 0 && has_user(pre.users, miner) && apply_txs(
            pre.users,
            candidate_txs(pre, miner),
        ) is Some,
    ensures
        r,
{
    if !r {
        assert(gen_fail(pre));
        match pre.strategy {
            ConsensusStrategyV::ProofOfWork { difficulty: d, max_attempts: m, miner: mi } => {
                let t = choose|t: u128| pow_search_fails(pre, t, d, m, mi);
                assert(pow_search_fails(pre, t, d, m, mi));
                let h = spec_sha256_hex(
                    spec_block_payload(
                        t,
                        spec_last_hash(pre.chain),
                        SealProofV::Work { nonce: 0u64, difficulty: d },
                        (pre.chain.len() + 1) as u32,
                        candidate_txs(pre, mi),
                    ),
                );
                assert(!pow_ok(h, d));
                assert(pow_ok(h, 0));
                assert(false);
            },
            ConsensusStrategyV::ProofOfStake => {},
        }
    }
}

/// Signature round trip: a transaction signed with a key whose public half is
/// the sender's registered key passes `verify_transaction`'s predicate. The
/// `ed25519_verifies` hypothesis is exactly what the signing wrapper's
/// contract supplies at every signing site.
pub proof fn lemma_signed_transaction_verifies(
    users: Seq<UserV>,
    sender: Seq<char>,
    recipient: Seq<char>,
    amount: u64,
    key: Seq<u8>,
)
    requires
        user_index(users, sender) >= 0,
        users[user_index(users, sender)].public_key == ed25519_public_of(key),
        ed25519_verifies(
            ed25519_public_of(key),
            spec_signing_payload(sender, recipient, amount),
            ed25519_signature_of(key, spec_signing_payload(sender, recipient, amount)),
        ),
    ensures
        tx_valid(users, signed_tx(sender, recipient, amount, key)),
{
}

} // verus!
