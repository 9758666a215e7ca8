//! The chain: owner of the sealed block sequence, the account table and the
//! pending-transaction pool. All balance mutation is routed through block
//! application, and every method states how it moves the chain's state.

use vstd::prelude::*;
use crate::types::{Block, BlockV, PohRecord, SealProof, SealProofV, Transaction, TransactionV,
    User, UserV, copy_bytes, has_user, lemma_user_index_props, system_handle, user_index,
    users_wf};
use crate::encode::{signing_payload, spec_signing_payload, block_payload, spec_block_payload};
use crate::crypto::{ed25519_sign, ed25519_signature_of, ed25519_public_of, ed25519_valid_pkcs8,
    ed25519_verifies, ed25519_verify, sha256_hex, spec_sha256_hex};
use crate::balances::{apply_transactions, apply_txs, find_index, same_identities,
    lemma_apply_txs_same_identities};
use crate::consensus::{ConsensusStrategy, ConsensusStrategyV, pow_ok, seal_pow, select_validator,
    total_stake};
use crate::BLOCK_REWARD;

verus! {

/// The ledger: sealed blocks, the pending pool, the account table, the
/// chain-owned id counter, and the sealing policy chosen at construction.
pub struct Chain {
    pub chain: Vec<Block>,
    pub curr_trans: Vec<Transaction>,
    pub users: Vec<User>,
    pub next_id: usize,
    pub strategy: ConsensusStrategy,
    pub eager_seal: bool,
}

/// Mathematical model of the whole ledger state.
pub ghost struct ChainV {
    pub chain: Seq<BlockV>,
    pub curr_trans: Seq<TransactionV>,
    pub users: Seq<UserV>,
    pub next_id: usize,
    pub strategy: ConsensusStrategyV,
    pub eager_seal: bool,
}

impl View for Chain {
    type V = ChainV;

    open spec fn view(&self) -> ChainV {
        ChainV {
            chain: self.chain.deep_view(),
            curr_trans: self.curr_trans.deep_view(),
            users: self.users.deep_view(),
            next_id: self.next_id,
            strategy: self.strategy@,
            eager_seal: self.eager_seal,
        }
    }
}

/// The fixed sentinel standing in for a genesis predecessor's hash: 64 zero
/// characters.
pub open spec fn genesis_hash() -> Seq<char> {
    "0000000000000000000000000000000000000000000000000000000000000000"@
}

/// The hash a new block must chain to: the last block's, or the genesis
/// sentinel on an empty chain.
pub open spec fn spec_last_hash(blocks: Seq<BlockV>) -> Seq<char> {
    if blocks.len() == 0 {
        genesis_hash()
    } else {
        blocks.last().header.hash
    }
}

/// Every non-genesis block's `prev_hash` equals its predecessor's `hash`.
pub open spec fn blocks_linked(blocks: Seq<BlockV>) -> bool {
    forall|i: int|
        1 <= i < blocks.len() ==> (#[trigger] blocks[i]).header.prev_hash == blocks[
            i - 1
        ].header.hash
}

/// Well-formed block sequence: indices count up from one, the first block
/// chains to the genesis sentinel, and the links hold.
pub open spec fn blocks_wf(blocks: Seq<BlockV>) -> bool {
    &&& forall|i: int| 0 <= i < blocks.len() ==> (#[trigger] blocks[i]).index as int == i + 1
    &&& (blocks.len() > 0 ==> blocks[0].header.prev_hash == genesis_hash())
    &&& blocks_linked(blocks)
}

/// Whether `t`'s signature verifies against its sender's registered public
/// key over the canonical unsigned payload.
pub open spec fn tx_valid(users: Seq<UserV>, t: TransactionV) -> bool {
    let si = user_index(users, t.sender);
    si >= 0 && ed25519_verifies(
        users[si].public_key,
        spec_signing_payload(t.sender, t.recipient, t.amount),
        t.signature,
    )
}

/// The pool transactions that pass `tx_valid`, in pool order.
pub open spec fn valid_txs(users: Seq<UserV>, ts: Seq<TransactionV>) -> Seq<TransactionV>
    decreases ts.len(),
{
    if ts.len() == 0 {
        Seq::empty()
    } else if tx_valid(users, ts[0]) {
        seq![ts[0]] + valid_txs(users, ts.drop_first())
    } else {
        valid_txs(users, ts.drop_first())
    }
}

/// Extending the pool prefix keeps or appends the new transaction according
/// to its validity.
proof fn lemma_valid_txs_snoc(users: Seq<UserV>, ts: Seq<TransactionV>, k: int)
    requires
        0 <= k < ts.len(),
    ensures
        valid_txs(users, ts.take(k + 1)) == (if tx_valid(users, ts[k]) {
            valid_txs(users, ts.take(k)).push(ts[k])
        } else {
            valid_txs(users, ts.take(k))
        }),
    decreases k,
{
    if k == 0 {
        assert(ts.take(1)[0] == ts[0]);
        assert(ts.take(1).drop_first() =~= Seq::<TransactionV>::empty());
        assert(ts.take(0) =~= Seq::<TransactionV>::empty());
        if tx_valid(users, ts[0]) {
            assert(seq![ts[0]] + Seq::<TransactionV>::empty() =~= Seq::<
                TransactionV,
            >::empty().push(ts[0]));
        }
    } else {
        assert(ts.take(k + 1)[0] == ts[0]);
        assert(ts.take(k)[0] == ts[0]);
        assert(ts.take(k + 1).drop_first() =~= ts.drop_first().take(k));
        assert(ts.take(k).drop_first() =~= ts.drop_first().take(k - 1));
        lemma_valid_txs_snoc(users, ts.drop_first(), k - 1);
        assert(ts.drop_first()[k - 1] == ts[k]);
        if tx_valid(users, ts[0]) {
            if tx_valid(users, ts[k]) {
                assert(seq![ts[0]] + valid_txs(users, ts.drop_first().take(k - 1)).push(ts[k]) =~= (
                seq![ts[0]] + valid_txs(users, ts.drop_first().take(k - 1))).push(ts[k]));
            }
        }
    }
}

/// The transaction that signing (sender, recipient, amount) with `key`
/// produces: the canonical unsigned payload's signature fills the signature
/// field.
pub open spec fn signed_tx(
    sender: Seq<char>,
    recipient: Seq<char>,
    amount: u64,
    key: Seq<u8>,
) -> TransactionV {
    TransactionV {
        sender,
        recipient,
        amount,
        signature: ed25519_signature_of(key, spec_signing_payload(sender, recipient, amount)),
    }
}

/// The reward transaction crediting `recipient`: sent by the reserved system
/// identity, for the fixed block reward, unsigned.
pub open spec fn reward_tx(recipient: Seq<char>) -> TransactionV {
    TransactionV {
        sender: system_handle(),
        recipient,
        amount: BLOCK_REWARD,
        signature: Seq::empty(),
    }
}

/// The transaction list a block sealed against `pre` carries when it rewards
/// `recipient`: the reward first, then the valid pool entries.
pub open spec fn candidate_txs(pre: ChainV, recipient: Seq<char>) -> Seq<TransactionV> {
    seq![reward_tx(recipient)] + valid_txs(pre.users, pre.curr_trans)
}

/// What a freshly sealed block owes to the state it was sealed against:
/// the next index, the chain link, the reward transaction at the front,
/// exactly the valid pool transactions behind it, a content hash over the
/// whole payload, and proof data matching the chain's strategy — with the
/// reward recipient a registered account under either strategy.
pub open spec fn sealed_block_ok(pre: ChainV, b: BlockV) -> bool {
    &&& b.index as int == pre.chain.len() + 1
    &&& b.header.prev_hash == spec_last_hash(pre.chain)
    &&& b.transaction.len() >= 1
    &&& b.transaction[0] == reward_tx(b.transaction[0].recipient)
    &&& b.transaction.drop_first() == valid_txs(pre.users, pre.curr_trans)
    &&& b.header.hash == spec_sha256_hex(
        spec_block_payload(b.header.time, b.header.prev_hash, b.header.proof, b.index, b.transaction),
    )
    &&& match b.header.proof {
        SealProofV::Work { nonce, difficulty } => {
            &&& pre.strategy matches ConsensusStrategyV::ProofOfWork {
                difficulty: d,
                miner,
                ..
            } && difficulty == d && b.transaction[0].recipient == miner && has_user(
                pre.users,
                miner,
            )
            &&& pow_ok(b.header.hash, difficulty)
        },
        SealProofV::Stake { selected_user, validator } => {
            &&& pre.strategy is ProofOfStake
            &&& exists|vi: int|
                0 <= vi < pre.users.len() && (#[trigger] pre.users[vi]).id == selected_user
                    && pre.users[vi].public_key == validator && pre.users[vi].balance > 0
                    && b.transaction[0].recipient == pre.users[vi].email
        },
    }
}

/// No nonce within the attempt budget makes the candidate block's hash meet
/// the difficulty, at the one timestamp `t` the search ran with.
pub open spec fn pow_search_fails(
    pre: ChainV,
    t: u128,
    difficulty: usize,
    max_attempts: u64,
    miner: Seq<char>,
) -> bool {
    forall|n: u64|
        n < max_attempts ==> !pow_ok(
            spec_sha256_hex(
                spec_block_payload(
                    t,
                    spec_last_hash(pre.chain),
                    SealProofV::Work { nonce: n, difficulty },
                    (pre.chain.len() + 1) as u32,
                    candidate_txs(pre, miner),
                ),
            ),
            difficulty,
        )
}

/// The causes a sealing attempt can fail for; `generate_block` reports
/// failure only when one of them holds. The validator draw and the clock are
/// not functions of the state, so those two causes speak of some drawn
/// account or some timestamp.
pub open spec fn gen_fail(pre: ChainV) -> bool {
    ||| pre.curr_trans.len() == 0
    ||| pre.chain.len() >= u32::MAX
    ||| match pre.strategy {
        ConsensusStrategyV::ProofOfStake => {
            ||| !(0 < total_stake(pre.users) <= u64::MAX)
            ||| exists|vi: int|
                0 <= vi < pre.users.len() && (#[trigger] pre.users[vi]).balance > 0 && apply_txs(
                    pre.users,
                    candidate_txs(pre, pre.users[vi].email),
                ) is None
        },
        ConsensusStrategyV::ProofOfWork { difficulty, max_attempts, miner } => {
            ||| !has_user(pre.users, miner)
            ||| exists|t: u128| pow_search_fails(pre, t, difficulty, max_attempts, miner)
            ||| apply_txs(pre.users, candidate_txs(pre, miner)) is None
        },
    }
}

/// How one sealing attempt moves the ledger: on failure nothing changes and
/// one of the `gen_fail` causes holds — so success is owed whenever none can
/// hold; on success exactly one sealed block is appended, its transactions
/// are applied to the balances, and the pool is cleared.
pub open spec fn generate_post(pre: ChainV, post: ChainV, r: bool) -> bool {
    &&& post.next_id == pre.next_id
    &&& post.strategy == pre.strategy
    &&& post.eager_seal == pre.eager_seal
    &&& (!r ==> post == pre && gen_fail(pre))
    &&& (pre.curr_trans.len() == 0 ==> !r)
    &&& (r ==> {
        &&& pre.curr_trans.len() > 0
        &&& post.chain.len() == pre.chain.len() + 1
        &&& post.chain == pre.chain.push(post.chain.last())
        &&& sealed_block_ok(pre, post.chain.last())
        &&& Some(post.users) == apply_txs(pre.users, post.chain.last().transaction)
        &&& post.curr_trans.len() == 0
    })
}

impl ChainV {
    /// The ledger's invariant: a well-formed account table whose ids stay
    /// below the id counter, a well-formed block sequence, and a pool whose
    /// recipients are all registered (admission guarantees it, and balance
    /// conservation across a sealed block rests on it).
    pub open spec fn wf(self) -> bool {
        &&& users_wf(self.users)
        &&& forall|i: int| 0 <= i < self.users.len() ==> (#[trigger] self.users[i]).id < self.next_id
        &&& blocks_wf(self.chain)
        &&& forall|i: int|
            0 <= i < self.curr_trans.len() ==> has_user(
                self.users,
                (#[trigger] self.curr_trans[i]).recipient,
            )
    }
}

/// Registration under one more account keeps every handle registered.
pub proof fn lemma_has_user_push(users: Seq<UserV>, u: UserV, email: Seq<char>)
    requires
        has_user(users, email),
    ensures
        has_user(users.push(u), email),
{
    lemma_user_index_props(users, email);
    let j = user_index(users, email);
    lemma_user_index_props(users.push(u), email);
    assert(users.push(u)[j] == users[j]);
}

/// Only balances changed: the table stays well-formed and every id stays put.
proof fn lemma_users_wf_same_identities(a: Seq<UserV>, b: Seq<UserV>)
    requires
        users_wf(a),
        same_identities(a, b),
    ensures
        users_wf(b),
        forall|i: int| 0 <= i < b.len() ==> (#[trigger] b[i]).id == a[i].id,
{
    assert forall|i: int| 0 <= i < b.len() implies (#[trigger] b[i]).id == a[i].id
        && b[i].email == a[i].email by {
        assert(a[i] == (UserV { balance: a[i].balance, ..b[i] }));
    }
}

/// A sealed block's indices and links extend a well-formed block sequence.
proof fn lemma_blocks_wf_push(blocks: Seq<BlockV>, b: BlockV)
    requires
        blocks_wf(blocks),
        b.index as int == blocks.len() + 1,
        b.header.prev_hash == spec_last_hash(blocks),
    ensures
        blocks_wf(blocks.push(b)),
{
    let p = blocks.push(b);
    assert forall|i: int| 0 <= i < p.len() implies (#[trigger] p[i]).index as int == i + 1 by {
        if i < blocks.len() {
            assert(p[i] == blocks[i]);
        } else {
            assert(p[i] == b);
        }
    }
    assert forall|i: int| 1 <= i < p.len() implies (#[trigger] p[i]).header.prev_hash == p[
        i - 1
    ].header.hash by {
        if i < blocks.len() {
            assert(p[i] == blocks[i]);
            assert(p[i - 1] == blocks[i - 1]);
        } else {
            assert(p[i] == b);
            assert(p[i - 1] == blocks[i - 1]);
            assert(blocks[i - 1] == blocks.last());
        }
    }
    if p.len() > 0 {
        if blocks.len() == 0 {
            assert(p[0] == b);
        } else {
            assert(p[0] == blocks[0]);
        }
    }
}

/// Builds a signed transaction in one step, so no half-built transaction with
/// an empty signature escapes: the canonical unsigned payload is signed with
/// `signing_key`, which fails only on a malformed key document.
pub fn sign_transaction(
    sender: String,
    recipient: String,
    amount: u64,
    signing_key: &Vec<u8>,
) -> (r: Option<Transaction>)
    ensures
        r is Some <==> ed25519_valid_pkcs8(signing_key@),
        r matches Some(t) ==> t@ == (TransactionV {
            sender: sender@,
            recipient: recipient@,
            amount,
            signature: ed25519_signature_of(
                signing_key@,
                spec_signing_payload(sender@, recipient@, amount),
            ),
        }) && ed25519_verifies(
            ed25519_public_of(signing_key@),
            spec_signing_payload(sender@, recipient@, amount),
            t@.signature,
        ),
{
    let payload = signing_payload(sender.as_str(), recipient.as_str(), amount);
    match ed25519_sign(signing_key, &payload) {
        Some(signature) => Some(Transaction { sender, recipient, amount, signature }),
        None => None,
    }
}

impl Chain {
    /// An empty ledger sealing eagerly under proof-of-stake, as a plain
    /// `new` chain behaves.
    pub fn new() -> (r: Chain)
        ensures
            r@.wf(),
            r@.chain.len() == 0,
            r@.curr_trans.len() == 0,
            r@.users.len() == 0,
            r@.next_id == 1,
            r@.strategy is ProofOfStake,
            r@.eager_seal,
    {
        Chain::new_with(ConsensusStrategy::ProofOfStake, true)
    }

    /// An empty ledger under the given consensus strategy; `eager_seal`
    /// chooses between sealing a block on every accepted submission and
    /// sealing only when `generate_block` is called.
    pub fn new_with(strategy: ConsensusStrategy, eager_seal: bool) -> (r: Chain)
        ensures
            r@.wf(),
            r@.chain.len() == 0,
            r@.curr_trans.len() == 0,
            r@.users.len() == 0,
            r@.next_id == 1,
            r@.strategy == strategy@,
            r@.eager_seal == eager_seal,
    {
        let c = Chain {
            chain: Vec::new(),
            curr_trans: Vec::new(),
            users: Vec::new(),
            next_id: 1,
            strategy,
            eager_seal,
        };
        proof {
            assert(c@.chain =~= Seq::<BlockV>::empty());
            assert(c@.curr_trans =~= Seq::<TransactionV>::empty());
            assert(c@.users =~= Seq::<UserV>::empty());
        }
        c
    }

    /// Registers an account under a fresh id. Fails, changing nothing, when
    /// the handle is already taken, is the reserved system handle, or the id
    /// counter is spent; otherwise returns the new id.
    pub fn create_user(
        &mut self,
        email: String,
        username: String,
        password: String,
        balance: i64,
        public_key_bytes: Vec<u8>,
    ) -> (r: Option<usize>)
        requires
            old(self)@.wf(),
        ensures
            final(self)@.wf(),
            r is Some <==> (!has_user(old(self)@.users, email@) && email@ != system_handle()
                && old(self)@.next_id < usize::MAX),
            r matches Some(id) ==> id == old(self)@.next_id && final(self)@ == (ChainV {
                users: old(self)@.users.push(
                    UserV {
                        id,
                        email: email@,
                        username: username@,
                        password: password@,
                        balance,
                        public_key: public_key_bytes@,
                    },
                ),
                next_id: (old(self)@.next_id + 1) as usize,
                ..old(self)@
            }),
            r is None ==> final(self)@ == old(self)@,
    {
        let ghost pre = self@;
        let sys = String::from_str("system");
        if email == sys {
            return None;
        }
        if self.next_id == usize::MAX {
            return None;
        }
        match find_index(&self.users, &email) {
            Some(_) => {
                proof {
                    lemma_user_index_props(pre.users, email@);
                }
                None
            },
            None => {
                let id = self.next_id;
                let u = User { id, email, username, password, balance, public_key: public_key_bytes };
                let ghost uv = u@;
                self.users.push(u);
                self.next_id = id + 1;
                proof {
                    assert(self.users.deep_view() =~= pre.users.push(uv));
                    assert forall|i: int, j: int|
                        0 <= i < j < self@.users.len() implies self@.users[i].email
                        != self@.users[j].email by {
                        if j == pre.users.len() as int {
                            lemma_user_index_props(pre.users, uv.email);
                        }
                    }
                    assert forall|i: int, j: int|
                        0 <= i < j < self@.users.len() implies self@.users[i].id
                        != self@.users[j].id by {}
                    assert forall|i: int|
                        0 <= i < self@.curr_trans.len() implies has_user(
                        self@.users,
                        (#[trigger] self@.curr_trans[i]).recipient,
                    ) by {
                        assert(pre.curr_trans[i] == self@.curr_trans[i]);
                        lemma_has_user_push(pre.users, uv, pre.curr_trans[i].recipient);
                    }
                }
                Some(id)
            },
        }
    }

    /// The hash the next block must chain to: the last sealed block's hash,
    /// or the 64-zero genesis sentinel while the chain is empty.
    pub fn last_hash(&self) -> (r: String)
        ensures
            r@ == spec_last_hash(self@.chain),
    {
        let n = self.chain.len();
        if n == 0 {
            String::from_str("0000000000000000000000000000000000000000000000000000000000000000")
        } else {
            let b = &self.chain[n - 1];
            proof {
                assert(self@.chain[n - 1] == self.chain@[n - 1]@);
            }
            b.header.hash.clone()
        }
    }

    /// Whether `transaction`'s signature verifies against its sender's
    /// registered public key over the canonical unsigned payload; false when
    /// the sender is unknown.
    pub fn verify_transaction(&self, transaction: &Transaction) -> (r: bool)
        ensures
            r == tx_valid(self@.users, transaction@),
    {
        match find_index(&self.users, &transaction.sender) {
            Some(i) => {
                let payload = signing_payload(
                    transaction.sender.as_str(),
                    transaction.recipient.as_str(),
                    transaction.amount,
                );
                proof {
                    assert(self@.users[i as int] == self.users@[i as int]@);
                }
                ed25519_verify(&self.users[i].public_key, &payload, &transaction.signature)
            },
            None => false,
        }
    }

    /// Applies every transaction of `block` to the account table, debiting
    /// senders and crediting recipients; on a balance-range failure nothing
    /// changes.
    pub fn update_balances(&mut self, block: &Block) -> (ok: bool)
        ensures
            ok == (apply_txs(old(self)@.users, block@.transaction) is Some),
            ok ==> final(self)@ == (ChainV {
                users: apply_txs(old(self)@.users, block@.transaction).unwrap(),
                ..old(self)@
            }),
            !ok ==> final(self)@ == old(self)@,
    {
        match apply_transactions(&self.users, &block.transaction) {
            Some(new_users) => {
                self.users = new_users;
                true
            },
            None => false,
        }
    }

    /// The block sealed with `index`, if any.
    pub fn find_transaction(&self, index: u32) -> (r: Option<&Block>)
        ensures
            match r {
                Some(b) => exists|i: int|
                    0 <= i < self@.chain.len() && (#[trigger] self@.chain[i]) == b@ && b@.index
                        == index,
                None => forall|i: int|
                    0 <= i < self@.chain.len() ==> (#[trigger] self@.chain[i]).index != index,
            },
    {
        let n = self.chain.len();
        for i in 0..n
            invariant
                n == self.chain@.len(),
                forall|j: int| 0 <= j < i ==> (#[trigger] self@.chain[j]).index != index,
        {
            proof {
                assert(self@.chain[i as int] == self.chain@[i as int]@);
            }
            if self.chain[i].index == index {
                return Some(&self.chain[i]);
            }
        }
        None
    }

    /// The account registered under `id`, if any.
    pub fn find_user_by_id(&self, id: usize) -> (r: Option<&User>)
        ensures
            match r {
                Some(u) => exists|i: int|
                    0 <= i < self@.users.len() && (#[trigger] self@.users[i]) == u@ && u@.id == id,
                None => forall|i: int|
                    0 <= i < self@.users.len() ==> (#[trigger] self@.users[i]).id != id,
            },
    {
        let n = self.users.len();
        for i in 0..n
            invariant
                n == self.users@.len(),
                forall|j: int| 0 <= j < i ==> (#[trigger] self@.users[j]).id != id,
        {
            proof {
                assert(self@.users[i as int] == self.users@[i as int]@);
            }
            if self.users[i].id == id {
                return Some(&self.users[i]);
            }
        }
        None
    }

    /// The candidate transaction list for a block rewarding
    /// `reward_recipient`: the reward transaction first, then every pool
    /// entry whose signature verifies.
    fn collect_candidate_txs(&self, reward_recipient: String) -> (r: Vec<Transaction>)
        ensures
            r.deep_view() == candidate_txs(self@, reward_recipient@),
    {
        let ghost pre = self@;
        let ghost recip_v = reward_recipient@;
        let mut txs: Vec<Transaction> = Vec::new();
        let reward = Transaction {
            sender: String::from_str("system"),
            recipient: reward_recipient,
            amount: BLOCK_REWARD,
            signature: Vec::new(),
        };
        let ghost reward_v = reward@;
        txs.push(reward);
        proof {
            assert(reward_v == reward_tx(recip_v));
            assert(txs.deep_view() =~= seq![reward_v]);
        }
        let m = self.curr_trans.len();
        for k in 0..m
            invariant
                self@ == pre,
                m == self.curr_trans@.len(),
                txs.deep_view().len() >= 1,
                txs.deep_view()[0] == reward_v,
                txs.deep_view().drop_first() =~= valid_txs(
                    pre.users,
                    pre.curr_trans.take(k as int),
                ),
        {
            proof {
                assert(pre.curr_trans[k as int] == self.curr_trans@[k as int]@);
                lemma_valid_txs_snoc(pre.users, pre.curr_trans, k as int);
            }
            let candidate = &self.curr_trans[k];
            if self.verify_transaction(candidate) {
                let ghost tv = candidate@;
                txs.push(candidate.duplicate());
                proof {
                    assert(txs.deep_view().last() == tv);
                    assert(txs.deep_view().drop_first() =~= valid_txs(
                        pre.users,
                        pre.curr_trans.take(k + 1),
                    ));
                }
            }
        }
        proof {
            assert(pre.curr_trans.take(m as int) =~= pre.curr_trans);
            assert(txs.deep_view() =~= candidate_txs(pre, recip_v));
        }
        txs
    }

    /// Appends the sealed block, commits the applied balances, and clears the
    /// pool — the final step of a successful sealing attempt.
    fn commit_block(&mut self, block: Block, new_users: Vec<User>)
        requires
            old(self)@.wf(),
            block@.index as int == old(self)@.chain.len() + 1,
            block@.header.prev_hash == spec_last_hash(old(self)@.chain),
            sealed_block_ok(old(self)@, block@),
            apply_txs(old(self)@.users, block@.transaction) == Some(new_users.deep_view()),
        ensures
            final(self)@.wf(),
            final(self)@ == (ChainV {
                chain: old(self)@.chain.push(block@),
                curr_trans: Seq::<TransactionV>::empty(),
                users: new_users.deep_view(),
                ..old(self)@
            }),
    {
        let ghost pre = self@;
        let ghost bv = block@;
        self.users = new_users;
        self.chain.push(block);
        self.curr_trans.clear();
        proof {
            assert(self.chain.deep_view() =~= pre.chain.push(bv));
            assert(self@.curr_trans =~= Seq::<TransactionV>::empty());
            lemma_apply_txs_same_identities(pre.users, bv.transaction);
            lemma_users_wf_same_identities(pre.users, self@.users);
            lemma_blocks_wf_push(pre.chain, bv);
        }
    }

    /// Seals the pending pool into a new block: a reward transaction for the
    /// miner or validator, followed by every pool transaction whose signature
    /// verifies, hash-chained onto the last block, with balances applied and
    /// the pool cleared — all or nothing. Reports failure, changing nothing,
    /// exactly for a `gen_fail` cause: an empty pool, a spent index range, a
    /// failed validator selection, an unregistered miner handle, an exhausted
    /// nonce search, or a balance out of range.
    #[verifier::rlimit(100)]
    pub fn generate_block(&mut self) -> (r: bool)
        requires
            old(self)@.wf(),
        ensures
            final(self)@.wf(),
            generate_post(old(self)@, final(self)@, r),
    {
        let ghost pre = self@;
        if self.curr_trans.is_empty() {
            return false;
        }
        if self.chain.len() >= u32::MAX as usize {
            return false;
        }
        let index: u32 = (self.chain.len() as u32) + 1;
        let time: u128 = crate::clock::now_millis();
        let prev = self.last_hash();
        // Pull the proof-of-work parameters out, or none under proof-of-stake.
        let pow: Option<(usize, u64, String)> = match &self.strategy {
            ConsensusStrategy::ProofOfWork { difficulty, max_attempts, miner } => Some(
                (*difficulty, *max_attempts, miner.clone()),
            ),
            ConsensusStrategy::ProofOfStake => None,
        };
        match pow {
            None => {
                // Proof-of-stake: fix the validator before anything is hashed.
                let vi = match select_validator(&self.users) {
                    Ok(v) => v,
                    Err(_) => {
                        return false;
                    },
                };
                proof {
                    assert(self@.users[vi as int] == self.users@[vi as int]@);
                }
                let recipient = self.users[vi].email.clone();
                let ghost recip_v = recipient@;
                let txs = self.collect_candidate_txs(recipient);
                let sp = SealProof::Stake {
                    selected_user: self.users[vi].id,
                    validator: copy_bytes(&self.users[vi].public_key),
                };
                let payload = block_payload(time, prev.as_str(), &sp, index, &txs);
                let hash = sha256_hex(&payload);
                let new_users = match apply_transactions(&self.users, &txs) {
                    Some(v) => v,
                    None => {
                        proof {
                            assert(pre.users[vi as int].balance > 0 && apply_txs(
                                pre.users,
                                candidate_txs(pre, pre.users[vi as int].email),
                            ) is None);
                            assert(gen_fail(pre));
                        }
                        return false;
                    },
                };
                let block = Block {
                    header: PohRecord { time, prev_hash: prev, hash, proof: sp },
                    index,
                    transaction: txs,
                };
                proof {
                    assert(block@.transaction.drop_first() =~= valid_txs(pre.users, pre.curr_trans));
                    assert(block@.transaction[0] == reward_tx(block@.transaction[0].recipient));
                    assert(sealed_block_ok(pre, block@));
                }
                self.commit_block(block, new_users);
                proof {
                    assert(generate_post(pre, self@, true));
                }
                true
            },
            Some((difficulty, max_attempts, miner)) => {
                proof {
                    assert(pre.strategy == (ConsensusStrategyV::ProofOfWork {
                        difficulty,
                        max_attempts,
                        miner: miner@,
                    }));
                }
                // The reward must land on a registered account.
                match find_index(&self.users, &miner) {
                    Some(_) => {},
                    None => {
                        return false;
                    },
                }
                let ghost recip_v = miner@;
                let txs = self.collect_candidate_txs(miner);
                let sealed = match seal_pow(time, &prev, index, &txs, difficulty, max_attempts) {
                    Ok(p) => p,
                    Err(_) => {
                        proof {
                            assert(pow_search_fails(pre, time, difficulty, max_attempts, recip_v));
                            match pre.strategy {
                                ConsensusStrategyV::ProofOfWork {
                                    difficulty: d2,
                                    max_attempts: m2,
                                    miner: mi2,
                                } => {
                                    assert(pow_search_fails(pre, time, d2, m2, mi2));
                                    assert(exists|t: u128| pow_search_fails(pre, t, d2, m2, mi2));
                                },
                                ConsensusStrategyV::ProofOfStake => {
                                    assert(false);
                                },
                            }
                            assert(gen_fail(pre));
                        }
                        return false;
                    },
                };
                let (nonce, hash) = sealed;
                let sp = SealProof::Work { nonce, difficulty };
                let new_users = match apply_transactions(&self.users, &txs) {
                    Some(v) => v,
                    None => {
                        proof {
                            assert(apply_txs(pre.users, candidate_txs(pre, recip_v)) is None);
                            assert(gen_fail(pre));
                        }
                        return false;
                    },
                };
                let block = Block {
                    header: PohRecord { time, prev_hash: prev, hash, proof: sp },
                    index,
                    transaction: txs,
                };
                proof {
                    assert(block@.transaction.drop_first() =~= valid_txs(pre.users, pre.curr_trans));
                    assert(block@.transaction[0] == reward_tx(block@.transaction[0].recipient));
                    assert(sealed_block_ok(pre, block@));
                }
                self.commit_block(block, new_users);
                proof {
                    assert(generate_post(pre, self@, true));
                }
                true
            },
        }
    }

    /// Builds, signs and submits a value transfer. Succeeds exactly when the
    /// sender is registered with a balance covering the amount, the recipient
    /// is registered, and the signing key document is well-formed; the signed
    /// transaction then enters the pool and, under eager sealing, one sealing
    /// attempt runs. On failure nothing changes.
    pub fn new_transaction(
        &mut self,
        sender: String,
        recipient: String,
        amount: u64,
        signing_key: &Vec<u8>,
    ) -> (r: bool)
        requires
            old(self)@.wf(),
        ensures
            final(self)@.wf(),
            r == ({
                let si = user_index(old(self)@.users, sender@);
                &&& si >= 0
                &&& old(self)@.users[si].balance >= amount
                &&& has_user(old(self)@.users, recipient@)
                &&& ed25519_valid_pkcs8(signing_key@)
            }),
            !r ==> final(self)@ == old(self)@,
            r ==> ({
                let t = signed_tx(sender@, recipient@, amount, signing_key@);
                let mid = ChainV { curr_trans: old(self)@.curr_trans.push(t), ..old(self)@ };
                &&& (!old(self)@.eager_seal ==> final(self)@ == mid)
                &&& (old(self)@.eager_seal ==> exists|gb: bool| generate_post(mid, final(self)@, gb))
                &&& (old(self)@.users[user_index(old(self)@.users, sender@)].public_key
                    == ed25519_public_of(signing_key@) ==> tx_valid(old(self)@.users, t))
            }),
    {
        let ghost pre = self@;
        let si = match find_index(&self.users, &sender) {
            Some(i) => i,
            None => {
                return false;
            },
        };
        proof {
            assert(self@.users[si as int] == self.users@[si as int]@);
        }
        if amount > i64::MAX as u64 || self.users[si].balance < amount as i64 {
            return false;
        }
        if find_index(&self.users, &recipient).is_none() {
            return false;
        }
        let ghost sender_v = sender@;
        let ghost recipient_v = recipient@;
        let t = match sign_transaction(sender, recipient, amount, signing_key) {
            Some(t) => t,
            None => {
                return false;
            },
        };
        let ghost tv = t@;
        self.curr_trans.push(t);
        proof {
            assert(self.curr_trans.deep_view() =~= pre.curr_trans.push(tv));
            assert(tv == signed_tx(sender_v, recipient_v, amount, signing_key@));
        }
        let ghost mid = self@;
        if self.eager_seal {
            let gb = self.generate_block();
            proof {
                assert(generate_post(mid, self@, gb));
            }
        }
        true
    }

    /// Walks the sealed sequence and reports whether every adjacent pair is
    /// hash-linked; an empty or single-block chain is vacuously valid.
    pub fn is_chain_valid(&self) -> (r: bool)
        ensures
            r == blocks_linked(self@.chain),
    {
        let n = self.chain.len();
        if n == 0 {
            return true;
        }
        for i in 1..n
            invariant
                n == self.chain@.len(),
                forall|j: int|
                    1 <= j < i ==> (#[trigger] self@.chain[j]).header.prev_hash == self@.chain[
                        j - 1
                    ].header.hash,
        {
            proof {
                assert(self@.chain[i as int] == self.chain@[i as int]@);
                assert(self@.chain[i - 1] == self.chain@[i - 1]@);
            }
            if self.chain[i].header.prev_hash != self.chain[i - 1].header.hash {
                proof {
                    if blocks_linked(self@.chain) {
                        assert(self@.chain[i as int].header.prev_hash == self@.chain[
                            i - 1
                        ].header.hash);
                        assert(false);
                    }
                }
                return false;
            }
        }
        true
    }
}

} // verus!
