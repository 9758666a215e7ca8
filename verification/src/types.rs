//! Ledger entities: accounts, transactions, block headers and blocks,
//! their ghost views, and the spec-level account-table model that the
//! contracts throughout the crate are stated over.

use vstd::prelude::*;

verus! {

/// A registered account: identity, signature-verification key, and a signed
/// balance in smallest currency units. The email doubles as the account's
/// handle in transactions; username and password are out-of-band credentials
/// carried for the host's benefit and play no part in consensus logic.
pub struct User {
    pub id: usize,
    pub email: String,
    pub username: String,
    pub password: String,
    pub balance: i64,
    pub public_key: Vec<u8>,
}

/// Mathematical model of an account.
pub ghost struct UserV {
    pub id: usize,
    pub email: Seq<char>,
    pub username: Seq<char>,
    pub password: Seq<char>,
    pub balance: i64,
    pub public_key: Seq<u8>,
}

impl View for User {
    type V = UserV;

    open spec fn view(&self) -> UserV {
        UserV {
            id: self.id,
            email: self.email@,
            username: self.username@,
            password: self.password@,
            balance: self.balance,
            public_key: self.public_key@,
        }
    }
}

impl DeepView for User {
    type V = UserV;

    open spec fn deep_view(&self) -> UserV {
        self.view()
    }
}

/// An intent to move `amount` units from `sender` to `recipient`.
/// `signature` is empty until the transaction is signed.
pub struct Transaction {
    pub sender: String,
    pub recipient: String,
    pub amount: u64,
    pub signature: Vec<u8>,
}

/// Mathematical model of a transaction.
pub ghost struct TransactionV {
    pub sender: Seq<char>,
    pub recipient: Seq<char>,
    pub amount: u64,
    pub signature: Seq<u8>,
}

impl View for Transaction {
    type V = TransactionV;

    open spec fn view(&self) -> TransactionV {
        TransactionV {
            sender: self.sender@,
            recipient: self.recipient@,
            amount: self.amount,
            signature: self.signature@,
        }
    }
}

impl DeepView for Transaction {
    type V = TransactionV;

    open spec fn deep_view(&self) -> TransactionV {
        self.view()
    }
}

/// Consensus-specific proof data sealed into a block header.
pub enum SealProof {
    /// Proof-of-work: the nonce found by the difficulty-gated search and the
    /// difficulty it satisfies.
    Work { nonce: u64, difficulty: usize },
    /// Proof-of-stake: the stake-weighted selected validator, recorded as its
    /// account id and public key.
    Stake { selected_user: usize, validator: Vec<u8> },
}

/// Mathematical model of consensus proof data.
pub ghost enum SealProofV {
    Work { nonce: u64, difficulty: usize },
    Stake { selected_user: usize, validator: Seq<u8> },
}

impl View for SealProof {
    type V = SealProofV;

    open spec fn view(&self) -> SealProofV {
        match self {
            SealProof::Work { nonce, difficulty } => SealProofV::Work {
                nonce: *nonce,
                difficulty: *difficulty,
            },
            SealProof::Stake { selected_user, validator } => SealProofV::Stake {
                selected_user: *selected_user,
                validator: validator@,
            },
        }
    }
}

impl DeepView for SealProof {
    type V = SealProofV;

    open spec fn deep_view(&self) -> SealProofV {
        self.view()
    }
}

/// The sealed, hash-chained envelope of a block: creation time, the previous
/// block's hash (or the genesis sentinel), this block's own content hash, and
/// the consensus proof.
pub struct PohRecord {
    pub time: u128,
    pub prev_hash: String,
    pub hash: String,
    pub proof: SealProof,
}

/// Mathematical model of a block header.
pub ghost struct PohRecordV {
    pub time: u128,
    pub prev_hash: Seq<char>,
    pub hash: Seq<char>,
    pub proof: SealProofV,
}

impl View for PohRecord {
    type V = PohRecordV;

    open spec fn view(&self) -> PohRecordV {
        PohRecordV {
            time: self.time,
            prev_hash: self.prev_hash@,
            hash: self.hash@,
            proof: self.proof@,
        }
    }
}

impl DeepView for PohRecord {
    type V = PohRecordV;

    open spec fn deep_view(&self) -> PohRecordV {
        self.view()
    }
}

/// A block: header, monotonic index (the first sealed block has index 1), and
/// the ordered transaction list, whose first entry is always the system
/// reward transaction.
pub struct Block {
    pub header: PohRecord,
    pub index: u32,
    pub transaction: Vec<Transaction>,
}

/// Mathematical model of a block.
pub ghost struct BlockV {
    pub header: PohRecordV,
    pub index: u32,
    pub transaction: Seq<TransactionV>,
}

impl View for Block {
    type V = BlockV;

    open spec fn view(&self) -> BlockV {
        BlockV {
            header: self.header@,
            index: self.index,
            transaction: self.transaction.deep_view(),
        }
    }
}

impl DeepView for Block {
    type V = BlockV;

    open spec fn deep_view(&self) -> BlockV {
        self.view()
    }
}

/// Why sealing a candidate block failed.
#[derive(Clone, Copy, PartialEq, Eq, Structural, Debug)]
pub enum SealError {
    /// No account holds positive stake: stake-weighted selection is undefined.
    ZeroStake,
    /// The combined stake exceeds the sampler's 64-bit weight total.
    StakeOverflow,
    /// The nonce search exhausted its attempt budget without meeting the
    /// difficulty target.
    AttemptsExhausted,
}

/// The reserved sender handle of reward transactions. No account may register
/// under this handle.
pub open spec fn system_handle() -> Seq<char> {
    "system"@
}

/// Index of the first account registered under `email`, or -1 if none is.
pub open spec fn user_index(users: Seq<UserV>, email: Seq<char>) -> int
    decreases users.len(),
{
    if users.len() == 0 {
        -1
    } else if users[0].email == email {
        0
    } else {
        let r = user_index(users.drop_first(), email);
        if r < 0 {
            -1
        } else {
            r + 1
        }
    }
}

/// Whether some account is registered under `email`.
pub open spec fn has_user(users: Seq<UserV>, email: Seq<char>) -> bool {
    user_index(users, email) >= 0
}

/// `user_index` is in bounds, lands on a matching account, and is the first
/// match.
pub proof fn lemma_user_index_props(users: Seq<UserV>, email: Seq<char>)
    ensures
        -1 <= user_index(users, email) < users.len(),
        user_index(users, email) >= 0 ==> users[user_index(users, email)].email == email,
        forall|j: int|
            0 <= j < users.len() && users[j].email == email ==> 0 <= user_index(users, email) <= j,
    decreases users.len(),
{
    if users.len() > 0 && users[0].email != email {
        lemma_user_index_props(users.drop_first(), email);
        assert forall|j: int|
            0 <= j < users.len() && users[j].email == email implies 0 <= user_index(users, email)
            <= j by {
            assert(users.drop_first()[j - 1] == users[j]);
        }
        if user_index(users.drop_first(), email) >= 0 {
            assert(users[user_index(users, email)] == users.drop_first()[user_index(
                users.drop_first(),
                email,
            )]);
        }
    }
}

/// Sum of all account balances, as an unbounded integer.
pub open spec fn total_balance(users: Seq<UserV>) -> int
    decreases users.len(),
{
    if users.len() == 0 {
        0
    } else {
        users[0].balance + total_balance(users.drop_first())
    }
}

/// Well-formed account table: handles are unique, ids are unique, and the
/// reserved system handle is not registered.
pub open spec fn users_wf(users: Seq<UserV>) -> bool {
    &&& forall|i: int, j: int| 0 <= i < j < users.len() ==> users[i].email != users[j].email
    &&& forall|i: int, j: int| 0 <= i < j < users.len() ==> users[i].id != users[j].id
    &&& forall|i: int| 0 <= i < users.len() ==> users[i].email != system_handle()
}

impl User {
    /// Builds an account from its parts.
    pub fn new(
        id: usize,
        email: String,
        username: String,
        password: String,
        balance: i64,
        public_key: Vec<u8>,
    ) -> (r: User)
        ensures
            r@ == (UserV {
                id,
                email: email@,
                username: username@,
                password: password@,
                balance,
                public_key: public_key@,
            }),
    {
        User { id, email, username, password, balance, public_key }
    }

    /// Adds `amount` (which may be negative) to the balance; reports whether
    /// the adjusted balance still fits, leaving the account unchanged when it
    /// does not.
    pub fn update_balance(&mut self, amount: i64) -> (ok: bool)
        ensures
            ok == (i64::MIN <= old(self)@.balance + amount <= i64::MAX),
            ok ==> final(self)@ == (UserV {
                balance: (old(self)@.balance + amount) as i64,
                ..old(self)@
            }),
            !ok ==> final(self)@ == old(self)@,
    {
        let sum: i128 = self.balance as i128 + amount as i128;
        if i64::MIN as i128 <= sum && sum <= i64::MAX as i128 {
            self.balance = sum as i64;
            true
        } else {
            false
        }
    }

    /// An exact copy of this account.
    pub fn duplicate(&self) -> (r: User)
        ensures
            r@ == self@,
    {
        User {
            id: self.id,
            email: self.email.clone(),
            username: self.username.clone(),
            password: self.password.clone(),
            balance: self.balance,
            public_key: copy_bytes(&self.public_key),
        }
    }
}

impl Transaction {
    /// An exact copy of this transaction.
    pub fn duplicate(&self) -> (r: Transaction)
        ensures
            r@ == self@,
    {
        Transaction {
            sender: self.sender.clone(),
            recipient: self.recipient.clone(),
            amount: self.amount,
            signature: copy_bytes(&self.signature),
        }
    }
}

/// An exact copy of a byte vector.
pub fn copy_bytes(v: &Vec<u8>) -> (r: Vec<u8>)
    ensures
        r@ == v@,
{
    let mut r: Vec<u8> = Vec::new();
    let n = v.len();
    for i in 0..n
        invariant
            n == v@.len(),
            r@ == v@.take(i as int),
    {
        r.push(v[i]);
        assert(v@.take(i + 1) == v@.take(i as int).push(v@[i as int]));
    }
    assert(v@.take(n as int) == v@);
    r
}

} // verus!
