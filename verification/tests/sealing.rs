use ledger_core::chain::Chain;
use ledger_core::consensus::{ConsensusStrategy, select_validator, seal_pow};
use ledger_core::crypto::{ed25519_generate_pkcs8, ed25519_public_key};
use ledger_core::types::{SealError, SealProof, Transaction, User};

fn keypair() -> (Vec<u8>, Vec<u8>) {
    let key = ed25519_generate_pkcs8().expect("key generation");
    let public = ed25519_public_key(&key).expect("public key");
    (key, public)
}

fn account(id: usize, email: &str, balance: i64) -> User {
    User::new(
        id,
        email.to_string(),
        email.to_string(),
        "pw".to_string(),
        balance,
        Vec::new(),
    )
}

#[test]
fn proof_of_work_seals_with_leading_zero() {
    let (alice_key, alice_pub) = keypair();
    let (_bk, bob_pub) = keypair();
    let strategy = ConsensusStrategy::ProofOfWork {
        difficulty: 1,
        max_attempts: 1_000_000,
        miner: "a@x".to_string(),
    };
    let mut chain = Chain::new_with(strategy, true);
    chain
        .create_user("a@x".to_string(), "A".to_string(), "pw".to_string(), 100, alice_pub)
        .unwrap();
    chain
        .create_user("b@x".to_string(), "B".to_string(), "pw".to_string(), 50, bob_pub)
        .unwrap();
    assert!(chain.new_transaction("a@x".to_string(), "b@x".to_string(), 10, &alice_key));
    assert_eq!(chain.chain.len(), 1);
    assert!(chain.is_chain_valid());
    let hash = &chain.chain[0].header.hash;
    assert_eq!(hash.len(), 64);
    assert!(hash.starts_with('0'));
    // The miner (Alice) was rewarded for her own block.
    assert_eq!(chain.users[0].balance, 91);
    assert_eq!(chain.users[1].balance, 60);
    assert_eq!(chain.chain[0].transaction[0].recipient, "a@x");
}

#[test]
fn proof_of_work_difficulty_zero_seals_at_once() {
    let txs = vec![Transaction {
        sender: "s".to_string(),
        recipient: "r".to_string(),
        amount: 1,
        signature: Vec::new(),
    }];
    let prev = "0".repeat(64);
    match seal_pow(7, &prev, 1, &txs, 0, 1) {
        Ok((nonce, hash)) => {
            assert_eq!(nonce, 0);
            assert_eq!(hash.len(), 64);
        },
        Err(_) => panic!("difficulty zero must seal on the first nonce"),
    }
}

#[test]
fn proof_of_work_budget_exhaustion_is_reported() {
    let txs: Vec<Transaction> = Vec::new();
    let prev = "0".repeat(64);
    // No 64-character hash has 70 leading zero digits.
    match seal_pow(7, &prev, 1, &txs, 70, 8) {
        Ok(_) => panic!("an impossible difficulty cannot seal"),
        Err(e) => assert_eq!(e, SealError::AttemptsExhausted),
    }
    // A budget of zero attempts is exhausted immediately, whatever the target.
    match seal_pow(7, &prev, 1, &txs, 0, 0) {
        Ok(_) => panic!("an empty budget cannot seal"),
        Err(e) => assert_eq!(e, SealError::AttemptsExhausted),
    }
}

#[test]
fn stake_selection_follows_balances() {
    let users = vec![account(1, "rich", 100), account(2, "poor", 50)];
    let trials = 3000;
    let mut first = 0usize;
    let mut second = 0usize;
    for _ in 0..trials {
        match select_validator(&users) {
            Ok(0) => first += 1,
            Ok(1) => second += 1,
            other => panic!("unexpected selection {:?}", other),
        }
    }
    // Expected split 2000/1000; allow a generous tolerance.
    assert!(first > 1800 && first < 2200, "first selected {} times", first);
    assert_eq!(first + second, trials);
}

#[test]
fn zero_stake_is_an_explicit_error() {
    let users = vec![account(1, "broke", 0), account(2, "debtor", -5)];
    assert_eq!(select_validator(&users), Err(SealError::ZeroStake));
    let nobody: Vec<User> = Vec::new();
    assert_eq!(select_validator(&nobody), Err(SealError::ZeroStake));
    // Sealing against zero stake fails and changes nothing.
    let (key, public) = keypair();
    let mut chain = Chain::new_with(ConsensusStrategy::ProofOfStake, false);
    chain
        .create_user("a@x".to_string(), "A".to_string(), "pw".to_string(), 0, public)
        .unwrap();
    assert!(chain.new_transaction("a@x".to_string(), "a@x".to_string(), 0, &key));
    assert!(!chain.generate_block());
    assert_eq!(chain.chain.len(), 0);
    assert_eq!(chain.curr_trans.len(), 1);
}

#[test]
fn oversized_stake_is_a_distinct_error() {
    let users = vec![
        account(1, "a", i64::MAX),
        account(2, "b", i64::MAX),
        account(3, "c", i64::MAX),
    ];
    assert_eq!(select_validator(&users), Err(SealError::StakeOverflow));
}

#[test]
fn selected_validator_holds_positive_stake() {
    let users = vec![account(1, "broke", 0), account(2, "whale", 7)];
    for _ in 0..50 {
        assert_eq!(select_validator(&users), Ok(1));
    }
}

#[test]
fn balance_conservation_across_blocks() {
    let mut chain = Chain::new();
    let (ka, pa) = keypair();
    let (kb, pb) = keypair();
    chain
        .create_user("a@x".to_string(), "A".to_string(), "pw".to_string(), 100, pa)
        .unwrap();
    chain
        .create_user("b@x".to_string(), "B".to_string(), "pw".to_string(), 50, pb)
        .unwrap();
    assert!(chain.new_transaction("a@x".to_string(), "b@x".to_string(), 10, &ka));
    assert!(chain.new_transaction("b@x".to_string(), "a@x".to_string(), 5, &kb));
    assert_eq!(chain.chain.len(), 2);
    let total: i64 = chain.users.iter().map(|u| u.balance).sum();
    // One reward unit of new value per sealed block, nothing else.
    assert_eq!(total, 150 + 2);
    assert!(chain.is_chain_valid());
}

#[test]
fn unregistered_miner_cannot_seal() {
    let (key, public) = keypair();
    let strategy = ConsensusStrategy::ProofOfWork {
        difficulty: 0,
        max_attempts: 10,
        miner: "nobody@x".to_string(),
    };
    let mut chain = Chain::new_with(strategy, false);
    chain
        .create_user("a@x".to_string(), "A".to_string(), "pw".to_string(), 100, public.clone())
        .unwrap();
    chain
        .create_user("b@x".to_string(), "B".to_string(), "pw".to_string(), 50, public)
        .unwrap();
    assert!(chain.new_transaction("a@x".to_string(), "b@x".to_string(), 5, &key));
    // The configured miner handle names no account: sealing is refused and
    // nothing changes, so no reward can be lost.
    assert!(!chain.generate_block());
    assert_eq!(chain.chain.len(), 0);
    assert_eq!(chain.curr_trans.len(), 1);
    assert_eq!(chain.users[0].balance, 100);
    assert_eq!(chain.users[1].balance, 50);
}

#[test]
fn difficulty_zero_chain_seals_first_nonce() {
    let (key, public) = keypair();
    let strategy = ConsensusStrategy::ProofOfWork {
        difficulty: 0,
        max_attempts: 1,
        miner: "a@x".to_string(),
    };
    let mut chain = Chain::new_with(strategy, true);
    chain
        .create_user("a@x".to_string(), "A".to_string(), "pw".to_string(), 100, public.clone())
        .unwrap();
    chain
        .create_user("b@x".to_string(), "B".to_string(), "pw".to_string(), 50, public)
        .unwrap();
    // A single-nonce budget suffices at difficulty zero.
    assert!(chain.new_transaction("a@x".to_string(), "b@x".to_string(), 5, &key));
    assert_eq!(chain.chain.len(), 1);
    match &chain.chain[0].header.proof {
        SealProof::Work { nonce, difficulty } => {
            assert_eq!(*nonce, 0);
            assert_eq!(*difficulty, 0);
        },
        SealProof::Stake { .. } => panic!("sealed under the wrong strategy"),
    }
}
