use ledger_core::chain::Chain;
use ledger_core::chain::sign_transaction;
use ledger_core::consensus::ConsensusStrategy;
use ledger_core::crypto::{ed25519_generate_pkcs8, ed25519_public_key, ed25519_verify, sha256_hex};
use ledger_core::encode::signing_payload;
use ledger_core::types::{Block, PohRecord, SealProof, Transaction, User};

fn keypair() -> (Vec<u8>, Vec<u8>) {
    let key = ed25519_generate_pkcs8().expect("key generation");
    let public = ed25519_public_key(&key).expect("public key");
    (key, public)
}

fn balance_of(chain: &Chain, email: &str) -> i64 {
    chain
        .users
        .iter()
        .find(|u| u.email == email)
        .expect("registered account")
        .balance
}

#[test]
fn scenario_alice_pays_bob() {
    let mut chain = Chain::new();
    let (alice_key, alice_pub) = keypair();
    let (_bob_key, bob_pub) = keypair();
    assert_eq!(
        chain.create_user(
            "alice@example.com".to_string(),
            "Alice".to_string(),
            "pw-a".to_string(),
            100,
            alice_pub,
        ),
        Some(1)
    );
    assert_eq!(
        chain.create_user(
            "bob@example.com".to_string(),
            "Bob".to_string(),
            "pw-b".to_string(),
            50,
            bob_pub,
        ),
        Some(2)
    );
    let ok = chain.new_transaction(
        "alice@example.com".to_string(),
        "bob@example.com".to_string(),
        10,
        &alice_key,
    );
    assert!(ok);
    assert_eq!(chain.chain.len(), 1);
    assert!(chain.is_chain_valid());
    let alice = balance_of(&chain, "alice@example.com");
    let bob = balance_of(&chain, "bob@example.com");
    // The block reward went to whichever account was selected as validator.
    assert!(
        (alice == 91 && bob == 60) || (alice == 90 && bob == 61),
        "alice {} bob {}",
        alice,
        bob
    );
    assert_eq!(alice + bob, 151);
    let block = chain.find_transaction(1).expect("sealed block");
    assert_eq!(block.index, 1);
    assert_eq!(block.transaction[0].sender, "system");
    assert_eq!(block.transaction[0].amount, 1);
    assert_eq!(block.transaction.len(), 2);
    assert_eq!(block.header.prev_hash, "0".repeat(64));
    assert!(chain.find_transaction(2).is_none());
    assert!(chain.curr_trans.is_empty());
}

#[test]
fn admission_boundary() {
    let mut chain = Chain::new_with(ConsensusStrategy::ProofOfStake, false);
    let (alice_key, alice_pub) = keypair();
    let (_bob_key, bob_pub) = keypair();
    chain
        .create_user(
            "alice@example.com".to_string(),
            "Alice".to_string(),
            "pw".to_string(),
            100,
            alice_pub,
        )
        .unwrap();
    chain
        .create_user(
            "bob@example.com".to_string(),
            "Bob".to_string(),
            "pw".to_string(),
            50,
            bob_pub,
        )
        .unwrap();
    // Amount exactly equal to the balance is admitted.
    assert!(chain.new_transaction(
        "alice@example.com".to_string(),
        "bob@example.com".to_string(),
        100,
        &alice_key,
    ));
    assert_eq!(chain.curr_trans.len(), 1);
    // One unit over the balance is refused.
    assert!(!chain.new_transaction(
        "alice@example.com".to_string(),
        "bob@example.com".to_string(),
        101,
        &alice_key,
    ));
    // Unknown sender and unknown recipient are refused whatever the amount.
    assert!(!chain.new_transaction(
        "carol@example.com".to_string(),
        "bob@example.com".to_string(),
        1,
        &alice_key,
    ));
    assert!(!chain.new_transaction(
        "alice@example.com".to_string(),
        "carol@example.com".to_string(),
        1,
        &alice_key,
    ));
    assert_eq!(chain.curr_trans.len(), 1);
    assert_eq!(chain.chain.len(), 0);
}

#[test]
fn signature_round_trip() {
    let (key, public) = keypair();
    let t = sign_transaction("a".to_string(), "b".to_string(), 5, &key).expect("signing");
    let payload = signing_payload("a", "b", 5);
    assert!(ed25519_verify(&public, &payload, &t.signature));
    // A different account's key does not verify.
    let (_other_key, other_public) = keypair();
    assert!(!ed25519_verify(&other_public, &payload, &t.signature));
    // Mutating the amount after signing does not verify.
    let tampered = signing_payload("a", "b", 6);
    assert!(!ed25519_verify(&public, &tampered, &t.signature));
}

#[test]
fn verify_transaction_gates_sealing() {
    let mut chain = Chain::new_with(ConsensusStrategy::ProofOfStake, false);
    let (alice_key, alice_pub) = keypair();
    let (wrong_key, _) = keypair();
    chain
        .create_user(
            "alice@example.com".to_string(),
            "Alice".to_string(),
            "pw".to_string(),
            100,
            alice_pub,
        )
        .unwrap();
    let t = sign_transaction(
        "alice@example.com".to_string(),
        "alice@example.com".to_string(),
        7,
        &alice_key,
    )
    .unwrap();
    assert!(chain.verify_transaction(&t));
    let mut tampered = sign_transaction(
        "alice@example.com".to_string(),
        "alice@example.com".to_string(),
        7,
        &alice_key,
    )
    .unwrap();
    tampered.amount = 8;
    assert!(!chain.verify_transaction(&tampered));
    let forged = sign_transaction(
        "alice@example.com".to_string(),
        "alice@example.com".to_string(),
        7,
        &wrong_key,
    )
    .unwrap();
    assert!(!chain.verify_transaction(&forged));
    // A transaction signed with the wrong key is admitted (balances allow it)
    // but dropped at sealing: only the reward remains in the block.
    assert!(chain.new_transaction(
        "alice@example.com".to_string(),
        "alice@example.com".to_string(),
        7,
        &wrong_key,
    ));
    assert!(chain.generate_block());
    assert_eq!(chain.chain[0].transaction.len(), 1);
}

#[test]
fn registration_rules() {
    let mut chain = Chain::new();
    let (_k, p) = keypair();
    assert_eq!(
        chain.create_user(
            "a@example.com".to_string(),
            "A".to_string(),
            "pw".to_string(),
            1,
            p.clone(),
        ),
        Some(1)
    );
    // A taken handle is refused.
    assert_eq!(
        chain.create_user(
            "a@example.com".to_string(),
            "A2".to_string(),
            "pw".to_string(),
            2,
            p.clone(),
        ),
        None
    );
    // The reserved system handle is refused.
    assert_eq!(
        chain.create_user("system".to_string(), "S".to_string(), "pw".to_string(), 3, p.clone()),
        None
    );
    assert_eq!(chain.users.len(), 1);
    assert_eq!(chain.find_user_by_id(1).unwrap().username, "A");
    assert!(chain.find_user_by_id(2).is_none());
}

#[test]
fn empty_chain_is_valid_and_has_genesis_hash() {
    let chain = Chain::new();
    assert!(chain.is_chain_valid());
    assert_eq!(chain.last_hash(), "0".repeat(64));
    let mut empty = Chain::new();
    assert!(!empty.generate_block());
}

#[test]
fn chain_link_detects_tampering() {
    let mut chain = Chain::new();
    let (alice_key, alice_pub) = keypair();
    let (_bk, bob_pub) = keypair();
    chain
        .create_user("a@x".to_string(), "A".to_string(), "pw".to_string(), 100, alice_pub)
        .unwrap();
    chain
        .create_user("b@x".to_string(), "B".to_string(), "pw".to_string(), 50, bob_pub)
        .unwrap();
    assert!(chain.new_transaction("a@x".to_string(), "b@x".to_string(), 1, &alice_key));
    assert!(chain.new_transaction("a@x".to_string(), "b@x".to_string(), 2, &alice_key));
    assert_eq!(chain.chain.len(), 2);
    assert!(chain.is_chain_valid());
    assert_eq!(chain.chain[1].header.prev_hash, chain.chain[0].header.hash);
    // Break the link and the walk reports it.
    chain.chain[1].header.prev_hash = "0".repeat(64);
    assert!(!chain.is_chain_valid());
}

#[test]
fn update_balances_applies_and_checks_range() {
    let mut chain = Chain::new();
    let (_ka, pa) = keypair();
    let (_kb, pb) = keypair();
    chain
        .create_user("a@x".to_string(), "A".to_string(), "pw".to_string(), 100, pa)
        .unwrap();
    chain
        .create_user("b@x".to_string(), "B".to_string(), "pw".to_string(), 50, pb)
        .unwrap();
    let block = Block {
        header: PohRecord {
            time: 0,
            prev_hash: String::new(),
            hash: String::new(),
            proof: SealProof::Stake { selected_user: 1, validator: Vec::new() },
        },
        index: 1,
        transaction: vec![Transaction {
            sender: "a@x".to_string(),
            recipient: "b@x".to_string(),
            amount: 30,
            signature: Vec::new(),
        }],
    };
    assert!(chain.update_balances(&block));
    assert_eq!(balance_of(&chain, "a@x"), 70);
    assert_eq!(balance_of(&chain, "b@x"), 80);
    // A credit that would overflow the 64-bit balance changes nothing.
    let mut rich = Chain::new();
    let (_kc, pc) = keypair();
    let (_kd, pd) = keypair();
    rich.create_user("c@x".to_string(), "C".to_string(), "pw".to_string(), i64::MAX, pc)
        .unwrap();
    rich.create_user("d@x".to_string(), "D".to_string(), "pw".to_string(), 5, pd)
        .unwrap();
    let overflow_block = Block {
        header: PohRecord {
            time: 0,
            prev_hash: String::new(),
            hash: String::new(),
            proof: SealProof::Stake { selected_user: 1, validator: Vec::new() },
        },
        index: 1,
        transaction: vec![Transaction {
            sender: "d@x".to_string(),
            recipient: "c@x".to_string(),
            amount: 5,
            signature: Vec::new(),
        }],
    };
    assert!(!rich.update_balances(&overflow_block));
    assert_eq!(balance_of(&rich, "c@x"), i64::MAX);
    assert_eq!(balance_of(&rich, "d@x"), 5);
}

#[test]
fn sha256_hex_known_answers() {
    assert_eq!(
        sha256_hex(&Vec::new()),
        "e3b0c44298fc1c149afbf4c8996fb92427ae41e4649b934ca495991b7852b855"
    );
    assert_eq!(
        sha256_hex(&b"abc".to_vec()),
        "ba7816bf8f01cfea414140de5dae2223b00361a396177a9cb410ff61f20015ad"
    );
}

#[test]
fn malformed_key_documents_are_rejected() {
    let garbage = vec![1u8, 2, 3, 4];
    assert!(ledger_core::crypto::ed25519_public_key(&garbage).is_none());
    assert!(sign_transaction("a".to_string(), "b".to_string(), 1, &garbage).is_none());
    // Submission with a malformed signing key is refused outright.
    let mut chain = Chain::new();
    let (_k, p) = keypair();
    chain
        .create_user("a@x".to_string(), "A".to_string(), "pw".to_string(), 10, p.clone())
        .unwrap();
    chain
        .create_user("b@x".to_string(), "B".to_string(), "pw".to_string(), 10, p)
        .unwrap();
    assert!(!chain.new_transaction("a@x".to_string(), "b@x".to_string(), 1, &garbage));
    assert_eq!(chain.chain.len(), 0);
}

#[test]
fn update_balance_is_range_checked() {
    let mut u = User::new(1, "a".to_string(), "A".to_string(), "pw".to_string(), 10, Vec::new());
    assert!(u.update_balance(-4));
    assert_eq!(u.balance, 6);
    assert!(u.update_balance(4));
    assert_eq!(u.balance, 10);
    let mut rich = User::new(2, "r".to_string(), "R".to_string(), "pw".to_string(), i64::MAX, Vec::new());
    assert!(!rich.update_balance(1));
    assert_eq!(rich.balance, i64::MAX);
}
