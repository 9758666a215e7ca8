//! Canonical byte encoding of ledger values.
//!
//! The same framing serves two purposes: the unsigned-transaction payload
//! that is signed and verified (sender, recipient, amount — the signature
//! field is excluded), and the block payload whose digest becomes a block's
//! content hash. Every field is length-prefixed, and characters are encoded
//! as their scalar values, so the encoding is a deterministic function of
//! the encoded values.

use vstd::prelude::*;
use vstd::bytes::{spec_u32_to_le_bytes, spec_u64_to_le_bytes, spec_u128_to_le_bytes};
use vstd::bytes::{u32_to_le_bytes, u64_to_le_bytes, u128_to_le_bytes};
use crate::types::{SealProofV, SealProof, Transaction, TransactionV};

verus! {

/// Canonical 4-byte encoding of one character: its scalar value, little endian.
pub open spec fn spec_char_bytes(c: char) -> Seq<u8> {
    spec_u32_to_le_bytes(c as u32)
}

/// Canonical encoding of a character sequence: each character's four bytes,
/// in order.
pub open spec fn spec_chars_bytes(s: Seq<char>) -> Seq<u8>
    decreases s.len(),
{
    if s.len() == 0 {
        Seq::empty()
    } else {
        spec_char_bytes(s[0]) + spec_chars_bytes(s.drop_first())
    }
}

/// Canonical encoding of a string field: character count, then the characters.
pub open spec fn spec_str_field(s: Seq<char>) -> Seq<u8> {
    spec_u64_to_le_bytes(s.len() as u64) + spec_chars_bytes(s)
}

/// Canonical encoding of a byte-string field: length, then the bytes.
pub open spec fn spec_bytes_field(b: Seq<u8>) -> Seq<u8> {
    spec_u64_to_le_bytes(b.len() as u64) + b
}

/// The canonical unsigned-transaction payload over which signatures are
/// created and verified: sender, recipient and amount; the signature field is
/// excluded.
pub open spec fn spec_signing_payload(sender: Seq<char>, recipient: Seq<char>, amount: u64) -> Seq<
    u8,
> {
    spec_str_field(sender) + spec_str_field(recipient) + spec_u64_to_le_bytes(amount)
}

/// Canonical encoding of a whole transaction, signature included; used inside
/// the block payload.
pub open spec fn spec_transaction_bytes(t: TransactionV) -> Seq<u8> {
    spec_signing_payload(t.sender, t.recipient, t.amount) + spec_bytes_field(t.signature)
}

/// Canonical encoding of a transaction list: count, then each transaction.
pub open spec fn spec_transactions_bytes(ts: Seq<TransactionV>) -> Seq<u8>
    decreases ts.len(),
{
    if ts.len() == 0 {
        Seq::empty()
    } else {
        spec_transaction_bytes(ts[0]) + spec_transactions_bytes(ts.drop_first())
    }
}

/// Canonical encoding of consensus proof data: a variant tag, then its fields.
pub open spec fn spec_proof_bytes(p: SealProofV) -> Seq<u8> {
    match p {
        SealProofV::Work { nonce, difficulty } => seq![0u8] + spec_u64_to_le_bytes(nonce)
            + spec_u64_to_le_bytes(difficulty as u64),
        SealProofV::Stake { selected_user, validator } => seq![1u8] + spec_u64_to_le_bytes(
            selected_user as u64,
        ) + spec_bytes_field(validator),
    }
}

/// The block payload whose digest becomes the block's content hash: every
/// header field other than the hash itself, the block index, and the full
/// transaction list.
pub open spec fn spec_block_payload(
    time: u128,
    prev_hash: Seq<char>,
    proof: SealProofV,
    index: u32,
    ts: Seq<TransactionV>,
) -> Seq<u8> {
    spec_u128_to_le_bytes(time) + spec_str_field(prev_hash) + spec_proof_bytes(proof)
        + spec_u32_to_le_bytes(index) + spec_u64_to_le_bytes(ts.len() as u64)
        + spec_transactions_bytes(ts)
}

/// Appending one character to a sequence extends its encoding by that
/// character's bytes.
pub proof fn lemma_chars_bytes_push(s: Seq<char>, c: char)
    ensures
        spec_chars_bytes(s.push(c)) == spec_chars_bytes(s) + spec_char_bytes(c),
    decreases s.len(),
{
    if s.len() == 0 {
        assert(s.push(c)[0] == c);
        assert(s.push(c).drop_first() =~= Seq::<char>::empty());
        assert(spec_chars_bytes(s.push(c).drop_first()) == Seq::<u8>::empty());
        assert(spec_chars_bytes(s.push(c)) == spec_char_bytes(c) + Seq::<u8>::empty());
        assert(spec_chars_bytes(s.push(c)) =~= spec_chars_bytes(s) + spec_char_bytes(c));
    } else {
        assert(s.push(c).drop_first() =~= s.drop_first().push(c));
        lemma_chars_bytes_push(s.drop_first(), c);
        assert(spec_chars_bytes(s.push(c)) =~= spec_chars_bytes(s) + spec_char_bytes(c));
    }
}

/// Appending one transaction to a list extends its encoding by that
/// transaction's bytes.
pub proof fn lemma_transactions_bytes_push(ts: Seq<TransactionV>, t: TransactionV)
    ensures
        spec_transactions_bytes(ts.push(t)) == spec_transactions_bytes(ts)
            + spec_transaction_bytes(t),
    decreases ts.len(),
{
    if ts.len() == 0 {
        assert(ts.push(t)[0] == t);
        assert(ts.push(t).drop_first() =~= Seq::<TransactionV>::empty());
        assert(spec_transactions_bytes(ts.push(t).drop_first()) == Seq::<u8>::empty());
        assert(spec_transactions_bytes(ts.push(t)) == spec_transaction_bytes(t)
            + Seq::<u8>::empty());
        assert(spec_transactions_bytes(ts.push(t)) =~= spec_transactions_bytes(ts)
            + spec_transaction_bytes(t));
    } else {
        assert(ts.push(t).drop_first() =~= ts.drop_first().push(t));
        lemma_transactions_bytes_push(ts.drop_first(), t);
        assert(spec_transactions_bytes(ts.push(t)) =~= spec_transactions_bytes(ts)
            + spec_transaction_bytes(t));
    }
}

/// Appends the canonical bytes of `x` to `out`.
pub fn append_u32(out: &mut Vec<u8>, x: u32)
    ensures
        final(out)@ == old(out)@ + spec_u32_to_le_bytes(x),
{
    let mut b = u32_to_le_bytes(x);
    out.append(&mut b);
}

/// Appends the canonical bytes of `x` to `out`.
pub fn append_u64(out: &mut Vec<u8>, x: u64)
    ensures
        final(out)@ == old(out)@ + spec_u64_to_le_bytes(x),
{
    let mut b = u64_to_le_bytes(x);
    out.append(&mut b);
}

/// Appends the canonical bytes of `x` to `out`.
pub fn append_u128(out: &mut Vec<u8>, x: u128)
    ensures
        final(out)@ == old(out)@ + spec_u128_to_le_bytes(x),
{
    let mut b = u128_to_le_bytes(x);
    out.append(&mut b);
}

/// Appends the canonical character encoding of `s` to `out`.
pub fn append_chars(out: &mut Vec<u8>, s: &str)
    ensures
        final(out)@ == old(out)@ + spec_chars_bytes(s@),
{
    let n = s.unicode_len();
    for i in 0..n
        invariant
            n == s@.len(),
            out@ == old(out)@ + spec_chars_bytes(s@.take(i as int)),
    {
        let c = s.get_char(i);
        append_u32(out, c as u32);
        proof {
            lemma_chars_bytes_push(s@.take(i as int), c);
            assert(s@.take(i + 1) == s@.take(i as int).push(s@[i as int]));
        }
    }
    assert(s@.take(n as int) == s@);
}

/// Appends the canonical string-field encoding of `s` to `out`.
pub fn append_str_field(out: &mut Vec<u8>, s: &str)
    ensures
        final(out)@ == old(out)@ + spec_str_field(s@),
{
    let n = s.unicode_len();
    append_u64(out, n as u64);
    append_chars(out, s);
    assert(out@ =~= old(out)@ + spec_str_field(s@));
}

/// Appends the canonical byte-field encoding of `b` to `out`.
pub fn append_bytes_field(out: &mut Vec<u8>, b: &Vec<u8>)
    ensures
        final(out)@ == old(out)@ + spec_bytes_field(b@),
{
    append_u64(out, b.len() as u64);
    let mut copy = crate::types::copy_bytes(b);
    out.append(&mut copy);
    assert(out@ =~= old(out)@ + spec_bytes_field(b@));
}

/// Builds the canonical unsigned-transaction payload.
pub fn signing_payload(sender: &str, recipient: &str, amount: u64) -> (r: Vec<u8>)
    ensures
        r@ == spec_signing_payload(sender@, recipient@, amount),
{
    let mut out: Vec<u8> = Vec::new();
    append_str_field(&mut out, sender);
    append_str_field(&mut out, recipient);
    append_u64(&mut out, amount);
    assert(out@ =~= spec_signing_payload(sender@, recipient@, amount));
    out
}

/// Appends the canonical encoding of one whole transaction to `out`.
pub fn append_transaction(out: &mut Vec<u8>, t: &Transaction)
    ensures
        final(out)@ == old(out)@ + spec_transaction_bytes(t@),
{
    append_str_field(out, self_str(&t.sender));
    append_str_field(out, self_str(&t.recipient));
    append_u64(out, t.amount);
    append_bytes_field(out, &t.signature);
    assert(out@ =~= old(out)@ + spec_transaction_bytes(t@));
}

/// Borrows a `String` as a `&str` with the same view.
pub fn self_str(s: &String) -> (r: &str)
    ensures
        r@ == s@,
{
    s.as_str()
}

/// Appends the canonical encoding of consensus proof data to `out`.
pub fn append_proof(out: &mut Vec<u8>, p: &SealProof)
    ensures
        final(out)@ == old(out)@ + spec_proof_bytes(p@),
{
    match p {
        SealProof::Work { nonce, difficulty } => {
            out.push(0u8);
            append_u64(out, *nonce);
            append_u64(out, *difficulty as u64);
        },
        SealProof::Stake { selected_user, validator } => {
            out.push(1u8);
            append_u64(out, *selected_user as u64);
            append_bytes_field(out, validator);
        },
    }
    assert(out@ =~= old(out)@ + spec_proof_bytes(p@));
}

/// Builds the block payload whose digest becomes the block's content hash.
pub fn block_payload(
    time: u128,
    prev_hash: &str,
    proof: &SealProof,
    index: u32,
    ts: &Vec<Transaction>,
) -> (r: Vec<u8>)
    ensures
        r@ == spec_block_payload(time, prev_hash@, proof@, index, ts.deep_view()),
{
    let mut out: Vec<u8> = Vec::new();
    append_u128(&mut out, time);
    append_str_field(&mut out, prev_hash);
    append_proof(&mut out, proof);
    append_u32(&mut out, index);
    let n = ts.len();
    append_u64(&mut out, n as u64);
    let ghost head = out@;
    for i in 0..n
        invariant
            n == ts@.len(),
            out@ == head + spec_transactions_bytes(ts.deep_view().take(i as int)),
    {
        append_transaction(&mut out, &ts[i]);
        proof {
            lemma_transactions_bytes_push(ts.deep_view().take(i as int), ts@[i as int]@);
            assert(ts.deep_view().take(i + 1) == ts.deep_view().take(i as int).push(
                ts.deep_view()[i as int],
            ));
        }
    }
    assert(ts.deep_view().take(n as int) == ts.deep_view());
    assert(out@ =~= spec_block_payload(time, prev_hash@, proof@, index, ts.deep_view()));
    out
}

} // verus!
