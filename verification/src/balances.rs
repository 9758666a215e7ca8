//! Balance accounting: applying a sealed block's transactions to the account
//! table, debiting each sender and crediting each recipient.
//!
//! The exec code mirrors a recursive spec model exactly: a transaction whose
//! sender or recipient is not registered skips that half, and an adjustment
//! that would leave a balance outside the 64-bit range fails the whole
//! application, which then leaves the table untouched.

use vstd::prelude::*;
use crate::types::{Transaction, TransactionV, User, UserV, user_index, lemma_user_index_props,
    total_balance};

verus! {

/// `users` with the balance at `i` adjusted by `delta`, when that stays in
/// range.
pub open spec fn adjust_balance(users: Seq<UserV>, i: int, delta: int) -> Option<Seq<UserV>> {
    if i64::MIN <= users[i].balance + delta <= i64::MAX {
        Some(users.update(i, UserV { balance: (users[i].balance + delta) as i64, ..users[i] }))
    } else {
        None
    }
}

/// One transaction applied to the account table: the sender (when registered)
/// is debited the amount, then the recipient (when registered) is credited it.
pub open spec fn apply_tx(users: Seq<UserV>, t: TransactionV) -> Option<Seq<UserV>> {
    let si = user_index(users, t.sender);
    let debited = if si < 0 {
        Some(users)
    } else {
        adjust_balance(users, si, -(t.amount as int))
    };
    match debited {
        Some(users1) => {
            let ri = user_index(users1, t.recipient);
            if ri < 0 {
                Some(users1)
            } else {
                adjust_balance(users1, ri, t.amount as int)
            }
        },
        None => None,
    }
}

/// A transaction list applied in order; fails as soon as one adjustment
/// leaves the 64-bit range.
pub open spec fn apply_txs(users: Seq<UserV>, ts: Seq<TransactionV>) -> Option<Seq<UserV>>
    decreases ts.len(),
{
    if ts.len() == 0 {
        Some(users)
    } else {
        match apply_tx(users, ts[0]) {
            Some(users1) => apply_txs(users1, ts.drop_first()),
            None => None,
        }
    }
}

/// The two tables have the same accounts in the same order — only balances
/// may differ.
pub open spec fn same_identities(a: Seq<UserV>, b: Seq<UserV>) -> bool {
    &&& a.len() == b.len()
    &&& forall|i: int|
        0 <= i < a.len() ==> a[i] == (UserV { balance: a[i].balance, ..b[i] })
}

/// Adjusting one balance keeps every account's identity.
proof fn lemma_adjust_same_identities(users: Seq<UserV>, i: int, delta: int)
    requires
        0 <= i < users.len(),
        adjust_balance(users, i, delta) is Some,
    ensures
        same_identities(users, adjust_balance(users, i, delta).unwrap()),
{
}

/// Applying one transaction keeps every account's identity.
pub proof fn lemma_apply_tx_same_identities(users: Seq<UserV>, t: TransactionV)
    requires
        apply_tx(users, t) is Some,
    ensures
        same_identities(users, apply_tx(users, t).unwrap()),
{
    lemma_user_index_props(users, t.sender);
    let si = user_index(users, t.sender);
    let debited = if si < 0 { Some(users) } else { adjust_balance(users, si, -(t.amount as int)) };
    let users1 = debited.unwrap();
    if si >= 0 {
        lemma_adjust_same_identities(users, si, -(t.amount as int));
    }
    lemma_user_index_props(users1, t.recipient);
    let ri = user_index(users1, t.recipient);
    if ri >= 0 {
        lemma_adjust_same_identities(users1, ri, t.amount as int);
    }
}

/// Applying a transaction list keeps every account's identity.
pub proof fn lemma_apply_txs_same_identities(users: Seq<UserV>, ts: Seq<TransactionV>)
    requires
        apply_txs(users, ts) is Some,
    ensures
        same_identities(users, apply_txs(users, ts).unwrap()),
    decreases ts.len(),
{
    if ts.len() > 0 {
        let users1 = apply_tx(users, ts[0]).unwrap();
        lemma_apply_tx_same_identities(users, ts[0]);
        lemma_apply_txs_same_identities(users1, ts.drop_first());
    }
}

/// An account keeps its place under `user_index` when only balances change.
pub proof fn lemma_user_index_same_identities(a: Seq<UserV>, b: Seq<UserV>, email: Seq<char>)
    requires
        same_identities(a, b),
    ensures
        user_index(a, email) == user_index(b, email),
    decreases a.len(),
{
    if a.len() > 0 {
        assert(a[0].email == b[0].email);
        assert(same_identities(a.drop_first(), b.drop_first())) by {
            assert forall|i: int| 0 <= i < a.len() - 1 implies a.drop_first()[i] == (UserV {
                balance: a.drop_first()[i].balance,
                ..b.drop_first()[i]
            }) by {
                assert(a.drop_first()[i] == a[i + 1]);
                assert(b.drop_first()[i] == b[i + 1]);
            }
        }
        lemma_user_index_same_identities(a.drop_first(), b.drop_first(), email);
    }
}

/// Updating one account's balance shifts the table's total by the difference.
proof fn lemma_total_balance_update(users: Seq<UserV>, i: int, u: UserV)
    requires
        0 <= i < users.len(),
    ensures
        total_balance(users.update(i, u)) == total_balance(users) - users[i].balance + u.balance,
    decreases users.len(),
{
    if i == 0 {
        assert(users.update(0, u).drop_first() =~= users.drop_first());
    } else {
        assert(users.update(i, u).drop_first() =~= users.drop_first().update(i - 1, u));
        lemma_total_balance_update(users.drop_first(), i - 1, u);
    }
}

/// One applied transaction moves the total by the credited amount (when the
/// recipient is registered) minus the debited amount (when the sender is).
pub proof fn lemma_apply_tx_total(users: Seq<UserV>, t: TransactionV)
    requires
        apply_tx(users, t) is Some,
    ensures
        total_balance(apply_tx(users, t).unwrap()) == total_balance(users) + (if user_index(
            users,
            t.recipient,
        ) >= 0 {
            t.amount as int
        } else {
            0
        }) - (if user_index(users, t.sender) >= 0 {
            t.amount as int
        } else {
            0
        }),
{
    lemma_user_index_props(users, t.sender);
    let si = user_index(users, t.sender);
    let debited = if si < 0 { Some(users) } else { adjust_balance(users, si, -(t.amount as int)) };
    let users1 = debited.unwrap();
    if si >= 0 {
        lemma_total_balance_update(
            users,
            si,
            UserV { balance: (users[si].balance - t.amount as int) as i64, ..users[si] },
        );
        lemma_adjust_same_identities(users, si, -(t.amount as int));
    }
    lemma_user_index_same_identities(users, users1, t.recipient);
    lemma_user_index_props(users1, t.recipient);
    let ri = user_index(users1, t.recipient);
    if ri >= 0 {
        lemma_total_balance_update(
            users1,
            ri,
            UserV { balance: (users1[ri].balance + t.amount as int) as i64, ..users1[ri] },
        );
    }
}

/// Applies `ts` to a copy of `users`; returns the adjusted table, or `None`
/// (leaving no effect to commit) when some adjustment leaves the 64-bit
/// range.
pub fn apply_transactions(users: &Vec<User>, ts: &Vec<Transaction>) -> (r: Option<Vec<User>>)
    ensures
        match r {
            Some(v) => apply_txs(users.deep_view(), ts.deep_view()) == Some(v.deep_view()),
            None => apply_txs(users.deep_view(), ts.deep_view()) is None,
        },
{
    let mut work: Vec<User> = Vec::new();
    let n = users.len();
    for i in 0..n
        invariant
            n == users@.len(),
            work@.len() == i as int,
            work.deep_view() =~= users.deep_view().take(i as int),
    {
        let u = users[i].duplicate();
        let ghost uv = u@;
        work.push(u);
        proof {
            assert(work@.len() == i + 1);
            assert(work@[i as int]@ == uv);
            assert(work.deep_view().len() == i + 1);
            assert(work.deep_view()[i as int] == work@[i as int].deep_view());
            assert(users.deep_view()[i as int] == users@[i as int]@);
            assert(work.deep_view() =~= users.deep_view().take(i + 1));
        }
    }
    assert(users.deep_view().take(n as int) =~= users.deep_view());
    let m = ts.len();
    let ghost users0 = users.deep_view();
    for k in 0..m
        invariant
            m == ts@.len(),
            users0 == users.deep_view(),
            apply_txs(users0, ts.deep_view().take(k as int)) == Some(work.deep_view()),
    {
        let ghost pre = work.deep_view();
        let ok = apply_one(&mut work, &ts[k]);
        proof {
            assert(ts.deep_view().len() == m as int);
            lemma_apply_txs_snoc(users0, ts.deep_view(), k as int);
            assert(ts.deep_view()[k as int] == ts@[k as int]@);
            assert(apply_txs(users0, ts.deep_view().take(k + 1)) == apply_tx(
                pre,
                ts.deep_view()[k as int],
            ));
        }
        if !ok {
            proof {
                assert(apply_tx(pre, ts.deep_view()[k as int]) is None);
                assert(apply_txs(users0, ts.deep_view().take(k + 1)) is None);
                lemma_apply_txs_prefix_none(users0, ts.deep_view(), k + 1);
                assert(apply_txs(users0, ts.deep_view()) is None);
            }
            return None;
        }
    }
    proof {
        assert(ts.deep_view().take(m as int) =~= ts.deep_view());
    }
    Some(work)
}

/// Extending the applied prefix by one transaction composes with `apply_tx`.
proof fn lemma_apply_txs_snoc(users: Seq<UserV>, ts: Seq<TransactionV>, k: int)
    requires
        0 <= k < ts.len(),
    ensures
        apply_txs(users, ts.take(k + 1)) == (match apply_txs(users, ts.take(k)) {
            Some(u1) => apply_tx(u1, ts[k]),
            None => None::<Seq<UserV>>,
        }),
    decreases k,
{
    if k == 0 {
        assert(ts.take(1)[0] == ts[0]);
        assert(ts.take(1).drop_first() =~= Seq::<TransactionV>::empty());
        assert(ts.take(0) =~= Seq::<TransactionV>::empty());
        if apply_tx(users, ts[0]) is Some {
            assert(apply_txs(users, ts.take(1)) == apply_tx(users, ts[0]));
        }
    } else {
        assert(ts.take(k + 1)[0] == ts[0]);
        assert(ts.take(k)[0] == ts[0]);
        assert(ts.take(k + 1).drop_first() =~= ts.drop_first().take(k));
        assert(ts.take(k).drop_first() =~= ts.drop_first().take(k - 1));
        match apply_tx(users, ts[0]) {
            Some(users1) => {
                lemma_apply_txs_snoc(users1, ts.drop_first(), k - 1);
                assert(ts.drop_first()[k - 1] == ts[k]);
            },
            None => {},
        }
    }
}

/// A failed prefix fails the whole list.
proof fn lemma_apply_txs_prefix_none(users: Seq<UserV>, ts: Seq<TransactionV>, j: int)
    requires
        0 <= j <= ts.len(),
        apply_txs(users, ts.take(j)) is None,
    ensures
        apply_txs(users, ts) is None,
    decreases j,
{
    if j == 0 {
        assert(ts.take(0) =~= Seq::<TransactionV>::empty());
    } else {
        assert(ts.take(j)[0] == ts[0]);
        assert(ts.take(j).drop_first() =~= ts.drop_first().take(j - 1));
        match apply_tx(users, ts[0]) {
            Some(users1) => {
                lemma_apply_txs_prefix_none(users1, ts.drop_first(), j - 1);
            },
            None => {},
        }
    }
}

/// Applies one transaction in place; on a range failure reports false and
/// leaves the table as it was.
fn apply_one(users: &mut Vec<User>, t: &Transaction) -> (ok: bool)
    ensures
        ok == (apply_tx(old(users).deep_view(), t@) is Some),
        ok ==> apply_tx(old(users).deep_view(), t@) == Some(final(users).deep_view()),
        !ok ==> final(users).deep_view() == old(users).deep_view(),
{
    let ghost pre = users.deep_view();
    let si = find_index(users, &t.sender);
    proof {
        lemma_user_index_props(pre, t.sender@);
    }
    // Check the debit bound before touching anything.
    if let Some(i) = si {
        let nb: i128 = users[i].balance as i128 - t.amount as i128;
        if nb < i64::MIN as i128 {
            assert(apply_tx(pre, t@) is None);
            return false;
        }
    }
    let ghost mid = (match si {
        Some(i) => adjust_balance(pre, i as int, -(t@.amount as int)).unwrap(),
        None => pre,
    });
    proof {
        if user_index(pre, t.sender@) >= 0 {
            lemma_adjust_same_identities(pre, user_index(pre, t.sender@), -(t@.amount as int));
        }
        lemma_user_index_same_identities(pre, mid, t.recipient@);
        lemma_user_index_props(mid, t.recipient@);
    }
    // Check the credit bound, over the balance the debit will leave, before
    // touching anything.
    let ri = find_index(users, &t.recipient);
    if let Some(j) = ri {
        let debit_here: i128 = (match si {
            Some(i) => if i == j {
                t.amount as i128
            } else {
                0
            },
            None => 0,
        });
        let base: i128 = users[j].balance as i128 - debit_here;
        assert(base == mid[j as int].balance);
        if base + t.amount as i128 > i64::MAX as i128 {
            assert(apply_tx(pre, t@) is None);
            return false;
        }
    }
    // Both bounds hold: mutate.
    if let Some(i) = si {
        let nb: i128 = users[i].balance as i128 - t.amount as i128;
        let u = &mut users[i];
        u.balance = nb as i64;
        assert(users.deep_view() =~= mid);
    }
    assert(users.deep_view() == mid);
    if let Some(j) = ri {
        let nb: i128 = users[j].balance as i128 + t.amount as i128;
        let u = &mut users[j];
        u.balance = nb as i64;
        assert(users.deep_view() =~= adjust_balance(mid, j as int, t@.amount as int).unwrap());
    }
    assert(apply_tx(pre, t@) == Some(users.deep_view()));
    true
}

/// Index of the first account registered under `email`, as `user_index`
/// computes it.
pub fn find_index(users: &Vec<User>, email: &String) -> (r: Option<usize>)
    ensures
        match r {
            Some(i) => i < users@.len() && i as int == user_index(users.deep_view(), email@),
            None => user_index(users.deep_view(), email@) == -1,
        },
{
    let n = users.len();
    for i in 0..n
        invariant
            n == users@.len(),
            forall|j: int| 0 <= j < i ==> users.deep_view()[j].email != email@,
    {
        if users[i].email == *email {
            proof {
                lemma_user_index_props(users.deep_view(), email@);
                assert(users.deep_view()[i as int].email == email@);
            }
            return Some(i);
        }
        assert(users.deep_view()[i as int].email != email@);
    }
    proof {
        lemma_user_index_props(users.deep_view(), email@);
    }
    None
}

} // verus!
