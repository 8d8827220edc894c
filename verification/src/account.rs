//! A depositor's entry in the pool's registry, and the spec-level view of a
//! registry as a sequence scanned front to back for the first matching owner.

use vstd::prelude::*;

verus! {

/// One depositor's row in the ledger: its identity, the principal it has in
/// escrow, and the lottery tickets that principal has earned.
///
/// Rows are appended to the registry on a depositor's first deposit and are
/// never removed; a balance may return to zero, and then the tickets are
/// zero as well.
#[derive(Clone, Copy, Debug, PartialEq, Eq)]
pub struct DepositorAccount {
    /// The depositor's identity, as the embedder numbers identities.
    pub owner: u64,
    /// Escrowed principal; never negative.
    pub balance: i128,
    /// Lottery weight; never negative, and zero whenever the balance is zero.
    pub tickets: i128,
}

/// The index of the first row owned by `owner`, or -1 when there is none.
pub open spec fn account_index(s: Seq<DepositorAccount>, owner: u64) -> int
    decreases s.len(),
{
    if s.len() == 0 {
        -1
    } else if s.first().owner == owner {
        0
    } else if account_index(s.drop_first(), owner) == -1 {
        -1
    } else {
        1 + account_index(s.drop_first(), owner)
    }
}

/// Whether some row is owned by `owner`.
pub open spec fn has_account(s: Seq<DepositorAccount>, owner: u64) -> bool {
    account_index(s, owner) >= 0
}

/// The balance recorded for `owner`, zero when it has never deposited.
pub open spec fn balance_of(s: Seq<DepositorAccount>, owner: u64) -> int {
    if has_account(s, owner) {
        s[account_index(s, owner)].balance as int
    } else {
        0
    }
}

/// The tickets recorded for `owner`, zero when it has never deposited.
pub open spec fn tickets_of(s: Seq<DepositorAccount>, owner: u64) -> int {
    if has_account(s, owner) {
        s[account_index(s, owner)].tickets as int
    } else {
        0
    }
}

/// What `account_index` finds: either no row is owned by `owner`, or the
/// returned index is the first row that is.
pub proof fn lemma_account_index(s: Seq<DepositorAccount>, owner: u64)
    ensures
        account_index(s, owner) == -1 || 0 <= account_index(s, owner) < s.len(),
        account_index(s, owner) == -1 ==> forall|j: int|
            0 <= j < s.len() ==> s[j].owner != owner,
        account_index(s, owner) >= 0 ==> s[account_index(s, owner)].owner == owner,
        account_index(s, owner) >= 0 ==> forall|j: int|
            0 <= j < account_index(s, owner) ==> s[j].owner != owner,
    decreases s.len(),
{
    if s.len() == 0 {
    } else if s.first().owner == owner {
    } else {
        lemma_account_index(s.drop_first(), owner);
        assert(forall|j: int|
            1 <= j < s.len() ==> s[j] == s.drop_first()[j - 1]);
    }
}

/// Replacing a row with one of the same owner leaves every other owner's
/// lookup untouched.
pub proof fn lemma_lookup_update_same_owner(
    s: Seq<DepositorAccount>,
    i: int,
    a: DepositorAccount,
    u: u64,
)
    requires
        0 <= i < s.len(),
        a.owner == s[i].owner,
        u != a.owner,
    ensures
        account_index(s.update(i, a), u) == account_index(s, u),
        balance_of(s.update(i, a), u) == balance_of(s, u),
        tickets_of(s.update(i, a), u) == tickets_of(s, u),
    decreases s.len(),
{
    let t = s.update(i, a);
    assert(t.len() == s.len());
    if s.first().owner == u {
    } else {
        if i == 0 {
            assert(t.drop_first() =~= s.drop_first());
        } else {
            assert(t.first() == s.first());
            assert(t.drop_first() =~= s.drop_first().update(i - 1, a));
            assert(s.drop_first()[i - 1] == s[i]);
            lemma_lookup_update_same_owner(s.drop_first(), i - 1, a, u);
        }
    }
    let k = account_index(s, u);
    if k >= 0 {
        lemma_account_index(s, u);
        assert(s[k].owner == u && u != s[i].owner);
        assert(t[k] == s[k]);
    }
}

/// Appending a row leaves every other owner's lookup untouched.
pub proof fn lemma_lookup_push_other(s: Seq<DepositorAccount>, a: DepositorAccount, u: u64)
    requires
        u != a.owner,
    ensures
        account_index(s.push(a), u) == account_index(s, u),
        balance_of(s.push(a), u) == balance_of(s, u),
        tickets_of(s.push(a), u) == tickets_of(s, u),
    decreases s.len(),
{
    let t = s.push(a);
    if s.len() == 0 {
        assert(t.first() == a);
        assert(t.drop_first() =~= Seq::<DepositorAccount>::empty());
        assert(account_index(Seq::<DepositorAccount>::empty(), u) == -1);
    } else {
        assert(t.first() == s.first());
        assert(t.drop_first() =~= s.drop_first().push(a));
        lemma_lookup_push_other(s.drop_first(), a, u);
    }
    let k = account_index(s, u);
    if k >= 0 {
        lemma_account_index(s, u);
        assert(t[k] == s[k]);
    }
}

/// The converse: an index that matches `owner` with no earlier match is what
/// `account_index` returns.
pub proof fn lemma_account_index_of_match(s: Seq<DepositorAccount>, owner: u64, i: int)
    requires
        0 <= i < s.len(),
        s[i].owner == owner,
        forall|j: int| 0 <= j < i ==> s[j].owner != owner,
    ensures
        account_index(s, owner) == i,
    decreases s.len(),
{
    if i == 0 {
    } else {
        assert(s.first().owner != owner);
        assert(forall|j: int|
            0 <= j < i - 1 ==> s.drop_first()[j] == s[j + 1]);
        assert(s.drop_first()[i - 1] == s[i]);
        lemma_account_index_of_match(s.drop_first(), owner, i - 1);
    }
}

} // verus!
