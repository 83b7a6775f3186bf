use vstd::prelude::*;

use crate::msg::{funds_cover, Coin};

verus! {

/// The global singleton record: the counter, and the identity that created the
/// ledger. The owner never changes after initialization.
#[derive(Debug, Clone, PartialEq, Eq)]
pub struct State {
    pub count: i32,
    pub owner: String,
}

/// Balance of `account` in `m`, reading an absent entry as zero.
pub open spec fn bal_of(m: Map<Seq<char>, u128>, account: Seq<char>) -> u128 {
    if m.contains_key(account) {
        m[account]
    } else {
        0
    }
}

/// The mapping that a sequence of (account, balance) pairs stands for;
/// a later pair wins over an earlier one with the same account.
pub open spec fn map_of(s: Seq<(String, u128)>) -> Map<Seq<char>, u128>
    decreases s.len(),
{
    if s.len() == 0 {
        Map::empty()
    } else {
        map_of(s.drop_last()).insert(s.last().0@, s.last().1)
    }
}

/// No two pairs carry the same account.
pub open spec fn distinct_keys(s: Seq<(String, u128)>) -> bool {
    forall|i: int, j: int| 0 <= i < j < s.len() ==> s[i].0@ != s[j].0@
}

/// Every recorded balance is strictly positive.
pub open spec fn all_positive(s: Seq<(String, u128)>) -> bool {
    forall|i: int| 0 <= i < s.len() ==> s[i].1 > 0
}

/// Sum of all balances recorded in `m`.
pub open spec fn map_sum(m: Map<Seq<char>, u128>) -> int
    decreases m.dom().len() when m.dom().finite()
{
    if m.dom().finite() && m.dom().len() > 0 {
        let k = m.dom().choose();
        m[k] + map_sum(m.remove(k))
    } else {
        0
    }
}

/// Taking one entry out of the sum: the sum splits into that entry's balance
/// and the sum of the rest.
pub proof fn lemma_map_sum_remove(m: Map<Seq<char>, u128>, k: Seq<char>)
    requires
        m.dom().finite(),
        m.contains_key(k),
    ensures
        map_sum(m) == map_sum(m.remove(k)) + m[k],
    decreases m.dom().len(),
{
    let k0 = m.dom().choose();
    assert(m.dom().contains(k));
    if k0 == k {
    } else {
        let m1 = m.remove(k0);
        let m2 = m.remove(k);
        lemma_map_sum_remove(m1, k);
        lemma_map_sum_remove(m2, k0);
        assert(m1.remove(k) =~= m2.remove(k0));
    }
}

/// Writing an entry changes the sum by the new balance minus the balance the
/// account had before.
pub proof fn lemma_map_sum_insert(m: Map<Seq<char>, u128>, k: Seq<char>, v: u128)
    requires
        m.dom().finite(),
    ensures
        map_sum(m.insert(k, v)) == map_sum(m) - bal_of(m, k) + v,
{
    let mi = m.insert(k, v);
    lemma_map_sum_remove(mi, k);
    assert(mi.remove(k) =~= m.remove(k));
    if m.contains_key(k) {
        lemma_map_sum_remove(m, k);
    } else {
        assert(m.remove(k) =~= m);
    }
}

/// Balances are unsigned, so the sum is never negative.
pub proof fn lemma_map_sum_nonneg(m: Map<Seq<char>, u128>)
    requires
        m.dom().finite(),
    ensures
        map_sum(m) >= 0,
    decreases m.dom().len(),
{
    if m.dom().len() > 0 {
        let k = m.dom().choose();
        lemma_map_sum_nonneg(m.remove(k));
    }
}

/// A sequence of pairs stands for a mapping over finitely many accounts.
pub proof fn lemma_map_of_finite(s: Seq<(String, u128)>)
    ensures
        map_of(s).dom().finite(),
    decreases s.len(),
{
    if s.len() == 0 {
    } else {
        lemma_map_of_finite(s.drop_last());
    }
}

/// An account is in the mapping exactly when some pair carries it.
pub proof fn lemma_map_of_contains(s: Seq<(String, u128)>, k: Seq<char>)
    ensures
        map_of(s).contains_key(k) <==> exists|i: int| 0 <= i < s.len() && s[i].0@ == k,
    decreases s.len(),
{
    if s.len() == 0 {
    } else {
        lemma_map_of_contains(s.drop_last(), k);
        if s.last().0@ == k {
            assert(s[s.len() - 1].0@ == k);
        } else {
            if exists|i: int| 0 <= i < s.len() && s[i].0@ == k {
                let i = choose|i: int| 0 <= i < s.len() && s[i].0@ == k;
                assert(s.drop_last()[i].0@ == k);
            }
        }
    }
}

/// With distinct accounts, the pair at index `i` gives that account's balance.
pub proof fn lemma_map_of_index(s: Seq<(String, u128)>, i: int)
    requires
        distinct_keys(s),
        0 <= i < s.len(),
    ensures
        map_of(s).contains_key(s[i].0@),
        map_of(s)[s[i].0@] == s[i].1,
    decreases s.len(),
{
    if i == s.len() - 1 {
    } else {
        assert(distinct_keys(s.drop_last()));
        assert(s.drop_last()[i] == s[i]);
        lemma_map_of_index(s.drop_last(), i);
        assert(s[s.len() - 1].0@ != s[i].0@);
    }
}

/// Appending a pair for a fresh account extends the mapping by that entry.
pub proof fn lemma_map_of_push(s: Seq<(String, u128)>, account: String, v: u128)
    ensures
        map_of(s.push((account, v))) == map_of(s).insert(account@, v),
        distinct_keys(s) && (forall|j: int| 0 <= j < s.len() ==> s[j].0@ != account@)
            ==> distinct_keys(s.push((account, v))),
        all_positive(s) && v > 0 ==> all_positive(s.push((account, v))),
{
    let t = s.push((account, v));
    assert(t.drop_last() =~= s);
    assert(t.last() == (account, v));
    if distinct_keys(s) && (forall|j: int| 0 <= j < s.len() ==> s[j].0@ != account@) {
        assert forall|i: int, j: int| 0 <= i < j < t.len() implies t[i].0@ != t[j].0@ by {
            if j < s.len() {
                assert(t[i] == s[i] && t[j] == s[j]);
            } else {
                assert(t[i] == s[i] && t[j] == (account, v));
            }
        }
    }
    if all_positive(s) && v > 0 {
        assert forall|i: int| 0 <= i < t.len() implies t[i].1 > 0 by {
            if i < s.len() {
                assert(t[i] == s[i]);
            }
        }
    }
}

/// Dropping the pair at index `i` removes exactly that account from the mapping.
pub proof fn lemma_map_of_remove(s: Seq<(String, u128)>, i: int)
    requires
        distinct_keys(s),
        0 <= i < s.len(),
    ensures
        map_of(s.remove(i)) == map_of(s).remove(s[i].0@),
        distinct_keys(s.remove(i)),
        all_positive(s) ==> all_positive(s.remove(i)),
        forall|j: int| 0 <= j < s.remove(i).len() ==> s.remove(i)[j].0@ != s[i].0@,
    decreases s.len(),
{
    let t = s.remove(i);
    assert(forall|j: int| 0 <= j < t.len() ==> t[j] == (if j < i {
        s[j]
    } else {
        s[j + 1]
    }));
    assert forall|a: int, b: int| 0 <= a < b < t.len() implies t[a].0@ != t[b].0@ by {
        let a0 = if a < i { a } else { a + 1 };
        let b0 = if b < i { b } else { b + 1 };
        assert(t[a] == s[a0] && t[b] == s[b0]);
        assert(0 <= a0 < b0 < s.len());
    }
    if i == s.len() - 1 {
        assert(t =~= s.drop_last());
        lemma_map_of_contains(s.drop_last(), s[i].0@);
        assert(map_of(t) =~= map_of(s).remove(s[i].0@));
    } else {
        assert(t.drop_last() =~= s.drop_last().remove(i));
        assert(t.last() == s.last());
        assert(distinct_keys(s.drop_last()));
        lemma_map_of_remove(s.drop_last(), i);
        assert(s.drop_last()[i] == s[i]);
        assert(s[s.len() - 1].0@ != s[i].0@);
        assert(map_of(t) =~= map_of(s).remove(s[i].0@));
    }
}

/// The sparse balance mapping: one entry per account, and only while the
/// account's balance is positive.
#[derive(Debug, Clone, PartialEq, Eq)]
pub struct Stakes {
    entries: Vec<(String, u128)>,
}

impl View for Stakes {
    type V = Map<Seq<char>, u128>;

    closed spec fn view(&self) -> Map<Seq<char>, u128> {
        map_of(self.entries@)
    }
}

impl Stakes {
    /// Accounts are distinct and every recorded balance is strictly positive;
    /// an absent entry stands for a balance of zero.
    pub closed spec fn wf(self) -> bool {
        distinct_keys(self.entries@) && all_positive(self.entries@)
    }

    /// What well-formedness gives at the level of the mapping: finitely many
    /// accounts, each with a positive balance.
    pub proof fn lemma_view_invariant(self)
        requires
            self.wf(),
        ensures
            self@.dom().finite(),
            forall|k: Seq<char>| self@.contains_key(k) ==> self@[k] > 0,
    {
        lemma_map_of_finite(self.entries@);
        assert forall|k: Seq<char>| self@.contains_key(k) implies self@[k] > 0 by {
            lemma_map_of_contains(self.entries@, k);
            let i = choose|i: int| 0 <= i < self.entries@.len() && self.entries@[i].0@ == k;
            lemma_map_of_index(self.entries@, i);
        }
    }

    /// An empty mapping: every account's balance is zero.
    pub fn new() -> (s: Stakes)
        ensures
            s.wf(),
            s@ == Map::<Seq<char>, u128>::empty(),
    {
        let s = Stakes { entries: Vec::new() };
        proof {
            assert(s@ =~= Map::<Seq<char>, u128>::empty());
        }
        s
    }

    /// Index of the entry carrying `account`, if one exists.
    fn find(&self, account: &String) -> (r: Option<usize>)
        ensures
            match r {
                Some(i) => i < self.entries@.len() && self.entries@[i as int].0@ == account@,
                None => forall|j: int|
                    0 <= j < self.entries@.len() ==> self.entries@[j].0@ != account@,
            },
    {
        let mut i: usize = 0;
        while i < self.entries.len()
            invariant
                i <= self.entries@.len(),
                forall|j: int| 0 <= j < i ==> self.entries@[j].0@ != account@,
            decreases self.entries@.len() - i,
        {
            if self.entries[i].0 == *account {
                return Some(i);
            }
            i = i + 1;
        }
        None
    }

    /// Current balance of `account`; zero when no entry is present.
    pub fn get_stake(&self, account: &String) -> (bal: u128)
        requires
            self.wf(),
        ensures
            bal == bal_of(self@, account@),
    {
        match self.find(account) {
            Some(i) => {
                proof {
                    lemma_map_of_index(self.entries@, i as int);
                }
                self.entries[i].1
            },
            None => {
                proof {
                    lemma_map_of_contains(self.entries@, account@);
                }
                0
            },
        }
    }

    /// Overwrite `account`'s balance. A zero balance removes the entry, so the
    /// mapping stays sparse; any other balance upserts it.
    pub fn set_stake(&mut self, account: &String, balance: u128)
        requires
            old(self).wf(),
        ensures
            final(self).wf(),
            final(self)@ == (if balance == 0 {
                old(self)@.remove(account@)
            } else {
                old(self)@.insert(account@, balance)
            }),
            map_sum(final(self)@) == map_sum(old(self)@) - bal_of(old(self)@, account@)
                + balance,
    {
        proof {
            lemma_map_of_finite(old(self).entries@);
        }
        let ghost m0 = self@;
        let ghost s0 = self.entries@;
        match self.find(account) {
            Some(i) => {
                proof {
                    lemma_map_of_index(s0, i as int);
                    lemma_map_of_remove(s0, i as int);
                }
                self.entries.remove(i);
            },
            None => {
                proof {
                    lemma_map_of_contains(s0, account@);
                    assert(m0.remove(account@) =~= m0);
                }
            },
        }
        assert(self.wf());
        assert(self@ == m0.remove(account@));
        assert(forall|j: int| 0 <= j < self.entries@.len() ==> self.entries@[j].0@ != account@);
        if balance > 0 {
            let ghost s1 = self.entries@;
            self.entries.push((account.clone(), balance));
            proof {
                lemma_map_of_push(s1, *account, balance);
                assert(m0.remove(account@).insert(account@, balance) =~= m0.insert(
                    account@,
                    balance,
                ));
            }
        }
        proof {
            if balance == 0 {
                if m0.contains_key(account@) {
                    lemma_map_sum_remove(m0, account@);
                } else {
                    assert(m0.remove(account@) =~= m0);
                }
            } else {
                lemma_map_sum_insert(m0, account@, balance);
            }
        }
    }
}

/// The whole durable ledger: the optional global record, and the stake mapping.
#[derive(Debug, Clone, PartialEq, Eq)]
pub struct Ledger {
    pub state: Option<State>,
    pub stakes: Stakes,
}

impl Ledger {
    pub open spec fn wf(self) -> bool {
        self.stakes.wf()
    }

    /// The global record exists.
    pub open spec fn is_initialized(self) -> bool {
        self.state is Some
    }

    /// The global counter; meaningful only once initialized.
    pub open spec fn counter(self) -> i32
        recommends
            self.is_initialized(),
    {
        self.state->0.count
    }

    /// The identity recorded as owner at initialization.
    pub open spec fn owner_id(self) -> Seq<char>
        recommends
            self.is_initialized(),
    {
        self.state->0.owner@
    }

    /// Sum of all staked balances.
    pub open spec fn total_staked(self) -> int {
        map_sum(self.stakes@)
    }

    /// A fresh, uninitialized ledger with no stakes.
    pub fn new() -> (l: Ledger)
        ensures
            l.wf(),
            !l.is_initialized(),
            l.stakes@ == Map::<Seq<char>, u128>::empty(),
    {
        Ledger { state: None, stakes: Stakes::new() }
    }
}

/// One accepted stake: the staker's balance grows by `amount`.
pub open spec fn stake_transition(
    m: Map<Seq<char>, u128>,
    staker: Seq<char>,
    amount: u128,
) -> Map<Seq<char>, u128>
    recommends
        bal_of(m, staker) + amount <= u128::MAX,
{
    m.insert(staker, (bal_of(m, staker) + amount) as u128)
}

/// One accepted unstake: the staker's balance shrinks by `amount`, and the
/// entry goes away when it reaches zero.
pub open spec fn unstake_transition(
    m: Map<Seq<char>, u128>,
    staker: Seq<char>,
    amount: u128,
) -> Map<Seq<char>, u128>
    recommends
        amount <= bal_of(m, staker),
{
    if bal_of(m, staker) == amount {
        m.remove(staker)
    } else {
        m.insert(staker, (bal_of(m, staker) - amount) as u128)
    }
}

/// One attempted balance mutation, with everything its acceptance depends on.
pub enum LedgerCall {
    Stake { staker: Seq<char>, funds: Seq<Coin>, amount: u128 },
    Unstake { staker: Seq<char>, amount: u128 },
}

/// Whether the ledger at `m` accepts the call: the conditions under which the
/// corresponding handler returns success.
pub open spec fn call_accepted(m: Map<Seq<char>, u128>, c: LedgerCall) -> bool {
    match c {
        LedgerCall::Stake { staker, funds, amount } => {
            &&& funds_cover(funds, amount)
            &&& amount > 0
            &&& bal_of(m, staker) + amount <= u128::MAX
        },
        LedgerCall::Unstake { staker, amount } => amount <= bal_of(m, staker),
    }
}

/// The mapping after one attempted call: the transition if the call is
/// accepted, the unchanged mapping if it is rejected.
pub open spec fn apply_call(m: Map<Seq<char>, u128>, c: LedgerCall) -> Map<Seq<char>, u128> {
    if call_accepted(m, c) {
        match c {
            LedgerCall::Stake { staker, amount, .. } => stake_transition(m, staker, amount),
            LedgerCall::Unstake { staker, amount } => unstake_transition(m, staker, amount),
        }
    } else {
        m
    }
}

/// What one attempted call adds to the ledger (negative for an unstake);
/// a rejected call adds nothing.
pub open spec fn call_delta(m: Map<Seq<char>, u128>, c: LedgerCall) -> int {
    if call_accepted(m, c) {
        match c {
            LedgerCall::Stake { amount, .. } => amount as int,
            LedgerCall::Unstake { amount, .. } => -(amount as int),
        }
    } else {
        0
    }
}

} // verus!
