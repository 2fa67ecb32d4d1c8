//! Account state owned by the ledger.
//!
//! Each account, keyed by its public key id, carries a nonce (the number of
//! its transactions committed so far) and an integer balance. An account
//! that was never referenced reads as `{nonce: 0, balance: 0}`. The map is
//! specified by two observations: the `Map` from key to account it denotes,
//! and the sum of all balances, which `set_account` adjusts by exactly the
//! balance it replaces — the fact the balance-conservation argument rests
//! on.

use vstd::prelude::*;
use vstd::map::*;

verus! {

/// One account: its next expected nonce and its balance.
#[derive(Clone, Copy, PartialEq, Eq, Structural, Debug)]
pub struct AccountState {
    pub nonce: u64,
    pub balance: u64,
}

impl View for AccountState {
    type V = AccountState;

    open spec fn view(&self) -> AccountState {
        *self
    }
}

impl DeepView for AccountState {
    type V = AccountState;

    open spec fn deep_view(&self) -> AccountState {
        *self
    }
}

impl AccountState {
    /// The state of an account that was never referenced.
    pub open spec fn spec_default() -> AccountState {
        AccountState { nonce: 0, balance: 0 }
    }

    /// The state of an account that was never referenced.
    pub fn new_default() -> (a: AccountState)
        ensures
            a == AccountState::spec_default(),
    {
        AccountState { nonce: 0, balance: 0 }
    }
}

/// The account `m` associates with `k`, defaulting to the zero account.
pub open spec fn account_of(m: Map<Seq<char>, AccountState>, k: Seq<char>) -> AccountState {
    if m.contains_key(k) {
        m[k]
    } else {
        AccountState::spec_default()
    }
}

struct AccountEntry {
    id: String,
    account: AccountState,
}

/// All entry keys are distinct.
spec fn keys_distinct(s: Seq<AccountEntry>) -> bool {
    forall|i: int, j: int| 0 <= i < j < s.len() ==> s[i].id@ != s[j].id@
}

/// The map an entry sequence denotes.
spec fn seq_map_view(s: Seq<AccountEntry>) -> Map<Seq<char>, AccountState>
    decreases s.len(),
{
    if s.len() == 0 {
        Map::<Seq<char>, AccountState>::empty()
    } else {
        seq_map_view(s.drop_last()).insert(s.last().id@, s.last().account)
    }
}

/// The sum of all balances in an entry sequence.
spec fn seq_total(s: Seq<AccountEntry>) -> int
    decreases s.len(),
{
    if s.len() == 0 {
        0int
    } else {
        seq_total(s.drop_last()) + s.last().account.balance
    }
}

proof fn lemma_seq_map_view_index(s: Seq<AccountEntry>, i: int)
    requires
        keys_distinct(s),
        0 <= i < s.len(),
    ensures
        seq_map_view(s).contains_key(s[i].id@),
        seq_map_view(s)[s[i].id@] == s[i].account,
    decreases s.len(),
{
    if i < s.len() - 1 {
        assert(s.drop_last()[i] == s[i]);
        lemma_seq_map_view_index(s.drop_last(), i);
        assert(s[i].id@ != s.last().id@);
    }
}

proof fn lemma_seq_map_view_contains(s: Seq<AccountEntry>, k: Seq<char>)
    requires
        seq_map_view(s).contains_key(k),
    ensures
        exists|j: int| 0 <= j < s.len() && s[j].id@ == k,
    decreases s.len(),
{
    if s.len() > 0 && s.last().id@ != k {
        lemma_seq_map_view_contains(s.drop_last(), k);
        let j = choose|j: int| 0 <= j < s.drop_last().len() && s.drop_last()[j].id@ == k;
        assert(s[j].id@ == k);
    }
}

proof fn lemma_seq_map_view_absent(s: Seq<AccountEntry>, k: Seq<char>)
    requires
        forall|j: int| 0 <= j < s.len() ==> s[j].id@ != k,
    ensures
        !seq_map_view(s).contains_key(k),
    decreases s.len(),
{
    if s.len() > 0 {
        lemma_seq_map_view_absent(s.drop_last(), k);
    }
}

proof fn lemma_seq_update(s: Seq<AccountEntry>, i: int, e: AccountEntry)
    requires
        keys_distinct(s),
        0 <= i < s.len(),
        e.id@ == s[i].id@,
    ensures
        keys_distinct(s.update(i, e)),
        seq_map_view(s.update(i, e)) == seq_map_view(s).insert(e.id@, e.account),
        seq_total(s.update(i, e)) == seq_total(s) - s[i].account.balance + e.account.balance,
    decreases s.len(),
{
    let t = s.update(i, e);
    assert forall|p: int, q: int| 0 <= p < q < t.len() implies t[p].id@ != t[q].id@ by {
        assert(s[p].id@ != s[q].id@);
    }
    if i == s.len() - 1 {
        assert(t.drop_last() =~= s.drop_last());
        assert(seq_map_view(t) =~= seq_map_view(s).insert(e.id@, e.account));
    } else {
        assert(t.drop_last() =~= s.drop_last().update(i, e));
        assert(s.drop_last()[i] == s[i]);
        lemma_seq_update(s.drop_last(), i, e);
        assert(t.last() == s.last());
        assert(e.id@ != s.last().id@);
        assert(seq_map_view(t) =~= seq_map_view(s).insert(e.id@, e.account));
    }
}

/// The ledger's account table.
pub struct Accounts {
    entries: Vec<AccountEntry>,
}

impl Accounts {
    /// All keys are distinct, so the table denotes its map uniquely.
    pub closed spec fn wf(self) -> bool {
        keys_distinct(self.entries@)
    }

    /// The map from public key id to account this table denotes.
    pub closed spec fn map_view(self) -> Map<Seq<char>, AccountState> {
        seq_map_view(self.entries@)
    }

    /// The sum of all balances in the table.
    pub closed spec fn total(self) -> int {
        seq_total(self.entries@)
    }

    /// An empty account table.
    pub fn new() -> (r: Accounts)
        ensures
            r.wf(),
            r.map_view() == Map::<Seq<char>, AccountState>::empty(),
            r.total() == 0,
    {
        Accounts { entries: Vec::new() }
    }

    /// The account stored for `id`, defaulting to the zero account.
    pub fn get_account(&self, id: &String) -> (a: AccountState)
        requires
            self.wf(),
        ensures
            a == account_of(self.map_view(), id@),
    {
        let n = self.entries.len();
        let mut i: usize = 0;
        while i < n
            invariant
                self.wf(),
                n == self.entries@.len(),
                i <= n,
                forall|j: int| 0 <= j < i ==> self.entries@[j].id@ != id@,
            decreases n - i,
        {
            if self.entries[i].id == *id {
                proof {
                    lemma_seq_map_view_index(self.entries@, i as int);
                }
                return self.entries[i].account;
            }
            i = i + 1;
        }
        proof {
            lemma_seq_map_view_absent(self.entries@, id@);
        }
        AccountState::new_default()
    }

    /// Stores `a` as the account of `id`, replacing any previous account.
    /// The total of all balances changes by exactly the difference between
    /// the new balance and the one replaced.
    pub fn set_account(&mut self, id: &String, a: AccountState)
        requires
            old(self).wf(),
        ensures
            final(self).wf(),
            final(self).map_view() == old(self).map_view().insert(id@, a),
            final(self).total() == old(self).total() - account_of(
                old(self).map_view(),
                id@,
            ).balance as int + a.balance as int,
    {
        let n = self.entries.len();
        let mut i: usize = 0;
        while i < n
            invariant
                self.wf(),
                *self == *old(self),
                n == self.entries@.len(),
                i <= n,
                forall|j: int| 0 <= j < i ==> self.entries@[j].id@ != id@,
            decreases n - i,
        {
            if self.entries[i].id == *id {
                proof {
                    lemma_seq_map_view_index(self.entries@, i as int);
                    lemma_seq_update(
                        self.entries@,
                        i as int,
                        AccountEntry { id: self.entries@[i as int].id, account: a },
                    );
                }
                self.entries[i].account = a;
                return ;
            }
            i = i + 1;
        }
        proof {
            lemma_seq_map_view_absent(self.entries@, id@);
        }
        let entry = AccountEntry { id: id.clone(), account: a };
        self.entries.push(entry);
        proof {
            assert(self.entries@.drop_last() =~= old(self).entries@);
        }
    }

    /// Every account as a key–account pair, one per key: what the map
    /// holds, laid out for a caller that must walk it (persistence writes
    /// the snapshot from this).
    pub fn to_entries(&self) -> (r: Vec<(String, AccountState)>)
        requires
            self.wf(),
        ensures
            forall|i: int|
                0 <= i < r.deep_view().len() ==> self.map_view().contains_key(
                    #[trigger] r.deep_view()[i].0,
                ) && self.map_view()[r.deep_view()[i].0] == r.deep_view()[i].1,
            forall|i: int, j: int|
                0 <= i < j < r.deep_view().len() ==> r.deep_view()[i].0 != r.deep_view()[j].0,
            forall|k: Seq<char>|
                self.map_view().contains_key(k) ==> exists|i: int|
                    0 <= i < r.deep_view().len() && #[trigger] r.deep_view()[i].0 == k,
    {
        let n = self.entries.len();
        let mut r: Vec<(String, AccountState)> = Vec::new();
        let mut i: usize = 0;
        while i < n
            invariant
                self.wf(),
                n == self.entries@.len(),
                i <= n,
                r.deep_view().len() == i,
                forall|j: int|
                    0 <= j < i ==> #[trigger] r.deep_view()[j] == (
                        self.entries@[j].id@,
                        self.entries@[j].account,
                    ),
            decreases n - i,
        {
            let ghost prev = r.deep_view();
            r.push((self.entries[i].id.clone(), self.entries[i].account));
            proof {
                assert(r.deep_view() =~= prev.push(
                    (self.entries@[i as int].id@, self.entries@[i as int].account),
                ));
            }
            i = i + 1;
        }
        proof {
            assert forall|i2: int| 0 <= i2 < r.deep_view().len() implies ({
                let entry = #[trigger] r.deep_view()[i2];
                self.map_view().contains_key(entry.0) && self.map_view()[entry.0] == entry.1
            }) by {
                lemma_seq_map_view_index(self.entries@, i2);
            }
            assert forall|k: Seq<char>| self.map_view().contains_key(k) implies exists|i2: int|
                0 <= i2 < r.deep_view().len() && #[trigger] r.deep_view()[i2].0 == k by {
                lemma_seq_map_view_contains(self.entries@, k);
                let j = choose|j: int| 0 <= j < self.entries@.len() && self.entries@[j].id@ == k;
                assert(r.deep_view()[j].0 == k);
            }
        }
        r
    }

    /// An independent copy: the working state a block's transactions are
    /// validated against before anything is committed.
    pub fn duplicate(&self) -> (r: Accounts)
        ensures
            r.wf() == self.wf(),
            r.map_view() == self.map_view(),
            r.total() == self.total(),
    {
        let mut entries: Vec<AccountEntry> = Vec::new();
        let n = self.entries.len();
        let mut i: usize = 0;
        while i < n
            invariant
                n == self.entries@.len(),
                i <= n,
                entries@ =~= self.entries@.take(i as int),
            decreases n - i,
        {
            let e = AccountEntry {
                id: self.entries[i].id.clone(),
                account: self.entries[i].account,
            };
            entries.push(e);
            proof {
                assert(self.entries@.take(i + 1).drop_last() =~= self.entries@.take(i as int));
            }
            i = i + 1;
        }
        proof {
            assert(self.entries@.take(n as int) =~= self.entries@);
        }
        let r = Accounts { entries };
        proof {
            assert(r.entries@ == self.entries@);
        }
        r
    }
}

} // verus!
