//! The wallet ledger: balances keyed by wallet id.
use crate::transactions::{Transaction, TransactionModel};
use vstd::prelude::*;

verus! {

pub struct Wallet {
    pub id: String,
    pub balance: i32,
}

pub open spec fn fits_i32(x: int) -> bool {
    i32::MIN <= x <= i32::MAX
}

/// Whether `t` can be applied to the balances `m`: both wallets exist, the
/// sender holds at least `amount`, and neither new balance leaves `i32`.
pub open spec fn can_apply(m: Map<Seq<char>, int>, t: TransactionModel) -> bool {
    &&& m.contains_key(t.from)
    &&& m.contains_key(t.to)
    &&& m[t.from] >= t.amount
    &&& fits_i32(m[t.from] - t.amount)
    &&& (t.from == t.to || fits_i32(m[t.to] + t.amount))
}

/// The balances after debiting `from` and then crediting `to`.
pub open spec fn applied(m: Map<Seq<char>, int>, t: TransactionModel) -> Map<Seq<char>, int> {
    let debited = m.insert(t.from, m[t.from] - t.amount);
    debited.insert(t.to, debited[t.to] + t.amount)
}

pub open spec fn sum_balances(s: Seq<Wallet>) -> int
    decreases s.len(),
{
    if s.len() == 0 {
        0
    } else {
        sum_balances(s.drop_last()) + s.last().balance
    }
}

proof fn lemma_sum_update(s: Seq<Wallet>, i: int, w: Wallet)
    requires
        0 <= i < s.len(),
    ensures
        sum_balances(s.update(i, w)) == sum_balances(s) - s[i].balance + w.balance,
    decreases s.len(),
{
    let u = s.update(i, w);
    if i == s.len() - 1 {
        assert(u.drop_last() =~= s.drop_last());
    } else {
        lemma_sum_update(s.drop_last(), i, w);
        assert(u.drop_last() =~= s.drop_last().update(i, w));
    }
}

/// The sum of `m`'s values at the keys `ids`.
pub open spec fn sum_listed(ids: Seq<Seq<char>>, m: Map<Seq<char>, int>) -> int
    decreases ids.len(),
{
    if ids.len() == 0 {
        0
    } else {
        sum_listed(ids.drop_last(), m) + m[ids.last()]
    }
}

proof fn lemma_sum_listed(s: Seq<Wallet>, m: Map<Seq<char>, int>)
    requires
        forall|i: int| 0 <= i < s.len() ==> m[#[trigger] s[i].id@] == s[i].balance,
    ensures
        sum_listed(s.map_values(|w: Wallet| w.id@), m) == sum_balances(s),
    decreases s.len(),
{
    if s.len() > 0 {
        lemma_sum_listed(s.drop_last(), m);
        assert(s.drop_last().map_values(|w: Wallet| w.id@) =~= s.map_values(|w: Wallet| w.id@).drop_last());
        assert(m[s[s.len() - 1].id@] == s[s.len() - 1].balance);
    }
}

/// Relies on uuid's `Uuid::new_v4` and its hyphenated `Display` form: a fresh
/// random identifier of 36 characters.
#[verifier::external_body]
fn new_wallet_id() -> (r: String)
    ensures
        r@.len() == 36,
{
    uuid::Uuid::new_v4().to_string()
}

pub struct Ledger {
    wallets: Vec<Wallet>,
    balances: Ghost<Map<Seq<char>, int>>,
}

impl Ledger {
    /// The balance of each wallet, by id.
    pub closed spec fn balances(&self) -> Map<Seq<char>, int> {
        self.balances@
    }

    /// The sum of all balances.
    pub closed spec fn total(&self) -> int {
        sum_balances(self.wallets@)
    }

    pub closed spec fn wf(&self) -> bool {
        &&& forall|i: int, j: int|
            0 <= i < j < self.wallets@.len() ==> self.wallets@[i].id@ != self.wallets@[j].id@
        &&& forall|i: int|
            0 <= i < self.wallets@.len() ==> #[trigger] self.balances@.contains_key(
                self.wallets@[i].id@,
            ) && self.balances@[self.wallets@[i].id@] == self.wallets@[i].balance
        &&& forall|k: Seq<char>|
            #[trigger] self.balances@.contains_key(k) ==> exists|i: int|
                0 <= i < self.wallets@.len() && self.wallets@[i].id@ == k
    }

    /// The total is the sum of the balances, each wallet counted once: `ids`
    /// lists every wallet id exactly once.
    pub proof fn lemma_total_is_sum(&self) -> (ids: Seq<Seq<char>>)
        requires
            self.wf(),
        ensures
            ids.no_duplicates(),
            ids.to_set() == self.balances().dom(),
            self.total() == sum_listed(ids, self.balances()),
    {
        let s = self.wallets@;
        let m = self.balances@;
        let ids = s.map_values(|w: Wallet| w.id@);
        assert forall|i: int| 0 <= i < s.len() implies m[#[trigger] s[i].id@] == s[i].balance by {
            assert(m.contains_key(s[i].id@));
        }
        lemma_sum_listed(s, m);
        assert forall|i: int, j: int| 0 <= i < ids.len() && 0 <= j < ids.len() && i != j implies ids[i]
            != ids[j] by {
            if i < j {
                assert(s[i].id@ != s[j].id@);
            } else {
                assert(s[j].id@ != s[i].id@);
            }
        }
        assert forall|k: Seq<char>| ids.to_set().contains(k) == m.dom().contains(k) by {
            if ids.to_set().contains(k) {
                let i = choose|i: int| 0 <= i < ids.len() && ids[i] == k;
                assert(m.contains_key(s[i].id@));
            }
            if m.contains_key(k) {
                let i = choose|i: int| 0 <= i < s.len() && s[i].id@ == k;
                assert(ids[i] == k);
            }
        }
        assert(ids.to_set() =~= m.dom());
        ids
    }

    pub fn new() -> (r: Ledger)
        ensures
            r.wf(),
            r.balances() == Map::<Seq<char>, int>::empty(),
            r.total() == 0,
    {
        Ledger { wallets: Vec::new(), balances: Ghost(Map::empty()) }
    }

    fn find(&self, id: &String) -> (r: Option<usize>)
        requires
            self.wf(),
        ensures
            match r {
                Some(i) => {
                    &&& i < self.wallets@.len()
                    &&& self.wallets@[i as int].id@ == id@
                    &&& self.balances().contains_key(id@)
                    &&& self.balances()[id@] == self.wallets@[i as int].balance
                },
                None => !self.balances().contains_key(id@),
            },
    {
        let mut i: usize = 0;
        while i < self.wallets.len()
            invariant
                self.wf(),
                i <= self.wallets@.len(),
                forall|j: int| 0 <= j < i ==> self.wallets@[j].id@ != id@,
            decreases self.wallets@.len() - i,
        {
            if self.wallets[i].id == *id {
                assert(self.balances@.contains_key(self.wallets@[i as int].id@));
                return Some(i);
            }
            i = i + 1;
        }
        None
    }

    fn set_balance(&mut self, i: usize, balance: i32)
        requires
            old(self).wf(),
            i < old(self).wallets@.len(),
        ensures
            final(self).wf(),
            final(self).balances() == old(self).balances().insert(
                old(self).wallets@[i as int].id@,
                balance as int,
            ),
            final(self).total() == old(self).total() - old(self).wallets@[i as int].balance
                + balance,
            final(self).wallets@.len() == old(self).wallets@.len(),
            forall|j: int|
                0 <= j < old(self).wallets@.len() ==> #[trigger] final(self).wallets@[j].id@ == old(
                    self,
                ).wallets@[j].id@,
            forall|j: int|
                0 <= j < old(self).wallets@.len() && j != i ==> #[trigger] final(self).wallets@[j]
                    == old(self).wallets@[j],
    {
        let ghost before = self.wallets@;
        let ghost id = self.wallets@[i as int].id@;
        self.wallets[i].balance = balance;
        self.balances = Ghost(self.balances@.insert(id, balance as int));
        proof {
            let w = Wallet { id: before[i as int].id, balance };
            assert(self.wallets@ =~= before.update(i as int, w));
            lemma_sum_update(before, i as int, w);
            assert forall|j: int| 0 <= j < self.wallets@.len() implies #[trigger]
                self.balances@.contains_key(self.wallets@[j].id@) && self.balances@[self.wallets@[j].id@]
                == self.wallets@[j].balance by {
                if j != i {
                    assert(before[j].id@ != id);
                }
            }
            assert forall|k: Seq<char>| #[trigger] self.balances@.contains_key(k) implies exists|
                j: int,
            |
                0 <= j < self.wallets@.len() && self.wallets@[j].id@ == k by {
                if k != id {
                    let j = choose|j: int| 0 <= j < before.len() && before[j].id@ == k;
                    assert(self.wallets@[j].id@ == k);
                } else {
                    assert(self.wallets@[i as int].id@ == k);
                }
            }
        }
    }

    /// Sets the wallet `id` to `balance`, adding it when it is not there: how a
    /// wallet announced by a peer is mirrored under the peer's id.
    pub fn insert_wallet(&mut self, id: String, balance: i32)
        requires
            old(self).wf(),
        ensures
            final(self).wf(),
            final(self).balances() == old(self).balances().insert(id@, balance as int),
    {
        match self.find(&id) {
            Some(i) => self.set_balance(i, balance),
            None => {
                self.insert_new(id, balance);
            },
        }
    }

    /// Adds the wallet `id` with `balance` unless a wallet with that id is
    /// already there; returns whether it was added.
    pub fn insert_new(&mut self, id: String, balance: i32) -> (r: bool)
        requires
            old(self).wf(),
        ensures
            final(self).wf(),
            r == !old(self).balances().contains_key(id@),
            r ==> final(self).balances() == old(self).balances().insert(id@, balance as int),
            !r ==> final(self).balances() == old(self).balances(),
            final(self).total() == old(self).total() + (if r {
                balance as int
            } else {
                0
            }),
    {
        match self.find(&id) {
            Some(_) => false,
            None => {
                let ghost before = self.wallets@;
                let ghost key = id@;
                self.wallets.push(Wallet { id, balance });
                self.balances = Ghost(self.balances@.insert(key, balance as int));
                proof {
                    assert(self.wallets@.drop_last() =~= before);
                    assert forall|k: Seq<char>| #[trigger]
                        self.balances@.contains_key(k) implies exists|j: int|
                        0 <= j < self.wallets@.len() && self.wallets@[j].id@ == k by {
                        if k != key {
                            let j = choose|j: int| 0 <= j < before.len() && before[j].id@ == k;
                            assert(self.wallets@[j].id@ == k);
                        } else {
                            assert(self.wallets@[before.len() as int].id@ == k);
                        }
                    }
                }
                true
            },
        }
    }

    /// Creates a wallet under a freshly drawn random id and returns that id;
    /// `None`, with nothing changed, when the id drawn is already in use,
    /// which can only happen once some wallet holds an id of that shape.
    pub fn create(&mut self, initial_balance: i32) -> (r: Option<String>)
        requires
            old(self).wf(),
        ensures
            final(self).wf(),
            match r {
                Some(id) => {
                    &&& id@.len() == 36
                    &&& !old(self).balances().contains_key(id@)
                    &&& final(self).balances() == old(self).balances().insert(
                        id@,
                        initial_balance as int,
                    )
                },
                None => {
                    &&& final(self).balances() == old(self).balances()
                    &&& exists|k: Seq<char>| old(self).balances().contains_key(k) && k.len() == 36
                },
            },
    {
        let id = new_wallet_id();
        let r = id.clone();
        if self.insert_new(id, initial_balance) {
            Some(r)
        } else {
            assert(old(self).balances().contains_key(r@) && r@.len() == 36);
            None
        }
    }

    /// The balance of wallet `id`, if there is one.
    pub fn balance(&self, id: &String) -> (r: Option<i32>)
        requires
            self.wf(),
        ensures
            r == (if self.balances().contains_key(id@) {
                Some(self.balances()[id@] as i32)
            } else {
                None::<i32>
            }),
            r.is_some() ==> fits_i32(self.balances()[id@]),
    {
        match self.find(id) {
            Some(i) => Some(self.wallets[i].balance),
            None => None,
        }
    }

    /// Moves `t.amount` from `t.from` to `t.to`. Both wallets must exist and
    /// the sender must hold at least the amount; a transfer whose result would
    /// leave `i32` fails as well. Nothing is changed unless it succeeds.
    pub fn apply(&mut self, t: &Transaction) -> (r: bool)
        requires
            old(self).wf(),
        ensures
            final(self).wf(),
            r == can_apply(old(self).balances(), t@),
            r ==> final(self).balances() == applied(old(self).balances(), t@),
            !r ==> final(self).balances() == old(self).balances(),
            final(self).total() == old(self).total(),
            r && t.from@ != t.to@ ==> {
                &&& final(self).balances()[t.from@] == old(self).balances()[t.from@] - t.amount
                &&& final(self).balances()[t.to@] == old(self).balances()[t.to@] + t.amount
            },
            old(self).balances().contains_key(t.from@) && t.amount > old(
                self,
            ).balances()[t.from@] ==> !r && final(self).balances() == old(self).balances(),
    {
        let f = match self.find(&t.from) {
            Some(i) => i,
            None => return false,
        };
        let to = match self.find(&t.to) {
            Some(i) => i,
            None => return false,
        };
        assert(f != to ==> t.from@ != t.to@);
        let sender = self.wallets[f].balance;
        if sender < t.amount {
            return false;
        }
        let debited = sender as i64 - t.amount as i64;
        if debited > i32::MAX as i64 {
            return false;
        }
        if f == to {
            proof {
                let m = self.balances@;
                assert(applied(m, t@) =~= m);
            }
            return true;
        }
        let credited = self.wallets[to].balance as i64 + t.amount as i64;
        if credited < i32::MIN as i64 || credited > i32::MAX as i64 {
            return false;
        }
        self.set_balance(f, debited as i32);
        self.set_balance(to, credited as i32);
        true
    }
}

} // verus!
