use vstd::prelude::*;

use crate::error::Error;

verus! {

/// Identifies an account. The hosting environment supplies it with each call
/// and the ledger uses it verbatim as a key; nothing here validates it.
pub type AccountId = u128;

/// A non-negative quantity of tokens.
pub type Balance = u128;

/// The sum of the balances recorded in a ledger's entry list.
pub open spec fn sum_balances(s: Seq<(AccountId, Balance)>) -> int
    decreases s.len(),
{
    if s.len() == 0 {
        0
    } else {
        s[0].1 + sum_balances(s.drop_first())
    }
}

/// The balance that an entry list records for `account`: the value of its
/// first entry for that key, or zero when no entry carries it.
pub open spec fn lookup(s: Seq<(AccountId, Balance)>, account: AccountId) -> Balance
    decreases s.len(),
{
    if s.len() == 0 {
        0
    } else if s[0].0 == account {
        s[0].1
    } else {
        lookup(s.drop_first(), account)
    }
}

/// No two entries share an account key.
pub open spec fn unique_keys(s: Seq<(AccountId, Balance)>) -> bool {
    forall|i: int, j: int| 0 <= i < j < s.len() ==> s[i].0 != s[j].0
}

/// Every recorded balance is nonzero: an account with no history has no
/// entry, so a missing key always means balance zero.
pub open spec fn all_nonzero(s: Seq<(AccountId, Balance)>) -> bool {
    forall|i: int| 0 <= i < s.len() ==> s[i].1 > 0
}

/// A balance ledger: per-account balances together with a total-supply
/// counter that is kept equal to their sum rather than recomputed on reads.
#[derive(Debug)]
pub struct Token {
    total_supply: Balance,
    balances: Vec<(AccountId, Balance)>,
}

impl Token {
    /// The recorded entries, as a mathematical sequence.
    pub closed spec fn spec_balances(self) -> Seq<(AccountId, Balance)> {
        self.balances@
    }

    /// The total-supply counter.
    pub closed spec fn spec_total(self) -> Balance {
        self.total_supply
    }

    /// The balance the ledger attributes to `account`.
    pub open spec fn spec_balance_of(self, account: AccountId) -> Balance {
        lookup(self.spec_balances(), account)
    }

    /// Well-formedness: keys are unique, recorded balances are nonzero, and
    /// the total supply equals the sum of all balances (conservation).
    pub open spec fn inv(self) -> bool {
        &&& unique_keys(self.spec_balances())
        &&& all_nonzero(self.spec_balances())
        &&& self.spec_total() as int == sum_balances(self.spec_balances())
    }

    /// Constructs a ledger whose whole supply belongs to `owner`; a zero
    /// supply yields a ledger with no entries at all.
    pub fn new(initial_supply: Balance, owner: AccountId) -> (t: Token)
        ensures
            t.inv(),
            t.spec_total() == initial_supply,
            t.spec_balance_of(owner) == initial_supply,
            forall|a: AccountId| a != owner ==> t.spec_balance_of(a) == 0,
    {
        let mut balances: Vec<(AccountId, Balance)> = Vec::new();
        if initial_supply > 0 {
            balances.push((owner, initial_supply));
        }
        let t = Token { total_supply: initial_supply, balances };
        proof {
            assert(sum_balances(Seq::<(AccountId, Balance)>::empty()) == 0);
            if initial_supply > 0 {
                assert(t.spec_balances().drop_first() =~= Seq::<(AccountId, Balance)>::empty());
                assert(sum_balances(t.spec_balances()) == initial_supply + sum_balances(
                    t.spec_balances().drop_first(),
                ));
            } else {
                assert(t.spec_balances() =~= Seq::<(AccountId, Balance)>::empty());
            }
            assert forall|a: AccountId| a != owner implies t.spec_balance_of(a) == 0 by {
                lemma_lookup_absent(t.spec_balances(), a);
            }
        }
        t
    }

    /// Returns the total supply. A pure read: the result is a function of the
    /// ledger's state alone, so repeated calls between mutations agree.
    pub fn total_supply(&self) -> (r: Balance)
        ensures
            r == self.spec_total(),
    {
        self.total_supply
    }

    /// Returns the balance of `owner`, or zero when no entry exists for it.
    /// A pure read, total for every account.
    pub fn balance_of(&self, owner: AccountId) -> (r: Balance)
        ensures
            r == self.spec_balance_of(owner),
    {
        self.balance_of_or_zero(&owner)
    }

    fn balance_of_or_zero(&self, owner: &AccountId) -> (r: Balance)
        ensures
            r == self.spec_balance_of(*owner),
    {
        match self.find_index(owner) {
            Some(i) => {
                proof {
                    lemma_lookup_found(self.balances@, *owner, i as int);
                }
                self.balances[i].1
            },
            None => {
                proof {
                    lemma_lookup_absent(self.balances@, *owner);
                }
                0
            },
        }
    }

    /// Mints `amount` new tokens to `account`: its balance and the total
    /// supply both grow by `amount`, every other balance stays as it was. The
    /// addition is checked explicitly — on overflow the ledger is left
    /// untouched and `Error::Overflow` is reported, because silent wraparound
    /// would break conservation.
    pub fn mint(&mut self, account: AccountId, amount: Balance) -> (r: Result<(), Error>)
        requires
            old(self).inv(),
        ensures
            r is Ok <==> old(self).spec_total() + amount <= u128::MAX,
            r is Ok ==> {
                &&& final(self).inv()
                &&& final(self).spec_total() == old(self).spec_total() + amount
                &&& final(self).spec_balance_of(account) == old(self).spec_balance_of(account)
                    + amount
                &&& forall|a: AccountId|
                    a != account ==> final(self).spec_balance_of(a) == old(self).spec_balance_of(
                        a,
                    )
            },
            !(r is Ok) ==> r == Err::<(), Error>(Error::Overflow) && *final(self) == *old(self),
    {
        if amount == 0 {
            return Ok(());
        }
        let new_total = match self.total_supply.checked_add(amount) {
            Some(t) => t,
            None => {
                return Err(Error::Overflow);
            },
        };
        match self.find_index(&account) {
            Some(i) => {
                let ghost s = self.balances@;
                let b = self.balances[i].1;
                proof {
                    lemma_lookup_found(s, account, i as int);
                    lemma_lookup_le_sum(s, account);
                }
                self.balances[i] = (account, b + amount);
                self.total_supply = new_total;
                proof {
                    lemma_sum_update(s, i as int, (account, (b + amount) as Balance));
                    lemma_lookup_found(self.balances@, account, i as int);
                    assert forall|a: AccountId|
                        a != account implies self.spec_balance_of(a) == lookup(s, a) by {
                        lemma_lookup_update_other(s, i as int, (account, (b + amount) as Balance), a);
                    }
                }
                Ok(())
            },
            None => {
                let ghost s = self.balances@;
                proof {
                    lemma_lookup_absent(s, account);
                }
                self.balances.push((account, amount));
                self.total_supply = new_total;
                proof {
                    lemma_sum_push(s, (account, amount));
                    lemma_lookup_found(self.balances@, account, s.len() as int);
                    assert forall|a: AccountId|
                        a != account implies self.spec_balance_of(a) == lookup(s, a) by {
                        lemma_lookup_push_other(s, (account, amount), a);
                    }
                }
                Ok(())
            },
        }
    }

    /// Finds the first entry for `account`, if any.
    fn find_index(&self, account: &AccountId) -> (r: Option<usize>)
        ensures
            match r {
                Some(i) => {
                    &&& i < self.balances@.len()
                    &&& self.balances@[i as int].0 == *account
                    &&& forall|j: int| 0 <= j < i ==> self.balances@[j].0 != *account
                },
                None => forall|j: int|
                    0 <= j < self.balances@.len() ==> self.balances@[j].0 != *account,
            },
    {
        let n = self.balances.len();
        let mut i: usize = 0;
        while i < n
            invariant
                i <= n,
                n == self.balances@.len(),
                forall|j: int| 0 <= j < i ==> self.balances@[j].0 != *account,
            decreases n - i,
        {
            if self.balances[i].0 == *account {
                return Some(i);
            }
            i = i + 1;
        }
        None
    }
}

/// The first entry for a key determines the looked-up balance.
proof fn lemma_lookup_found(s: Seq<(AccountId, Balance)>, account: AccountId, i: int)
    requires
        0 <= i < s.len(),
        s[i].0 == account,
        forall|j: int| 0 <= j < i ==> s[j].0 != account,
    ensures
        lookup(s, account) == s[i].1,
    decreases i,
{
    if i > 0 {
        lemma_lookup_found(s.drop_first(), account, i - 1);
    }
}

/// A key with no entry looks up to zero.
proof fn lemma_lookup_absent(s: Seq<(AccountId, Balance)>, account: AccountId)
    requires
        forall|j: int| 0 <= j < s.len() ==> s[j].0 != account,
    ensures
        lookup(s, account) == 0,
    decreases s.len(),
{
    if s.len() > 0 {
        lemma_lookup_absent(s.drop_first(), account);
    }
}

/// Balances are non-negative, so the sum is too, and no single balance can
/// exceed it.
proof fn lemma_lookup_le_sum(s: Seq<(AccountId, Balance)>, account: AccountId)
    ensures
        sum_balances(s) >= 0,
        lookup(s, account) <= sum_balances(s),
    decreases s.len(),
{
    if s.len() > 0 {
        lemma_lookup_le_sum(s.drop_first(), account);
    }
}

/// Replacing one entry moves the sum by the difference between the new and
/// the old balance.
proof fn lemma_sum_update(s: Seq<(AccountId, Balance)>, i: int, v: (AccountId, Balance))
    requires
        0 <= i < s.len(),
    ensures
        sum_balances(s.update(i, v)) == sum_balances(s) - s[i].1 + v.1,
    decreases i,
{
    if i == 0 {
        assert(s.update(0, v).drop_first() =~= s.drop_first());
    } else {
        assert(s.update(i, v).drop_first() =~= s.drop_first().update(i - 1, v));
        lemma_sum_update(s.drop_first(), i - 1, v);
    }
}

/// Replacing one entry leaves every other key's looked-up balance unchanged.
proof fn lemma_lookup_update_other(
    s: Seq<(AccountId, Balance)>,
    i: int,
    v: (AccountId, Balance),
    account: AccountId,
)
    requires
        0 <= i < s.len(),
        s[i].0 != account,
        v.0 != account,
    ensures
        lookup(s.update(i, v), account) == lookup(s, account),
    decreases i,
{
    if i == 0 {
        assert(s.update(0, v).drop_first() =~= s.drop_first());
    } else {
        assert(s.update(i, v).drop_first() =~= s.drop_first().update(i - 1, v));
        lemma_lookup_update_other(s.drop_first(), i - 1, v, account);
    }
}

/// Appending an entry adds its balance to the sum.
proof fn lemma_sum_push(s: Seq<(AccountId, Balance)>, v: (AccountId, Balance))
    ensures
        sum_balances(s.push(v)) == sum_balances(s) + v.1,
    decreases s.len(),
{
    if s.len() == 0 {
        assert(s =~= Seq::<(AccountId, Balance)>::empty());
        assert(sum_balances(Seq::<(AccountId, Balance)>::empty()) == 0);
        assert(s.push(v).drop_first() =~= Seq::<(AccountId, Balance)>::empty());
        assert(sum_balances(s.push(v)) == v.1 + sum_balances(s.push(v).drop_first()));
    } else {
        assert(s.push(v).drop_first() =~= s.drop_first().push(v));
        lemma_sum_push(s.drop_first(), v);
    }
}

/// Appending an entry leaves every other key's looked-up balance unchanged.
proof fn lemma_lookup_push_other(
    s: Seq<(AccountId, Balance)>,
    v: (AccountId, Balance),
    account: AccountId,
)
    requires
        v.0 != account,
    ensures
        lookup(s.push(v), account) == lookup(s, account),
    decreases s.len(),
{
    if s.len() == 0 {
        assert(s =~= Seq::<(AccountId, Balance)>::empty());
        assert(lookup(Seq::<(AccountId, Balance)>::empty(), account) == 0);
        assert(s.push(v).drop_first() =~= Seq::<(AccountId, Balance)>::empty());
        assert(lookup(s.push(v), account) == lookup(s.push(v).drop_first(), account));
    } else {
        assert(s.push(v).drop_first() =~= s.drop_first().push(v));
        lemma_lookup_push_other(s.drop_first(), v, account);
    }
}

/// A ledger's total supply always equals the sum of its balances: every
/// constructor establishes the conservation invariant and every mutation
/// preserves it, so it holds in every reachable state.
pub proof fn lemma_conservation(t: Token)
    requires
        t.inv(),
    ensures
        t.spec_total() as int == sum_balances(t.spec_balances()),
{
}

/// An account with no entry in the ledger reads as balance zero. Minting is
/// the only way an entry appears, so an account that never received a mint
/// always reads zero.
pub proof fn lemma_absent_account_balance_is_zero(t: Token, account: AccountId)
    requires
        forall|i: int| 0 <= i < t.spec_balances().len() ==> t.spec_balances()[i].0 != account,
    ensures
        t.spec_balance_of(account) == 0,
{
    lemma_lookup_absent(t.spec_balances(), account);
}

} // verus!
