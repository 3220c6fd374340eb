use vstd::prelude::*;

use crate::account::AccountId;
use crate::events::Balance;

verus! {

/// What one account holds in the protocol.
#[derive(Clone, Copy, Debug)]
pub struct Position {
    pub account: AccountId,
    pub balance: Balance,
    pub debt: Balance,
    pub collateral: Balance,
}

impl Position {
    /// The position of an account that never touched the protocol.
    pub fn empty(account: AccountId) -> (r: Position)
        ensures
            r.account == account,
            r.balance == 0,
            r.debt == 0,
            r.collateral == 0,
    {
        Position { account, balance: 0, debt: 0, collateral: 0 }
    }
}

pub open spec fn balance_field() -> spec_fn(Position) -> nat {
    |p: Position| p.balance as nat
}

pub open spec fn debt_field() -> spec_fn(Position) -> nat {
    |p: Position| p.debt as nat
}

pub open spec fn collateral_field() -> spec_fn(Position) -> nat {
    |p: Position| p.collateral as nat
}

/// No account appears twice.
pub open spec fn accounts_unique(s: Seq<Position>) -> bool {
    forall|i: int, j: int|
        0 <= i < s.len() && 0 <= j < s.len() && i != j ==> s[i].account != s[j].account
}

/// The position recorded for `a`, if any.
pub open spec fn entry_of(s: Seq<Position>, a: AccountId) -> Option<Position>
    decreases s.len(),
{
    if s.len() == 0 {
        None
    } else if s.last().account == a {
        Some(s.last())
    } else {
        entry_of(s.drop_last(), a)
    }
}

/// The amount selected by `f` for account `a`; an absent account holds zero.
pub open spec fn amount_of(s: Seq<Position>, a: AccountId, f: spec_fn(Position) -> nat) -> nat {
    match entry_of(s, a) {
        Some(p) => f(p),
        None => 0,
    }
}

/// The sum over all positions of the amount selected by `f`.
pub open spec fn total(s: Seq<Position>, f: spec_fn(Position) -> nat) -> nat
    decreases s.len(),
{
    if s.len() == 0 {
        0
    } else {
        total(s.drop_last(), f) + f(s.last())
    }
}

pub proof fn lemma_entry_at(s: Seq<Position>, i: int)
    requires
        accounts_unique(s),
        0 <= i < s.len(),
    ensures
        entry_of(s, s[i].account) == Some(s[i]),
    decreases s.len(),
{
    if i != s.len() - 1 {
        let t = s.drop_last();
        assert(t[i] == s[i]);
        assert(accounts_unique(t));
        lemma_entry_at(t, i);
    }
}

pub proof fn lemma_entry_absent(s: Seq<Position>, a: AccountId)
    requires
        forall|i: int| 0 <= i < s.len() ==> s[i].account != a,
    ensures
        entry_of(s, a) is None,
    decreases s.len(),
{
    if s.len() > 0 {
        let t = s.drop_last();
        assert forall|i: int| 0 <= i < t.len() implies t[i].account != a by {
            assert(t[i] == s[i]);
        }
        lemma_entry_absent(t, a);
    }
}

/// In a table without duplicates, lookup is decided by membership.
pub proof fn lemma_entry_of(s: Seq<Position>, a: AccountId)
    requires
        accounts_unique(s),
    ensures
        (exists|i: int| 0 <= i < s.len() && s[i].account == a) ==> (exists|i: int|
            0 <= i < s.len() && s[i].account == a && entry_of(s, a) == Some(s[i])),
        (forall|i: int| 0 <= i < s.len() ==> s[i].account != a) ==> entry_of(s, a) is None,
{
    if exists|i: int| 0 <= i < s.len() && s[i].account == a {
        let i = choose|i: int| 0 <= i < s.len() && s[i].account == a;
        lemma_entry_at(s, i);
    } else {
        lemma_entry_absent(s, a);
    }
}

pub proof fn lemma_total_update(s: Seq<Position>, i: int, p: Position, f: spec_fn(Position) -> nat)
    requires
        0 <= i < s.len(),
    ensures
        total(s.update(i, p), f) == total(s, f) - f(s[i]) + f(p),
    decreases s.len(),
{
    let u = s.update(i, p);
    if i == s.len() - 1 {
        assert(u.drop_last() =~= s.drop_last());
    } else {
        assert(u.drop_last() =~= s.drop_last().update(i, p));
        lemma_total_update(s.drop_last(), i, p, f);
    }
}

pub proof fn lemma_total_push(s: Seq<Position>, p: Position, f: spec_fn(Position) -> nat)
    ensures
        total(s.push(p), f) == total(s, f) + f(p),
{
    assert(s.push(p).drop_last() =~= s);
}

pub proof fn lemma_part_le_total(s: Seq<Position>, i: int, f: spec_fn(Position) -> nat)
    requires
        0 <= i < s.len(),
    ensures
        f(s[i]) <= total(s, f),
    decreases s.len(),
{
    if i != s.len() - 1 {
        assert(s.drop_last()[i] == s[i]);
        lemma_part_le_total(s.drop_last(), i, f);
    }
}

/// The amount an account holds is at most the sum over all accounts.
pub proof fn lemma_amount_le_total(s: Seq<Position>, a: AccountId, f: spec_fn(Position) -> nat)
    requires
        accounts_unique(s),
    ensures
        amount_of(s, a, f) <= total(s, f),
{
    lemma_entry_of(s, a);
    if exists|i: int| 0 <= i < s.len() && s[i].account == a {
        let i = choose|i: int|
            0 <= i < s.len() && s[i].account == a && entry_of(s, a) == Some(s[i]);
        lemma_part_le_total(s, i, f);
    }
}

/// The positions of all accounts that touched the protocol, one per account.
pub struct PositionTable {
    entries: Vec<Position>,
}

impl PositionTable {
    pub closed spec fn view(&self) -> Seq<Position> {
        self.entries@
    }

    pub open spec fn wf(&self) -> bool {
        accounts_unique(self@)
    }

    pub fn new() -> (r: PositionTable)
        ensures
            r@ == Seq::<Position>::empty(),
            r.wf(),
    {
        PositionTable { entries: Vec::new() }
    }

    fn locate(&self, a: &AccountId) -> (r: Option<usize>)
        ensures
            match r {
                Some(i) => i < self@.len() && self@[i as int].account == *a,
                None => forall|i: int| 0 <= i < self@.len() ==> self@[i].account != *a,
            },
    {
        let mut i: usize = 0;
        while i < self.entries.len()
            invariant
                i <= self@.len(),
                self@ == self.entries@,
                forall|j: int| 0 <= j < i ==> self@[j].account != *a,
            decreases self@.len() - i,
        {
            if self.entries[i].account.same_as(a) {
                return Some(i);
            }
            i = i + 1;
        }
        None
    }

    /// The position of `a`, or an empty one where `a` holds nothing.
    pub fn get(&self, a: &AccountId) -> (r: Position)
        requires
            self.wf(),
        ensures
            r.account == *a,
            r.balance as nat == amount_of(self@, *a, balance_field()),
            r.debt as nat == amount_of(self@, *a, debt_field()),
            r.collateral as nat == amount_of(self@, *a, collateral_field()),
    {
        proof {
            lemma_entry_of(self@, *a);
        }
        match self.locate(a) {
            Some(i) => {
                proof {
                    lemma_entry_at(self@, i as int);
                }
                self.entries[i]
            },
            None => Position::empty(*a),
        }
    }

    /// Records `p` as the position of `p.account`, replacing any earlier one.
    pub fn put(&mut self, p: Position)
        requires
            old(self).wf(),
        ensures
            final(self).wf(),
            forall|a: AccountId, f: spec_fn(Position) -> nat|
                #[trigger] amount_of(final(self)@, a, f) == if a == p.account {
                    f(p)
                } else {
                    amount_of(old(self)@, a, f)
                },
            forall|f: spec_fn(Position) -> nat|
                #[trigger] total(final(self)@, f) == total(old(self)@, f) - amount_of(
                    old(self)@,
                    p.account,
                    f,
                ) + f(p),
    {
        let ghost s = self@;
        proof {
            lemma_entry_of(s, p.account);
        }
        match self.locate(&p.account) {
            Some(i) => {
                self.entries.set(i, p);
                proof {
                    let u = self@;
                    assert(u =~= s.update(i as int, p));
                    lemma_entry_at(s, i as int);
                    assert forall|a: AccountId, f: spec_fn(Position) -> nat|
                        #[trigger] amount_of(u, a, f) == if a == p.account {
                            f(p)
                        } else {
                            amount_of(s, a, f)
                        } by {
                        lemma_entry_of(s, a);
                        lemma_entry_of(u, a);
                        if a == p.account {
                            lemma_entry_at(u, i as int);
                        } else if exists|j: int| 0 <= j < s.len() && s[j].account == a {
                            let j = choose|j: int|
                                0 <= j < s.len() && s[j].account == a && entry_of(s, a) == Some(
                                    s[j],
                                );
                            assert(u[j] == s[j]);
                            lemma_entry_at(u, j);
                        } else {
                            assert forall|j: int| 0 <= j < u.len() implies u[j].account != a by {
                                if j != i {
                                    assert(u[j] == s[j]);
                                }
                            }
                        }
                    }
                    assert forall|f: spec_fn(Position) -> nat|
                        #[trigger] total(u, f) == total(s, f) - amount_of(s, p.account, f) + f(
                            p,
                        ) by {
                        lemma_total_update(s, i as int, p, f);
                    }
                }
            },
            None => {
                self.entries.push(p);
                proof {
                    let u = self@;
                    assert(u =~= s.push(p));
                    assert(u[s.len() as int] == p);
                    assert(accounts_unique(u));
                    assert forall|a: AccountId, f: spec_fn(Position) -> nat|
                        #[trigger] amount_of(u, a, f) == if a == p.account {
                            f(p)
                        } else {
                            amount_of(s, a, f)
                        } by {
                        lemma_entry_of(s, a);
                        if a == p.account {
                            lemma_entry_at(u, s.len() as int);
                        } else {
                            assert(u.drop_last() =~= s);
                        }
                    }
                    assert forall|f: spec_fn(Position) -> nat|
                        #[trigger] total(u, f) == total(s, f) - amount_of(s, p.account, f) + f(
                            p,
                        ) by {
                        lemma_total_push(s, p, f);
                    }
                }
            },
        }
    }
}

} // verus!
