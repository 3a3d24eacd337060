//! Escrow accounts that hold the stakes placed on a market until it settles.
use vstd::prelude::*;
use vstd::string::StringExecFns;
use crate::transaction::now_millis;

verus! {

/// Where an escrow stands.
#[derive(Debug, Clone, Copy, PartialEq, Eq, Structural)]
pub enum EscrowStatus {
    Active,
    Resolved,
    Settled,
}

/// The stakes locked for one market.
#[derive(Debug)]
pub struct EscrowAccount {
    pub id: String,
    pub market_id: String,
    /// Always the sum of the deposits.
    pub total_locked: u64,
    /// Locked amount of each account, one entry per account.
    pub user_deposits: Vec<(String, u64)>,
    /// Milliseconds since the Unix epoch.
    pub created_at: i64,
    pub resolved_at: Option<i64>,
    pub status: EscrowStatus,
}

/// The escrow accounts, oldest first. The escrow of a market is the most recent
/// one created for it.
#[derive(Debug)]
pub struct EscrowManager {
    pub accounts: Vec<EscrowAccount>,
}

/// The amount locked by `account`, if it has an entry.
pub open spec fn locked_of(d: Seq<(String, u64)>, account: Seq<char>) -> Option<u64>
    decreases d.len(),
{
    if d.len() == 0 {
        None
    } else if d.last().0@ == account {
        Some(d.last().1)
    } else {
        locked_of(d.drop_last(), account)
    }
}

/// The sum of the deposits.
pub open spec fn deposit_sum(d: Seq<(String, u64)>) -> int
    decreases d.len(),
{
    if d.len() == 0 {
        0
    } else {
        deposit_sum(d.drop_last()) + d.last().1
    }
}

/// No account has two entries.
pub open spec fn unique_accounts(d: Seq<(String, u64)>) -> bool {
    forall|i: int, j: int| 0 <= i < j < d.len() ==> (#[trigger] d[i]).0@ != (#[trigger] d[j]).0@
}

/// Whether `i` is the most recent escrow of `market`.
pub open spec fn is_latest(s: Seq<EscrowAccount>, market: Seq<char>, i: int) -> bool {
    &&& 0 <= i < s.len()
    &&& s[i].market_id@ == market
    &&& forall|j: int| i < j < s.len() ==> (#[trigger] s[j]).market_id@ != market
}

/// Whether some escrow belongs to `market`.
pub open spec fn has_market(s: Seq<EscrowAccount>, market: Seq<char>) -> bool {
    exists|i: int| 0 <= i < s.len() && (#[trigger] s[i]).market_id@ == market
}

/// The error for a market with no escrow.
pub open spec fn no_escrow_message(market: Seq<char>) -> Seq<char> {
    seq![
        'N', 'o', ' ', 'e', 's', 'c', 'r', 'o', 'w', ' ', 'f', 'o', 'u', 'n', 'd', ' ', 'f', 'o',
        'r', ' ', 'm', 'a', 'r', 'k', 'e', 't', ' ',
    ] + market
}

/// An entry whose amount is replaced, the account kept.
pub open spec fn with_amount(d: Seq<(String, u64)>, k: int, v: u64) -> Seq<(String, u64)> {
    d.update(k, (d[k].0, v))
}

/// The lookup finds the amount of an account that has an entry.
pub proof fn lemma_locked_of_present(d: Seq<(String, u64)>, k: int)
    requires
        unique_accounts(d),
        0 <= k < d.len(),
    ensures
        locked_of(d, d[k].0@) == Some(d[k].1),
    decreases d.len(),
{
    if k < d.len() - 1 {
        assert(d.drop_last()[k] == d[k]);
        lemma_locked_of_present(d.drop_last(), k);
    }
}

/// The lookup finds nothing for an account with no entry.
pub proof fn lemma_locked_of_absent(d: Seq<(String, u64)>, account: Seq<char>)
    requires
        forall|i: int| 0 <= i < d.len() ==> (#[trigger] d[i]).0@ != account,
    ensures
        locked_of(d, account) is None,
    decreases d.len(),
{
    if d.len() > 0 {
        lemma_locked_of_absent(d.drop_last(), account);
    }
}

/// Replacing one amount changes the lookup of that account only, and the sum by
/// the difference.
pub proof fn lemma_with_amount(d: Seq<(String, u64)>, k: int, v: u64)
    requires
        unique_accounts(d),
        0 <= k < d.len(),
    ensures
        unique_accounts(with_amount(d, k, v)),
        deposit_sum(with_amount(d, k, v)) == deposit_sum(d) - d[k].1 + v,
        forall|a: Seq<char>|
            #[trigger] locked_of(with_amount(d, k, v), a) == if a == d[k].0@ {
                Some(v)
            } else {
                locked_of(d, a)
            },
    decreases d.len(),
{
    let u = with_amount(d, k, v);
    if k == d.len() - 1 {
        assert(u.drop_last() =~= d.drop_last());
    } else {
        assert(u.drop_last() =~= with_amount(d.drop_last(), k, v));
        assert(d.drop_last()[k] == d[k]);
        lemma_with_amount(d.drop_last(), k, v);
        assert forall|a: Seq<char>|
            #[trigger] locked_of(u, a) == if a == d[k].0@ {
                Some(v)
            } else {
                locked_of(d, a)
            } by {
            assert(u.last() == d.last());
            assert(d[k].0@ == d.drop_last()[k].0@);
            if d.last().0@ == a {
                assert(d[d.len() - 1].0@ != d[k].0@);
            } else {
                assert(locked_of(with_amount(d.drop_last(), k, v), a) == if a == d[k].0@ {
                    Some(v)
                } else {
                    locked_of(d.drop_last(), a)
                });
            }
        }
    }
}

/// No single deposit exceeds the sum.
pub proof fn lemma_sum_bounds(d: Seq<(String, u64)>, k: int)
    requires
        0 <= k < d.len(),
    ensures
        deposit_sum(d) >= d[k].1,
    decreases d.len(),
{
    lemma_sum_nonneg(d.drop_last());
    if k < d.len() - 1 {
        lemma_sum_bounds(d.drop_last(), k);
    }
}

/// The sum of deposits is not negative.
pub proof fn lemma_sum_nonneg(d: Seq<(String, u64)>)
    ensures
        deposit_sum(d) >= 0,
    decreases d.len(),
{
    if d.len() > 0 {
        lemma_sum_nonneg(d.drop_last());
    }
}

/// Relies on uuid::Uuid::new_v4 and its hyphenated text form: a random identifier.
#[verifier::external_body]
fn new_escrow_id() -> (r: String) {
    uuid::Uuid::new_v4().to_string()
}

fn no_escrow(market: &str) -> (r: String)
    ensures
        r@ == no_escrow_message(market@),
{
    let mut s = "No escrow found for market ".to_owned();
    proof {
        reveal_strlit("No escrow found for market ");
    }
    s.append(market);
    assert(s@ =~= no_escrow_message(market@));
    s
}

fn copy_deposits(d: &Vec<(String, u64)>) -> (r: Vec<(String, u64)>)
    ensures
        r@ == d@,
{
    let mut out: Vec<(String, u64)> = Vec::new();
    let mut i: usize = 0;
    while i < d.len()
        invariant
            i <= d@.len(),
            out@ == d@.subrange(0, i as int),
        decreases d@.len() - i,
    {
        let name = d[i].0.clone();
        out.push((name, d[i].1));
        i = i + 1;
        assert(out@ =~= d@.subrange(0, i as int));
    }
    assert(d@.subrange(0, d@.len() as int) =~= d@);
    out
}

impl EscrowAccount {
    /// No account has two entries, and the total is their sum.
    pub open spec fn wf(&self) -> bool {
        &&& unique_accounts(self.user_deposits@)
        &&& self.total_locked == deposit_sum(self.user_deposits@)
    }

    /// Whether `other` holds the same values.
    pub open spec fn same_as(&self, other: EscrowAccount) -> bool {
        &&& self.id == other.id
        &&& self.market_id == other.market_id
        &&& self.total_locked == other.total_locked
        &&& self.user_deposits@ == other.user_deposits@
        &&& self.created_at == other.created_at
        &&& self.resolved_at == other.resolved_at
        &&& self.status == other.status
    }

    /// The amount locked by `account`, if it has an entry.
    pub fn deposit_of(&self, account: &str) -> (r: Option<u64>)
        requires
            self.wf(),
        ensures
            r == locked_of(self.user_deposits@, account@),
    {
        match find_account(&self.user_deposits, account) {
            Some(k) => {
                proof {
                    lemma_locked_of_present(self.user_deposits@, k as int);
                }
                Some(self.user_deposits[k].1)
            },
            None => {
                proof {
                    lemma_locked_of_absent(self.user_deposits@, account@);
                }
                None
            },
        }
    }
}

impl Clone for EscrowAccount {
    fn clone(&self) -> (r: Self)
        ensures
            r.same_as(*self),
    {
        EscrowAccount {
            id: self.id.clone(),
            market_id: self.market_id.clone(),
            total_locked: self.total_locked,
            user_deposits: copy_deposits(&self.user_deposits),
            created_at: self.created_at,
            resolved_at: self.resolved_at,
            status: self.status,
        }
    }
}

/// The position of the entry of `account`.
fn find_account(d: &Vec<(String, u64)>, account: &str) -> (r: Option<usize>)
    ensures
        r matches Some(k) ==> k < d@.len() && d@[k as int].0@ == account@,
        r is None ==> forall|i: int| 0 <= i < d@.len() ==> (#[trigger] d@[i]).0@ != account@,
{
    let name = account.to_owned();
    let mut i: usize = 0;
    while i < d.len()
        invariant
            i <= d@.len(),
            name@ == account@,
            forall|j: int| 0 <= j < i ==> (#[trigger] d@[j]).0@ != account@,
        decreases d@.len() - i,
    {
        if d[i].0 == name {
            return Some(i);
        }
        i = i + 1;
    }
    None
}


/// The amount locked by `account`, or zero.
pub open spec fn locked_or_zero(d: Seq<(String, u64)>, account: Seq<char>) -> u64 {
    match locked_of(d, account) {
        Some(x) => x,
        None => 0,
    }
}

/// `after` is `before` with the deposit of `account` changed to `amount` and the
/// total changed to `total`; everything else kept.
pub open spec fn deposit_changed(
    before: EscrowAccount,
    after: EscrowAccount,
    account: Seq<char>,
    amount: u64,
    total: u64,
) -> bool {
    &&& after.id == before.id
    &&& after.market_id == before.market_id
    &&& after.created_at == before.created_at
    &&& after.resolved_at == before.resolved_at
    &&& after.status == before.status
    &&& after.total_locked == total
    &&& forall|b: Seq<char>|
        #[trigger] locked_of(after.user_deposits@, b) == if b == account {
            Some(amount)
        } else {
            locked_of(before.user_deposits@, b)
        }
}

/// The list with its `i`-th escrow replaced by `e`.
pub open spec fn replaced_at(before: Seq<EscrowAccount>, after: Seq<EscrowAccount>, i: int) -> bool {
    &&& after.len() == before.len()
    &&& forall|j: int| 0 <= j < before.len() && j != i ==> #[trigger] after[j] == before[j]
}

/// The sum of the totals of a list of escrows.
pub open spec fn locked_total(s: Seq<EscrowAccount>) -> int
    decreases s.len(),
{
    if s.len() == 0 {
        0
    } else {
        locked_total(s.drop_last()) + s.last().total_locked
    }
}

impl EscrowManager {
    /// Every escrow is well formed.
    pub open spec fn wf(&self) -> bool {
        forall|i: int| 0 <= i < self.accounts@.len() ==> (#[trigger] self.accounts@[i]).wf()
    }

    /// A manager with no escrow.
    pub fn new() -> (r: Self)
        ensures
            r.wf(),
            r.accounts@.len() == 0,
    {
        EscrowManager { accounts: Vec::new() }
    }

    /// The position of the most recent escrow of `market`.
    fn find_latest(&self, market: &str) -> (r: Option<usize>)
        ensures
            r matches Some(i) ==> is_latest(self.accounts@, market@, i as int),
            r is None ==> !has_market(self.accounts@, market@),
    {
        let name = market.to_owned();
        let mut i: usize = self.accounts.len();
        while i > 0
            invariant
                i <= self.accounts@.len(),
                name@ == market@,
                forall|j: int| i <= j < self.accounts@.len() ==> (#[trigger] self.accounts@[j]).market_id@ != market@,
            decreases i,
        {
            i = i - 1;
            if self.accounts[i].market_id == name {
                return Some(i);
            }
        }
        None
    }

    /// Opens a new, empty, active escrow for `market_id`; it becomes the market's
    /// escrow.
    pub fn create_escrow(&mut self, market_id: &str) -> (r: EscrowAccount)
        requires
            old(self).wf(),
        ensures
            final(self).wf(),
            final(self).accounts@.len() == old(self).accounts@.len() + 1,
            final(self).accounts@.subrange(0, old(self).accounts@.len() as int) == old(self).accounts@,
            final(self).accounts@.last().same_as(r),
            r.market_id@ == market_id@,
            r.total_locked == 0,
            r.user_deposits@.len() == 0,
            r.resolved_at is None,
            r.status == EscrowStatus::Active,
    {
        let escrow = EscrowAccount {
            id: new_escrow_id(),
            market_id: market_id.to_owned(),
            total_locked: 0,
            user_deposits: Vec::new(),
            created_at: now_millis(),
            resolved_at: None,
            status: EscrowStatus::Active,
        };
        let copy = escrow.clone();
        let ghost before = self.accounts@;
        self.accounts.push(escrow);
        assert(self.accounts@.subrange(0, before.len() as int) =~= before);
        copy
    }

    /// Adds `amount` to what `account` has locked in the market's escrow. Refused
    /// when the market has no escrow, when the escrow is not active, or when the
    /// total would overflow.
    pub fn lock_funds(&mut self, market_id: &str, account: &str, amount: u64) -> (r: Result<
        EscrowAccount,
        String,
    >)
        requires
            old(self).wf(),
        ensures
            final(self).wf(),
            r is Err ==> final(self).accounts@ == old(self).accounts@,
            !has_market(old(self).accounts@, market_id@) ==> (r matches Err(e) && e@
                == no_escrow_message(market_id@)),
            forall|i: int|
                #[trigger] is_latest(old(self).accounts@, market_id@, i) ==> {
                    let e = old(self).accounts@[i];
                    if e.status != EscrowStatus::Active || e.total_locked + amount
                        > 0xffff_ffff_ffff_ffff {
                        r is Err
                    } else {
                        &&& r matches Ok(c) && c.same_as(final(self).accounts@[i])
                        &&& replaced_at(old(self).accounts@, final(self).accounts@, i)
                        &&& deposit_changed(
                            e,
                            final(self).accounts@[i],
                            account@,
                            (locked_or_zero(e.user_deposits@, account@) + amount) as u64,
                            (e.total_locked + amount) as u64,
                        )
                    }
                },
    {
        let i = match self.find_latest(market_id) {
            Some(i) => i,
            None => {
                return Err(no_escrow(market_id));
            },
        };
        if self.accounts[i].status != EscrowStatus::Active {
            return Err("Escrow is not active".to_owned());
        }
        if amount > 0xffff_ffff_ffff_ffffu64 - self.accounts[i].total_locked {
            return Err("Locked amount would overflow".to_owned());
        }
        let ghost before = self.accounts@;
        let mut e = self.accounts.remove(i);
        assert(e == before[i as int]);
        assert(e.wf());
        let ghost d0 = e.user_deposits@;
        match find_account(&e.user_deposits, account) {
            Some(k) => {
                proof {
                    lemma_sum_bounds(d0, k as int);
                    lemma_locked_of_present(d0, k as int);
                    lemma_with_amount(d0, k as int, (d0[k as int].1 + amount) as u64);
                }
                let (name, current) = e.user_deposits.remove(k);
                e.user_deposits.insert(k, (name, current + amount));
                assert(e.user_deposits@ =~= with_amount(d0, k as int, (current + amount) as u64));
            },
            None => {
                proof {
                    lemma_locked_of_absent(d0, account@);
                }
                e.user_deposits.push((account.to_owned(), amount));
                assert(e.user_deposits@.drop_last() =~= d0);
                assert forall|b: Seq<char>|
                    #[trigger] locked_of(e.user_deposits@, b) == if b == account@ {
                        Some(amount)
                    } else {
                        locked_of(d0, b)
                    } by {}
            },
        }
        e.total_locked = e.total_locked + amount;
        let copy = e.clone();
        self.accounts.insert(i, e);
        assert(self.accounts@ =~= before.update(i as int, e));
        proof {
            assert forall|j: int| 0 <= j < self.accounts@.len() implies (#[trigger] self.accounts@[j]).wf() by {
                if j != i {
                    assert(self.accounts@[j] == before[j]);
                }
            }
            assert forall|i2: int| #[trigger] is_latest(before, market_id@, i2) implies i2 == i by {
                if i2 < i {
                    assert(before[i as int].market_id@ == market_id@);
                } else if i2 > i {
                    assert(before[i2].market_id@ == market_id@);
                }
            }
        }
        Ok(copy)
    }
}


/// The error for an account with nothing locked in an escrow.
pub open spec fn no_funds_message(account: Seq<char>) -> Seq<char> {
    seq![
        'N', 'o', ' ', 'l', 'o', 'c', 'k', 'e', 'd', ' ', 'f', 'u', 'n', 'd', 's', ' ', 'f', 'o',
        'r', ' ', 'a', 'c', 'c', 'o', 'u', 'n', 't', ' ',
    ] + account
}

fn no_funds(account: &str) -> (r: String)
    ensures
        r@ == no_funds_message(account@),
{
    let mut s = "No locked funds for account ".to_owned();
    proof {
        reveal_strlit("No locked funds for account ");
    }
    s.append(account);
    assert(s@ =~= no_funds_message(account@));
    s
}

impl EscrowManager {
    /// Releases what `account` locked in the market's escrow, leaving its entry at
    /// zero, and returns `payout_amount`. Refused when the market has no escrow or
    /// the account has nothing locked in it.
    pub fn release_funds(&mut self, market_id: &str, account: &str, payout_amount: u64) -> (r:
        Result<u64, String>)
        requires
            old(self).wf(),
        ensures
            final(self).wf(),
            r is Err ==> final(self).accounts@ == old(self).accounts@,
            !has_market(old(self).accounts@, market_id@) ==> (r matches Err(e) && e@
                == no_escrow_message(market_id@)),
            forall|i: int|
                #[trigger] is_latest(old(self).accounts@, market_id@, i) ==> {
                    let e = old(self).accounts@[i];
                    match locked_of(e.user_deposits@, account@) {
                        None => r matches Err(m) && m@ == no_funds_message(account@),
                        Some(x) => if x == 0 {
                            r is Err
                        } else {
                            &&& r == Ok::<u64, String>(payout_amount)
                            &&& replaced_at(old(self).accounts@, final(self).accounts@, i)
                            &&& deposit_changed(
                                e,
                                final(self).accounts@[i],
                                account@,
                                0,
                                (e.total_locked - x) as u64,
                            )
                        },
                    }
                },
    {
        let i = match self.find_latest(market_id) {
            Some(i) => i,
            None => {
                return Err(no_escrow(market_id));
            },
        };
        let ghost before = self.accounts@;
        proof {
            assert forall|i2: int| #[trigger] is_latest(before, market_id@, i2) implies i2 == i by {
                if i2 < i {
                    assert(before[i as int].market_id@ == market_id@);
                } else if i2 > i {
                    assert(before[i2].market_id@ == market_id@);
                }
            }
            assert(before[i as int].wf());
        }
        let ghost d0 = before[i as int].user_deposits@;
        let k = match find_account(&self.accounts[i].user_deposits, account) {
            Some(k) => k,
            None => {
                proof {
                    lemma_locked_of_absent(d0, account@);
                }
                return Err(no_funds(account));
            },
        };
        proof {
            lemma_locked_of_present(d0, k as int);
            lemma_sum_bounds(d0, k as int);
            lemma_with_amount(d0, k as int, 0);
        }
        if self.accounts[i].user_deposits[k].1 == 0 {
            return Err("No locked funds to release".to_owned());
        }
        let mut e = self.accounts.remove(i);
        let (name, locked) = e.user_deposits.remove(k);
        e.user_deposits.insert(k, (name, 0));
        assert(e.user_deposits@ =~= with_amount(d0, k as int, 0));
        e.total_locked = e.total_locked - locked;
        self.accounts.insert(i, e);
        assert(self.accounts@ =~= before.update(i as int, e));
        proof {
            assert forall|j: int| 0 <= j < self.accounts@.len() implies (#[trigger] self.accounts@[j]).wf() by {
                if j != i {
                    assert(self.accounts@[j] == before[j]);
                }
            }
        }
        Ok(payout_amount)
    }

    /// Empties the market's escrow, marks it settled and returns what each account
    /// had locked. Refused when the market has no escrow.
    pub fn refund_market(&mut self, market_id: &str) -> (r: Result<Vec<(String, u64)>, String>)
        requires
            old(self).wf(),
        ensures
            final(self).wf(),
            r is Err ==> final(self).accounts@ == old(self).accounts@,
            !has_market(old(self).accounts@, market_id@) ==> (r matches Err(e) && e@
                == no_escrow_message(market_id@)),
            forall|i: int|
                #[trigger] is_latest(old(self).accounts@, market_id@, i) ==> {
                    let e = old(self).accounts@[i];
                    let f = final(self).accounts@[i];
                    &&& r matches Ok(refunds) && refunds@ == e.user_deposits@
                    &&& replaced_at(old(self).accounts@, final(self).accounts@, i)
                    &&& f.id == e.id
                    &&& f.market_id == e.market_id
                    &&& f.created_at == e.created_at
                    &&& f.user_deposits@.len() == 0
                    &&& f.total_locked == 0
                    &&& f.status == EscrowStatus::Settled
                    &&& f.resolved_at is Some
                },
    {
        let i = match self.find_latest(market_id) {
            Some(i) => i,
            None => {
                return Err(no_escrow(market_id));
            },
        };
        let ghost before = self.accounts@;
        proof {
            assert forall|i2: int| #[trigger] is_latest(before, market_id@, i2) implies i2 == i by {
                if i2 < i {
                    assert(before[i as int].market_id@ == market_id@);
                } else if i2 > i {
                    assert(before[i2].market_id@ == market_id@);
                }
            }
        }
        let mut e = self.accounts.remove(i);
        let refunds = copy_deposits(&e.user_deposits);
        e.user_deposits = Vec::new();
        e.total_locked = 0;
        e.status = EscrowStatus::Settled;
        e.resolved_at = Some(now_millis());
        self.accounts.insert(i, e);
        assert(self.accounts@ =~= before.update(i as int, e));
        proof {
            assert forall|j: int| 0 <= j < self.accounts@.len() implies (#[trigger] self.accounts@[j]).wf() by {
                if j != i {
                    assert(self.accounts@[j] == before[j]);
                }
            }
        }
        Ok(refunds)
    }

    /// A copy of the market's escrow, if it has one.
    pub fn get_escrow(&self, market_id: &str) -> (r: Option<EscrowAccount>)
        ensures
            r is None <==> !has_market(self.accounts@, market_id@),
            forall|i: int|
                #[trigger] is_latest(self.accounts@, market_id@, i) ==> (r matches Some(c)
                    && c.same_as(self.accounts@[i])),
    {
        match self.find_latest(market_id) {
            Some(i) => {
                proof {
                    assert forall|i2: int| #[trigger] is_latest(self.accounts@, market_id@, i2) implies i2 == i by {
                        if i2 < i {
                            assert(self.accounts@[i as int].market_id@ == market_id@);
                        } else if i2 > i {
                            assert(self.accounts@[i2].market_id@ == market_id@);
                        }
                    }
                }
                Some(self.accounts[i].clone())
            },
            None => None,
        }
    }

    /// What `account` has locked in the market's escrow; zero when there is no
    /// escrow or no entry.
    pub fn get_locked_balance(&self, market_id: &str, account: &str) -> (r: u64)
        requires
            self.wf(),
        ensures
            !has_market(self.accounts@, market_id@) ==> r == 0,
            forall|i: int|
                #[trigger] is_latest(self.accounts@, market_id@, i) ==> r == locked_or_zero(
                    self.accounts@[i].user_deposits@,
                    account@,
                ),
    {
        match self.find_latest(market_id) {
            Some(i) => {
                proof {
                    assert forall|i2: int| #[trigger] is_latest(self.accounts@, market_id@, i2) implies i2 == i by {
                        if i2 < i {
                            assert(self.accounts@[i as int].market_id@ == market_id@);
                        } else if i2 > i {
                            assert(self.accounts@[i2].market_id@ == market_id@);
                        }
                    }
                    assert(self.accounts@[i as int].wf());
                }
                match self.accounts[i].deposit_of(account) {
                    Some(x) => x,
                    None => 0,
                }
            },
            None => 0,
        }
    }

    /// Marks the market's escrow resolved, stamped with the current time. Refused
    /// when the market has no escrow.
    pub fn mark_resolved(&mut self, market_id: &str) -> (r: Result<(), String>)
        requires
            old(self).wf(),
        ensures
            final(self).wf(),
            r is Err <==> !has_market(old(self).accounts@, market_id@),
            r is Err ==> final(self).accounts@ == old(self).accounts@,
            forall|i: int|
                #[trigger] is_latest(old(self).accounts@, market_id@, i) ==> {
                    let e = old(self).accounts@[i];
                    let f = final(self).accounts@[i];
                    &&& replaced_at(old(self).accounts@, final(self).accounts@, i)
                    &&& f.id == e.id
                    &&& f.market_id == e.market_id
                    &&& f.created_at == e.created_at
                    &&& f.user_deposits == e.user_deposits
                    &&& f.total_locked == e.total_locked
                    &&& f.status == EscrowStatus::Resolved
                    &&& f.resolved_at is Some
                },
    {
        let i = match self.find_latest(market_id) {
            Some(i) => i,
            None => {
                return Err(no_escrow(market_id));
            },
        };
        let ghost before = self.accounts@;
        proof {
            assert forall|i2: int| #[trigger] is_latest(before, market_id@, i2) implies i2 == i by {
                if i2 < i {
                    assert(before[i as int].market_id@ == market_id@);
                } else if i2 > i {
                    assert(before[i2].market_id@ == market_id@);
                }
            }
        }
        let mut e = self.accounts.remove(i);
        e.status = EscrowStatus::Resolved;
        e.resolved_at = Some(now_millis());
        self.accounts.insert(i, e);
        assert(self.accounts@ =~= before.update(i as int, e));
        proof {
            assert forall|j: int| 0 <= j < self.accounts@.len() implies (#[trigger] self.accounts@[j]).wf() by {
                if j != i {
                    assert(self.accounts@[j] == before[j]);
                } else {
                    assert(before[j].wf());
                }
            }
        }
        Ok(())
    }

    /// Copies of every escrow, oldest first.
    pub fn list_escrows(&self) -> (r: Vec<EscrowAccount>)
        ensures
            r@.len() == self.accounts@.len(),
            forall|i: int| 0 <= i < r@.len() ==> (#[trigger] r@[i]).same_as(self.accounts@[i]),
    {
        let mut out: Vec<EscrowAccount> = Vec::new();
        let mut i: usize = 0;
        while i < self.accounts.len()
            invariant
                i <= self.accounts@.len(),
                out@.len() == i,
                forall|j: int| 0 <= j < i ==> (#[trigger] out@[j]).same_as(self.accounts@[j]),
            decreases self.accounts@.len() - i,
        {
            out.push(self.accounts[i].clone());
            i = i + 1;
        }
        out
    }

    /// The sum of the totals of every escrow, held at `u64::MAX`.
    pub fn total_locked(&self) -> (r: u64)
        ensures
            r == (if locked_total(self.accounts@) > 0xffff_ffff_ffff_ffff {
                0xffff_ffff_ffff_ffff
            } else {
                locked_total(self.accounts@)
            }),
    {
        let ghost s = self.accounts@;
        let n = self.accounts.len();
        let mut total: u128 = 0;
        let mut i: usize = 0;
        while i < n
            invariant
                i <= n,
                n == s.len(),
                s == self.accounts@,
                total == locked_total(s.subrange(0, i as int)),
                total <= i * 0xffff_ffff_ffff_ffff,
            decreases n - i,
        {
            assert(s.subrange(0, i + 1).drop_last() =~= s.subrange(0, i as int));
            total = total + self.accounts[i].total_locked as u128;
            i = i + 1;
        }
        assert(s.subrange(0, s.len() as int) =~= s);
        if total > 0xffff_ffff_ffff_ffff {
            0xffff_ffff_ffff_ffff
        } else {
            total as u64
        }
    }
}

} // verus!
