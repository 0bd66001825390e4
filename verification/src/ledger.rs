//! The token ledger core: an account store keyed by account identifier,
//! a total-supply scalar that always equals the sum of the stored balances,
//! and the `transfer` state transition with its append-only event log.

use vstd::prelude::*;

verus! {

/// An opaque key uniquely naming a ledger participant.
pub type AccountId = u64;

/// A non-negative amount of the native asset, in its smallest indivisible unit.
pub type Balance = u64;

/// One stored account: its identifier and its current balance.
#[derive(Clone, Copy, PartialEq, Eq, Structural, Debug)]
pub struct AccountEntry {
    pub id: AccountId,
    pub balance: Balance,
}

/// Immutable record of one successful transfer, in execution order.
#[derive(Clone, Copy, PartialEq, Eq, Structural, Debug)]
pub struct TransferEvent {
    pub from: AccountId,
    pub to: AccountId,
    pub amount: Balance,
}

/// Why a transfer was rejected. Both kinds leave the ledger unmodified.
#[derive(Clone, Copy, PartialEq, Eq, Structural, Debug)]
pub enum TransferError {
    /// The origin's balance is less than the requested amount.
    InsufficientBalance,
    /// Crediting the recipient would exceed the maximum representable balance.
    Overflow,
}

/// The balance recorded for `a` in `s`: the balance of the first entry whose
/// id is `a`, or 0 if no entry names `a` (absence means a zero balance).
pub open spec fn seq_balance_of(s: Seq<AccountEntry>, a: AccountId) -> Balance
    decreases s.len(),
{
    if s.len() == 0 {
        0
    } else if s[0].id == a {
        s[0].balance
    } else {
        seq_balance_of(s.drop_first(), a)
    }
}

/// The sum of all balances recorded in `s`.
pub open spec fn seq_sum(s: Seq<AccountEntry>) -> int
    decreases s.len(),
{
    if s.len() == 0 {
        0
    } else {
        s[0].balance + seq_sum(s.drop_first())
    }
}

/// No two entries name the same account.
pub open spec fn distinct_ids(s: Seq<AccountEntry>) -> bool {
    forall|i: int, j: int| 0 <= i < j < s.len() ==> s[i].id != s[j].id
}

/// Every balance is non-negative, so the sum of a suffix never exceeds the sum.
proof fn lemma_sum_nonneg(s: Seq<AccountEntry>)
    ensures
        seq_sum(s) >= 0,
    decreases s.len(),
{
    if s.len() > 0 {
        lemma_sum_nonneg(s.drop_first());
    }
}

/// Any single recorded balance is bounded by the sum of all balances.
proof fn lemma_balance_le_sum(s: Seq<AccountEntry>, a: AccountId)
    ensures
        0 <= seq_balance_of(s, a) <= seq_sum(s),
    decreases s.len(),
{
    if s.len() > 0 {
        lemma_balance_le_sum(s.drop_first(), a);
        lemma_sum_nonneg(s.drop_first());
    }
}

/// If no entry names `a`, the recorded balance of `a` is 0.
proof fn lemma_balance_absent(s: Seq<AccountEntry>, a: AccountId)
    requires
        forall|j: int| 0 <= j < s.len() ==> s[j].id != a,
    ensures
        seq_balance_of(s, a) == 0,
    decreases s.len(),
{
    if s.len() > 0 {
        assert(forall|j: int|
            0 <= j < s.drop_first().len() ==> s.drop_first()[j] == s[j + 1]);
        lemma_balance_absent(s.drop_first(), a);
    }
}

/// The first entry naming `a` determines the recorded balance of `a`.
proof fn lemma_balance_at_first_match(s: Seq<AccountEntry>, a: AccountId, i: int)
    requires
        0 <= i < s.len(),
        s[i].id == a,
        forall|j: int| 0 <= j < i ==> s[j].id != a,
    ensures
        seq_balance_of(s, a) == s[i].balance,
    decreases s.len(),
{
    if i > 0 {
        assert(forall|j: int|
            0 <= j < s.drop_first().len() ==> s.drop_first()[j] == s[j + 1]);
        lemma_balance_at_first_match(s.drop_first(), a, i - 1);
    }
}

/// Overwriting one entry shifts the sum by the difference of the balances.
proof fn lemma_sum_update(s: Seq<AccountEntry>, i: int, e: AccountEntry)
    requires
        0 <= i < s.len(),
    ensures
        seq_sum(s.update(i, e)) == seq_sum(s) - s[i].balance + e.balance,
    decreases s.len(),
{
    if i == 0 {
        assert(s.update(0, e).drop_first() =~= s.drop_first());
    } else {
        assert(s.update(i, e).drop_first() =~= s.drop_first().update(i - 1, e));
        lemma_sum_update(s.drop_first(), i - 1, e);
    }
}

/// Appending an entry adds its balance to the sum.
proof fn lemma_sum_push(s: Seq<AccountEntry>, e: AccountEntry)
    ensures
        seq_sum(s.push(e)) == seq_sum(s) + e.balance,
    decreases s.len(),
{
    if s.len() == 0 {
        assert(s.push(e)[0] == e);
        assert(s.push(e).drop_first() =~= Seq::<AccountEntry>::empty());
        assert(seq_sum(s.push(e)) == e.balance + seq_sum(s.push(e).drop_first()));
    } else {
        assert(s.push(e)[0] == s[0]);
        assert(s.push(e).drop_first() =~= s.drop_first().push(e));
        lemma_sum_push(s.drop_first(), e);
        assert(seq_sum(s.push(e)) == s[0].balance + seq_sum(s.push(e).drop_first()));
    }
}

/// Overwriting the first entry that names `e.id` with `e` sets the recorded
/// balance of `e.id` to `e.balance` and leaves every other account's balance
/// as it was.
proof fn lemma_balance_update(s: Seq<AccountEntry>, i: int, e: AccountEntry, a: AccountId)
    requires
        0 <= i < s.len(),
        s[i].id == e.id,
        forall|j: int| 0 <= j < i ==> s[j].id != e.id,
    ensures
        seq_balance_of(s.update(i, e), a) == if a == e.id {
            e.balance
        } else {
            seq_balance_of(s, a)
        },
    decreases s.len(),
{
    if i == 0 {
        assert(s.update(0, e).drop_first() =~= s.drop_first());
    } else {
        assert(forall|j: int|
            0 <= j < s.drop_first().len() ==> s.drop_first()[j] == s[j + 1]);
        assert(s.update(i, e).drop_first() =~= s.drop_first().update(i - 1, e));
        lemma_balance_update(s.drop_first(), i - 1, e, a);
    }
}

/// Appending an entry for an account not yet stored sets that account's
/// recorded balance and leaves every other account's balance as it was.
proof fn lemma_balance_push(s: Seq<AccountEntry>, e: AccountEntry, a: AccountId)
    requires
        forall|j: int| 0 <= j < s.len() ==> s[j].id != e.id,
    ensures
        seq_balance_of(s.push(e), a) == if a == e.id {
            e.balance
        } else {
            seq_balance_of(s, a)
        },
    decreases s.len(),
{
    assert(seq_balance_of(s.push(e), a) == if s.push(e)[0].id == a {
        s.push(e)[0].balance
    } else {
        seq_balance_of(s.push(e).drop_first(), a)
    });
    if s.len() == 0 {
        assert(s.push(e)[0] == e);
        assert(s.push(e).drop_first() =~= Seq::<AccountEntry>::empty());
    } else {
        assert(s.push(e)[0] == s[0]);
        assert(forall|j: int|
            0 <= j < s.drop_first().len() ==> s.drop_first()[j] == s[j + 1]);
        assert(s.push(e).drop_first() =~= s.drop_first().push(e));
        lemma_balance_push(s.drop_first(), e, a);
    }
}

/// The authoritative mapping from account identifier to balance, plus the
/// total-supply scalar. The well-formedness invariant ties the scalar to the
/// sum of the stored balances, so the supply can never drift.
pub struct AccountStore {
    entries: Vec<AccountEntry>,
    total: Balance,
}

impl AccountStore {
    /// The balance of `a`: 0 for any identifier never credited.
    pub closed spec fn spec_balance_of(self, a: AccountId) -> Balance {
        seq_balance_of(self.entries@, a)
    }

    /// The recorded total supply.
    pub closed spec fn spec_total(self) -> Balance {
        self.total
    }

    /// Well-formedness: each account is stored at most once, and the recorded
    /// total supply equals the sum of all stored balances.
    pub closed spec fn wf(self) -> bool {
        &&& distinct_ids(self.entries@)
        &&& self.total == seq_sum(self.entries@)
    }

    /// An empty store: every balance is 0 and the total supply is 0.
    pub fn new() -> (r: AccountStore)
        ensures
            r.wf(),
            r.spec_total() == 0,
            forall|a: AccountId| r.spec_balance_of(a) == 0,
    {
        let r = AccountStore { entries: Vec::new(), total: 0 };
        proof {
            assert(forall|a: AccountId| r.spec_balance_of(a) == 0);
        }
        r
    }

    /// Read one balance. Total function: absent accounts read as 0.
    pub fn balance_of(&self, a: AccountId) -> (r: Balance)
        ensures
            r == self.spec_balance_of(a),
    {
        let n = self.entries.len();
        let mut i: usize = 0;
        proof {
            assert(self.entries@.subrange(0, n as int) =~= self.entries@);
        }
        while i < n
            invariant
                i <= n,
                n == self.entries@.len(),
                seq_balance_of(self.entries@, a) == seq_balance_of(
                    self.entries@.subrange(i as int, n as int),
                    a,
                ),
            decreases n - i,
        {
            let sub = Ghost(self.entries@.subrange(i as int, n as int));
            if self.entries[i].id == a {
                proof {
                    assert(sub@[0] == self.entries@[i as int]);
                }
                return self.entries[i].balance;
            }
            proof {
                assert(sub@.drop_first() =~= self.entries@.subrange(i as int + 1, n as int));
            }
            i = i + 1;
        }
        proof {
            assert(self.entries@.subrange(n as int, n as int).len() == 0);
        }
        0
    }

    /// Read the total supply.
    pub fn total_supply(&self) -> (r: Balance)
        ensures
            r == self.spec_total(),
    {
        self.total
    }

    /// Position of the first entry naming `a`, if any.
    fn index_of(&self, a: AccountId) -> (r: Option<usize>)
        ensures
            match r {
                Some(i) => {
                    &&& i < self.entries@.len()
                    &&& self.entries@[i as int].id == a
                    &&& forall|j: int| 0 <= j < i ==> self.entries@[j].id != a
                },
                None => forall|j: int| 0 <= j < self.entries@.len() ==> self.entries@[j].id != a,
            },
    {
        let n = self.entries.len();
        let mut i: usize = 0;
        while i < n
            invariant
                i <= n,
                n == self.entries@.len(),
                forall|j: int| 0 <= j < i ==> self.entries@[j].id != a,
            decreases n - i,
        {
            if self.entries[i].id == a {
                return Some(i);
            }
            i = i + 1;
        }
        None
    }

    /// Overwrite one account's balance. The caller alone is responsible for
    /// preserving any higher-level solvency discipline; the store itself only
    /// keeps the total-supply scalar equal to the sum of the balances, which
    /// is why the new sum must still be representable.
    pub fn set_balance(&mut self, a: AccountId, v: Balance)
        requires
            old(self).wf(),
            old(self).spec_total() - old(self).spec_balance_of(a) + v <= u64::MAX,
        ensures
            final(self).wf(),
            final(self).spec_balance_of(a) == v,
            forall|b: AccountId| b != a ==> final(self).spec_balance_of(b)
                == old(self).spec_balance_of(b),
            final(self).spec_total()
                == old(self).spec_total() - old(self).spec_balance_of(a) + v,
    {
        let ghost s0 = self.entries@;
        match self.index_of(a) {
            Some(i) => {
                proof {
                    lemma_balance_at_first_match(s0, a, i as int);
                    lemma_balance_le_sum(s0, a);
                }
                let old_balance = self.entries[i].balance;
                let entry = AccountEntry { id: a, balance: v };
                self.total = self.total - old_balance + v;
                self.entries.set(i, entry);
                proof {
                    lemma_sum_update(s0, i as int, entry);
                    assert forall|b: AccountId|
                        #[trigger] seq_balance_of(self.entries@, b) == if b == a {
                            v
                        } else {
                            seq_balance_of(s0, b)
                        } by {
                        lemma_balance_update(s0, i as int, entry, b);
                    }
                    assert(distinct_ids(self.entries@));
                }
            },
            None => {
                proof {
                    lemma_balance_absent(s0, a);
                }
                let entry = AccountEntry { id: a, balance: v };
                self.total = self.total + v;
                self.entries.push(entry);
                proof {
                    lemma_sum_push(s0, entry);
                    assert forall|b: AccountId|
                        #[trigger] seq_balance_of(self.entries@, b) == if b == a {
                            v
                        } else {
                            seq_balance_of(s0, b)
                        } by {
                        lemma_balance_push(s0, entry, b);
                    }
                    assert(distinct_ids(self.entries@)) by {
                        assert(forall|j: int|
                            0 <= j < s0.len() ==> self.entries@[j] == s0[j]);
                    }
                }
            },
        }
    }
}

/// The ledger: the account store together with the ordered, append-only log
/// of transfer events. `transfer` is the sole state transition; it either
/// applies completely — two balance writes and one event append — or leaves
/// the ledger exactly as it was.
pub struct Ledger {
    store: AccountStore,
    events: Vec<TransferEvent>,
}

impl Ledger {
    /// The balance of `a`: 0 for any identifier never credited.
    pub closed spec fn spec_balance_of(self, a: AccountId) -> Balance {
        self.store.spec_balance_of(a)
    }

    /// The current total supply.
    pub closed spec fn spec_total(self) -> Balance {
        self.store.spec_total()
    }

    /// The events emitted so far, oldest first.
    pub closed spec fn spec_events(self) -> Seq<TransferEvent> {
        self.events@
    }

    /// Well-formedness: the account store's invariant (in particular, the
    /// total supply equals the sum of all balances).
    pub closed spec fn wf(self) -> bool {
        self.store.wf()
    }

    /// A genesis ledger: every balance is 0, the supply is 0, no events.
    pub fn new() -> (r: Ledger)
        ensures
            r.wf(),
            r.spec_total() == 0,
            forall|a: AccountId| r.spec_balance_of(a) == 0,
            r.spec_events() == Seq::<TransferEvent>::empty(),
    {
        let r = Ledger { store: AccountStore::new(), events: Vec::new() };
        proof {
            assert(r.spec_events() =~= Seq::<TransferEvent>::empty());
        }
        r
    }

    /// Read one balance. Total function: absent accounts read as 0.
    pub fn balance_of(&self, a: AccountId) -> (r: Balance)
        ensures
            r == self.spec_balance_of(a),
    {
        self.store.balance_of(a)
    }

    /// Read the total supply.
    pub fn total_supply(&self) -> (r: Balance)
        ensures
            r == self.spec_total(),
    {
        self.store.total_supply()
    }

    /// The event log, oldest event first.
    pub fn events(&self) -> (r: &Vec<TransferEvent>)
        ensures
            r@ == self.spec_events(),
    {
        &self.events
    }

    /// Overwrite one account's balance, as the genesis allocation does.
    /// Emits no event; the event log records transfers only.
    pub fn set_balance(&mut self, a: AccountId, v: Balance)
        requires
            old(self).wf(),
            old(self).spec_total() - old(self).spec_balance_of(a) + v <= u64::MAX,
        ensures
            final(self).wf(),
            final(self).spec_balance_of(a) == v,
            forall|b: AccountId| b != a ==> final(self).spec_balance_of(b)
                == old(self).spec_balance_of(b),
            final(self).spec_total()
                == old(self).spec_total() - old(self).spec_balance_of(a) + v,
            final(self).spec_events() == old(self).spec_events(),
    {
        self.store.set_balance(a, v);
    }

    /// The sole state transition: move `amount` from `origin` to `recipient`.
    ///
    /// `origin` is the pre-authenticated signer of the request; signature
    /// verification is an external collaborator's contract, so the engine
    /// takes the identifier as a plain, already-trusted parameter.
    ///
    /// Succeeds exactly when the origin is solvent and the credit cannot
    /// wrap; on failure the ledger is left untouched. The total supply is
    /// never changed, by success or by failure: transfers move value, they
    /// never mint or burn.
    pub fn transfer(&mut self, origin: AccountId, recipient: AccountId, amount: Balance)
        -> (r: Result<(), TransferError>)
        requires
            old(self).wf(),
        ensures
            final(self).wf(),
            // Conservation: the total supply is invariant under transfer.
            final(self).spec_total() == old(self).spec_total(),
            // Success exactly when solvent and the credit stays representable.
            r is Ok <==> {
                &&& amount <= old(self).spec_balance_of(origin)
                &&& (origin == recipient
                    || old(self).spec_balance_of(recipient) + amount <= u64::MAX)
            },
            // A zero-amount transfer always succeeds.
            amount == 0 ==> r is Ok,
            // Each error comes exactly on its own inputs.
            r == Err::<(), TransferError>(TransferError::InsufficientBalance)
                <==> amount > old(self).spec_balance_of(origin),
            r == Err::<(), TransferError>(TransferError::Overflow) <==> {
                &&& amount <= old(self).spec_balance_of(origin)
                &&& origin != recipient
                &&& old(self).spec_balance_of(recipient) + amount > u64::MAX
            },
            // Atomicity on failure: the whole ledger is exactly as it was.
            r is Err ==> *final(self) == *old(self),
            // Effect on success: debit, credit, and nothing else.
            r is Ok && origin != recipient ==> {
                &&& final(self).spec_balance_of(origin)
                    == old(self).spec_balance_of(origin) - amount
                &&& final(self).spec_balance_of(recipient)
                    == old(self).spec_balance_of(recipient) + amount
            },
            // A self-transfer leaves every balance unchanged.
            r is Ok && origin == recipient ==> forall|c: AccountId|
                final(self).spec_balance_of(c) == old(self).spec_balance_of(c),
            r is Ok ==> forall|c: AccountId| c != origin && c != recipient
                ==> final(self).spec_balance_of(c) == old(self).spec_balance_of(c),
            // Exactly one event is appended, and only on success.
            r is Ok ==> final(self).spec_events() == old(self).spec_events().push(
                TransferEvent { from: origin, to: recipient, amount },
            ),
    {
        let from_balance = self.store.balance_of(origin);
        if amount > from_balance {
            return Err(TransferError::InsufficientBalance);
        }
        let to_balance = self.store.balance_of(recipient);
        // The recipient's balance as it stands once the origin is debited.
        let to_debited = if origin == recipient {
            from_balance - amount
        } else {
            to_balance
        };
        if amount > u64::MAX - to_debited {
            return Err(TransferError::Overflow);
        }
        self.store.set_balance(origin, from_balance - amount);
        self.store.set_balance(recipient, to_debited + amount);
        self.events.push(TransferEvent { from: origin, to: recipient, amount });
        Ok(())
    }
}

/// Conservation of value: along any chain of ledger states in which each
/// consecutive pair preserves the total supply — as `transfer` ensures of
/// every call, successful or failed — the total supply at the end of the
/// chain equals the total supply at the start.
pub proof fn lemma_total_supply_conserved(states: Seq<Ledger>)
    requires
        states.len() > 0,
        forall|i: int| 0 <= i < states.len() - 1
            ==> #[trigger] states[i + 1].spec_total() == states[i].spec_total(),
    ensures
        states[states.len() - 1].spec_total() == states[0].spec_total(),
    decreases states.len(),
{
    if states.len() > 1 {
        let front = states.drop_last();
        assert(forall|j: int| 0 <= j < front.len() ==> front[j] == states[j]);
        lemma_total_supply_conserved(front);
        assert(states[states.len() - 2].spec_total() == states[0].spec_total());
        assert(states[(states.len() - 2) + 1].spec_total()
            == states[states.len() - 2].spec_total());
    }
}

/// Non-negativity: no account's balance is ever negative. The balance type
/// is unsigned, so every balance the ledger reports lies in [0, u64::MAX].
pub proof fn lemma_balance_nonnegative(l: Ledger, a: AccountId)
    ensures
        l.spec_balance_of(a) >= 0,
{
}

} // verus!
