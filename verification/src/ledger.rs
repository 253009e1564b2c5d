//! Ledger entries and the entry set.
//!
//! A [`Ledger`] is one immutable signed monetary movement: an identity token,
//! a kind, and an exact signed amount (withdrawals are stored negated). The
//! factory validates untrusted amount text; the [`Ledgers`] set keeps entries
//! in insertion order and rejects duplicate identities.

use vstd::prelude::*;

use rand::Rng;

verus! {

use crate::amount::{
    Amount,
    lemma_spec_add,
    lemma_units_sign,
    parsed_decimal,
    parsed_units,
    spec_add,
};

/// Length of a generated entry identity token.
pub const ID_LEN: usize = 16;

/// Errors from entry creation and from the entry set.
#[derive(Debug, PartialEq)]
pub enum LedgerError {
    /// The raw amount text was empty.
    EmptyAmount,
    /// The raw amount text was not an exactly representable decimal numeral.
    ParseAmount,
    /// The magnitude was rejected, with the reason.
    InvalidAmount(String),
    /// The entry's identity token was already present in the set.
    DuplicateLedger,
}

/// A requested movement carrying its untrusted decimal magnitude text.
#[derive(Debug, PartialEq)]
pub enum Action {
    Withdrawal(String),
    Deposit(String),
}

/// The kind of a recorded entry, retained for display and audit.
#[derive(Clone, Copy, Debug, PartialEq, Eq, Structural)]
pub enum ActionKind {
    Withdrawal,
    Deposit,
}

impl Action {
    /// The untrusted magnitude text.
    pub open spec fn raw(self) -> Seq<char> {
        match self {
            Action::Withdrawal(s) => s@,
            Action::Deposit(s) => s@,
        }
    }

    /// The entry kind this action requests.
    pub open spec fn kind(self) -> ActionKind {
        match self {
            Action::Withdrawal(_) => ActionKind::Withdrawal,
            Action::Deposit(_) => ActionKind::Deposit,
        }
    }

    /// The action's kind as text.
    pub fn name(&self) -> (r: String)
        ensures
            self.kind() == ActionKind::Deposit ==> r@ == "Deposit"@,
            self.kind() == ActionKind::Withdrawal ==> r@ == "Withdrawal"@,
    {
        match self {
            Action::Deposit(_) => String::from_str("Deposit"),
            Action::Withdrawal(_) => String::from_str("Withdrawal"),
        }
    }
}

/// Relies on rand's `thread_rng` with the `Alphanumeric` distribution: a
/// token of exactly `len` random alphanumeric characters. Nothing is assumed
/// about which characters come back; distinct calls may collide, and
/// uniqueness is enforced by the entry set, not here.
#[verifier::external_body]
fn random_token(len: usize) -> (r: String)
    ensures
        r@.len() == len,
{
    rand::thread_rng()
        .sample_iter(&rand::distributions::Alphanumeric)
        .take(len)
        .map(char::from)
        .collect()
}

/// One immutable signed monetary movement with a unique identity.
#[derive(Debug, PartialEq)]
pub struct Ledger {
    /// Identity token for deduplication.
    pub id: String,
    /// Deposit or withdrawal, as requested.
    pub kind: ActionKind,
    /// The exact signed amount; withdrawals are stored negated.
    pub amount: Amount,
}

impl Clone for Ledger {
    fn clone(&self) -> (r: Self)
        ensures
            r == *self,
    {
        Ledger { id: self.id.clone(), kind: self.kind, amount: self.amount }
    }
}

impl Ledger {
    /// Well-formed: a normalized, nonzero amount whose sign matches the
    /// kind — deposits positive, withdrawals negative.
    pub open spec fn wf(self) -> bool {
        &&& self.amount.wf()
        &&& self.amount.units() != 0
        &&& (self.kind == ActionKind::Deposit ==> self.amount.units() > 0)
        &&& (self.kind == ActionKind::Withdrawal ==> self.amount.units() < 0)
    }

    /// The signed amount.
    pub fn amount(&self) -> (r: Amount)
        ensures
            r == self.amount,
    {
        self.amount
    }
}

/// The outcome the entry factory owes for `action`: empty text is rejected
/// first, then a leading minus (the sign comes from the action kind, never
/// from the text), then unparsable text, then a zero magnitude; otherwise
/// the entry records the magnitude with the kind's sign.
pub open spec fn creation_outcome(action: Action, r: Result<Ledger, LedgerError>) -> bool {
    let raw = action.raw();
    &&& (r matches Err(LedgerError::EmptyAmount) <==> raw.len() == 0)
    &&& (raw.len() > 0 && raw[0] == '-' ==> (r matches Err(LedgerError::InvalidAmount(m))
        && m@ == "amount can't be negative"@))
    &&& (raw.len() > 0 && raw[0] != '-' && parsed_decimal(raw) is None ==> r matches Err(
        LedgerError::ParseAmount,
    ))
    &&& (raw.len() > 0 && raw[0] != '-' && (parsed_decimal(raw) matches Some(p) && p.0 == 0)
        ==> (r matches Err(LedgerError::InvalidAmount(m)) && m@ == "amount can't be zero"@))
    &&& (raw.len() > 0 && raw[0] != '-' && (parsed_decimal(raw) matches Some(p) && p.0 != 0)
        ==> (r matches Ok(l) && l.wf() && l.kind == action.kind() && l.amount.units() == (
    if action.kind() == ActionKind::Deposit {
        parsed_units(raw)
    } else {
        -parsed_units(raw)
    })))
    &&& (r is Ok ==> raw.len() > 0 && raw[0] != '-' && parsed_decimal(raw) is Some
        && parsed_decimal(raw)->Some_0.0 != 0)
}

impl Ledger {
    /// Validate `action` and record it as an entry under the given identity
    /// token (see [`creation_outcome`] for the policy). Callers supply an
    /// unsigned magnitude; the sign is derived from the action kind.
    pub fn new_with_id(action: Action, id: String) -> (r: Result<Ledger, LedgerError>)
        ensures
            creation_outcome(action, r),
            r matches Ok(l) ==> l.id == id,
    {
        let raw: &String = match &action {
            Action::Withdrawal(a) => a,
            Action::Deposit(a) => a,
        };
        if raw.as_str().unicode_len() == 0 {
            return Err(LedgerError::EmptyAmount);
        }
        if raw.as_str().get_char(0) == '-' {
            return Err(LedgerError::InvalidAmount(String::from_str("amount can't be negative")));
        }
        let parsed = match Amount::parse(raw.as_str()) {
            None => {
                return Err(LedgerError::ParseAmount);
            },
            Some(a) => a,
        };
        proof {
            lemma_units_sign(parsed);
            let p = parsed_decimal(raw@)->Some_0;
            lemma_units_sign(Amount { mantissa: p.0, scale: p.1 });
        }
        if parsed.mantissa == 0 {
            return Err(LedgerError::InvalidAmount(String::from_str("amount can't be zero")));
        }
        match action {
            Action::Deposit(_) => Ok(Ledger { id, kind: ActionKind::Deposit, amount: parsed }),
            Action::Withdrawal(_) => {
                let negated = parsed.negate();
                proof {
                    lemma_units_sign(negated);
                }
                Ok(Ledger { id, kind: ActionKind::Withdrawal, amount: negated })
            },
        }
    }

    /// Validate `action` and record it as an entry under a freshly generated
    /// random identity token. Token collision across a session has non-zero
    /// probability; uniqueness is enforced by the entry set on append.
    pub fn new(action: Action) -> (r: Result<Ledger, LedgerError>)
        ensures
            creation_outcome(action, r),
            r matches Ok(l) ==> l.id@.len() == ID_LEN,
    {
        let id = random_token(ID_LEN);
        Self::new_with_id(action, id)
    }
}

/// The sum of the entries' signed values, in [`Amount::units`] scaling.
pub open spec fn sum_units(s: Seq<Ledger>) -> int
    decreases s.len(),
{
    if s.len() == 0 {
        0
    } else {
        sum_units(s.drop_last()) + s.last().amount.units()
    }
}

/// The running total folded left to right with exact addition, or `None`
/// as soon as one partial sum cannot be represented.
pub open spec fn fold_total(s: Seq<Ledger>) -> Option<Amount>
    decreases s.len(),
{
    if s.len() == 0 {
        Some(Amount { mantissa: 0, scale: 0 })
    } else {
        match fold_total(s.drop_last()) {
            None => None,
            Some(t) => spec_add(t, s.last().amount),
        }
    }
}

/// Where the whole fold is defined, so is the fold of every prefix.
pub proof fn lemma_fold_prefix(s: Seq<Ledger>, j: int)
    requires
        0 <= j <= s.len(),
        fold_total(s) is Some,
    ensures
        fold_total(s.take(j)) is Some,
    decreases s.len() - j,
{
    if j == s.len() {
        assert(s.take(j) =~= s);
    } else {
        lemma_fold_prefix(s, j + 1);
        assert(s.take(j + 1).drop_last() =~= s.take(j));
    }
}

/// A defined fold of well-formed entries yields the well-formed canonical
/// amount holding the entries' summed value.
pub proof fn lemma_fold_units(s: Seq<Ledger>)
    requires
        forall|i: int| 0 <= i < s.len() ==> (#[trigger] s[i]).amount.wf(),
    ensures
        fold_total(s) matches Some(t) ==> t.wf() && t.units() == sum_units(s),
    decreases s.len(),
{
    if s.len() > 0 && fold_total(s) is Some {
        lemma_fold_units(s.drop_last());
        let t = fold_total(s.drop_last())->Some_0;
        lemma_spec_add(t, s.last().amount);
    }
}

/// Duplicate rejection: once an entry is appended to a set that lacked its
/// identity token, the token is present and the set holds exactly one more
/// entry — so by [`Ledgers::add`]'s contract, appending any further entry
/// with the same token is rejected and leaves the set untouched.
pub proof fn lemma_duplicate_rejected(pre: Ledgers, mid: Ledgers, e1: Ledger, e2: Ledger)
    requires
        !pre.has_id(e1.id@),
        mid.collection@ == pre.collection@.push(e1),
        e2.id@ == e1.id@,
    ensures
        mid.has_id(e2.id@),
        mid.collection@.len() == pre.collection@.len() + 1,
{
    assert(mid.collection@[pre.collection@.len() as int] == e1);
}

/// The entry set: an append-only, insertion-ordered collection of entries
/// together with the index of identity tokens already present, kept
/// consistent with each other for duplicate rejection.
#[derive(Debug, PartialEq)]
pub struct Ledgers {
    /// The identity tokens of `collection`'s entries, in the same order.
    pub index: Vec<String>,
    /// The entries, in insertion order.
    pub collection: Vec<Ledger>,
}

impl Clone for Ledgers {
    fn clone(&self) -> (r: Self)
        ensures
            r.index@ == self.index@,
            r.collection@ == self.collection@,
    {
        let index = self.index.clone();
        let collection = self.collection.clone();
        proof {
            assert forall|k: int| 0 <= k < self.index@.len() implies index@[k]
                == self.index@[k] by {
                assert(vstd::pervasive::cloned::<String>(self.index@[k], index@[k]));
            }
            assert(index@ =~= self.index@);
            assert forall|k: int| 0 <= k < self.collection@.len() implies collection@[k]
                == self.collection@[k] by {
                assert(vstd::pervasive::cloned::<Ledger>(self.collection@[k], collection@[k]));
            }
            assert(collection@ =~= self.collection@);
        }
        Ledgers { index, collection }
    }
}

impl Ledgers {
    /// Whether an entry with this identity token is present.
    pub open spec fn has_id(self, id: Seq<char>) -> bool {
        exists|i: int| 0 <= i < self.collection@.len() && (#[trigger] self.collection@[i]).id@
            == id
    }

    /// Well-formed: the index mirrors the collection's identity tokens
    /// one-to-one, tokens are pairwise distinct, and every entry's amount
    /// is well-formed.
    pub open spec fn wf(self) -> bool {
        &&& self.index@.len() == self.collection@.len()
        &&& forall|i: int|
            0 <= i < self.collection@.len() ==> (#[trigger] self.index@[i])@
                == self.collection@[i].id@
        &&& forall|i: int, j: int|
            0 <= i < j < self.collection@.len() ==> (#[trigger] self.collection@[i]).id@ != (
            #[trigger] self.collection@[j]).id@
        &&& forall|i: int| 0 <= i < self.collection@.len() ==> (#[trigger] self.collection@[i]).amount.wf()
    }

    /// An empty entry set.
    pub fn new() -> (r: Ledgers)
        ensures
            r.wf(),
            r.collection@.len() == 0,
    {
        Ledgers { index: Vec::new(), collection: Vec::new() }
    }

    /// Append an entry, rejecting it with `DuplicateLedger` — and leaving
    /// the set untouched — where its identity token is already present.
    pub fn add(&mut self, ledger: Ledger) -> (r: Result<(), LedgerError>)
        requires
            old(self).wf(),
            ledger.amount.wf(),
        ensures
            final(self).wf(),
            old(self).has_id(ledger.id@) ==> (r matches Err(LedgerError::DuplicateLedger)
                && *final(self) == *old(self)),
            !old(self).has_id(ledger.id@) ==> (r matches Ok(())
                && final(self).collection@ == old(self).collection@.push(ledger)
                && final(self).index@ == old(self).index@.push(ledger.id)),
    {
        let n = self.index.len();
        let mut i: usize = 0;
        while i < n
            invariant
                *self == *old(self),
                self.wf(),
                i <= n == self.index@.len(),
                forall|k: int| 0 <= k < i ==> (#[trigger] self.index@[k])@ != ledger.id@,
            decreases n - i,
        {
            if self.index[i] == ledger.id {
                proof {
                    assert(old(self).collection@[i as int].id@ == ledger.id@);
                }
                return Err(LedgerError::DuplicateLedger);
            }
            i = i + 1;
        }
        proof {
            assert(!old(self).has_id(ledger.id@)) by {
                assert forall|k: int|
                    0 <= k < old(self).collection@.len() implies (#[trigger] old(
                    self,
                ).collection@[k]).id@ != ledger.id@ by {
                    assert(old(self).index@[k]@ == old(self).collection@[k].id@);
                }
            }
        }
        self.index.push(ledger.id.clone());
        self.collection.push(ledger);
        proof {
            let pre = *old(self);
            let len = pre.collection@.len() as int;
            assert forall|a: int, b: int|
                0 <= a < b < self.collection@.len() implies (#[trigger] self.collection@[a]).id@
                != (#[trigger] self.collection@[b]).id@ by {
                if b < len {
                } else {
                    assert(self.collection@[b] == ledger);
                    assert(pre.index@[a]@ == pre.collection@[a].id@);
                }
            }
        }
        Ok(())
    }

    /// The number of entries.
    pub fn len(&self) -> (r: usize)
        ensures
            r == self.collection@.len(),
    {
        self.collection.len()
    }

    /// The exact sum of all entries' signed amounts, in insertion order.
    pub fn sum(&self) -> (r: Amount)
        requires
            self.wf(),
            fold_total(self.collection@) is Some,
        ensures
            Some(r) == fold_total(self.collection@),
            r.wf(),
            r.units() == sum_units(self.collection@),
    {
        let s = Ghost(self.collection@);
        let mut total = Amount::zero();
        let n = self.collection.len();
        let mut i: usize = 0;
        proof {
            assert(s@.take(0) =~= Seq::<Ledger>::empty());
        }
        while i < n
            invariant
                i <= n == s@.len(),
                s@ == self.collection@,
                self.wf(),
                fold_total(s@) is Some,
                Some(total) == fold_total(s@.take(i as int)),
                total.wf(),
            decreases n - i,
        {
            proof {
                lemma_fold_prefix(s@, i + 1);
                assert(s@.take(i + 1).drop_last() =~= s@.take(i as int));
                assert(s@.take(i + 1).last() == s@[i as int]);
            }
            total = match total.checked_add(self.collection[i].amount) {
                Some(t) => t,
                None => {
                    proof {
                        assert(false);
                    }
                    Amount::zero()
                },
            };
            i = i + 1;
        }
        proof {
            assert(s@.take(n as int) =~= s@);
            lemma_fold_units(s@);
        }
        total
    }
}

} // verus!
