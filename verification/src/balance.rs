//! Currency-tagged balances.
//!
//! A [`Balance`] owns one currency's entry set and derives its total from
//! the full entry history on every read, so "insufficient funds" is a pure
//! function of history. A rejected mutation has no observable side effect.

use vstd::prelude::*;

verus! {

use crate::amount::{Amount, add_fits, amount_text, lemma_canonical, lemma_units_sign, spec_add};
use crate::ledger::{Ledger, Ledgers, fold_total, lemma_fold_units, sum_units};

/// Errors from balance creation and mutation.
#[derive(Debug, PartialEq)]
pub enum BalanceError {
    /// The currency code was empty.
    InvalidCurrency,
    /// The mutation would drive the running balance negative.
    BalanceNotEnough,
    /// The entry's identity token is already recorded; propagated from the
    /// entry set on append.
    DuplicateLedger,
    /// The exact new total cannot be represented within the machine bounds
    /// of the amount representation.
    AmountOverflow,
}

/// What the uppercase normalizer returns for a currency code.
pub uninterp spec fn upper_of(s: Seq<char>) -> Seq<char>;

/// Relies on `str::to_uppercase`: the uppercase form of `s`, a function of
/// the characters alone; uppercasing never turns nonempty text empty.
#[verifier::external_body]
fn to_upper(s: &str) -> (r: String)
    ensures
        r@ == upper_of(s@),
        s@.len() > 0 ==> r@.len() > 0,
{
    s.to_uppercase()
}

/// Every prefix of the entry history folds to a representable total that is
/// never negative: the invariant that successful mutations maintain.
pub open spec fn history_ok(s: Seq<Ledger>) -> bool
    decreases s.len(),
{
    if s.len() == 0 {
        true
    } else {
        &&& history_ok(s.drop_last())
        &&& fold_total(s) is Some
        &&& sum_units(s) >= 0
    }
}

/// One currency's balance over its owned entry history.
#[derive(Debug, PartialEq)]
pub struct Balance {
    /// Non-empty, upper-cased currency code.
    pub currency: String,
    /// The owned entry set.
    pub ledgers: Ledgers,
}

impl Clone for Balance {
    fn clone(&self) -> (r: Self)
        ensures
            r.currency@ == self.currency@,
            r.ledgers.index@ == self.ledgers.index@,
            r.ledgers.collection@ == self.ledgers.collection@,
            self.wf() ==> r.wf(),
    {
        Balance { currency: self.currency.clone(), ledgers: self.ledgers.clone() }
    }
}

impl Balance {
    /// Well-formed: a non-empty currency code, a consistent entry set, and
    /// an entry history whose running total is representable and never
    /// negative at any point.
    pub open spec fn wf(self) -> bool {
        &&& self.currency@.len() > 0
        &&& self.ledgers.wf()
        &&& history_ok(self.ledgers.collection@)
    }

    /// Create a balance for `currency`: rejected if and only if the code is
    /// empty, otherwise stored upper-cased over an empty entry set.
    pub fn new(currency: &str) -> (r: Result<Balance, BalanceError>)
        ensures
            r matches Err(BalanceError::InvalidCurrency) <==> currency@.len() == 0,
            r is Ok <==> currency@.len() > 0,
            r matches Ok(b) ==> b.wf() && b.currency@ == upper_of(currency@)
                && b.ledgers.collection@.len() == 0,
    {
        if currency.unicode_len() == 0 {
            return Err(BalanceError::InvalidCurrency);
        }
        Ok(Balance { currency: to_upper(currency), ledgers: Ledgers::new() })
    }

    /// The current total: zero with no entries, else the exact sum of the
    /// entry history. Never negative on a well-formed balance.
    pub fn amount(&self) -> (r: Amount)
        requires
            self.wf(),
        ensures
            Some(r) == fold_total(self.ledgers.collection@),
            r.wf(),
            r.units() == sum_units(self.ledgers.collection@),
            r.units() >= 0,
    {
        if self.ledgers.len() == 0 {
            Amount::zero()
        } else {
            proof {
                lemma_fold_units(self.ledgers.collection@);
            }
            self.ledgers.sum()
        }
    }

    /// Apply one entry to this balance. The new total is computed first: a
    /// total that cannot be represented is rejected with `AmountOverflow`, a
    /// negative one with `BalanceNotEnough`; then the entry is appended,
    /// propagating `DuplicateLedger` if its identity token is already
    /// recorded. A rejected mutation leaves the balance byte-for-byte
    /// unchanged; on success the new total is returned.
    pub fn mutate(&mut self, ledger: Ledger) -> (r: Result<Amount, BalanceError>)
        requires
            old(self).wf(),
            ledger.wf(),
        ensures
            final(self).wf(),
            r is Err ==> *final(self) == *old(self),
            ({
                let s = old(self).ledgers.collection@;
                let cur = fold_total(s)->Some_0;
                let fits = add_fits(cur, ledger.amount);
                let enough = sum_units(s) + ledger.amount.units() >= 0;
                let fresh = !old(self).ledgers.has_id(ledger.id@);
                &&& (r matches Err(BalanceError::AmountOverflow) <==> !fits)
                &&& (r matches Err(BalanceError::BalanceNotEnough) <==> fits && !enough)
                &&& (r matches Err(BalanceError::DuplicateLedger) <==> fits && enough && !fresh)
                &&& (r is Ok <==> fits && enough && fresh)
                &&& (r matches Ok(t) ==> Some(t) == spec_add(cur, ledger.amount) && t.wf()
                    && t.units() == sum_units(s) + ledger.amount.units())
                &&& (r is Ok ==> final(self).ledgers.collection@ == s.push(ledger)
                    && final(self).currency == old(self).currency)
            }),
    {
        proof {
            lemma_fold_units(self.ledgers.collection@);
        }
        let current = self.ledgers.sum();
        let total = match current.checked_add(ledger.amount()) {
            None => {
                return Err(BalanceError::AmountOverflow);
            },
            Some(t) => t,
        };
        proof {
            lemma_units_sign(total);
        }
        if total.mantissa < 0 {
            return Err(BalanceError::BalanceNotEnough);
        }
        match self.ledgers.add(ledger) {
            Err(_) => Err(BalanceError::DuplicateLedger),
            Ok(()) => {
                proof {
                    let s2 = self.ledgers.collection@;
                    assert(s2.drop_last() =~= old(self).ledgers.collection@);
                }
                Ok(total)
            },
        }
    }

    /// The balance as `"{CURRENCY} {amount}"`: an integer total renders
    /// without a fraction, any other with its full exact decimal expansion.
    pub fn display(&self) -> (r: String)
        requires
            self.wf(),
        ensures
            r@ == self.currency@ + " "@ + amount_text(fold_total(self.ledgers.collection@)->Some_0),
    {
        let a = self.amount();
        let mut out = self.currency.clone();
        out.append(" ");
        let text = a.to_text();
        out.append(text.as_str());
        proof {
            assert(out@ =~= self.currency@ + " "@ + amount_text(a));
        }
        out
    }
}

/// Round trip: after a deposit of some value and then a withdrawal of that
/// same value both succeed, the balance's entry total — and so its reported
/// amount — is exactly what it was before the deposit.
pub proof fn lemma_round_trip(b0: Balance, b1: Balance, b2: Balance, dep: Ledger, wd: Ledger)
    requires
        b0.wf(),
        b1.wf(),
        b2.wf(),
        wd.amount.units() == -dep.amount.units(),
        b1.ledgers.collection@ == b0.ledgers.collection@.push(dep),
        b2.ledgers.collection@ == b1.ledgers.collection@.push(wd),
    ensures
        sum_units(b2.ledgers.collection@) == sum_units(b0.ledgers.collection@),
        fold_total(b2.ledgers.collection@)->Some_0 == fold_total(b0.ledgers.collection@)->Some_0,
{
    let s0 = b0.ledgers.collection@;
    let s1 = b1.ledgers.collection@;
    let s2 = b2.ledgers.collection@;
    assert(s1.drop_last() =~= s0);
    assert(s2.drop_last() =~= s1);
    assert(sum_units(s2) == sum_units(s0));
    lemma_history_fold(b0);
    lemma_history_fold(b2);
    lemma_fold_units(s0);
    lemma_fold_units(s2);
    lemma_canonical(fold_total(s0)->Some_0, fold_total(s2)->Some_0);
}

/// A well-formed balance is never overdrawn: the running total of its
/// entry history is non-negative, and so is every prefix of it. Balances
/// held in the account store satisfy this under the store's lock predicate,
/// whatever interleaving of operations runs.
pub proof fn lemma_never_negative(b: Balance)
    requires
        b.wf(),
    ensures
        sum_units(b.ledgers.collection@) >= 0,
{
    if b.ledgers.collection@.len() == 0 {
        assert(sum_units(b.ledgers.collection@) == 0);
    }
}

/// A well-formed balance's history folds to a defined total.
proof fn lemma_history_fold(b: Balance)
    requires
        b.wf(),
    ensures
        fold_total(b.ledgers.collection@) is Some,
{
    if b.ledgers.collection@.len() == 0 {
        assert(fold_total(b.ledgers.collection@) is Some);
    }
}

} // verus!
