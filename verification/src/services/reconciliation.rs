//! Customer balance reconciliation: a customer's outstanding balance is the
//! due of their latest invoice that is still unpaid and was not carried
//! forward onto another invoice, or zero when there is none.
use vstd::prelude::*;
use crate::text::chars_of;

verus! {

/// What reconciliation reads of one of a customer's invoices.
#[derive(Debug, Clone)]
pub struct LedgerEntry {
    pub total: i64,
    pub amount_paid: i64,
    /// The due was carried forward onto a later invoice.
    pub carried_forward: bool,
    pub created_at: String,
}

/// An invoice whose due still stands on its own.
pub open spec fn open_entry(e: LedgerEntry) -> bool {
    !e.carried_forward && e.total > e.amount_paid
}

/// Text order by code point, as SQLite compares stored timestamps.
pub open spec fn text_lt(a: Seq<char>, b: Seq<char>) -> bool
    decreases a.len(),
{
    if a.len() == 0 {
        b.len() > 0
    } else if b.len() == 0 {
        false
    } else if a[0] != b[0] {
        (a[0] as int) < (b[0] as int)
    } else {
        text_lt(a.drop_first(), b.drop_first())
    }
}

proof fn lemma_text_lt_asym(a: Seq<char>, b: Seq<char>)
    ensures
        !(text_lt(a, b) && text_lt(b, a)),
    decreases a.len(),
{
    if a.len() > 0 && b.len() > 0 && a[0] == b[0] {
        lemma_text_lt_asym(a.drop_first(), b.drop_first());
    }
}

proof fn lemma_text_lt_trans(a: Seq<char>, b: Seq<char>, c: Seq<char>)
    requires
        text_lt(a, b),
        text_lt(b, c),
    ensures
        text_lt(a, c),
    decreases a.len(),
{
    if a.len() > 0 && b.len() > 0 && c.len() > 0 && a[0] == b[0] && b[0] == c[0] {
        lemma_text_lt_trans(a.drop_first(), b.drop_first(), c.drop_first());
    }
}

proof fn lemma_text_lt_total(a: Seq<char>, b: Seq<char>)
    ensures
        a == b || text_lt(a, b) || text_lt(b, a),
    decreases a.len(),
{
    if a.len() > 0 && b.len() > 0 && a[0] == b[0] {
        lemma_text_lt_total(a.drop_first(), b.drop_first());
        if a.drop_first() == b.drop_first() {
            assert(a =~= seq![a[0]] + a.drop_first());
            assert(b =~= seq![b[0]] + b.drop_first());
        }
    } else if a.len() == 0 && b.len() == 0 {
        assert(a =~= b);
    } else if a.len() > 0 && b.len() > 0 {
        assert((a[0] as int) != (b[0] as int));
    }
}

/// Whether `a` sorts before `b`.
pub fn text_less(a: &str, b: &str) -> (r: bool)
    ensures
        r == text_lt(a@, b@),
{
    let x = chars_of(a);
    let y = chars_of(b);
    let mut i: usize = 0;
    assert(x@.skip(0) =~= x@);
    assert(y@.skip(0) =~= y@);
    while i < x.len() && i < y.len()
        invariant
            i <= x@.len(),
            i <= y@.len(),
            x@ == a@,
            y@ == b@,
            text_lt(x@.skip(i as int), y@.skip(i as int)) == text_lt(a@, b@),
        decreases x@.len() - i,
    {
        let ghost xs = x@.skip(i as int);
        let ghost ys = y@.skip(i as int);
        assert(xs[0] == x@[i as int] && ys[0] == y@[i as int]);
        if x[i] != y[i] {
            return x[i] < y[i];
        }
        assert(xs.drop_first() =~= x@.skip(i + 1));
        assert(ys.drop_first() =~= y@.skip(i + 1));
        i = i + 1;
    }
    y.len() > i
}

/// Whether `balance` is what reconciliation sets: the due of an open entry
/// with no open entry later than it, or zero when no entry is open.
pub open spec fn reconciled(entries: Seq<LedgerEntry>, balance: int) -> bool {
    if forall|i: int| 0 <= i < entries.len() ==> !open_entry(#[trigger] entries[i]) {
        balance == 0
    } else {
        exists|i: int| 0 <= i < entries.len() && open_entry(#[trigger] entries[i])
            && balance == entries[i].total - entries[i].amount_paid
            && forall|j: int| 0 <= j < entries.len() && open_entry(#[trigger] entries[j])
                ==> !text_lt(entries[i].created_at@, entries[j].created_at@)
    }
}

/// A customer's reconciled balance from their invoices.
pub fn reconciled_balance(entries: &Vec<LedgerEntry>) -> (r: i64)
    requires
        forall|i: int| 0 <= i < entries@.len() ==> (#[trigger] entries@[i]).total - entries@[i].amount_paid
            <= i64::MAX,
    ensures
        reconciled(entries@, r as int),
{
    let mut best: Option<usize> = None;
    let mut i: usize = 0;
    while i < entries.len()
        invariant
            i <= entries@.len(),
            match best {
                None => forall|j: int| 0 <= j < i ==> !open_entry(#[trigger] entries@[j]),
                Some(b) => b < i && open_entry(entries@[b as int]) && forall|j: int|
                    0 <= j < i && open_entry(#[trigger] entries@[j]) ==> !text_lt(
                        entries@[b as int].created_at@,
                        entries@[j].created_at@,
                    ),
            },
        decreases entries@.len() - i,
    {
        let e = &entries[i];
        if !e.carried_forward && e.total > e.amount_paid {
            match best {
                None => {
                    best = Some(i);
                    proof {
                        lemma_text_lt_asym(e.created_at@, e.created_at@);
                    }
                },
                Some(b) => {
                    if text_less(entries[b].created_at.as_str(), e.created_at.as_str()) {
                        proof {
                            let bc = entries@[b as int].created_at@;
                            let ic = e.created_at@;
                            lemma_text_lt_asym(ic, ic);
                            assert forall|j: int| 0 <= j <= i && open_entry(#[trigger] entries@[j]) implies !text_lt(
                                ic,
                                entries@[j].created_at@,
                            ) by {
                                if j < i {
                                    let jc = entries@[j].created_at@;
                                    lemma_text_lt_total(bc, jc);
                                    if text_lt(ic, jc) {
                                        if text_lt(jc, bc) {
                                            lemma_text_lt_trans(ic, jc, bc);
                                            lemma_text_lt_asym(ic, bc);
                                        } else {
                                            lemma_text_lt_asym(ic, bc);
                                        }
                                    }
                                }
                            }
                        }
                        best = Some(i);
                    }
                },
            }
        }
        i = i + 1;
    }
    match best {
        None => 0,
        Some(b) => {
            let e = &entries[b];
            e.total - e.amount_paid
        },
    }
}

/// Reconciliation keeps a customer's balance exactly when some invoice still
/// stands open on its own: one not carried forward whose total exceeds what
/// was paid, whatever was paid (nothing included). The balance is then the
/// due of one such invoice, so it is positive; otherwise it is 0. A customer
/// with a single such invoice owes exactly its due.
pub proof fn lemma_open_invoice_keeps_balance(entries: Seq<LedgerEntry>, balance: int)
    requires
        reconciled(entries, balance),
    ensures
        balance >= 0,
        balance > 0 <==> exists|i: int|
            0 <= i < entries.len() && !(#[trigger] entries[i]).carried_forward && entries[i].total
                > entries[i].amount_paid,
        balance > 0 ==> exists|i: int|
            0 <= i < entries.len() && !(#[trigger] entries[i]).carried_forward && entries[i].total
                > entries[i].amount_paid && balance == entries[i].total - entries[i].amount_paid,
        entries.len() == 1 && !entries[0].carried_forward && entries[0].total > entries[0].amount_paid ==> balance
            == entries[0].total - entries[0].amount_paid,
{
    if forall|i: int| 0 <= i < entries.len() ==> !open_entry(#[trigger] entries[i]) {
        assert(balance == 0);
        assert forall|i: int|
            0 <= i < entries.len() implies !(!(#[trigger] entries[i]).carried_forward && entries[i].total
                > entries[i].amount_paid) by {
            assert(!open_entry(entries[i]));
        }
        if entries.len() == 1 {
            assert(!open_entry(entries[0]));
        }
    } else {
        let i = choose|i: int|
            0 <= i < entries.len() && open_entry(#[trigger] entries[i]) && balance == entries[i].total
                - entries[i].amount_paid && forall|j: int|
                0 <= j < entries.len() && open_entry(#[trigger] entries[j]) ==> !text_lt(
                    entries[i].created_at@,
                    entries[j].created_at@,
                );
        assert(open_entry(entries[i]));
        assert(!entries[i].carried_forward && entries[i].total > entries[i].amount_paid);
        if entries.len() == 1 {
            assert(i == 0);
        }
    }
}

} // verus!
