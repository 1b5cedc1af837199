//! Returns: records, the over-return guard and the invoice ledger adjustment.
use vstd::prelude::*;
use crate::error::{AppError, validation};
use crate::text::{decimal, push_str, push_decimal};

verus! {

#[derive(Debug, Clone)]
pub struct Return {
    pub id: String,
    pub invoice_id: String,
    pub product_id: Option<String>,
    pub product_name: String,
    pub quantity: i64,
    pub unit: String,
    pub unit_price: i64,
    pub line_total: i64,
    pub reason: String,
    pub processed_by: String,
    pub created_at: String,
}

#[derive(Debug, Clone)]
pub struct CreateReturnInput {
    pub invoice_id: String,
    pub product_id: Option<String>,
    pub product_name: String,
    pub quantity: i64,
    pub unit: String,
    pub unit_price: i64,
    pub line_total: i64,
    pub reason: String,
    pub processed_by: String,
}

/// The refusal text: `Cannot return Q UNIT: only R remain returnable on this invoice`.
pub open spec fn over_return_text(quantity: int, unit: Seq<char>, remaining: int) -> Seq<char> {
    "Cannot return "@ + decimal(quantity) + " "@ + unit + ": only "@ + decimal(
        if remaining > 0 {
            remaining
        } else {
            0
        },
    ) + " remain returnable on this invoice"@
}

/// Over-return guard: the quantity returned so far (`already`) plus this
/// return may not exceed what the invoice sold of the product (`sold`).
pub fn check_returnable(quantity: i64, unit: &str, sold: i64, already: i64) -> (r: Result<(), AppError>)
    requires
        i64::MIN <= sold - already <= i64::MAX,
    ensures
        quantity > sold - already ==> (r matches Err(AppError::Validation(m)) && m@ == over_return_text(
            quantity as int,
            unit@,
            sold - already,
        )),
        quantity <= sold - already ==> r is Ok,
{
    let remaining = sold - already;
    if quantity > remaining {
        let mut v: Vec<char> = Vec::new();
        push_str(&mut v, "Cannot return ");
        push_decimal(&mut v, quantity);
        push_str(&mut v, " ");
        push_str(&mut v, unit);
        push_str(&mut v, ": only ");
        push_decimal(&mut v, if remaining > 0 { remaining } else { 0 });
        push_str(&mut v, " remain returnable on this invoice");
        assert(v@ =~= over_return_text(quantity as int, unit@, remaining as int));
        return Err(validation(&v));
    }
    Ok(())
}

/// How a return changes its invoice and the customer's balance.
#[derive(Debug, Clone, Copy)]
pub struct ReturnAdjustment {
    pub new_subtotal: i64,
    pub new_total: i64,
    pub new_paid: i64,
    /// Change of the amount due; mirrored onto the customer's balance.
    pub due_delta: i64,
}

pub open spec fn max0(x: int) -> int {
    if x > 0 {
        x
    } else {
        0
    }
}

/// The ledger adjustment of a return worth `line_total`: subtotal and total
/// shrink by it (not below zero), the amount paid is capped at the new total,
/// and the change of the due (`max(total - paid, 0)`) is reported.
pub open spec fn return_adjustment(subtotal: int, total: int, paid: int, line_total: int) -> (int, int, int, int) {
    let new_subtotal = max0(subtotal - line_total);
    let new_total = max0(total - line_total);
    let new_paid = if paid < new_total {
        paid
    } else {
        new_total
    };
    let old_due = max0(total - paid);
    let new_due = max0(new_total - new_paid);
    (new_subtotal, new_total, new_paid, new_due - old_due)
}

pub fn adjust_for_return(subtotal: i64, total: i64, paid: i64, line_total: i64) -> (r: ReturnAdjustment)
    requires
        i64::MIN <= subtotal - line_total <= i64::MAX,
        i64::MIN <= total - line_total <= i64::MAX,
        i64::MIN <= total - paid <= i64::MAX,
        max0(total - line_total) - paid <= i64::MAX,
    ensures
        (r.new_subtotal as int, r.new_total as int, r.new_paid as int, r.due_delta as int)
            == return_adjustment(subtotal as int, total as int, paid as int, line_total as int),
{
    let a = subtotal - line_total;
    let new_subtotal: i64 = if a > 0 { a } else { 0 };
    let b = total - line_total;
    let new_total: i64 = if b > 0 { b } else { 0 };
    let new_paid: i64 = if paid < new_total { paid } else { new_total };
    let c = total - paid;
    let old_due: i64 = if c > 0 { c } else { 0 };
    let d = new_total - new_paid;
    let new_due: i64 = if d > 0 { d } else { 0 };
    ReturnAdjustment { new_subtotal, new_total, new_paid, due_delta: new_due - old_due }
}

/// A return takes its value off the subtotal and the total (not below
/// zero), keeps the amount paid unless it now exceeds the total (then it
/// becomes the total), never raises what the customer owes, and reports the
/// change of the due exactly.
pub proof fn lemma_return_never_raises_due(subtotal: int, total: int, paid: int, line_total: int)
    requires
        line_total >= 0,
        0 <= paid,
    ensures
        ({
            let (ns, nt, np, delta) = return_adjustment(subtotal, total, paid, line_total);
            &&& 0 <= ns
            &&& 0 <= nt <= max0(total)
            &&& 0 <= np <= nt
            &&& np <= paid
            &&& delta <= 0
            &&& delta == max0(nt - np) - max0(total - paid)
            &&& nt == (if total - line_total > 0 {
                total - line_total
            } else {
                0
            })
            &&& ns == (if subtotal - line_total > 0 {
                subtotal - line_total
            } else {
                0
            })
            &&& np == (if paid <= nt {
                paid
            } else {
                nt
            })
        }),
{
}

} // verus!
