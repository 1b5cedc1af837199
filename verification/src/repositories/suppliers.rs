//! Suppliers and supplier purchases: records and the payable-ledger rules.
use vstd::prelude::*;
use crate::error::{AppError, validation};
use crate::text::{trim, trim_str, string_of, decimal, push_str, push_decimal};
use crate::repositories::invoices::{clamp, document_no, format_document_no, SEARCH_CAP};

verus! {

#[derive(Debug, Clone)]
pub struct Supplier {
    pub id: String,
    pub name: String,
    pub phone: Option<String>,
    pub email: Option<String>,
    pub company: Option<String>,
    pub address: Option<String>,
    pub notes: Option<String>,
    pub outstanding_balance: i64,
    pub created_at: String,
    pub updated_at: String,
}

#[derive(Debug, Clone)]
pub struct CreateSupplierInput {
    pub name: String,
    pub phone: Option<String>,
    pub email: Option<String>,
    pub company: Option<String>,
    pub address: Option<String>,
    pub notes: Option<String>,
}

#[derive(Debug, Clone)]
pub struct SupplierPurchase {
    pub id: String,
    pub purchase_no: String,
    pub supplier_id: String,
    pub supplier_name: String,
    pub subtotal: i64,
    pub discount: i64,
    pub total: i64,
    pub amount_paid: i64,
    pub payment_method: String,
    pub notes: Option<String>,
    pub created_at: String,
    pub updated_at: String,
}

#[derive(Debug, Clone)]
pub struct SupplierPurchaseItem {
    pub id: String,
    pub purchase_id: String,
    pub description: String,
    pub quantity: i64,
    pub unit: String,
    pub unit_price: i64,
    pub line_total: i64,
    pub created_at: String,
}

#[derive(Debug, Clone)]
pub struct CreatePurchaseInput {
    pub supplier_id: String,
    pub supplier_name: String,
    pub subtotal: i64,
    pub discount: i64,
    pub total: i64,
    pub amount_paid: Option<i64>,
    pub payment_method: String,
    pub notes: Option<String>,
    pub items: Vec<CreatePurchaseItemInput>,
}

#[derive(Debug, Clone)]
pub struct CreatePurchaseItemInput {
    pub description: String,
    pub quantity: i64,
    pub unit: String,
    pub unit_price: i64,
    pub line_total: i64,
}

/// The refusal to delete a supplier that still carries a balance.
pub open spec fn nonzero_balance_text(balance: int) -> Seq<char> {
    "Cannot delete supplier with non-zero balance of PKR "@ + decimal(balance)
}

/// A supplier may only be deleted when its outstanding balance is zero.
pub fn check_supplier_deletable(balance: i64) -> (r: Result<(), AppError>)
    ensures
        balance == 0 ==> r is Ok,
        balance != 0 ==> (r matches Err(AppError::Validation(m)) && m@ == nonzero_balance_text(
            balance as int,
        )),
{
    if balance != 0 {
        let mut v: Vec<char> = Vec::new();
        push_str(&mut v, "Cannot delete supplier with non-zero balance of PKR ");
        push_decimal(&mut v, balance);
        return Err(validation(&v));
    }
    Ok(())
}

/// `a - b` saturated into the `i64` range.
pub open spec fn saturating_diff(a: int, b: int) -> int {
    if a - b > i64::MAX {
        i64::MAX as int
    } else if a - b < i64::MIN {
        i64::MIN as int
    } else {
        a - b
    }
}

/// Total, amount paid and due of a new purchase: the total is recomputed as
/// subtotal minus discount (saturating); the amount paid is the one given
/// (none given is 0), clamped to `[0, total]`, whatever the payment method.
/// The total must come out non-negative.
pub fn purchase_totals(subtotal: i64, discount: i64, amount_paid: Option<i64>) -> (r: (i64, i64, i64))
    requires
        saturating_diff(subtotal as int, discount as int) >= 0,
    ensures
        r.0 == saturating_diff(subtotal as int, discount as int),
        r.1 == clamp(
            match amount_paid {
                Some(a) => a as int,
                None => 0,
            },
            0,
            r.0 as int,
        ),
        r.2 == r.0 - r.1,
        0 <= r.1 <= r.0,
{
    let d = subtotal as i128 - discount as i128;
    let total: i64 = if d > i64::MAX as i128 {
        i64::MAX
    } else if d < i64::MIN as i128 {
        i64::MIN
    } else {
        d as i64
    };
    let requested = match amount_paid {
        Some(a) => a,
        None => 0,
    };
    let paid = if requested < 0 {
        0
    } else if requested > total {
        total
    } else {
        requested
    };
    (total, paid, total - paid)
}

/// Which listing `SupplierPurchaseRepository::list` runs.
#[derive(Debug, Clone)]
pub enum PurchaseListQuery {
    /// The purchases of one supplier, newest first, capped.
    BySupplier { supplier_id: String, cap: i64 },
    /// Search over purchase number and supplier name, newest first, capped.
    Search { text: String, cap: i64 },
    /// The newest purchases, paged.
    Page { limit: i64, offset: i64 },
}

/// A non-blank supplier filter wins over a non-blank search; otherwise a page.
pub fn purchase_list_query(limit: i64, offset: i64, query: Option<&str>, supplier_id: Option<&str>) -> (r:
    PurchaseListQuery)
    ensures
        match supplier_id {
            Some(s) if trim(s@).len() > 0 => r matches PurchaseListQuery::BySupplier { supplier_id: t, cap }
                && t@ == trim(s@) && cap == SEARCH_CAP,
            _ => match query {
                Some(q) if trim(q@).len() > 0 => r matches PurchaseListQuery::Search { text, cap } && text@
                    == trim(q@) && cap == SEARCH_CAP,
                _ => r == (PurchaseListQuery::Page { limit, offset }),
            },
        },
{
    if let Some(s) = supplier_id {
        let t = trim_str(s);
        if t.len() > 0 {
            return PurchaseListQuery::BySupplier { supplier_id: string_of(&t), cap: SEARCH_CAP };
        }
    }
    if let Some(q) = query {
        let t = trim_str(q);
        if t.len() > 0 {
            return PurchaseListQuery::Search { text: string_of(&t), cap: SEARCH_CAP };
        }
    }
    PurchaseListQuery::Page { limit, offset }
}

/// Purchase number `PO-YEAR-NNNN`.
pub fn format_purchase_no(year: i64, sequence: i64) -> (r: String)
    ensures
        r@ == document_no("PO"@, year as int, sequence as int),
{
    format_document_no("PO", year, sequence)
}

} // verus!
