//! Invoice commands: the checks on a new invoice and on a payment.
use vstd::prelude::*;
use crate::commands::validation::{LineFacts, check_lines, first_line_error};
use crate::error::{AppError, validation_str};
use crate::repositories::invoices::{CreateInvoiceInput, CreateInvoiceItemInput};

verus! {

pub struct ListInvoicesInput {
    pub limit: Option<i64>,
    pub offset: Option<i64>,
    /// Full-history search across invoice number and customer name.
    pub query: Option<String>,
}

pub struct CreateInvoiceInputCmd {
    pub customer_id: Option<String>,
    pub customer_name: String,
    pub subtotal: i64,
    pub discount: i64,
    pub total: i64,
    pub amount_paid: Option<i64>,
    pub payment_method: String,
    pub notes: Option<String>,
    pub delivery_date: Option<String>,
    pub items: Vec<CreateInvoiceItemInputCmd>,
}

/// One line of a new invoice. The tile area (display only) is in thousandths
/// of a square metre.
pub struct CreateInvoiceItemInputCmd {
    pub product_id: Option<String>,
    pub product_name: String,
    pub quantity: i64,
    pub unit: String,
    pub unit_price: i64,
    pub line_total: i64,
    pub purchase_price: i64,
    pub total_area_milli: Option<i64>,
}

pub struct MarkPaidInput {
    pub id: String,
    pub amount: i64,
    pub payment_method: String,
}

/// Rows per page when the caller gives no limit.
pub const DEFAULT_PAGE_LIMIT: i64 = 50;

/// Paging of a listing: 50 rows from the start unless the caller says otherwise.
pub fn page_or_default(limit: Option<i64>, offset: Option<i64>) -> (r: (i64, i64))
    ensures
        r.0 == (match limit {
            Some(l) => l,
            None => DEFAULT_PAGE_LIMIT,
        }),
        r.1 == (match offset {
            Some(o) => o,
            None => 0,
        }),
{
    let l = match limit {
        Some(l) => l,
        None => DEFAULT_PAGE_LIMIT,
    };
    let o = match offset {
        Some(o) => o,
        None => 0,
    };
    (l, o)
}

/// The facts each invoice line is checked on.
pub open spec fn invoice_lines(items: Seq<CreateInvoiceItemInputCmd>) -> Seq<LineFacts> {
    Seq::new(items.len(), |i: int| (items[i].product_name@, items[i].quantity as int,
        items[i].unit_price as int, items[i].line_total as int))
}

/// Why a new invoice is refused, if it is: a negative discount (it would
/// inflate the bill), a negative subtotal or total, a negative amount paid,
/// then the first line with a quantity below 1 or a negative amount.
pub open spec fn invoice_input_error(input: CreateInvoiceInputCmd) -> Option<Seq<char>> {
    if input.discount < 0 {
        Some("Discount cannot be negative"@)
    } else if input.subtotal < 0 || input.total < 0 {
        Some("Invoice amounts cannot be negative"@)
    } else if input.amount_paid matches Some(p) && p < 0 {
        Some("Amount paid cannot be negative"@)
    } else {
        first_line_error(invoice_lines(input.items@))
    }
}

/// Checks a new invoice before it is stored.
pub fn validate_create_invoice(input: &CreateInvoiceInputCmd) -> (r: Result<(), AppError>)
    ensures
        match invoice_input_error(*input) {
            None => r is Ok,
            Some(m) => r matches Err(AppError::Validation(t)) && t@ == m,
        },
{
    if input.discount < 0 {
        return Err(validation_str("Discount cannot be negative"));
    }
    if input.subtotal < 0 || input.total < 0 {
        return Err(validation_str("Invoice amounts cannot be negative"));
    }
    if let Some(paid) = input.amount_paid {
        if paid < 0 {
            return Err(validation_str("Amount paid cannot be negative"));
        }
    }
    let mut names: Vec<String> = Vec::new();
    let mut facts: Vec<(i64, i64, i64)> = Vec::new();
    let mut i: usize = 0;
    while i < input.items.len()
        invariant
            i <= input.items@.len(),
            names@.len() == i,
            facts@.len() == i,
            forall|j: int| 0 <= j < i ==> (#[trigger] names@[j])@ == input.items@[j].product_name@,
            forall|j: int| 0 <= j < i ==> #[trigger] facts@[j] == (input.items@[j].quantity,
                input.items@[j].unit_price, input.items@[j].line_total),
        decreases input.items@.len() - i,
    {
        let item = &input.items[i];
        names.push(item.product_name.clone());
        facts.push((item.quantity, item.unit_price, item.line_total));
        i = i + 1;
    }
    let r = check_lines(&names, &facts);
    assert(Seq::new(names@.len(), |i: int| (names@[i]@, facts@[i].0 as int, facts@[i].1 as int,
        facts@[i].2 as int)) =~= invoice_lines(input.items@));
    r
}

/// The repository input for a checked invoice command: the same fields,
/// line by line.
pub fn create_invoice_input(cmd: CreateInvoiceInputCmd) -> (r: CreateInvoiceInput)
    ensures
        r.customer_id == cmd.customer_id,
        r.customer_name == cmd.customer_name,
        r.subtotal == cmd.subtotal,
        r.discount == cmd.discount,
        r.total == cmd.total,
        r.amount_paid == cmd.amount_paid,
        r.payment_method == cmd.payment_method,
        r.notes == cmd.notes,
        r.delivery_date == cmd.delivery_date,
        r.items@.len() == cmd.items@.len(),
        forall|i: int| 0 <= i < r.items@.len() ==> {
            let a = #[trigger] r.items@[i];
            let b = cmd.items@[i];
            &&& a.product_id == b.product_id
            &&& a.product_name == b.product_name
            &&& a.quantity == b.quantity
            &&& a.unit == b.unit
            &&& a.unit_price == b.unit_price
            &&& a.line_total == b.line_total
            &&& a.purchase_price == b.purchase_price
            &&& a.total_area_milli == b.total_area_milli
        },
{
    let ghost cmd_items = cmd.items@;
    let mut items: Vec<CreateInvoiceItemInput> = Vec::new();
    for item in it: cmd.items.into_iter()
        invariant
            it.seq() == cmd_items,
            items@.len() == it.index(),
            forall|i: int| 0 <= i < items@.len() ==> {
                let a = #[trigger] items@[i];
                let b = cmd_items[i];
                &&& a.product_id == b.product_id
                &&& a.product_name == b.product_name
                &&& a.quantity == b.quantity
                &&& a.unit == b.unit
                &&& a.unit_price == b.unit_price
                &&& a.line_total == b.line_total
                &&& a.purchase_price == b.purchase_price
                &&& a.total_area_milli == b.total_area_milli
            },
    {
        items.push(CreateInvoiceItemInput {
            product_id: item.product_id,
            product_name: item.product_name,
            quantity: item.quantity,
            unit: item.unit,
            unit_price: item.unit_price,
            line_total: item.line_total,
            purchase_price: item.purchase_price,
            total_area_milli: item.total_area_milli,
        });
    }
    CreateInvoiceInput {
        customer_id: cmd.customer_id,
        customer_name: cmd.customer_name,
        subtotal: cmd.subtotal,
        discount: cmd.discount,
        total: cmd.total,
        amount_paid: cmd.amount_paid,
        payment_method: cmd.payment_method,
        notes: cmd.notes,
        delivery_date: cmd.delivery_date,
        items,
    }
}

/// A payment must be a positive amount.
pub fn check_payment_amount(amount: i64) -> (r: Result<(), AppError>)
    ensures
        amount > 0 ==> r is Ok,
        amount <= 0 ==> (r matches Err(AppError::Validation(t))
            && t@ == "Payment amount must be greater than zero"@),
{
    if amount <= 0 {
        return Err(validation_str("Payment amount must be greater than zero"));
    }
    Ok(())
}

} // verus!
