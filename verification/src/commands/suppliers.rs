//! Supplier commands: the checks on a supplier record, a new purchase and a
//! payment to a supplier.
use vstd::prelude::*;
use crate::commands::validation::{LineFacts, check_lines, first_line_error};
use crate::error::{AppError, validation_str};
use crate::repositories::suppliers::{CreatePurchaseInput, CreatePurchaseItemInput, CreateSupplierInput};
use crate::text::{trim, trim_str, string_of};

verus! {

pub struct CreateSupplierInputCmd {
    pub name: String,
    pub phone: Option<String>,
    pub email: Option<String>,
    pub company: Option<String>,
    pub address: Option<String>,
    pub notes: Option<String>,
}

pub struct UpdateSupplierInputCmd {
    pub id: String,
    pub name: String,
    pub phone: Option<String>,
    pub email: Option<String>,
    pub company: Option<String>,
    pub address: Option<String>,
    pub notes: Option<String>,
}

pub struct ListSupplierPurchasesInput {
    pub limit: Option<i64>,
    pub offset: Option<i64>,
    pub query: Option<String>,
    pub supplier_id: Option<String>,
}

pub struct CreatePurchaseItemInputCmd {
    pub description: String,
    pub quantity: i64,
    pub unit: String,
    pub unit_price: i64,
    pub line_total: i64,
}

pub struct CreatePurchaseInputCmd {
    pub supplier_id: String,
    pub supplier_name: String,
    pub subtotal: i64,
    pub discount: i64,
    pub total: i64,
    pub amount_paid: Option<i64>,
    pub payment_method: String,
    pub notes: Option<String>,
    pub items: Vec<CreatePurchaseItemInputCmd>,
}

pub struct MarkPurchasePaidInput {
    pub id: String,
    pub amount: i64,
    pub payment_method: String,
}

/// The supplier record to store: the name trimmed, which must not be blank;
/// the other fields as given.
pub fn supplier_record(
    name: &str,
    phone: Option<String>,
    email: Option<String>,
    company: Option<String>,
    address: Option<String>,
    notes: Option<String>,
) -> (r: Result<CreateSupplierInput, AppError>)
    ensures
        trim(name@).len() == 0 ==> (r matches Err(AppError::Validation(t))
            && t@ == "Supplier name is required"@),
        trim(name@).len() > 0 ==> (r matches Ok(s) && s.name@ == trim(name@) && s.phone == phone
            && s.email == email && s.company == company && s.address == address && s.notes == notes),
{
    let t = trim_str(name);
    if t.len() == 0 {
        return Err(validation_str("Supplier name is required"));
    }
    Ok(CreateSupplierInput { name: string_of(&t), phone, email, company, address, notes })
}

/// The facts each purchase line is checked on.
pub open spec fn purchase_lines(items: Seq<CreatePurchaseItemInputCmd>) -> Seq<LineFacts> {
    Seq::new(items.len(), |i: int| (items[i].description@, items[i].quantity as int,
        items[i].unit_price as int, items[i].line_total as int))
}

/// Why a new purchase is refused, if it is.
pub open spec fn purchase_input_error(input: CreatePurchaseInputCmd) -> Option<Seq<char>> {
    if input.discount < 0 {
        Some("Discount cannot be negative"@)
    } else if input.discount > input.subtotal {
        Some("Discount cannot exceed subtotal"@)
    } else if input.subtotal < 0 || input.total < 0 {
        Some("Purchase amounts cannot be negative"@)
    } else if input.amount_paid matches Some(p) && p < 0 {
        Some("Amount paid cannot be negative"@)
    } else if input.items@.len() == 0 {
        Some("Purchase must have at least one line item"@)
    } else {
        first_line_error(purchase_lines(input.items@))
    }
}

/// Checks a new purchase before it is stored.
pub fn validate_create_purchase(input: &CreatePurchaseInputCmd) -> (r: Result<(), AppError>)
    ensures
        match purchase_input_error(*input) {
            None => r is Ok,
            Some(m) => r matches Err(AppError::Validation(t)) && t@ == m,
        },
{
    if input.discount < 0 {
        return Err(validation_str("Discount cannot be negative"));
    }
    if input.discount > input.subtotal {
        return Err(validation_str("Discount cannot exceed subtotal"));
    }
    if input.subtotal < 0 || input.total < 0 {
        return Err(validation_str("Purchase amounts cannot be negative"));
    }
    if let Some(paid) = input.amount_paid {
        if paid < 0 {
            return Err(validation_str("Amount paid cannot be negative"));
        }
    }
    if input.items.len() == 0 {
        return Err(validation_str("Purchase must have at least one line item"));
    }
    let mut names: Vec<String> = Vec::new();
    let mut facts: Vec<(i64, i64, i64)> = Vec::new();
    let mut i: usize = 0;
    while i < input.items.len()
        invariant
            i <= input.items@.len(),
            names@.len() == i,
            facts@.len() == i,
            forall|j: int| 0 <= j < i ==> (#[trigger] names@[j])@ == input.items@[j].description@,
            forall|j: int| 0 <= j < i ==> #[trigger] facts@[j] == (input.items@[j].quantity,
                input.items@[j].unit_price, input.items@[j].line_total),
        decreases input.items@.len() - i,
    {
        let item = &input.items[i];
        names.push(item.description.clone());
        facts.push((item.quantity, item.unit_price, item.line_total));
        i = i + 1;
    }
    let r = check_lines(&names, &facts);
    assert(Seq::new(names@.len(), |i: int| (names@[i]@, facts@[i].0 as int, facts@[i].1 as int,
        facts@[i].2 as int)) =~= purchase_lines(input.items@));
    r
}

/// The repository input for a checked purchase command: the same fields,
/// line by line.
pub fn create_purchase_input(cmd: CreatePurchaseInputCmd) -> (r: CreatePurchaseInput)
    ensures
        r.supplier_id == cmd.supplier_id,
        r.supplier_name == cmd.supplier_name,
        r.subtotal == cmd.subtotal,
        r.discount == cmd.discount,
        r.total == cmd.total,
        r.amount_paid == cmd.amount_paid,
        r.payment_method == cmd.payment_method,
        r.notes == cmd.notes,
        r.items@.len() == cmd.items@.len(),
        forall|i: int| 0 <= i < r.items@.len() ==> {
            let a = #[trigger] r.items@[i];
            let b = cmd.items@[i];
            &&& a.description == b.description
            &&& a.quantity == b.quantity
            &&& a.unit == b.unit
            &&& a.unit_price == b.unit_price
            &&& a.line_total == b.line_total
        },
{
    let ghost cmd_items = cmd.items@;
    let mut items: Vec<CreatePurchaseItemInput> = Vec::new();
    for item in it: cmd.items.into_iter()
        invariant
            it.seq() == cmd_items,
            items@.len() == it.index(),
            forall|i: int| 0 <= i < items@.len() ==> {
                let a = #[trigger] items@[i];
                let b = cmd_items[i];
                &&& a.description == b.description
                &&& a.quantity == b.quantity
                &&& a.unit == b.unit
                &&& a.unit_price == b.unit_price
                &&& a.line_total == b.line_total
            },
    {
        items.push(CreatePurchaseItemInput {
            description: item.description,
            quantity: item.quantity,
            unit: item.unit,
            unit_price: item.unit_price,
            line_total: item.line_total,
        });
    }
    CreatePurchaseInput {
        supplier_id: cmd.supplier_id,
        supplier_name: cmd.supplier_name,
        subtotal: cmd.subtotal,
        discount: cmd.discount,
        total: cmd.total,
        amount_paid: cmd.amount_paid,
        payment_method: cmd.payment_method,
        notes: cmd.notes,
        items,
    }
}

} // verus!
