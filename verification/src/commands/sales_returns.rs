//! Return commands.
use vstd::prelude::*;
use crate::repositories::sales_returns::CreateReturnInput;

verus! {

pub struct ListReturnsInput {
    pub invoice_id: Option<String>,
}

pub struct CreateReturnInputCmd {
    pub invoice_id: String,
    pub product_id: Option<String>,
    pub product_name: String,
    pub quantity: i64,
    pub unit: String,
    pub unit_price: i64,
    pub line_total: i64,
    pub reason: String,
}

impl CreateReturnInputCmd {
    /// The return to record, processed by the signed-in user `processed_by`.
    pub fn into_record(self, processed_by: String) -> (r: CreateReturnInput)
        ensures
            r.invoice_id == self.invoice_id,
            r.product_id == self.product_id,
            r.product_name == self.product_name,
            r.quantity == self.quantity,
            r.unit == self.unit,
            r.unit_price == self.unit_price,
            r.line_total == self.line_total,
            r.reason == self.reason,
            r.processed_by == processed_by,
    {
        CreateReturnInput {
            invoice_id: self.invoice_id,
            product_id: self.product_id,
            product_name: self.product_name,
            quantity: self.quantity,
            unit: self.unit,
            unit_price: self.unit_price,
            line_total: self.line_total,
            reason: self.reason,
            processed_by,
        }
    }
}

} // verus!
