//! Customer commands.
use vstd::prelude::*;
use crate::repositories::customers::CreateCustomerInput;

verus! {

pub struct CreateCustomerInputCmd {
    pub name: String,
    pub phone: Option<String>,
    pub email: Option<String>,
    pub address: Option<String>,
}

pub struct UpdateCustomerInput {
    pub id: String,
    pub name: String,
    pub phone: Option<String>,
    pub email: Option<String>,
    pub address: Option<String>,
}

impl CreateCustomerInputCmd {
    /// The customer record to store.
    pub fn into_record(self) -> (r: CreateCustomerInput)
        ensures
            r.name == self.name,
            r.phone == self.phone,
            r.email == self.email,
            r.address == self.address,
    {
        CreateCustomerInput { name: self.name, phone: self.phone, email: self.email, address: self.address }
    }
}

impl UpdateCustomerInput {
    /// The id of the customer to update and its new record.
    pub fn into_record(self) -> (r: (String, CreateCustomerInput))
        ensures
            r.0 == self.id,
            r.1.name == self.name,
            r.1.phone == self.phone,
            r.1.email == self.email,
            r.1.address == self.address,
    {
        (self.id, CreateCustomerInput { name: self.name, phone: self.phone, email: self.email, address: self.address })
    }
}

} // verus!
