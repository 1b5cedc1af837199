//! Users, cashiers and their roles.
use vstd::prelude::*;

verus! {

#[derive(Debug, Clone)]
pub struct User {
    pub id: String,
    pub email: String,
    pub password_hash: String,
    pub full_name: String,
    pub phone: Option<String>,
    pub employee_id: Option<String>,
    pub status: String,
    pub roles: Vec<String>,
    pub created_at: String,
    pub updated_at: String,
}

#[derive(Debug, Clone)]
pub struct CreateUserInput {
    pub email: String,
    pub password_hash: String,
    pub full_name: String,
    pub phone: Option<String>,
    pub employee_id: Option<String>,
    pub status: String,
    pub roles: Vec<String>,
}

#[derive(Debug, Clone)]
pub struct Cashier {
    pub id: String,
    pub email: String,
    pub full_name: String,
    pub phone: Option<String>,
    pub employee_id: Option<String>,
    pub status: String,
    pub roles: Vec<String>,
    pub created_at: String,
    pub updated_at: String,
}

#[derive(Debug, Clone)]
pub struct CreateCashierInput {
    pub email: String,
    pub full_name: String,
    pub phone: Option<String>,
    pub employee_id: Option<String>,
    pub password: String,
}

} // verus!
