//! The inputs and outputs of the application's commands, and the checks and
//! decisions each command makes before it touches the database.
pub mod auth;
pub mod validation;
pub mod invoices;
pub mod suppliers;
pub mod customers;
pub mod products;
pub mod cashiers;
pub mod sales_returns;
pub mod print;
pub mod reports;
pub mod backup;
