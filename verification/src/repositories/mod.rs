//! Records kept in the database and the rules applied when they change.
pub mod invoices;
pub mod sales_returns;
pub mod suppliers;
pub mod products;
pub mod customers;
pub mod users;
