//! Business services: receipts, imports, documents, backups.
pub mod print;
pub mod receipt_bitmap;
pub mod inventory;
pub mod backup;
pub mod invoice_pdf;
pub mod retention;
pub mod reports;
pub mod reconciliation;
