//! The application's error type. Errors raised by outside crates (database,
//! hashing, token, I/O, USB) are carried as their message text.
use vstd::prelude::*;
use crate::text::{push_str, string_of};

verus! {

#[derive(Debug, Clone)]
pub enum AppError {
    Database(String),
    NotFound(String),
    Validation(String),
    Auth(String),
    Forbidden(String),
    Conflict(String),
    InvalidCredentials,
    TokenInvalid,
    PasswordHash(String),
    Jwt(String),
    Io(String),
    Usb(String),
    Pdf(String),
    Migration(String),
    Internal(String),
}

/// The user-facing message of an error (its `Display` text).
pub open spec fn error_message(e: AppError) -> Seq<char> {
    match e {
        AppError::Database(s) => "Database error: "@ + s@,
        AppError::NotFound(s) => "Not found: "@ + s@,
        AppError::Validation(s) => "Validation error: "@ + s@,
        AppError::Auth(s) => "Authentication failed: "@ + s@,
        AppError::Forbidden(s) => "Authorization failed: "@ + s@,
        AppError::Conflict(s) => "User already exists: "@ + s@,
        AppError::InvalidCredentials => "Invalid credentials"@,
        AppError::TokenInvalid => "Token expired or invalid"@,
        AppError::PasswordHash(s) => "Password hashing failed: "@ + s@,
        AppError::Jwt(s) => "JWT error: "@ + s@,
        AppError::Io(s) => "IO error: "@ + s@,
        AppError::Usb(s) => "USB error: "@ + s@,
        AppError::Pdf(s) => "PDF generation failed: "@ + s@,
        AppError::Migration(s) => "Migration error: "@ + s@,
        AppError::Internal(s) => "Internal error: "@ + s@,
    }
}

fn prefixed(prefix: &str, s: &String) -> (r: String)
    ensures
        r@ == prefix@ + s@,
{
    let mut v: Vec<char> = Vec::new();
    push_str(&mut v, prefix);
    push_str(&mut v, s.as_str());
    assert(v@ =~= prefix@ + s@);
    string_of(&v)
}

impl AppError {
    /// The message shown to the user, as the error's `Display` renders it.
    pub fn message(&self) -> (r: String)
        ensures
            r@ == error_message(*self),
    {
        match self {
            AppError::Database(s) => prefixed("Database error: ", s),
            AppError::NotFound(s) => prefixed("Not found: ", s),
            AppError::Validation(s) => prefixed("Validation error: ", s),
            AppError::Auth(s) => prefixed("Authentication failed: ", s),
            AppError::Forbidden(s) => prefixed("Authorization failed: ", s),
            AppError::Conflict(s) => prefixed("User already exists: ", s),
            AppError::InvalidCredentials => {
                let mut v: Vec<char> = Vec::new();
                push_str(&mut v, "Invalid credentials");
                string_of(&v)
            },
            AppError::TokenInvalid => {
                let mut v: Vec<char> = Vec::new();
                push_str(&mut v, "Token expired or invalid");
                string_of(&v)
            },
            AppError::PasswordHash(s) => prefixed("Password hashing failed: ", s),
            AppError::Jwt(s) => prefixed("JWT error: ", s),
            AppError::Io(s) => prefixed("IO error: ", s),
            AppError::Usb(s) => prefixed("USB error: ", s),
            AppError::Pdf(s) => prefixed("PDF generation failed: ", s),
            AppError::Migration(s) => prefixed("Migration error: ", s),
            AppError::Internal(s) => prefixed("Internal error: ", s),
        }
    }
}

/// A validation error carrying the given text.
pub fn validation(cs: &Vec<char>) -> (e: AppError)
    ensures
        e matches AppError::Validation(m) && m@ == cs@,
{
    AppError::Validation(string_of(cs))
}

/// A validation error whose text is a string literal.
pub fn validation_str(s: &str) -> (e: AppError)
    ensures
        e matches AppError::Validation(m) && m@ == s@,
{
    let mut v: Vec<char> = Vec::new();
    push_str(&mut v, s);
    assert(v@ =~= s@);
    AppError::Validation(string_of(&v))
}

} // verus!
