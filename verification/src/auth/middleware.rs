//! Reading the bearer token and checking roles.
use vstd::prelude::*;
use crate::auth::jwt::{Claims, has_role_spec};
use crate::error::AppError;
use crate::text::{chars_of, has_prefix, push_str, slice_chars, starts_with, string_of};

verus! {

/// The scheme prefix of an `Authorization` header.
pub open spec fn bearer_prefix() -> Seq<char> {
    "Bearer "@
}

/// The error for a missing or malformed `Authorization` header.
pub open spec fn missing_header_text() -> Seq<char> {
    "Missing or invalid Authorization header"@
}

fn auth_error(text: &str) -> (e: AppError)
    ensures
        e matches AppError::Auth(m) && m@ == text@,
{
    let mut v: Vec<char> = Vec::new();
    push_str(&mut v, text);
    AppError::Auth(string_of(&v))
}

fn forbidden(text: &str) -> (e: AppError)
    ensures
        e matches AppError::Forbidden(m) && m@ == text@,
{
    let mut v: Vec<char> = Vec::new();
    push_str(&mut v, text);
    AppError::Forbidden(string_of(&v))
}

/// The token of an `Authorization: Bearer <token>` header: the text after
/// the `Bearer ` prefix. A missing header or another scheme is refused.
pub fn bearer_token(auth_header: Option<String>) -> (r: Result<String, AppError>)
    ensures
        match auth_header {
            Some(h) if has_prefix(h@, bearer_prefix()) => r matches Ok(t) && t@ == h@.skip(7),
            _ => r matches Err(AppError::Auth(m)) && m@ == missing_header_text(),
        },
{
    proof {
        reveal_strlit("Bearer ");
        reveal_strlit("Missing or invalid Authorization header");
    }
    match auth_header {
        Some(h) => {
            let cs = chars_of(h.as_str());
            let prefix = chars_of("Bearer ");
            if starts_with(&cs, &prefix) {
                let rest = slice_chars(&cs, 7, cs.len());
                assert(rest@ =~= h@.skip(7));
                Ok(string_of(&rest))
            } else {
                Err(auth_error("Missing or invalid Authorization header"))
            }
        },
        None => Err(auth_error("Missing or invalid Authorization header")),
    }
}

/// Lets only administrators through.
pub fn check_admin(claims: &Claims) -> (r: Result<(), AppError>)
    ensures
        has_role_spec(claims.roles@, "admin"@) ==> r is Ok,
        !has_role_spec(claims.roles@, "admin"@) ==> (r matches Err(AppError::Forbidden(m))
            && m@ == "Admin role required"@),
{
    if claims.has_role("admin") {
        Ok(())
    } else {
        Err(forbidden("Admin role required"))
    }
}

/// Lets cashiers and administrators through.
pub fn check_cashier_or_admin(claims: &Claims) -> (r: Result<(), AppError>)
    ensures
        (has_role_spec(claims.roles@, "cashier"@) || has_role_spec(claims.roles@, "admin"@))
            ==> r is Ok,
        !(has_role_spec(claims.roles@, "cashier"@) || has_role_spec(claims.roles@, "admin"@))
            ==> (r matches Err(AppError::Forbidden(m)) && m@ == "Cashier or admin role required"@),
{
    if !claims.has_role("cashier") && !claims.has_role("admin") {
        Err(forbidden("Cashier or admin role required"))
    } else {
        Ok(())
    }
}

} // verus!
