//! Signing in and registering.
use vstd::prelude::*;
use crate::auth::password::{bcrypt_verify_result, verify_password};
use crate::error::AppError;
use crate::repositories::users::{CreateUserInput, User};
use crate::text::{push_str, str_eq, string_of};

verus! {

pub struct LoginInput {
    pub email: String,
    pub password: String,
}

pub struct LoginOutput {
    pub token: String,
    pub user: UserInfo,
}

pub struct UserInfo {
    pub id: String,
    pub email: String,
    pub full_name: String,
    pub roles: Vec<String>,
    pub status: String,
}

pub struct RegisterInput {
    pub email: String,
    pub password: String,
    pub full_name: String,
    pub phone: Option<String>,
    pub employee_id: Option<String>,
}

pub struct RegisterOutput {
    pub token: String,
    pub user: UserInfo,
}

pub struct AdminExistsOutput {
    pub exists: bool,
}

fn owned(s: &str) -> (r: String)
    ensures
        r@ == s@,
{
    let mut v: Vec<char> = Vec::new();
    push_str(&mut v, s);
    string_of(&v)
}

impl UserInfo {
    /// The public view of a user account (everything but the password hash,
    /// phone and employee number).
    pub fn from_user(user: User) -> (info: UserInfo)
        ensures
            info.id == user.id,
            info.email == user.email,
            info.full_name == user.full_name,
            info.roles == user.roles,
            info.status == user.status,
    {
        UserInfo {
            id: user.id,
            email: user.email,
            full_name: user.full_name,
            roles: user.roles,
            status: user.status,
        }
    }
}

impl AdminExistsOutput {
    /// Whether any account exists, from the number of accounts.
    pub fn from_count(count: i64) -> (out: AdminExistsOutput)
        ensures
            out.exists == (count > 0),
    {
        AdminExistsOutput { exists: count > 0 }
    }
}

/// The first gate of a sign-in: the account must exist and be approved.
pub fn login_gate(user: Option<User>) -> (r: Result<User, AppError>)
    ensures
        match user {
            None => r == Err::<User, AppError>(AppError::InvalidCredentials),
            Some(u) => if u.status@ == "approved"@ {
                r == Ok::<User, AppError>(u)
            } else {
                r matches Err(AppError::Auth(m)) && m@ == "Account not approved"@
            },
        },
{
    proof {
        reveal_strlit("approved");
    }
    match user {
        None => Err(AppError::InvalidCredentials),
        Some(u) => {
            if str_eq(u.status.as_str(), "approved") {
                Ok(u)
            } else {
                Err(AppError::Auth(owned("Account not approved")))
            }
        },
    }
}

/// The second gate of a sign-in, on the outcome of checking the password:
/// a wrong password is reported as invalid credentials, a check that could
/// not run as its error.
pub fn password_gate(checked: Result<bool, AppError>) -> (r: Result<(), AppError>)
    ensures
        match checked {
            Ok(true) => r is Ok,
            Ok(false) => r == Err::<(), AppError>(AppError::InvalidCredentials),
            Err(e) => r == Err::<(), AppError>(e),
        },
{
    match checked {
        Ok(true) => Ok(()),
        Ok(false) => Err(AppError::InvalidCredentials),
        Err(e) => Err(e),
    }
}

/// Whether a sign-in succeeds: the account exists, is approved, and the
/// password matches its stored hash.
pub open spec fn login_accepts(user: Option<User>, password: Seq<char>) -> bool {
    user matches Some(u) && u.status@ == "approved"@ && bcrypt_verify_result(password, u.password_hash@)
        == Some(true)
}

/// Signs a user in: `user` is the account found under the given email, if
/// any. Returns the account when it is approved and the password matches
/// its stored hash.
pub fn authenticate(user: Option<User>, password: &str) -> (r: Result<User, AppError>)
    ensures
        r is Ok <==> login_accepts(user, password@),
        match user {
            None => r == Err::<User, AppError>(AppError::InvalidCredentials),
            Some(u) => if u.status@ != "approved"@ {
                r matches Err(AppError::Auth(m)) && m@ == "Account not approved"@
            } else {
                match bcrypt_verify_result(password@, u.password_hash@) {
                    Some(true) => r == Ok::<User, AppError>(u),
                    Some(false) => r == Err::<User, AppError>(AppError::InvalidCredentials),
                    None => r matches Err(e) && e is PasswordHash,
                }
            },
        },
{
    let u = login_gate(user)?;
    let checked = verify_password(password, u.password_hash.as_str());
    password_gate(checked)?;
    Ok(u)
}

/// Status and roles of a new account: the very first account becomes an
/// approved administrator, every later one a cashier awaiting approval.
pub open spec fn account_profile(user_count: int) -> (Seq<char>, Seq<Seq<char>>) {
    if user_count == 0 {
        ("approved"@, seq!["admin"@])
    } else {
        ("pending"@, seq!["cashier"@])
    }
}

pub fn new_account_profile(user_count: i64) -> (r: (String, Vec<String>))
    ensures
        r.0@ == account_profile(user_count as int).0,
        r.1@.map_values(|s: String| s@) == account_profile(user_count as int).1,
{
    let mut roles: Vec<String> = Vec::new();
    if user_count == 0 {
        roles.push(owned("admin"));
        let r = (owned("approved"), roles);
        assert(r.1@.map_values(|s: String| s@) =~= seq!["admin"@]);
        r
    } else {
        roles.push(owned("cashier"));
        let r = (owned("pending"), roles);
        assert(r.1@.map_values(|s: String| s@) =~= seq!["cashier"@]);
        r
    }
}

/// Registration refuses an email that already has an account.
pub fn check_email_free(existing: &Option<User>) -> (r: Result<(), AppError>)
    ensures
        existing is None ==> r is Ok,
        existing is Some ==> (r matches Err(AppError::Conflict(m)) && m@ == "Email already registered"@),
{
    match existing {
        Some(_) => Err(AppError::Conflict(owned("Email already registered"))),
        None => Ok(()),
    }
}

/// The account to store for a registration, given the password's hash and
/// the number of accounts that exist.
pub fn account_for_registration(input: RegisterInput, password_hash: String, user_count: i64) -> (r: CreateUserInput)
    ensures
        r.email == input.email,
        r.password_hash == password_hash,
        r.full_name == input.full_name,
        r.phone == input.phone,
        r.employee_id == input.employee_id,
        r.status@ == account_profile(user_count as int).0,
        r.roles@.map_values(|s: String| s@) == account_profile(user_count as int).1,
{
    let (status, roles) = new_account_profile(user_count);
    CreateUserInput {
        email: input.email,
        password_hash,
        full_name: input.full_name,
        phone: input.phone,
        employee_id: input.employee_id,
        status,
        roles,
    }
}

/// The first account ever registered can sign in with its password at
/// once; every later account is refused until an administrator approves it.
/// (`password_hash` stands for a hash made from `password`, which
/// `hash_password` guarantees of the hashes it returns.)
pub proof fn lemma_registration_then_sign_in(user: User, password: Seq<char>, user_count: int)
    requires
        user.status@ == account_profile(user_count).0,
        bcrypt_verify_result(password, user.password_hash@) == Some(true),
    ensures
        user_count == 0 ==> login_accepts(Some(user), password),
        user_count != 0 ==> !login_accepts(Some(user), password),
{
    reveal_strlit("approved");
    reveal_strlit("pending");
    if user_count != 0 {
        assert("pending"@[0] != "approved"@[0]);
    }
}

} // verus!
