//! Token claims.
use vstd::prelude::*;
use crate::config::JWT_EXPIRY_HOURS;
use crate::text::str_eq;

verus! {

#[derive(Debug)]
pub struct Claims {
    pub sub: String,
    pub email: String,
    pub roles: Vec<String>,
    pub exp: i64,
    pub iat: i64,
}

/// Whether `role` is among `roles`.
pub open spec fn has_role_spec(roles: Seq<String>, role: Seq<char>) -> bool {
    exists|i: int| 0 <= i < roles.len() && #[trigger] roles[i]@ == role
}

/// Seconds in `hours` hours.
pub open spec fn hours_in_seconds(hours: int) -> int {
    hours * 3600
}

/// `Utc::now().timestamp()`: the current time in seconds since the epoch.
/// chrono represents dates within about 262,000 years of year 0, so the
/// value lies within the bound stated; nothing else is known of it.
#[verifier::external_body]
fn utc_now_timestamp() -> (t: i64)
    ensures
        -9_000_000_000_000 <= t <= 9_000_000_000_000,
{
    chrono::Utc::now().timestamp()
}

impl Claims {
    /// Claims issued at `now` (seconds since the epoch) that expire
    /// `expiry_hours` later.
    pub fn issued_at(user_id: String, email: String, roles: Vec<String>, now: i64, expiry_hours: i64) -> (c: Claims)
        requires
            i64::MIN <= now + hours_in_seconds(expiry_hours as int) <= i64::MAX,
            i64::MIN <= hours_in_seconds(expiry_hours as int) <= i64::MAX,
        ensures
            c.sub == user_id,
            c.email == email,
            c.roles == roles,
            c.iat == now,
            c.exp == now + hours_in_seconds(expiry_hours as int),
    {
        let span: i64 = expiry_hours * 3600;
        Claims { sub: user_id, email, roles, exp: now + span, iat: now }
    }

    /// Claims issued now, valid for the configured number of hours.
    pub fn new(user_id: String, email: String, roles: Vec<String>) -> (c: Claims)
        ensures
            c.sub == user_id,
            c.email == email,
            c.roles == roles,
            c.exp == c.iat + hours_in_seconds(JWT_EXPIRY_HOURS as int),
    {
        let now = utc_now_timestamp();
        Claims::issued_at(user_id, email, roles, now, JWT_EXPIRY_HOURS)
    }

    /// Whether the claims carry `role`.
    pub fn has_role(&self, role: &str) -> (b: bool)
        ensures
            b == has_role_spec(self.roles@, role@),
    {
        let mut i: usize = 0;
        while i < self.roles.len()
            invariant
                i <= self.roles@.len(),
                forall|j: int| 0 <= j < i ==> self.roles@[j]@ != role@,
            decreases self.roles@.len() - i,
        {
            if str_eq(self.roles[i].as_str(), role) {
                return true;
            }
            i = i + 1;
        }
        false
    }
}

} // verus!
