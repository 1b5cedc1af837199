//! Cashier administration commands.
use vstd::prelude::*;

verus! {

pub struct ApproveCashierInput {
    pub id: String,
}

pub struct RejectCashierInput {
    pub id: String,
}

pub struct SuspendCashierInput {
    pub id: String,
}

pub struct ResetPasswordInput {
    pub id: String,
    pub new_password: String,
}

/// What an administrator does to a cashier account.
#[derive(Debug, Clone, Copy, PartialEq, Eq, Structural)]
pub enum CashierDecision {
    Approve,
    Reject,
    Suspend,
}

/// The account status each decision sets.
pub open spec fn decision_status(d: CashierDecision) -> Seq<char> {
    match d {
        CashierDecision::Approve => "approved"@,
        CashierDecision::Reject => "rejected"@,
        CashierDecision::Suspend => "suspended"@,
    }
}

pub fn status_for(d: CashierDecision) -> (s: &'static str)
    ensures
        s@ == decision_status(d),
{
    match d {
        CashierDecision::Approve => "approved",
        CashierDecision::Reject => "rejected",
        CashierDecision::Suspend => "suspended",
    }
}

} // verus!
