//! Sales-data retention: fully settled invoices older than a year are purged
//! on launch, after a snapshot of the database is taken.
use vstd::prelude::*;
use crate::clock::timestamp;
use crate::commands::backup::{export_file_name, snapshot_name};
use crate::clock::{UtcStamp, utc_in_range, compact_stamp_text, is_utc_rfc3339, utc_instant_valid, utc_now_instant,
    rfc3339_days_before, days_before_text};
use crate::error::AppError;
use crate::text::{push_str, string_of};

verus! {

/// Sales older than this many days may be purged.
pub const RETENTION_DAYS: i64 = 365;

/// The moment before which sales are eligible, given the current instant
/// `now` (with `nano` nanoseconds): one retention period earlier, as RFC
/// 3339 text in UTC.
pub fn retention_cutoff_at(now: UtcStamp, nano: u32) -> (r: String)
    requires
        utc_instant_valid(now, nano as int),
        now.year >= -261_000,
    ensures
        r@ == days_before_text(now, nano as int, RETENTION_DAYS as int),
        is_utc_rfc3339(r@),
{
    rfc3339_days_before(now, nano, RETENTION_DAYS)
}

/// Text that is the retention cutoff for some valid current instant.
pub open spec fn is_retention_cutoff(s: Seq<char>) -> bool {
    exists|t: UtcStamp, nano: int| utc_instant_valid(t, nano) && t.year >= 1970 && s == days_before_text(t, nano, RETENTION_DAYS as int)
}

/// The moment before which sales are eligible: one retention period before
/// the current instant read from the clock, as RFC 3339 text in UTC.
pub fn retention_cutoff() -> (r: String)
    ensures
        is_retention_cutoff(r@),
        is_utc_rfc3339(r@),
{
    let (now, nano) = utc_now_instant();
    retention_cutoff_at(now, nano)
}

/// The file name of the snapshot taken before a purge.
pub fn retention_snapshot_name() -> (r: String)
    ensures
        exists|t: UtcStamp| utc_in_range(t) && r@ == snapshot_name("citytiles_backup_"@, compact_stamp_text(t)),
{
    let stamp = timestamp();
    export_file_name(stamp.as_str())
}

/// An invoice old enough to purge, as the purge reads it.
#[derive(Debug, Clone)]
pub struct AgedInvoice {
    pub id: String,
    pub total: i64,
    pub amount_paid: i64,
}

/// Only fully settled sales may go: credit and partly paid invoices stay,
/// as customer balances cannot be reconciled without them.
pub open spec fn settled(inv: AgedInvoice) -> bool {
    inv.amount_paid >= inv.total
}

pub open spec fn is_settled() -> spec_fn(AgedInvoice) -> bool {
    |inv: AgedInvoice| settled(inv)
}

/// The settled invoices among `aged`, in order.
pub open spec fn settled_only(aged: Seq<AgedInvoice>) -> Seq<AgedInvoice> {
    aged.filter(is_settled())
}

/// The ids of the invoices to purge among those past the retention period:
/// the settled ones, in order.
pub fn purge_candidates(aged: &Vec<AgedInvoice>) -> (r: Vec<String>)
    ensures
        r@.map_values(|id: String| id@) == settled_only(aged@).map_values(|inv: AgedInvoice| inv.id@),
{
    let mut out: Vec<String> = Vec::new();
    let mut i: usize = 0;
    while i < aged.len()
        invariant
            i <= aged@.len(),
            out@.map_values(|id: String| id@) == settled_only(aged@.take(i as int)).map_values(
                |inv: AgedInvoice| inv.id@,
            ),
        decreases aged@.len() - i,
    {
        let ghost before = out@.map_values(|id: String| id@);
        assert(aged@.take(i + 1).drop_last() =~= aged@.take(i as int));
        reveal(Seq::filter);
        let inv = &aged[i];
        if inv.amount_paid >= inv.total {
            out.push(inv.id.clone());
            assert(out@.map_values(|id: String| id@) =~= before.push(inv.id@));
        }
        i = i + 1;
        assert(out@.map_values(|id: String| id@) =~= settled_only(aged@.take(i as int)).map_values(
            |inv: AgedInvoice| inv.id@,
        ));
    }
    assert(aged@.take(aged@.len() as int) =~= aged@);
    out
}

/// The ids of a list of invoices, as text.
pub open spec fn ids_view(ids: Seq<String>) -> Seq<Seq<char>> {
    ids.map_values(|id: String| id@)
}

/// The ids of the settled invoices among `aged`, in order.
pub open spec fn candidate_ids(aged: Seq<AgedInvoice>) -> Seq<Seq<char>> {
    settled_only(aged).map_values(|inv: AgedInvoice| inv.id@)
}

/// What a purge does next.
#[derive(Debug, Clone)]
pub enum PurgeStep {
    /// Nothing is eligible: stop, with nothing removed.
    Nothing,
    /// Snapshot the database first; these invoices go once it is taken.
    Snapshot(Vec<String>),
    /// The snapshot is taken: delete these invoices.
    Delete(Vec<String>),
    /// Stop with this error, deleting nothing.
    Abort(AppError),
}

/// The first step, once the invoices older than the cutoff are read: nothing
/// to do when none of them is settled, else a snapshot ahead of deleting the
/// settled ones.
pub fn purge_first_step(aged: &Vec<AgedInvoice>) -> (r: PurgeStep)
    ensures
        settled_only(aged@).len() == 0 ==> r is Nothing,
        settled_only(aged@).len() > 0 ==> (r matches PurgeStep::Snapshot(ids) && ids_view(ids@)
            == candidate_ids(aged@)),
{
    let ids = purge_candidates(aged);
    assert(ids_view(ids@).len() == ids@.len());
    if ids.len() == 0 {
        PurgeStep::Nothing
    } else {
        PurgeStep::Snapshot(ids)
    }
}

/// `Retention aborted: could not snapshot before deleting (<reason>)`.
pub open spec fn snapshot_abort_text(reason: Seq<char>) -> Seq<char> {
    "Retention aborted: could not snapshot before deleting ("@ + reason + ")"@
}

/// The step after the snapshot: the deletion of the same invoices when it was
/// taken; when it failed, the purge stops and deletes nothing.
pub fn purge_after_snapshot(ids: Vec<String>, outcome: &Result<(), String>) -> (r: PurgeStep)
    ensures
        outcome is Ok ==> (r matches PurgeStep::Delete(d) && d@ == ids@),
        outcome is Err ==> (r matches PurgeStep::Abort(e) && e matches AppError::Internal(m) && m@
            == snapshot_abort_text(outcome->Err_0@)),
{
    match outcome {
        Ok(()) => PurgeStep::Delete(ids),
        Err(reason) => {
            let mut v: Vec<char> = Vec::new();
            push_str(&mut v, "Retention aborted: could not snapshot before deleting (");
            push_str(&mut v, reason.as_str());
            push_str(&mut v, ")");
            assert(v@ =~= snapshot_abort_text(reason@));
            PurgeStep::Abort(AppError::Internal(string_of(&v)))
        },
    }
}

/// Every invoice the purge removes is fully settled: an unpaid or partly
/// paid invoice is never among them.
pub proof fn lemma_purge_keeps_unpaid(aged: Seq<AgedInvoice>)
    ensures
        forall|i: int| 0 <= i < settled_only(aged).len() ==> settled(#[trigger] settled_only(aged)[i]),
        forall|x: AgedInvoice| !settled(x) ==> !(#[trigger] settled_only(aged).contains(x)),
{
    assert forall|i: int| 0 <= i < settled_only(aged).len() implies settled(#[trigger] settled_only(aged)[i]) by {
        aged.lemma_filter_pred(is_settled(), i);
    }
    assert forall|x: AgedInvoice| !settled(x) implies !(#[trigger] settled_only(aged).contains(x)) by {
        if settled_only(aged).contains(x) {
            let k = choose|k: int| 0 <= k < settled_only(aged).len() && settled_only(aged)[k] == x;
            aged.lemma_filter_pred(is_settled(), k);
        }
    }
}

/// The invoices a purge leaves among those it looked at: the ones not fully
/// settled, in order.
pub open spec fn left_after_purge(aged: Seq<AgedInvoice>) -> Seq<AgedInvoice> {
    aged.filter(|inv: AgedInvoice| !settled(inv))
}

/// A purge run again over what the last one left finds nothing to purge:
/// it stops at its first step, with no snapshot and no deletion.
pub proof fn lemma_purge_again_finds_nothing(aged: Seq<AgedInvoice>)
    ensures
        settled_only(left_after_purge(aged)).len() == 0,
{
    let rest = left_after_purge(aged);
    if settled_only(rest).len() > 0 {
        rest.lemma_filter_pred(is_settled(), 0);
        let e = settled_only(rest)[0];
        assert(settled_only(rest).contains(e));
        rest.lemma_filter_contains_rev(is_settled(), e);
        let k = choose|k: int| 0 <= k < rest.len() && rest[k] == e;
        aged.lemma_filter_pred(|inv: AgedInvoice| !settled(inv), k);
        assert(false);
    }
}

} // verus!
