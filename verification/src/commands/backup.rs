//! Backup commands: naming and quoting of snapshots, the checks a restored
//! file must pass, and the order in which backups are listed.
use vstd::prelude::*;
use std::path::PathBuf;
use crate::config::{Config, path_join, path_text, adjoined};
use crate::error::AppError;
use crate::text::{chars_of, has_prefix, has_suffix, push_str, starts_with, ends_with, str_eq,
    string_of};

verus! {

/// Tables a CityTiles database must contain.
pub const REQUIRED_TABLE_COUNT: i64 = 7;

/// Names of the tables a CityTiles database must contain.
pub fn required_tables() -> (r: Vec<&'static str>)
    ensures
        r@.len() == REQUIRED_TABLE_COUNT,
        r@[0]@ == "users"@,
        r@[1]@ == "products"@,
        r@[2]@ == "customers"@,
        r@[3]@ == "invoices"@,
        r@[4]@ == "invoice_items"@,
        r@[5]@ == "returns"@,
        r@[6]@ == "_sqlx_migrations"@,
{
    let mut v: Vec<&'static str> = Vec::new();
    v.push("users");
    v.push("products");
    v.push("customers");
    v.push("invoices");
    v.push("invoice_items");
    v.push("returns");
    v.push("_sqlx_migrations");
    v
}

/// The folder backups are written to: `backups` inside the data directory.
pub fn backups_dir(config: &Config) -> (r: PathBuf)
    ensures
        adjoined(path_text(config.app_data_dir), "backups"@, path_text(r)),
{
    proof {
        reveal_strlit("backups");
    }
    path_join(&config.app_data_dir, "backups")
}

/// `s` with every single quote doubled.
pub open spec fn escape_quotes(s: Seq<char>) -> Seq<char>
    decreases s.len(),
{
    if s.len() == 0 {
        Seq::empty()
    } else {
        escape_quotes(s.drop_last()) + (if s.last() == '\'' {
            seq!['\'', '\'']
        } else {
            seq![s.last()]
        })
    }
}

/// An SQLite string literal holding `s`.
pub open spec fn sql_literal_text(s: Seq<char>) -> Seq<char> {
    seq!['\''] + escape_quotes(s) + seq!['\'']
}

/// Quotes a path (its text) as an SQLite string literal, for `VACUUM INTO`.
pub fn sql_literal(path: &str) -> (r: String)
    ensures
        r@ == sql_literal_text(path@),
{
    let cs = chars_of(path);
    let mut v: Vec<char> = Vec::new();
    v.push('\'');
    let mut i: usize = 0;
    while i < cs.len()
        invariant
            i <= cs@.len(),
            v@ == seq!['\''] + escape_quotes(cs@.take(i as int)),
        decreases cs@.len() - i,
    {
        let c = cs[i];
        if c == '\'' {
            v.push('\'');
            v.push('\'');
        } else {
            v.push(c);
        }
        proof {
            assert(cs@.take(i + 1).drop_last() =~= cs@.take(i as int));
        }
        i = i + 1;
        assert(v@ =~= seq!['\''] + escape_quotes(cs@.take(i as int)));
    }
    v.push('\'');
    assert(cs@.take(cs@.len() as int) =~= cs@);
    assert(v@ =~= sql_literal_text(path@));
    string_of(&v)
}

/// The statement that snapshots the live database into `path`.
pub open spec fn vacuum_statement(path: Seq<char>) -> Seq<char> {
    "VACUUM INTO "@ + sql_literal_text(path)
}

pub fn vacuum_into(path: &str) -> (r: String)
    ensures
        r@ == vacuum_statement(path@),
{
    let lit = sql_literal(path);
    let mut v: Vec<char> = Vec::new();
    push_str(&mut v, "VACUUM INTO ");
    push_str(&mut v, lit.as_str());
    assert(v@ =~= vacuum_statement(path@));
    string_of(&v)
}

/// `<prefix><stamp>.sqlite`, the file name of a snapshot.
pub open spec fn snapshot_name(prefix: Seq<char>, stamp: Seq<char>) -> Seq<char> {
    prefix + stamp + ".sqlite"@
}

pub fn snapshot_file_name(prefix: &str, stamp: &str) -> (r: String)
    ensures
        r@ == snapshot_name(prefix@, stamp@),
{
    let mut v: Vec<char> = Vec::new();
    push_str(&mut v, prefix);
    push_str(&mut v, stamp);
    push_str(&mut v, ".sqlite");
    assert(v@ =~= snapshot_name(prefix@, stamp@));
    string_of(&v)
}

/// File name of an exported backup taken at `stamp`.
pub fn export_file_name(stamp: &str) -> (r: String)
    ensures
        r@ == snapshot_name("citytiles_backup_"@, stamp@),
{
    snapshot_file_name("citytiles_backup_", stamp)
}

/// File name of the safety snapshot taken before a restore at `stamp`.
pub fn pre_restore_file_name(stamp: &str) -> (r: String)
    ensures
        r@ == snapshot_name("pre_restore_"@, stamp@),
{
    snapshot_file_name("pre_restore_", stamp)
}

/// Whether a file in a backup folder is listed as a backup.
pub open spec fn backup_name(name: Seq<char>) -> bool {
    (has_prefix(name, "citytiles_backup_"@) || has_prefix(name, "pre_restore_"@))
        && has_suffix(name, ".sqlite"@)
}

pub fn is_backup_name(name: &str) -> (b: bool)
    ensures
        b == backup_name(name@),
{
    let cs = chars_of(name);
    let a = chars_of("citytiles_backup_");
    let p = chars_of("pre_restore_");
    let s = chars_of(".sqlite");
    (starts_with(&cs, &a) || starts_with(&cs, &p)) && ends_with(&cs, &s)
}

/// Why a staged backup is refused, if it is: the integrity check must say
/// `ok`, and all required tables must be present.
pub open spec fn restore_refusal(integrity: Seq<char>, found_tables: int) -> Option<Seq<char>> {
    if integrity != "ok"@ {
        Some("Backup failed integrity check ("@ + integrity + ")"@)
    } else if 0 <= found_tables < REQUIRED_TABLE_COUNT {
        Some("File does not look like a CityTiles database"@)
    } else {
        None
    }
}

/// Checks what the probe of a staged backup found. (A negative count, which
/// the probe never reports, is let through as the unsigned comparison does.)
pub fn check_restore_probe(integrity: &str, found_tables: i64) -> (r: Result<(), AppError>)
    ensures
        match restore_refusal(integrity@, found_tables as int) {
            None => r is Ok,
            Some(m) => r matches Err(AppError::Internal(t)) && t@ == m,
        },
{
    if !str_eq(integrity, "ok") {
        let mut v: Vec<char> = Vec::new();
        push_str(&mut v, "Backup failed integrity check (");
        push_str(&mut v, integrity);
        push_str(&mut v, ")");
        return Err(AppError::Internal(string_of(&v)));
    }
    if 0 <= found_tables && found_tables < REQUIRED_TABLE_COUNT {
        let mut v: Vec<char> = Vec::new();
        push_str(&mut v, "File does not look like a CityTiles database");
        return Err(AppError::Internal(string_of(&v)));
    }
    Ok(())
}

#[derive(Debug, Clone)]
pub struct BackupInfo {
    pub path: String,
    pub name: String,
    pub size: u64,
    pub created: u64,
}

/// `sorted` (newest first) with `x` placed after every entry at least as new.
pub open spec fn insert_newest_first(sorted: Seq<BackupInfo>, x: BackupInfo) -> Seq<BackupInfo>
    decreases sorted.len(),
{
    if sorted.len() == 0 {
        seq![x]
    } else if sorted.last().created >= x.created {
        sorted.push(x)
    } else {
        insert_newest_first(sorted.drop_last(), x).push(sorted.last())
    }
}

/// Backups newest first; entries of equal age keep their order (a stable sort).
pub open spec fn newest_first(s: Seq<BackupInfo>) -> Seq<BackupInfo>
    decreases s.len(),
{
    if s.len() == 0 {
        Seq::empty()
    } else {
        insert_newest_first(newest_first(s.drop_last()), s.last())
    }
}

/// `s` with each run of consecutive entries of the same path cut to its first.
pub open spec fn dedup_paths(s: Seq<BackupInfo>) -> Seq<BackupInfo>
    decreases s.len(),
{
    if s.len() == 0 {
        Seq::empty()
    } else {
        let d = dedup_paths(s.drop_last());
        if d.len() > 0 && d.last().path@ == s.last().path@ {
            d
        } else {
            d.push(s.last())
        }
    }
}

fn insert_by_age(sorted: Vec<BackupInfo>, x: BackupInfo) -> (r: Vec<BackupInfo>)
    ensures
        r@ == insert_newest_first(sorted@, x),
    decreases sorted@.len(),
{
    let mut sorted = sorted;
    if sorted.len() == 0 {
        sorted.push(x);
        return sorted;
    }
    let ghost before = sorted@;
    let last = sorted.pop().unwrap();
    assert(sorted@ =~= before.drop_last());
    if last.created >= x.created {
        sorted.push(last);
        sorted.push(x);
        assert(sorted@ =~= before.push(x));
        sorted
    } else {
        let mut r = insert_by_age(sorted, x);
        r.push(last);
        r
    }
}

/// Backups newest first; entries of equal age keep their order.
pub fn sort_newest_first(backups: Vec<BackupInfo>) -> (r: Vec<BackupInfo>)
    ensures
        r@ == newest_first(backups@),
{
    let ghost all = backups@;
    let mut sorted: Vec<BackupInfo> = Vec::new();
    for b in it: backups.into_iter()
        invariant
            it.seq() == all,
            sorted@ == newest_first(all.take(it.index() as int)),
    {
        proof {
            assert(all.take(it.index() + 1).drop_last() =~= all.take(it.index() as int));
        }
        sorted = insert_by_age(sorted, b);
    }
    assert(all.take(all.len() as int) =~= all);
    sorted
}

/// Drops each entry whose path equals that of the entry kept just before it.
pub fn dedup_by_path(backups: Vec<BackupInfo>) -> (r: Vec<BackupInfo>)
    ensures
        r@ == dedup_paths(backups@),
{
    let ghost all = backups@;
    let mut out: Vec<BackupInfo> = Vec::new();
    for b in it: backups.into_iter()
        invariant
            it.seq() == all,
            out@ == dedup_paths(all.take(it.index() as int)),
    {
        proof {
            assert(all.take(it.index() + 1).drop_last() =~= all.take(it.index() as int));
        }
        let same = if out.len() > 0 {
            str_eq(out[out.len() - 1].path.as_str(), b.path.as_str())
        } else {
            false
        };
        if !same {
            out.push(b);
        }
    }
    assert(all.take(all.len() as int) =~= all);
    out
}

/// The order backups are listed in: newest first (stable for equal ages),
/// the same file found twice listed once.
pub fn order_backups(backups: Vec<BackupInfo>) -> (r: Vec<BackupInfo>)
    ensures
        r@ == dedup_paths(newest_first(backups@)),
{
    dedup_by_path(sort_newest_first(backups))
}

// ---------------------------------------------------------------------------
// Laws of the backup list
// ---------------------------------------------------------------------------

/// Entries are ordered newest first.
pub open spec fn newest_first_ordered(s: Seq<BackupInfo>) -> bool {
    forall|i: int, j: int| 0 <= i < j < s.len() ==> s[i].created >= s[j].created
}

proof fn lemma_insert_keeps_order(sorted: Seq<BackupInfo>, x: BackupInfo)
    requires
        newest_first_ordered(sorted),
    ensures
        newest_first_ordered(insert_newest_first(sorted, x)),
        insert_newest_first(sorted, x).len() == sorted.len() + 1,
        forall|k: int| 0 <= k < insert_newest_first(sorted, x).len() ==> {
            let e = #[trigger] insert_newest_first(sorted, x)[k];
            e == x || sorted.contains(e)
        },
    decreases sorted.len(),
{
    if sorted.len() == 0 {
    } else if sorted.last().created >= x.created {
        let r = sorted.push(x);
        assert forall|k: int| 0 <= k < r.len() implies {
            let e = #[trigger] r[k];
            e == x || sorted.contains(e)
        } by {
            if k < sorted.len() {
                assert(r[k] == sorted[k]);
            }
        }
    } else {
        let init = sorted.drop_last();
        lemma_insert_keeps_order(init, x);
        let m = insert_newest_first(init, x);
        let r = m.push(sorted.last());
        assert forall|k: int| 0 <= k < m.len() implies #[trigger] m[k].created >= sorted.last().created by {
            if m[k] != x {
                assert(init.contains(m[k]));
                let j = choose|j: int| 0 <= j < init.len() && init[j] == m[k];
                assert(sorted[j] == init[j]);
            }
        }
        assert forall|k: int| 0 <= k < r.len() implies {
            let e = #[trigger] r[k];
            e == x || sorted.contains(e)
        } by {
            if k < m.len() {
                assert(r[k] == m[k]);
                if m[k] != x {
                    let j = choose|j: int| 0 <= j < init.len() && init[j] == m[k];
                    assert(sorted[j] == init[j]);
                }
            } else {
                assert(sorted[sorted.len() - 1] == sorted.last());
            }
        }
        assert forall|i: int, j: int| 0 <= i < j < r.len() implies r[i].created >= r[j].created by {
            if j < m.len() {
                assert(r[i] == m[i] && r[j] == m[j]);
            } else {
                assert(r[i] == m[i]);
            }
        }
    }
}

/// Listed backups come newest first, one more entry per backup found.
pub proof fn lemma_backups_newest_first(s: Seq<BackupInfo>)
    ensures
        newest_first_ordered(newest_first(s)),
        newest_first(s).len() == s.len(),
    decreases s.len(),
{
    if s.len() > 0 {
        lemma_backups_newest_first(s.drop_last());
        lemma_insert_keeps_order(newest_first(s.drop_last()), s.last());
    }
}

proof fn lemma_dedup_subsequence(s: Seq<BackupInfo>)
    ensures
        dedup_paths(s).len() <= s.len(),
        newest_first_ordered(s) ==> newest_first_ordered(dedup_paths(s)),
        forall|i: int| 0 <= i < dedup_paths(s).len() - 1 ==> (#[trigger] dedup_paths(s)[i]).path@
            != dedup_paths(s)[i + 1].path@,
        forall|k: int| 0 <= k < dedup_paths(s).len() ==> s.contains(#[trigger] dedup_paths(s)[k]),
    decreases s.len(),
{
    if s.len() > 0 {
        let init = s.drop_last();
        lemma_dedup_subsequence(init);
        let d = dedup_paths(init);
        assert forall|k: int| 0 <= k < d.len() implies s.contains(#[trigger] d[k]) by {
            let j = choose|j: int| 0 <= j < init.len() && init[j] == d[k];
            assert(s[j] == init[j]);
        }
        assert(s[s.len() - 1] == s.last());
        if newest_first_ordered(s) {
            assert forall|i: int, j: int| 0 <= i < j < init.len() implies init[i].created >= init[j].created by {
                assert(init[i] == s[i] && init[j] == s[j]);
            }
            assert forall|k: int| 0 <= k < d.len() implies #[trigger] d[k].created >= s.last().created by {
                let j = choose|j: int| 0 <= j < init.len() && init[j] == d[k];
                assert(s[j] == init[j]);
            }
        }
        if !(d.len() > 0 && d.last().path@ == s.last().path@) {
            let r = d.push(s.last());
            assert forall|k: int| 0 <= k < r.len() implies s.contains(#[trigger] r[k]) by {
                if k < d.len() {
                    assert(r[k] == d[k]);
                }
            }
        }
    }
}

/// The listing is newest first and never shows the same file twice in a
/// row, and it only shows backups that were found.
pub proof fn lemma_listing_order(found: Seq<BackupInfo>)
    ensures
        newest_first_ordered(dedup_paths(newest_first(found))),
        forall|i: int| 0 <= i < dedup_paths(newest_first(found)).len() - 1
            ==> (#[trigger] dedup_paths(newest_first(found))[i]).path@
            != dedup_paths(newest_first(found))[i + 1].path@,
        dedup_paths(newest_first(found)).len() <= found.len(),
{
    lemma_backups_newest_first(found);
    lemma_dedup_subsequence(newest_first(found));
}

/// Every snapshot this application writes, exported or taken before a
/// restore, is recognised as a backup when the folder is listed.
pub proof fn lemma_snapshots_are_listed(stamp: Seq<char>)
    ensures
        backup_name(snapshot_name("citytiles_backup_"@, stamp)),
        backup_name(snapshot_name("pre_restore_"@, stamp)),
{
    let a = snapshot_name("citytiles_backup_"@, stamp);
    let b = snapshot_name("pre_restore_"@, stamp);
    assert(a.take("citytiles_backup_"@.len() as int) =~= "citytiles_backup_"@);
    assert(a.skip(a.len() - ".sqlite"@.len()) =~= ".sqlite"@);
    assert(b.take("pre_restore_"@.len() as int) =~= "pre_restore_"@);
    assert(b.skip(b.len() - ".sqlite"@.len()) =~= ".sqlite"@);
}

} // verus!
