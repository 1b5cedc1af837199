//! Database backups kept directly in the data directory.
use vstd::prelude::*;
use crate::text::{chars_of, has_prefix, has_suffix, starts_with, ends_with};
pub use crate::commands::backup::BackupInfo;

verus! {

/// Whether a file in the data directory is an exported backup.
pub open spec fn export_name(name: Seq<char>) -> bool {
    has_prefix(name, "citytiles_backup_"@) && has_suffix(name, ".sqlite"@)
}

pub fn is_export_name(name: &str) -> (b: bool)
    ensures
        b == export_name(name@),
{
    let cs = chars_of(name);
    let a = chars_of("citytiles_backup_");
    let s = chars_of(".sqlite");
    starts_with(&cs, &a) && ends_with(&cs, &s)
}

} // verus!
