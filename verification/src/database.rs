//! Where the database lives and how it is addressed.
use vstd::prelude::*;
use crate::text::{chars_of, push_str, string_of};

verus! {

/// `s` with every backslash turned into a forward slash.
pub open spec fn forward_slashes(s: Seq<char>) -> Seq<char> {
    s.map_values(|c: char| if c == '\\' { '/' } else { c })
}

/// `sqlite:<path>?mode=<mode>`, the path written with forward slashes.
pub open spec fn sqlite_url_text(path: Seq<char>, mode: Seq<char>) -> Seq<char> {
    "sqlite:"@ + forward_slashes(path) + "?mode="@ + mode
}

/// The connection URL of the database file at `path` (its text), opened in
/// `mode` (`rwc` to create if missing, `ro` to probe read-only).
pub fn sqlite_url(path: &str, mode: &str) -> (r: String)
    ensures
        r@ == sqlite_url_text(path@, mode@),
{
    let cs = chars_of(path);
    let mut v: Vec<char> = Vec::new();
    push_str(&mut v, "sqlite:");
    let ghost start = v@;
    let mut i: usize = 0;
    while i < cs.len()
        invariant
            i <= cs@.len(),
            v@ == start + forward_slashes(cs@.take(i as int)),
        decreases cs@.len() - i,
    {
        let c = cs[i];
        v.push(if c == '\\' { '/' } else { c });
        i = i + 1;
        assert(v@ =~= start + forward_slashes(cs@.take(i as int)));
    }
    assert(cs@.take(cs@.len() as int) =~= cs@);
    push_str(&mut v, "?mode=");
    push_str(&mut v, mode);
    assert(v@ =~= sqlite_url_text(path@, mode@));
    string_of(&v)
}

} // verus!
