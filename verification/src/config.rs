//! Application configuration: token secret and lifetime, hashing cost and
//! where the database lives.
use vstd::prelude::*;
use std::path::PathBuf;
use vstd::utf8::encode_utf8;
use crate::text::{push_str, string_of, trim, trim_str};

verus! {

#[verifier::external_type_specification]
#[verifier::external_body]
pub struct ExPathBuf(PathBuf);

/// `PathBuf::clone`: a copy of the path. Nothing is stated of it, as the
/// type is opaque here.
pub assume_specification[ <PathBuf as Clone>::clone ](p: &PathBuf) -> PathBuf;

/// Token lifetime in hours.
pub const JWT_EXPIRY_HOURS: i64 = 24;

/// bcrypt work factor.
pub const BCRYPT_COST: u32 = 12;

#[derive(Debug, Clone)]
pub struct Config {
    pub jwt_secret: String,
    pub jwt_expiry_hours: i64,
    pub bcrypt_cost: u32,
    pub db_path: PathBuf,
    pub app_data_dir: PathBuf,
}

/// The text a path holds (its `OsStr`, read as text).
pub uninterp spec fn path_text(p: PathBuf) -> Seq<char>;

/// A Windows verbatim path (`\\?\...`), which `Path::join` normalizes.
pub open spec fn verbatim(t: Seq<char>) -> bool {
    t.len() >= 4 && t.take(4) == seq!['\\', '\\', '?', '\\']
}

/// `part` adjoined to the path text `base`, as `Path::join` does for a
/// relative single-component `part`: `base`, then a separator (`/` or `\`,
/// whichever the platform writes, left out where `base` does not need one),
/// then `part`. Nothing is said of a verbatim `base`.
pub open spec fn adjoined(base: Seq<char>, part: Seq<char>, r: Seq<char>) -> bool {
    verbatim(base) || r == base + part || r == base + seq!['/'] + part || r == base + seq!['\\'] + part
}

/// A single path component: no separator and no drive colon.
pub open spec fn plain_component(part: Seq<char>) -> bool {
    forall|i: int| 0 <= i < part.len() ==> #[trigger] part[i] != '/' && part[i] != '\\' && part[i] != ':'
}

/// `PathBuf::from(String)`: a path holding exactly the given text.
#[verifier::external_body]
pub(crate) fn path_from(s: String) -> (r: PathBuf)
    ensures
        path_text(r) == s@,
{
    PathBuf::from(s)
}

/// `Path::join` with a relative single-component `part`: the base path with
/// `part` adjoined (see `adjoined`). Which separator is written depends on
/// the platform, so only that it is one of the two is stated.
#[verifier::external_body]
pub(crate) fn path_join(base: &PathBuf, part: &str) -> (r: PathBuf)
    requires
        plain_component(part@),
    ensures
        adjoined(path_text(*base), part@, path_text(r)),
{
    base.join(part)
}

fn literal(s: &str) -> (r: String)
    ensures
        r@ == s@,
{
    let mut v: Vec<char> = Vec::new();
    push_str(&mut v, s);
    string_of(&v)
}

/// The base of the data directory: `PROGRAMDATA` if set, else `C:\ProgramData`.
pub open spec fn program_data_base(program_data: Option<String>) -> Seq<char> {
    match program_data {
        Some(p) => p@,
        None => "C:\\ProgramData"@,
    }
}

/// The data directory: `<PROGRAMDATA or C:\ProgramData>\CityTiles`, given the
/// value of `PROGRAMDATA` if set.
pub fn app_data_dir_for(program_data: Option<String>) -> (r: PathBuf)
    ensures
        adjoined(program_data_base(program_data), "CityTiles"@, path_text(r)),
{
    let base = match program_data {
        Some(p) => p,
        None => literal("C:\\ProgramData"),
    };
    proof {
        reveal_strlit("CityTiles");
    }
    path_join(&path_from(base), "CityTiles")
}

/// Random bytes in a generated token secret.
pub const JWT_KEY_BYTES: usize = 32;

/// Where the token secret comes from.
#[derive(Debug)]
pub enum SecretChoice {
    /// The `JWT_SECRET` environment variable, which always wins.
    Env(String),
    /// The key file of this installation.
    Stored(String),
    /// Neither: a fresh random key is to be made (and stored if possible).
    Fresh,
}

/// The secret's source: the environment variable when set, else the key
/// file's content (trimmed) when it holds any, else a fresh key.
pub fn choose_jwt_secret(env: Option<String>, stored: Option<String>) -> (r: SecretChoice)
    ensures
        match env {
            Some(e) => r matches SecretChoice::Env(s) && s@ == e@,
            None => match stored {
                Some(k) if trim(k@).len() > 0 => r matches SecretChoice::Stored(s) && s@ == trim(k@),
                _ => r is Fresh,
            },
        },
{
    match env {
        Some(e) => SecretChoice::Env(e),
        None => match stored {
            Some(k) => {
                let t = trim_str(k.as_str());
                if t.len() > 0 {
                    SecretChoice::Stored(string_of(&t))
                } else {
                    SecretChoice::Fresh
                }
            },
            None => SecretChoice::Fresh,
        },
    }
}

/// Lowercase hexadecimal digit of `d` (below 16).
pub open spec fn hex_digit(d: int) -> char {
    if d < 10 {
        ((d + 48) as u32) as char
    } else {
        ((d + 87) as u32) as char
    }
}

/// Bytes as lowercase hexadecimal, two digits each.
pub open spec fn hex_text(bytes: Seq<u8>) -> Seq<char>
    decreases bytes.len(),
{
    if bytes.len() == 0 {
        seq![]
    } else {
        hex_text(bytes.drop_last()) + seq![hex_digit(bytes.last() as int / 16), hex_digit(bytes.last() as int % 16)]
    }
}

fn hex_char(d: u8) -> (c: char)
    requires
        d < 16,
    ensures
        c == hex_digit(d as int),
{
    let table = ['0', '1', '2', '3', '4', '5', '6', '7', '8', '9', 'a', 'b', 'c', 'd', 'e', 'f'];
    let c = table[d as usize];
    assert(c == hex_digit(d as int)) by {
        assert(('0' as u32) == 48 && ('a' as u32) == 97);
    }
    c
}

/// A generated key written as text: lowercase hex of its bytes.
pub fn hex_encode(bytes: &Vec<u8>) -> (r: String)
    ensures
        r@ == hex_text(bytes@),
{
    let mut v: Vec<char> = Vec::new();
    let mut i: usize = 0;
    while i < bytes.len()
        invariant
            i <= bytes@.len(),
            v@ == hex_text(bytes@.take(i as int)),
        decreases bytes@.len() - i,
    {
        let b = bytes[i];
        v.push(hex_char(b / 16));
        v.push(hex_char(b % 16));
        assert(bytes@.take(i + 1).drop_last() =~= bytes@.take(i as int));
        i = i + 1;
        assert(v@ =~= hex_text(bytes@.take(i as int)));
    }
    assert(bytes@.take(bytes@.len() as int) =~= bytes@);
    string_of(&v)
}

impl Config {
    /// The configuration for a data directory (see `app_data_dir_for`) and a
    /// resolved token secret; the database file is `citytiles.db` inside the
    /// directory.
    pub fn new(program_data: Option<String>, jwt_secret: String) -> (c: Config)
        ensures
            c.jwt_secret == jwt_secret,
            c.jwt_expiry_hours == JWT_EXPIRY_HOURS,
            c.bcrypt_cost == BCRYPT_COST,
            adjoined(program_data_base(program_data), "CityTiles"@, path_text(c.app_data_dir)),
            adjoined(path_text(c.app_data_dir), "citytiles.db"@, path_text(c.db_path)),
    {
        let app_data_dir = app_data_dir_for(program_data);
        proof {
            reveal_strlit("citytiles.db");
        }
        let db_path = path_join(&app_data_dir, "citytiles.db");
        Config {
            jwt_secret,
            jwt_expiry_hours: JWT_EXPIRY_HOURS,
            bcrypt_cost: BCRYPT_COST,
            db_path,
            app_data_dir,
        }
    }

    /// The token secret as bytes (its UTF-8 encoding).
    pub fn jwt_secret_bytes(&self) -> (b: &[u8])
        ensures
            b@ == encode_utf8(self.jwt_secret@),
    {
        self.jwt_secret.as_str().as_bytes()
    }
}

} // verus!
