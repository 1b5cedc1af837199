//! Product import from CSV: reading the records (with the `csv` crate),
//! turning each row into a product, and the running tally of an import.
use vstd::prelude::*;
use crate::text::{decimal, trim, parse_i64, push_str, push_decimal, chars_of, string_of, trim_str, parse_i64_chars, parse_i64_str, chars_eq,
    before_first, digits_value, digit_value, all_digits, is_digit, slice_chars, lemma_before_first,
    lemma_digits_value_nonneg};
use crate::repositories::products::CreateProductInput;

verus! {

#[derive(Debug, Clone)]
pub struct CsvImportResult {
    pub imported: i64,
    pub errors: Vec<String>,
}

// ---------------------------------------------------------------------------
// Outside calls
// ---------------------------------------------------------------------------

/// What `csv::Reader::from_reader(content.as_bytes()).records()` yields, in
/// order: each record's fields, or the text of the error for that record.
/// The first line is read as the header row and is not a record.
pub uninterp spec fn csv_parse(content: Seq<char>) -> Seq<Result<Seq<Seq<char>>, Seq<char>>>;

pub open spec fn record_view(r: Result<Vec<String>, String>) -> Result<Seq<Seq<char>>, Seq<char>> {
    match r {
        Ok(fields) => Ok(fields@.map_values(|f: String| f@)),
        Err(e) => Err(e@),
    }
}

pub open spec fn records_view(rs: Seq<Result<Vec<String>, String>>) -> Seq<Result<Seq<Seq<char>>, Seq<char>>> {
    rs.map_values(|r: Result<Vec<String>, String>| record_view(r))
}

/// Reads CSV text with the `csv` crate's default reader (header row, comma
/// separated, every record as long as the first): the records in order,
/// each as its fields or as the error's message, named by `csv_parse`.
#[verifier::external_body]
fn csv_records(content: &str) -> (r: Vec<Result<Vec<String>, String>>)
    ensures
        records_view(r@) == csv_parse(content@),
{
    let mut rdr = csv::Reader::from_reader(content.as_bytes());
    let mut out = Vec::new();
    for rec in rdr.records() {
        out.push(match rec {
            Ok(fields) => Ok(fields.iter().map(|f| f.to_string()).collect()),
            Err(e) => Err(e.to_string()),
        });
    }
    out
}

/// What `str::to_lowercase` returns (Unicode lowercase mapping).
pub uninterp spec fn lowercase(s: Seq<char>) -> Seq<char>;

/// `str::to_lowercase`, named by `lowercase`.
#[verifier::external_body]
fn to_lowercase(s: &str) -> (r: String)
    ensures
        r@ == lowercase(s@),
{
    s.to_lowercase()
}

/// The records of an import file.
pub fn read_records(content: &str) -> (r: Vec<Result<Vec<String>, String>>)
    ensures
        records_view(r@) == csv_parse(content@),
{
    csv_records(content)
}

// ---------------------------------------------------------------------------
// Cell parsing
// ---------------------------------------------------------------------------

/// The text without spaces, dots and commas (thousands separators and the like).
pub open spec fn strip_separators(s: Seq<char>) -> Seq<char>
    decreases s.len(),
{
    if s.len() == 0 {
        seq![]
    } else {
        let rest = strip_separators(s.drop_last());
        let c = s.last();
        if c == ' ' || c == '.' || c == ',' {
            rest
        } else {
            rest.push(c)
        }
    }
}

/// A price cell: separators removed, then read as whole rupees; 0 when it is
/// not a number.
pub open spec fn price_of(s: Seq<char>) -> int {
    match parse_i64(strip_separators(s)) {
        Some(v) => v,
        None => 0,
    }
}

pub fn parse_price(price_str: &str) -> (r: i64)
    ensures
        r == price_of(price_str@),
{
    let cs = chars_of(price_str);
    let mut clean: Vec<char> = Vec::new();
    let mut i: usize = 0;
    assert(cs@.take(0) =~= Seq::<char>::empty());
    while i < cs.len()
        invariant
            i <= cs@.len(),
            clean@ == strip_separators(cs@.take(i as int)),
        decreases cs@.len() - i,
    {
        assert(cs@.take(i + 1).drop_last() =~= cs@.take(i as int));
        let c = cs[i];
        if !(c == ' ' || c == '.' || c == ',') {
            clean.push(c);
        }
        i = i + 1;
    }
    assert(cs@.take(cs@.len() as int) =~= cs@);
    match parse_i64_chars(&clean) {
        Some(v) => v,
        None => 0,
    }
}

/// The `i`-th digit after the dot, 0 past the end.
pub open spec fn frac_digit(fp: Seq<char>, i: int) -> int {
    if i < fp.len() {
        digit_value(fp[i])
    } else {
        0
    }
}

/// A nonzero digit after the first four digits after the dot.
pub open spec fn tail_nonzero(fp: Seq<char>) -> bool {
    exists|j: int| 4 <= j < fp.len() && #[trigger] fp[j] != '0'
}

/// Whether the digits after the dot round the thousandths up: the fourth
/// digit is above 5, or it is 5 and either a later digit is not 0 or the
/// kept thousandths digit is odd (ties go to the even digit).
pub open spec fn rounds_up(fp: Seq<char>) -> bool {
    fp.len() > 3 && (digit_value(fp[3]) > 5 || (digit_value(fp[3]) == 5 && (tail_nonzero(fp) || frac_digit(fp, 2)
        % 2 == 1)))
}

/// The digits after the dot in thousandths, rounded to the nearest, ties to even.
pub open spec fn frac_milli(fp: Seq<char>) -> int {
    100 * frac_digit(fp, 0) + 10 * frac_digit(fp, 1) + frac_digit(fp, 2) + (if rounds_up(fp) {
        1int
    } else {
        0int
    })
}

/// The digits after the first dot (none when there is no dot).
pub open spec fn after_dot(s: Seq<char>) -> Seq<char> {
    let ip = before_first(s, '.');
    if ip.len() < s.len() {
        s.skip(ip.len() as int + 1)
    } else {
        seq![]
    }
}

/// An unsigned decimal in thousandths: digits, optionally a dot and more
/// digits, at least one digit in all. `None` for any other text, or a value
/// beyond the `i64` range.
pub open spec fn decimal_milli_of(s: Seq<char>) -> Option<int> {
    let ip = before_first(s, '.');
    let fp = after_dot(s);
    let v = digits_value(ip) * 1000 + frac_milli(fp);
    if ip.len() + fp.len() > 0 && all_digits(ip) && all_digits(fp) && v <= i64::MAX {
        Some(v)
    } else {
        None
    }
}

/// An area cell in square metres, held in thousandths: an optional `+` or
/// `-`, then a plain decimal (see `decimal_milli_of`), rounded to three
/// places, ties to even. Exponent forms and `inf`/`NaN` give `None`.
pub open spec fn area_milli_of(s: Seq<char>) -> Option<int> {
    if s.len() > 0 && s[0] == '-' {
        match decimal_milli_of(s.drop_first()) {
            Some(v) => Some(-v),
            None => None,
        }
    } else if s.len() > 0 && s[0] == '+' {
        decimal_milli_of(s.drop_first())
    } else {
        decimal_milli_of(s)
    }
}

fn all_digit_chars(s: &Vec<char>) -> (b: bool)
    ensures
        b == all_digits(s@),
{
    let mut i: usize = 0;
    while i < s.len()
        invariant
            i <= s@.len(),
            forall|j: int| 0 <= j < i ==> is_digit(#[trigger] s@[j]),
        decreases s@.len() - i,
    {
        if !('0' <= s[i] && s[i] <= '9') {
            assert(!is_digit(s@[i as int]));
            return false;
        }
        i = i + 1;
    }
    true
}

fn digit_at(fp: &Vec<char>, i: usize) -> (d: i64)
    requires
        all_digits(fp@),
    ensures
        d == frac_digit(fp@, i as int),
        0 <= d <= 9,
{
    if i < fp.len() {
        let c = fp[i];
        assert(is_digit(fp@[i as int]));
        (c as u32 - '0' as u32) as i64
    } else {
        0
    }
}

fn has_tail_nonzero(fp: &Vec<char>) -> (b: bool)
    ensures
        b == tail_nonzero(fp@),
{
    let mut j: usize = 4;
    while j < fp.len()
        invariant
            4 <= j,
            forall|k: int| 4 <= k < j && k < fp@.len() ==> fp@[k] == '0',
        decreases fp@.len() - j,
    {
        if fp[j] != '0' {
            assert(fp@[j as int] != '0');
            return true;
        }
        j = j + 1;
    }
    assert forall|k: int| 4 <= k < fp@.len() implies !(#[trigger] fp@[k] != '0') by {}
    false
}

fn parse_decimal_milli(cs: &Vec<char>) -> (r: Option<i64>)
    ensures
        match r {
            Some(v) => decimal_milli_of(cs@) == Some(v as int) && v >= 0,
            None => decimal_milli_of(cs@) is None,
        },
{
    let n = cs.len();
    let mut k: usize = 0;
    while k < n && cs[k] != '.'
        invariant
            k <= n == cs@.len(),
            forall|j: int| 0 <= j < k ==> cs@[j] != '.',
        decreases n - k,
    {
        k = k + 1;
    }
    proof {
        lemma_before_first(cs@, '.', k as int);
        let t = cs@.skip(k as int);
        if t.len() > 0 {
            assert(t[0] == cs@[k as int]);
        }
        assert(before_first(t, '.') =~= Seq::<char>::empty());
        assert(cs@.take(k as int) + Seq::<char>::empty() =~= cs@.take(k as int));
    }
    let ip = slice_chars(cs, 0, k);
    assert(ip@ =~= before_first(cs@, '.'));
    let fp = if k < n {
        slice_chars(cs, k + 1, n)
    } else {
        Vec::new()
    };
    assert(fp@ =~= after_dot(cs@));
    if ip.len() + fp.len() == 0 {
        return None;
    }
    if !all_digit_chars(&ip) || !all_digit_chars(&fp) {
        return None;
    }
    let up = fp.len() > 3 && (digit_at(&fp, 3) > 5 || (digit_at(&fp, 3) == 5 && (has_tail_nonzero(&fp) || digit_at(
        &fp,
        2,
    ) % 2 == 1)));
    assert(up == rounds_up(fp@));
    let round: i64 = if up {
        1
    } else {
        0
    };
    let f = 100 * digit_at(&fp, 0) + 10 * digit_at(&fp, 1) + digit_at(&fp, 2) + round;
    assert(f == frac_milli(fp@));
    proof {
        lemma_digits_value_nonneg(ip@);
    }
    let iv: i64 = if ip.len() == 0 {
        0
    } else {
        assert(is_digit(ip@[0]));
        assert(!(ip@[0] == '-' || ip@[0] == '+'));
        match parse_i64_chars(&ip) {
            Some(v) => v,
            None => {
                assert(digits_value(ip@) > i64::MAX);
                return None;
            },
        }
    };
    assert(iv as int == digits_value(ip@));
    match iv.checked_mul(1000) {
        Some(m) => match m.checked_add(f) {
            Some(v) => Some(v),
            None => None,
        },
        None => {
            assert(iv * 1000 + f > i64::MAX);
            None
        },
    }
}

/// Reads an area cell (see `area_milli_of`).
pub fn parse_area_milli(s: &str) -> (r: Option<i64>)
    ensures
        match r {
            Some(v) => area_milli_of(s@) == Some(v as int),
            None => area_milli_of(s@) is None,
        },
{
    let cs = chars_of(s);
    let n = cs.len();
    if n > 0 && (cs[0] == '-' || cs[0] == '+') {
        let body = slice_chars(&cs, 1, n);
        assert(body@ =~= cs@.drop_first());
        match parse_decimal_milli(&body) {
            Some(v) => if cs[0] == '-' {
                Some(-v)
            } else {
                Some(v)
            },
            None => None,
        }
    } else {
        parse_decimal_milli(&cs)
    }
}

/// The category for a cell (already lowercased and trimmed): one of the four
/// known ones, `tiles` otherwise.
pub open spec fn category_for(t: Seq<char>) -> Seq<char> {
    if t == "marble"@ {
        "marble"@
    } else if t == "tiles"@ {
        "tiles"@
    } else if t == "chips"@ {
        "chips"@
    } else if t == "sanitary"@ {
        "sanitary"@
    } else {
        "tiles"@
    }
}

fn literal(s: &str) -> (r: Vec<char>)
    ensures
        r@ == s@,
{
    chars_of(s)
}

pub fn parse_category(cat: &str) -> (r: String)
    ensures
        r@ == category_for(trim(lowercase(cat@))),
{
    let lower = to_lowercase(cat);
    let t = trim_str(lower.as_str());
    let marble = literal("marble");
    let tiles = literal("tiles");
    let chips = literal("chips");
    let sanitary = literal("sanitary");
    if chars_eq(&t, &marble) {
        string_of(&marble)
    } else if chars_eq(&t, &tiles) {
        string_of(&tiles)
    } else if chars_eq(&t, &chips) {
        string_of(&chips)
    } else if chars_eq(&t, &sanitary) {
        string_of(&sanitary)
    } else {
        string_of(&tiles)
    }
}

// ---------------------------------------------------------------------------
// Rows
// ---------------------------------------------------------------------------

/// Cell `i` exists and is not empty.
pub open spec fn present(row: Seq<Seq<char>>, i: int) -> bool {
    row.len() > i && row[i].len() > 0
}

/// An optional text column: the cell when present.
pub open spec fn opt_cell(o: Option<String>, row: Seq<Seq<char>>, i: int) -> bool {
    match o {
        Some(s) => present(row, i) && s@ == row[i],
        None => !present(row, i),
    }
}

/// The publication flag of a cell: `true` (any case, padded) or a number
/// equal to 1 (or not a number at all) publishes.
pub open spec fn published_of(s: Seq<char>) -> int {
    if trim(lowercase(s)) == "true"@ || (match parse_i64(s) {
        Some(v) => v,
        None => 1,
    }) == 1 {
        1
    } else {
        0
    }
}

/// The product a CSV row describes. Columns: name, sku, category,
/// description, color, size, finish, unit (default `pcs`), price,
/// pieces per carton, area per tile (square metres), stock (default 0),
/// low-stock threshold (default 5), image url, published (default yes).
/// The file carries no company or purchase price.
pub open spec fn row_product(p: CreateProductInput, row: Seq<Seq<char>>) -> bool {
    &&& p.name@ == row[0]
    &&& opt_cell(p.sku, row, 1)
    &&& p.category@ == (if present(row, 2) {
        category_for(trim(lowercase(row[2])))
    } else {
        "tiles"@
    })
    &&& opt_cell(p.description, row, 3)
    &&& opt_cell(p.color, row, 4)
    &&& opt_cell(p.size, row, 5)
    &&& opt_cell(p.finish, row, 6)
    &&& p.company is None
    &&& p.unit@ == (if present(row, 7) {
        row[7]
    } else {
        "pcs"@
    })
    &&& p.price == (if present(row, 8) {
        price_of(row[8])
    } else {
        0
    })
    &&& p.purchase_price == 0
    &&& p.pieces_per_carton == (if present(row, 9) {
        match parse_i64(row[9]) {
            Some(v) => Some(v as i64),
            None => None,
        }
    } else {
        None
    })
    &&& p.area_per_tile_milli == (if present(row, 10) {
        match area_milli_of(row[10]) {
            Some(v) => Some(v as i64),
            None => None,
        }
    } else {
        None
    })
    &&& p.stock_qty == (if present(row, 11) {
        match parse_i64(row[11]) {
            Some(v) => v,
            None => 0,
        }
    } else {
        0
    })
    &&& p.low_stock_threshold == (if present(row, 12) {
        match parse_i64(row[12]) {
            Some(v) => v,
            None => 5,
        }
    } else {
        5
    })
    &&& opt_cell(p.image_url, row, 13)
    &&& p.is_published == (if present(row, 14) {
        published_of(row[14])
    } else {
        1
    })
}

/// What a product made from a CSV row holds, cell by cell: the name is cell
/// 0; sku, description, color, size, finish and image url are cells 1, 3,
/// 4, 5, 6 and 13 when those are not empty (and absent otherwise); the unit
/// is cell 7 (`pcs` when empty or missing); price, pieces per carton, area,
/// stock, low-stock threshold and the published flag come from cells 8 to
/// 12 and 14.
pub proof fn lemma_row_cells(p: CreateProductInput, row: Seq<Seq<char>>)
    requires
        row_product(p, row),
    ensures
        p.name@ == row[0],
        row.len() > 1 && row[1].len() > 0 ==> p.sku is Some && p.sku.unwrap()@ == row[1],
        !(row.len() > 1 && row[1].len() > 0) ==> p.sku is None,
        row.len() > 3 && row[3].len() > 0 ==> p.description is Some && p.description.unwrap()@ == row[3],
        !(row.len() > 3 && row[3].len() > 0) ==> p.description is None,
        row.len() > 4 && row[4].len() > 0 ==> p.color is Some && p.color.unwrap()@ == row[4],
        !(row.len() > 4 && row[4].len() > 0) ==> p.color is None,
        row.len() > 5 && row[5].len() > 0 ==> p.size is Some && p.size.unwrap()@ == row[5],
        !(row.len() > 5 && row[5].len() > 0) ==> p.size is None,
        row.len() > 6 && row[6].len() > 0 ==> p.finish is Some && p.finish.unwrap()@ == row[6],
        !(row.len() > 6 && row[6].len() > 0) ==> p.finish is None,
        row.len() > 7 && row[7].len() > 0 ==> p.unit@ == row[7],
        !(row.len() > 7 && row[7].len() > 0) ==> p.unit@ == "pcs"@,
        row.len() > 8 && row[8].len() > 0 ==> p.price == price_of(row[8]),
        !(row.len() > 8 && row[8].len() > 0) ==> p.price == 0,
        row.len() > 9 && row[9].len() > 0 && parse_i64(row[9]) is Some ==> p.pieces_per_carton == Some(
            parse_i64(row[9]).unwrap() as i64,
        ),
        row.len() > 10 && row[10].len() > 0 && area_milli_of(row[10]) is Some ==> p.area_per_tile_milli == Some(
            area_milli_of(row[10]).unwrap() as i64,
        ),
        row.len() > 11 && row[11].len() > 0 && parse_i64(row[11]) is Some ==> p.stock_qty == parse_i64(
            row[11],
        ).unwrap(),
        !(row.len() > 11 && row[11].len() > 0) ==> p.stock_qty == 0,
        row.len() > 12 && row[12].len() > 0 && parse_i64(row[12]) is Some ==> p.low_stock_threshold == parse_i64(
            row[12],
        ).unwrap(),
        !(row.len() > 12 && row[12].len() > 0) ==> p.low_stock_threshold == 5,
        row.len() > 13 && row[13].len() > 0 ==> p.image_url is Some && p.image_url.unwrap()@ == row[13],
        !(row.len() > 13 && row[13].len() > 0) ==> p.image_url is None,
        !(row.len() > 14 && row[14].len() > 0) ==> p.is_published == 1,
        p.company is None,
        p.purchase_price == 0,
{
}

/// Whether every cell of a row is blank (such rows are skipped).
pub open spec fn blank_row(row: Seq<Seq<char>>) -> bool {
    forall|i: int| 0 <= i < row.len() ==> trim(#[trigger] row[i]).len() == 0
}

fn cell_present(row: &Vec<String>, i: usize) -> (b: bool)
    ensures
        b == present(row@.map_values(|f: String| f@), i as int),
{
    row.len() > i && row[i].as_str().unicode_len() > 0
}

fn opt_text(row: &Vec<String>, i: usize) -> (r: Option<String>)
    ensures
        opt_cell(r, row@.map_values(|f: String| f@), i as int),
{
    if cell_present(row, i) {
        let cs = chars_of(row[i].as_str());
        Some(string_of(&cs))
    } else {
        None
    }
}

fn parse_flag(s: &str) -> (r: i64)
    ensures
        r == published_of(s@),
{
    let lower = to_lowercase(s);
    let t = trim_str(lower.as_str());
    let tr = literal("true");
    if chars_eq(&t, &tr) {
        return 1;
    }
    let v = match parse_i64_str(s) {
        Some(v) => v,
        None => 1,
    };
    if v == 1 {
        1
    } else {
        0
    }
}

/// The product described by a row with at least one cell.
pub fn product_from_row(row: &Vec<String>) -> (p: CreateProductInput)
    requires
        row@.len() > 0,
    ensures
        row_product(p, row@.map_values(|f: String| f@)),
{
    let ghost rv = row@.map_values(|f: String| f@);
    let name = string_of(&chars_of(row[0].as_str()));
    let category = if cell_present(row, 2) {
        parse_category(row[2].as_str())
    } else {
        string_of(&literal("tiles"))
    };
    let unit = if cell_present(row, 7) {
        string_of(&chars_of(row[7].as_str()))
    } else {
        string_of(&literal("pcs"))
    };
    let price = if cell_present(row, 8) {
        parse_price(row[8].as_str())
    } else {
        0
    };
    let pieces_per_carton = if cell_present(row, 9) {
        parse_i64_str(row[9].as_str())
    } else {
        None
    };
    let stock_qty = if cell_present(row, 11) {
        match parse_i64_str(row[11].as_str()) {
            Some(v) => v,
            None => 0,
        }
    } else {
        0
    };
    let low_stock_threshold = if cell_present(row, 12) {
        match parse_i64_str(row[12].as_str()) {
            Some(v) => v,
            None => 5,
        }
    } else {
        5
    };
    let area_per_tile_milli = if cell_present(row, 10) {
        parse_area_milli(row[10].as_str())
    } else {
        None
    };
    let is_published = if cell_present(row, 14) {
        parse_flag(row[14].as_str())
    } else {
        1
    };
    CreateProductInput {
        name,
        sku: opt_text(row, 1),
        category,
        description: opt_text(row, 3),
        color: opt_text(row, 4),
        size: opt_text(row, 5),
        finish: opt_text(row, 6),
        company: None,
        unit,
        price,
        purchase_price: 0,
        pieces_per_carton,
        area_per_tile_milli,
        stock_qty,
        low_stock_threshold,
        image_url: opt_text(row, 13),
        is_published,
    }
}

fn is_blank_row(row: &Vec<String>) -> (b: bool)
    ensures
        b == blank_row(row@.map_values(|f: String| f@)),
{
    let ghost rv = row@.map_values(|f: String| f@);
    let mut i: usize = 0;
    while i < row.len()
        invariant
            i <= row@.len(),
            rv == row@.map_values(|f: String| f@),
            forall|j: int| 0 <= j < i ==> trim(#[trigger] rv[j]).len() == 0,
        decreases row@.len() - i,
    {
        let t = trim_str(row[i].as_str());
        if t.len() > 0 {
            assert(trim(rv[i as int]).len() > 0);
            return false;
        }
        i = i + 1;
    }
    true
}

// ---------------------------------------------------------------------------
// Import tally
// ---------------------------------------------------------------------------

/// Running result of an import: products created so far and the messages of
/// the rows that failed.
pub struct ImportState {
    pub imported: i64,
    pub errors: Vec<String>,
}

pub open spec fn errors_view(st: ImportState) -> Seq<Seq<char>> {
    st.errors@.map_values(|e: String| e@)
}

/// `Row N: <message>`, N counting the products imported so far plus one.
pub open spec fn row_error_text(imported: int, msg: Seq<char>) -> Seq<char> {
    "Row "@ + decimal(imported + 1) + ": "@ + msg
}

impl ImportState {
    pub fn new() -> (s: Self)
        ensures
            s.imported == 0,
            s.errors@.len() == 0,
    {
        ImportState { imported: 0, errors: Vec::new() }
    }

    fn push_error(&mut self, msg: Vec<char>)
        ensures
            final(self).imported == old(self).imported,
            errors_view(*final(self)) == errors_view(*old(self)).push(msg@),
    {
        let s = string_of(&msg);
        self.errors.push(s);
        assert(errors_view(*self) =~= errors_view(*old(self)).push(msg@));
    }

    /// Takes one CSV record. A malformed record is reported as
    /// `CSV parse error: <message>`; an all-blank row is skipped; a row
    /// without cells is reported as missing its name; any other row yields
    /// the product to create, leaving the tally as it is.
    pub fn take_record(&mut self, record: &Result<Vec<String>, String>) -> (r: Option<CreateProductInput>)
        requires
            old(self).imported < i64::MAX,
        ensures
            final(self).imported == old(self).imported,
            match record_view(*record) {
                Err(m) => r is None && errors_view(*final(self)) == errors_view(*old(self)).push(
                    "CSV parse error: "@ + m,
                ),
                Ok(row) => if blank_row(row) {
                    r is None && errors_view(*final(self)) == errors_view(*old(self))
                } else if row.len() == 0 {
                    r is None && errors_view(*final(self)) == errors_view(*old(self)).push(
                        row_error_text(old(self).imported as int, "Product name is required"@),
                    )
                } else {
                    r matches Some(p) && row_product(p, row) && errors_view(*final(self)) == errors_view(
                        *old(self),
                    )
                },
            },
    {
        match record {
            Err(m) => {
                let mut v: Vec<char> = Vec::new();
                push_str(&mut v, "CSV parse error: ");
                push_str(&mut v, m.as_str());
                self.push_error(v);
                None
            },
            Ok(row) => {
                if is_blank_row(row) {
                    None
                } else if row.len() == 0 {
                    let mut v: Vec<char> = Vec::new();
                    push_str(&mut v, "Row ");
                    push_decimal(&mut v, self.imported + 1);
                    push_str(&mut v, ": ");
                    push_str(&mut v, "Product name is required");
                    assert(v@ =~= row_error_text(self.imported as int, "Product name is required"@));
                    self.push_error(v);
                    None
                } else {
                    Some(product_from_row(row))
                }
            },
        }
    }

    /// Records the outcome of creating a product: counted when it was
    /// created, otherwise reported as `Row N: <message>`.
    pub fn take_insert_result(&mut self, outcome: &Result<(), String>)
        requires
            old(self).imported < i64::MAX,
        ensures
            match outcome {
                Ok(()) => final(self).imported == old(self).imported + 1 && errors_view(*final(self))
                    == errors_view(*old(self)),
                Err(m) => final(self).imported == old(self).imported && errors_view(*final(self))
                    == errors_view(*old(self)).push(row_error_text(old(self).imported as int, m@)),
            },
    {
        match outcome {
            Ok(()) => {
                self.imported = self.imported + 1;
            },
            Err(m) => {
                let mut v: Vec<char> = Vec::new();
                push_str(&mut v, "Row ");
                push_decimal(&mut v, self.imported + 1);
                push_str(&mut v, ": ");
                push_str(&mut v, m.as_str());
                assert(v@ =~= row_error_text(self.imported as int, m@));
                self.push_error(v);
            },
        }
    }

    /// The import's result.
    pub fn finish(self) -> (r: CsvImportResult)
        ensures
            r.imported == self.imported,
            r.errors@ == self.errors@,
    {
        CsvImportResult { imported: self.imported, errors: self.errors }
    }
}

} // verus!
