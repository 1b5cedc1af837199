//! Text-mode receipts: the ESC/POS byte stream sent to an 80mm thermal
//! printer when raster rendering is unavailable, and the plain-text twin used
//! by the non-Windows spooler.
use vstd::prelude::*;
use vstd::utf8::encode_utf8;
use vstd::string::StrSliceExecFns;
use crate::text::{has_suffix, is_ws, words_from, decimal, repeat_char, trim, trim_end, words, lines, views, push_str, push_all, push_decimal,
    push_repeat, chars_of, string_of, trim_chars, trim_end_chars, split_words, split_lines, lemma_digits_len_bound,
    pow10};
use crate::clock::{format_timestamp, timestamp_text, local_in_range, LocalStamp, rfc3339_accepts, rfc3339_reading};
use crate::repositories::invoices::{Invoice, InvoiceItem, balance_representable};

verus! {

/// Characters per line on an 80mm roll at the default font (Font A).
pub const RECEIPT_WIDTH: usize = 48;

/// Fallback business identity printed on every receipt.
pub const DEFAULT_BUSINESS_NAME: &'static str = "Moon Pipe";
pub const DEFAULT_BUSINESS_ADDRESS: &'static str = "Mansehra Road, Abbottabad, Khyber Pakhtunkhwa";
pub const DEFAULT_BUSINESS_PHONE: &'static str = "0334 5333447";

#[derive(Debug, Clone)]
pub struct ReceiptBusiness {
    pub name: String,
    pub address: String,
    pub phone: String,
}

impl Default for ReceiptBusiness {
    fn default() -> (r: Self)
        ensures
            r.name@ == DEFAULT_BUSINESS_NAME@,
            r.address@ == DEFAULT_BUSINESS_ADDRESS@,
            r.phone@ == DEFAULT_BUSINESS_PHONE@,
    {
        let mut n: Vec<char> = Vec::new();
        push_str(&mut n, DEFAULT_BUSINESS_NAME);
        let mut a: Vec<char> = Vec::new();
        push_str(&mut a, DEFAULT_BUSINESS_ADDRESS);
        let mut p: Vec<char> = Vec::new();
        push_str(&mut p, DEFAULT_BUSINESS_PHONE);
        ReceiptBusiness { name: string_of(&n), address: string_of(&a), phone: string_of(&p) }
    }
}

// ---------------------------------------------------------------------------
// Line layout
// ---------------------------------------------------------------------------

/// `PKR <amount>`: amounts are whole rupees everywhere.
pub open spec fn price_text(rupees: int) -> Seq<char> {
    "PKR "@ + decimal(rupees)
}

pub fn push_price(out: &mut Vec<char>, rupees: i64)
    ensures
        final(out)@ == old(out)@ + price_text(rupees as int),
{
    push_str(out, "PKR ");
    push_decimal(out, rupees);
    assert(final(out)@ =~= old(out)@ + price_text(rupees as int));
}

/// Amount as receipt text (`PKR <amount>`).
pub fn format_price(rupees: i64) -> (r: String)
    ensures
        r@ == price_text(rupees as int),
{
    let mut v: Vec<char> = Vec::new();
    push_price(&mut v, rupees);
    string_of(&v)
}

/// A price as printed (`PKR` and the amount) takes at most 24 characters.
pub proof fn lemma_price_text_len(x: int)
    requires
        i64::MIN <= x <= i64::MAX,
    ensures
        price_text(x).len() <= 24,
{
    reveal_strlit("PKR ");
    let m: nat = if x < 0 { (-x) as nat } else { x as nat };
    assert(pow10(19) == 10000000000000000000) by {
        reveal_with_fuel(pow10, 20);
    }
    lemma_digits_len_bound(m, 19);
}

/// A full-width line of `c`, then a newline.
pub open spec fn rule_text(c: char) -> Seq<char> {
    repeat_char(c, 48).push('\n')
}

pub fn rule(c: char) -> (r: String)
    ensures
        r@ == rule_text(c),
{
    let mut v: Vec<char> = Vec::new();
    push_repeat(&mut v, c, RECEIPT_WIDTH);
    v.push('\n');
    assert(v@ =~= rule_text(c));
    string_of(&v)
}

/// `n` spaces.
pub open spec fn spaces(n: int) -> Seq<char> {
    repeat_char(' ', n as nat)
}

/// Room left of the right column: `48 - (|right| + 1)`, at least 0.
pub open spec fn max_left(rlen: int) -> int {
    if rlen + 1 <= 48 {
        47 - rlen
    } else {
        0
    }
}

/// Inputs on which the two-column layout terminates: the right column leaves
/// room for at least one character of the left one, or both fit as they are.
pub open spec fn two_col_fits(left: Seq<char>, right: Seq<char>) -> bool {
    right.len() < 47 || (left.len() == 0 && right.len() <= 48)
}

/// Left text cut into chunks of `m` characters from `start`; the amount rides
/// right-aligned on the final chunk.
pub open spec fn wrap_rows(left: Seq<char>, right: Seq<char>, m: int, start: int) -> Seq<char>
    decreases left.len() - start,
{
    if m <= 0 || start >= left.len() || start < 0 {
        seq![]
    } else {
        let end = if start + m < left.len() {
            start + m
        } else {
            left.len() as int
        };
        if end < left.len() {
            left.subrange(start, end) + seq!['\n'] + wrap_rows(left, right, m, end)
        } else {
            left.subrange(start, end) + spaces(48 - (end - start) - right.len()) + right + seq!['\n']
        }
    }
}

/// Right-aligned two-column row of width 48; wraps the left column when it
/// does not fit beside the right one.
pub open spec fn two_col_text(left: Seq<char>, right: Seq<char>) -> Seq<char> {
    let m = max_left(right.len() as int);
    if left.len() <= m {
        left + spaces(48 - left.len() - right.len()) + right + seq!['\n']
    } else {
        wrap_rows(left, right, m, 0)
    }
}

pub fn push_two_col(out: &mut Vec<char>, left: &Vec<char>, right: &Vec<char>)
    requires
        two_col_fits(left@, right@),
    ensures
        final(out)@ == old(out)@ + two_col_text(left@, right@),
{
    let rlen = right.len();
    let m: usize = if rlen + 1 <= RECEIPT_WIDTH { RECEIPT_WIDTH - (rlen + 1) } else { 0 };
    let n = left.len();
    if n <= m {
        push_all(out, left);
        push_repeat(out, ' ', RECEIPT_WIDTH - n - rlen);
        push_all(out, right);
        out.push('\n');
        assert(final(out)@ =~= old(out)@ + two_col_text(left@, right@));
    } else {
        let mut start: usize = 0;
        let ghost base = old(out)@;
        while start < n
            invariant
                0 < m <= 47,
                m == max_left(right@.len() as int),
                n == left@.len(),
                rlen == right@.len(),
                rlen < 47,
                start <= n,
                out@ + wrap_rows(left@, right@, m as int, start as int) == base + wrap_rows(
                    left@,
                    right@,
                    m as int,
                    0,
                ),
            decreases n - start,
        {
            let end = if n - start > m { start + m } else { n };
            let chunk = crate::text::slice_chars(left, start, end);
            let ghost prev = out@;
            push_all(out, &chunk);
            if end < n {
                out.push('\n');
                assert(out@ + wrap_rows(left@, right@, m as int, end as int) =~= prev + wrap_rows(
                    left@,
                    right@,
                    m as int,
                    start as int,
                ));
            } else {
                push_repeat(out, ' ', RECEIPT_WIDTH - (end - start) - rlen);
                push_all(out, right);
                out.push('\n');
                assert(wrap_rows(left@, right@, m as int, end as int) =~= Seq::<char>::empty());
                assert(out@ + wrap_rows(left@, right@, m as int, end as int) =~= prev + wrap_rows(
                    left@,
                    right@,
                    m as int,
                    start as int,
                ));
            }
            start = end;
        }
        assert(wrap_rows(left@, right@, m as int, n as int) =~= Seq::<char>::empty());
        assert(base + wrap_rows(left@, right@, m as int, 0) =~= old(out)@ + two_col_text(left@, right@));
    }
}

/// Right-aligned two-column row; wraps the left column when it doesn't fit.
pub fn two_col(left: &str, right: &str) -> (r: String)
    requires
        two_col_fits(left@, right@),
    ensures
        r@ == two_col_text(left@, right@),
{
    let l = chars_of(left);
    let rt = chars_of(right);
    let mut v: Vec<char> = Vec::new();
    push_two_col(&mut v, &l, &rt);
    assert(v@ =~= two_col_text(left@, right@));
    string_of(&v)
}

/// A two-column row whose left text fits beside the right one is exactly
/// the receipt width (then a newline), with the right text flush against the
/// right edge.
pub proof fn lemma_two_col_row_width(left: Seq<char>, right: Seq<char>)
    requires
        right.len() <= 47,
        left.len() <= max_left(right.len() as int),
    ensures
        two_col_text(left, right).len() == 48 + 1,
        has_suffix(two_col_text(left, right), right + seq!['\n']),
        two_col_text(left, right).take(left.len() as int) == left,
{
    let t = two_col_text(left, right);
    let pad = spaces(48 - left.len() - right.len());
    assert(pad.len() == 48 - left.len() - right.len());
    assert(t == left + pad + right + seq!['\n']);
    assert(t.skip(t.len() - (right.len() + 1)) =~= right + seq!['\n']);
    assert(t.take(left.len() as int) =~= left);
}

/// A line centered by left padding: `(48 - |line|) / 2` spaces (none when
/// the line is wider), the line, a newline.
pub open spec fn centered_line(line: Seq<char>) -> Seq<char> {
    spaces(if line.len() < 48 { (48 - line.len()) / 2 } else { 0 }) + line + seq!['\n']
}

/// `cur` extended by `w`, with a space between when `cur` is not empty.
pub open spec fn join_word(cur: Seq<char>, w: Seq<char>) -> Seq<char> {
    if cur.len() == 0 {
        w
    } else {
        cur + seq![' '] + w
    }
}

/// Greedy word packing into lines of at most 48 characters; a word that does
/// not fit starts a new line (a single over-long word stays whole).
pub open spec fn pack_words(ws: Seq<Seq<char>>, cur: Seq<char>) -> Seq<char>
    decreases ws.len(),
{
    if ws.len() == 0 {
        if cur.len() > 0 {
            centered_line(cur)
        } else {
            seq![]
        }
    } else {
        let w = ws[0];
        let next_len = cur.len() + (if cur.len() == 0 { 0int } else { 1int }) + w.len();
        if next_len > 48 && cur.len() > 0 {
            centered_line(cur) + pack_words(ws.drop_first(), w)
        } else {
            pack_words(ws.drop_first(), join_word(cur, w))
        }
    }
}

/// One source line: an empty line when it has no words, else its packed words.
pub open spec fn center_block(line: Seq<char>) -> Seq<char> {
    if words(line).len() == 0 {
        seq!['\n']
    } else {
        pack_words(words(line), seq![])
    }
}

pub open spec fn center_lines(ls: Seq<Seq<char>>) -> Seq<char>
    decreases ls.len(),
{
    if ls.len() == 0 {
        seq![]
    } else {
        center_lines(ls.drop_last()) + center_block(ls.last())
    }
}

/// Word-wrapped, manually centered text.
pub open spec fn center_wrapped_text(text: Seq<char>) -> Seq<char> {
    center_lines(lines(text))
}

fn push_centered_line(out: &mut Vec<char>, line: &Vec<char>)
    ensures
        final(out)@ == old(out)@ + centered_line(line@),
{
    let n = line.len();
    push_repeat(out, ' ', if n < RECEIPT_WIDTH { (RECEIPT_WIDTH - n) / 2 } else { 0 });
    push_all(out, line);
    out.push('\n');
    assert(final(out)@ =~= old(out)@ + centered_line(line@));
}

fn push_center_block(out: &mut Vec<char>, line: &Vec<char>)
    ensures
        final(out)@ == old(out)@ + center_block(line@),
{
    let ws = split_words(line);
    let ghost wv = views(ws@);
    if ws.len() == 0 {
        out.push('\n');
        assert(final(out)@ =~= old(out)@ + center_block(line@));
        return;
    }
    let mut cur: Vec<char> = Vec::new();
    let mut i: usize = 0;
    let ghost base = old(out)@;
    assert(wv.skip(0) =~= wv);
    while i < ws.len()
        invariant
            i <= ws@.len(),
            wv == views(ws@),
            wv == words(line@),
            out@ + pack_words(wv.skip(i as int), cur@) == base + pack_words(wv, seq![]),
        decreases ws@.len() - i,
    {
        let ghost rest = wv.skip(i as int);
        assert(rest.drop_first() =~= wv.skip(i + 1));
        assert(rest[0] == ws@[i as int]@);
        let w = &ws[i];
        let cl = cur.len();
        let next_len: usize = if w.len() > RECEIPT_WIDTH + 1 { RECEIPT_WIDTH + 1 } else {
            if cl > RECEIPT_WIDTH + 1 { RECEIPT_WIDTH + 1 } else { cl + (if cl == 0 { 0 } else { 1 }) + w.len() }
        };
        let ghost exact = cur@.len() + (if cur@.len() == 0 { 0int } else { 1int }) + w@.len();
        assert((next_len > RECEIPT_WIDTH) == (exact > 48));
        let ghost old_cur = cur@;
        let ghost old_out = out@;
        if next_len > RECEIPT_WIDTH && cl > 0 {
            push_centered_line(out, &cur);
            let mut fresh: Vec<char> = Vec::new();
            push_all(&mut fresh, w);
            cur = fresh;
        } else {
            if cl > 0 {
                cur.push(' ');
            }
            push_all(&mut cur, w);
            assert(cur@ =~= join_word(old_cur, w@));
        }
        assert(out@ + pack_words(wv.skip(i + 1), cur@) =~= old_out + pack_words(rest, old_cur));
        i = i + 1;
    }
    if cur.len() > 0 {
        push_centered_line(out, &cur);
    }
    assert(wv.skip(ws@.len() as int) =~= Seq::<Seq<char>>::empty());
}


fn push_center_lines(out: &mut Vec<char>, text: &Vec<char>)
    ensures
        final(out)@ == old(out)@ + center_wrapped_text(text@),
{
    let ls = split_lines(text);
    let ghost lv = views(ls@);
    let mut i: usize = 0;
    let ghost base = old(out)@;
    assert(lv.take(0) =~= Seq::<Seq<char>>::empty());
    while i < ls.len()
        invariant
            i <= ls@.len(),
            lv == views(ls@),
            lv == lines(text@),
            out@ == base + center_lines(lv.take(i as int)),
        decreases ls@.len() - i,
    {
        assert(lv.take(i + 1).drop_last() =~= lv.take(i as int));
        assert(lv.take(i + 1).last() == ls@[i as int]@);
        push_center_block(out, &ls[i]);
        i = i + 1;
        assert(out@ =~= base + center_lines(lv.take(i as int)));
    }
    assert(lv.take(ls@.len() as int) =~= lv);
}

/// Word-wrapped, manually centered text (plain-text twin only).
pub fn center_wrapped(text: &str) -> (r: String)
    ensures
        r@ == center_wrapped_text(text@),
{
    let t = chars_of(text);
    let mut v: Vec<char> = Vec::new();
    push_center_lines(&mut v, &t);
    assert(v@ =~= center_wrapped_text(text@));
    string_of(&v)
}

// ---------------------------------------------------------------------------
// Laws of the centered layout
// ---------------------------------------------------------------------------

/// A printed row: at most the receipt width of text, then its newline.
pub open spec fn receipt_row(r: Seq<char>) -> bool {
    &&& 1 <= r.len() <= 49
    &&& r.last() == '\n'
    &&& forall|j: int| 0 <= j < r.len() - 1 ==> r[j] != '\n'
}

/// Rows laid end to end.
pub open spec fn flatten(rows: Seq<Seq<char>>) -> Seq<char>
    decreases rows.len(),
{
    if rows.len() == 0 {
        seq![]
    } else {
        rows[0] + flatten(rows.drop_first())
    }
}

/// The lines that `pack_words` centers, before centering.
pub open spec fn packed_lines(ws: Seq<Seq<char>>, cur: Seq<char>) -> Seq<Seq<char>>
    decreases ws.len(),
{
    if ws.len() == 0 {
        if cur.len() > 0 {
            seq![cur]
        } else {
            seq![]
        }
    } else {
        let w = ws[0];
        let next_len = cur.len() + (if cur.len() == 0 { 0int } else { 1int }) + w.len();
        if next_len > 48 && cur.len() > 0 {
            seq![cur] + packed_lines(ws.drop_first(), w)
        } else {
            packed_lines(ws.drop_first(), join_word(cur, w))
        }
    }
}

pub open spec fn centered_all(ls: Seq<Seq<char>>) -> Seq<Seq<char>> {
    ls.map_values(|l: Seq<char>| centered_line(l))
}

/// The rows one source line becomes.
pub open spec fn block_rows(line: Seq<char>) -> Seq<Seq<char>> {
    if words(line).len() == 0 {
        seq![seq!['\n']]
    } else {
        centered_all(packed_lines(words(line), seq![]))
    }
}

pub open spec fn blocks_rows(ls: Seq<Seq<char>>) -> Seq<Seq<char>>
    decreases ls.len(),
{
    if ls.len() == 0 {
        seq![]
    } else {
        blocks_rows(ls.drop_last()) + block_rows(ls.last())
    }
}

/// Words separated by single spaces.
pub open spec fn spaced(ws: Seq<Seq<char>>) -> Seq<char>
    decreases ws.len(),
{
    if ws.len() == 0 {
        seq![]
    } else if ws.len() == 1 {
        ws[0]
    } else {
        ws[0] + seq![' '] + spaced(ws.drop_first())
    }
}

pub open spec fn no_newline(s: Seq<char>) -> bool {
    forall|j: int| 0 <= j < s.len() ==> s[j] != '\n'
}

/// Every word of every line of `text` fits on a row.
pub open spec fn words_fit(text: Seq<char>) -> bool {
    forall|i: int, k: int| 0 <= i < lines(text).len() && 0 <= k < words(lines(text)[i]).len()
        ==> (#[trigger] words(lines(text)[i])[k]).len() <= 48
}

proof fn lemma_flatten_cons(a: Seq<char>, x: Seq<Seq<char>>)
    ensures
        flatten(seq![a] + x) == a + flatten(x),
{
    assert((seq![a] + x).drop_first() =~= x);
    assert((seq![a] + x)[0] == a);
}

proof fn lemma_flatten_append(a: Seq<Seq<char>>, b: Seq<Seq<char>>)
    ensures
        flatten(a + b) == flatten(a) + flatten(b),
    decreases a.len(),
{
    if a.len() == 0 {
        assert(a + b =~= b);
        assert(flatten(a) =~= Seq::<char>::empty());
        assert(flatten(a) + flatten(b) =~= flatten(b));
    } else {
        assert((a + b).drop_first() =~= a.drop_first() + b);
        assert((a + b)[0] == a[0]);
        lemma_flatten_append(a.drop_first(), b);
        assert(flatten(a + b) =~= flatten(a) + flatten(b));
    }
}

proof fn lemma_pack_rows(ws: Seq<Seq<char>>, cur: Seq<char>)
    ensures
        pack_words(ws, cur) == flatten(centered_all(packed_lines(ws, cur))),
    decreases ws.len(),
{
    if ws.len() == 0 {
        if cur.len() > 0 {
            assert(centered_all(seq![cur]) =~= seq![centered_line(cur)]);
            lemma_flatten_cons(centered_line(cur), Seq::empty());
            assert(seq![centered_line(cur)] =~= seq![centered_line(cur)] + Seq::<Seq<char>>::empty());
            assert(flatten(Seq::<Seq<char>>::empty()) =~= Seq::<char>::empty());
            assert(centered_line(cur) + Seq::<char>::empty() =~= centered_line(cur));
        } else {
            assert(centered_all(Seq::<Seq<char>>::empty()) =~= Seq::<Seq<char>>::empty());
        }
    } else {
        let w = ws[0];
        let next_len = cur.len() + (if cur.len() == 0 { 0int } else { 1int }) + w.len();
        if next_len > 48 && cur.len() > 0 {
            let p = packed_lines(ws.drop_first(), w);
            lemma_pack_rows(ws.drop_first(), w);
            assert(centered_all(seq![cur] + p) =~= seq![centered_line(cur)] + centered_all(p));
            lemma_flatten_cons(centered_line(cur), centered_all(p));
        } else {
            lemma_pack_rows(ws.drop_first(), join_word(cur, w));
        }
    }
}

proof fn lemma_packed_fit(ws: Seq<Seq<char>>, cur: Seq<char>)
    requires
        cur.len() <= 48,
        no_newline(cur),
        forall|k: int| 0 <= k < ws.len() ==> (#[trigger] ws[k]).len() <= 48 && no_newline(ws[k]),
    ensures
        forall|i: int| 0 <= i < packed_lines(ws, cur).len() ==> (#[trigger] packed_lines(ws, cur)[i]).len()
            <= 48 && no_newline(packed_lines(ws, cur)[i]),
    decreases ws.len(),
{
    let r = packed_lines(ws, cur);
    if ws.len() == 0 {
        assert forall|i: int| 0 <= i < r.len() implies (#[trigger] r[i]).len() <= 48 && no_newline(r[i]) by {
            assert(r =~= seq![cur]);
            assert(r[i] == cur);
        }
    } else {
        let w = ws[0];
        assert(w.len() <= 48 && no_newline(w));
        let rest = ws.drop_first();
        assert forall|k: int| 0 <= k < rest.len() implies (#[trigger] rest[k]).len() <= 48 && no_newline(rest[k]) by {
            assert(rest[k] == ws[k + 1]);
        }
        let next_len = cur.len() + (if cur.len() == 0 { 0int } else { 1int }) + w.len();
        if next_len > 48 && cur.len() > 0 {
            lemma_packed_fit(rest, w);
            let p = packed_lines(rest, w);
            assert(r == seq![cur] + p);
            assert forall|i: int| 0 <= i < r.len() implies (#[trigger] r[i]).len() <= 48 && no_newline(r[i]) by {
                if i > 0 {
                    assert(r[i] == p[i - 1]);
                } else {
                    assert(r[i] == cur);
                }
            }
        } else {
            let j = join_word(cur, w);
            assert(no_newline(j)) by {
                if cur.len() > 0 {
                    assert forall|t: int| 0 <= t < j.len() implies j[t] != '\n' by {
                        if t < cur.len() {
                            assert(j[t] == cur[t]);
                        } else if t > cur.len() {
                            assert(j[t] == w[t - cur.len() - 1]);
                        }
                    }
                }
            }
            assert(j.len() <= 48);
            lemma_packed_fit(rest, j);
            assert(r == packed_lines(rest, j));
        }
    }
}

proof fn lemma_centered_row(l: Seq<char>)
    requires
        l.len() <= 48,
        no_newline(l),
    ensures
        receipt_row(centered_line(l)),
{
    let p: int = if l.len() < 48 { (48 - l.len()) / 2 } else { 0 };
    let r = centered_line(l);
    assert(r == spaces(p) + l + seq!['\n']);
    assert(spaces(p).len() == p);
    assert forall|j: int| 0 <= j < r.len() - 1 implies r[j] != '\n' by {
        if j < p {
            assert(r[j] == spaces(p)[j]);
        } else {
            assert(r[j] == l[j - p]);
        }
    }
}

/// A word holds no whitespace and is never empty.
pub open spec fn clean_words(ws: Seq<Seq<char>>) -> bool {
    forall|k: int| 0 <= k < ws.len() ==> (#[trigger] ws[k]).len() > 0 && forall|j: int|
        0 <= j < ws[k].len() ==> !is_ws(#[trigger] ws[k][j])
}

proof fn lemma_words_clean(s: Seq<char>, cur: Seq<char>)
    requires
        forall|j: int| 0 <= j < cur.len() ==> !is_ws(#[trigger] cur[j]),
    ensures
        clean_words(words_from(s, cur)),
    decreases s.len(),
{
    let r = words_from(s, cur);
    if s.len() == 0 {
        if cur.len() > 0 {
            assert(r =~= seq![cur]);
            assert forall|k: int| 0 <= k < r.len() implies (#[trigger] r[k]).len() > 0 && forall|j: int|
                0 <= j < r[k].len() ==> !is_ws(#[trigger] r[k][j]) by {
                assert(r[k] == cur);
            }
        }
    } else {
        if is_ws(s[0]) {
            lemma_words_clean(s.drop_first(), seq![]);
            let pre: Seq<Seq<char>> = if cur.len() > 0 { seq![cur] } else { Seq::empty() };
            let post = words_from(s.drop_first(), seq![]);
            assert(r == pre + post);
            assert forall|k: int| 0 <= k < r.len() implies (#[trigger] r[k]).len() > 0 && forall|j: int|
                0 <= j < r[k].len() ==> !is_ws(#[trigger] r[k][j]) by {
                if k < pre.len() {
                    assert(r[k] == cur);
                } else {
                    assert(r[k] == post[k - pre.len()]);
                }
            }
        } else {
            let c = cur.push(s[0]);
            assert forall|j: int| 0 <= j < c.len() implies !is_ws(#[trigger] c[j]) by {
                if j < cur.len() {
                    assert(c[j] == cur[j]);
                }
            }
            lemma_words_clean(s.drop_first(), c);
        }
    }
}

proof fn lemma_block_rows(line: Seq<char>)
    requires
        forall|k: int| 0 <= k < words(line).len() ==> (#[trigger] words(line)[k]).len() <= 48,
    ensures
        center_block(line) == flatten(block_rows(line)),
        forall|i: int| 0 <= i < block_rows(line).len() ==> receipt_row(#[trigger] block_rows(line)[i]),
{
    let ws = words(line);
    if ws.len() == 0 {
        assert(flatten(seq![seq!['\n']]) =~= seq!['\n']) by {
            lemma_flatten_cons(seq!['\n'], Seq::empty());
            assert(seq![seq!['\n']] =~= seq![seq!['\n']] + Seq::<Seq<char>>::empty());
            assert(flatten(Seq::<Seq<char>>::empty()) =~= Seq::<char>::empty());
        }
    } else {
        lemma_pack_rows(ws, seq![]);
        lemma_words_clean(line, seq![]);
        assert forall|k: int| 0 <= k < ws.len() implies (#[trigger] ws[k]).len() <= 48 && no_newline(ws[k]) by {
            assert forall|j: int| 0 <= j < ws[k].len() implies ws[k][j] != '\n' by {
                assert(!is_ws(ws[k][j]));
            }
        }
        lemma_packed_fit(ws, seq![]);
        let p = packed_lines(ws, seq![]);
        assert forall|i: int| 0 <= i < block_rows(line).len() implies receipt_row(#[trigger] block_rows(line)[i]) by {
            assert(block_rows(line)[i] == centered_line(p[i]));
            lemma_centered_row(p[i]);
        }
    }
}

proof fn lemma_blocks_rows(ls: Seq<Seq<char>>)
    requires
        forall|i: int, k: int| 0 <= i < ls.len() && 0 <= k < words(ls[i]).len() ==> (#[trigger] words(
            ls[i],
        )[k]).len() <= 48,
    ensures
        center_lines(ls) == flatten(blocks_rows(ls)),
        forall|i: int| 0 <= i < blocks_rows(ls).len() ==> receipt_row(#[trigger] blocks_rows(ls)[i]),
    decreases ls.len(),
{
    if ls.len() == 0 {
        assert(flatten(Seq::<Seq<char>>::empty()) =~= Seq::<char>::empty());
    } else {
        let init = ls.drop_last();
        assert forall|i: int, k: int| 0 <= i < init.len() && 0 <= k < words(init[i]).len() implies (
        #[trigger] words(init[i])[k]).len() <= 48 by {
            assert(init[i] == ls[i]);
        }
        lemma_blocks_rows(init);
        let last = ls.last();
        assert forall|k: int| 0 <= k < words(last).len() implies (#[trigger] words(last)[k]).len() <= 48 by {
            assert(last == ls[ls.len() - 1]);
        }
        lemma_block_rows(last);
        lemma_flatten_append(blocks_rows(init), block_rows(last));
        let a = blocks_rows(init);
        let b = block_rows(last);
        assert forall|i: int| 0 <= i < (a + b).len() implies receipt_row(#[trigger] (a + b)[i]) by {
            if i < a.len() {
                assert((a + b)[i] == a[i]);
            } else {
                assert((a + b)[i] == b[i - a.len()]);
            }
        }
    }
}

/// The rows `wrap_rows` produces, one per chunk of the left text.
pub open spec fn wrap_row_list(left: Seq<char>, right: Seq<char>, m: int, start: int) -> Seq<Seq<char>>
    decreases left.len() - start,
{
    if m <= 0 || start >= left.len() || start < 0 {
        seq![]
    } else {
        let end = if start + m < left.len() {
            start + m
        } else {
            left.len() as int
        };
        if end < left.len() {
            seq![left.subrange(start, end) + seq!['\n']] + wrap_row_list(left, right, m, end)
        } else {
            seq![left.subrange(start, end) + spaces(48 - (end - start) - right.len()) + right + seq!['\n']]
        }
    }
}

/// The rows of a two-column entry.
pub open spec fn two_col_rows(left: Seq<char>, right: Seq<char>) -> Seq<Seq<char>> {
    if left.len() <= max_left(right.len() as int) {
        seq![two_col_text(left, right)]
    } else {
        wrap_row_list(left, right, max_left(right.len() as int), 0)
    }
}

proof fn lemma_wrap_rows(left: Seq<char>, right: Seq<char>, m: int, start: int)
    requires
        0 < m == max_left(right.len() as int),
        right.len() < 47,
        no_newline(left),
        no_newline(right),
        0 <= start,
    ensures
        wrap_rows(left, right, m, start) == flatten(wrap_row_list(left, right, m, start)),
        forall|i: int| 0 <= i < wrap_row_list(left, right, m, start).len() ==> receipt_row(
            #[trigger] wrap_row_list(left, right, m, start)[i],
        ),
    decreases left.len() - start,
{
    let rows = wrap_row_list(left, right, m, start);
    if start >= left.len() {
        assert(flatten(Seq::<Seq<char>>::empty()) =~= Seq::<char>::empty());
    } else {
        let end = if start + m < left.len() { start + m } else { left.len() as int };
        let chunk = left.subrange(start, end);
        assert forall|t: int| 0 <= t < chunk.len() implies chunk[t] != '\n' by {
            assert(chunk[t] == left[start + t]);
        }
        if end < left.len() {
            let row = chunk + seq!['\n'];
            lemma_wrap_rows(left, right, m, end);
            let rest = wrap_row_list(left, right, m, end);
            assert(rows == seq![row] + rest);
            lemma_flatten_cons(row, rest);
            assert(wrap_rows(left, right, m, start) == chunk + seq!['\n'] + wrap_rows(left, right, m, end));
            assert(wrap_rows(left, right, m, start) =~= row + flatten(rest));
            assert forall|i: int| 0 <= i < rows.len() implies receipt_row(#[trigger] rows[i]) by {
                if i == 0 {
                    assert(rows[0] == row);
                    assert forall|j: int| 0 <= j < row.len() - 1 implies row[j] != '\n' by {
                        assert(row[j] == chunk[j]);
                    }
                } else {
                    assert(rows[i] == rest[i - 1]);
                }
            }
        } else {
            let pad = spaces(48 - (end - start) - right.len());
            let row = chunk + pad + right + seq!['\n'];
            assert(rows =~= seq![row]);
            lemma_flatten_cons(row, Seq::empty());
            assert(seq![row] =~= seq![row] + Seq::<Seq<char>>::empty());
            assert(flatten(Seq::<Seq<char>>::empty()) =~= Seq::<char>::empty());
            assert(row + Seq::<char>::empty() =~= row);
            assert(pad.len() == 48 - (end - start) - right.len());
            assert forall|i: int| 0 <= i < rows.len() implies receipt_row(#[trigger] rows[i]) by {
                assert(rows[i] == row);
                assert forall|j: int| 0 <= j < row.len() - 1 implies row[j] != '\n' by {
                    if j < chunk.len() {
                        assert(row[j] == chunk[j]);
                    } else if j < chunk.len() + pad.len() {
                        assert(row[j] == pad[j - chunk.len()]);
                    } else {
                        assert(row[j] == right[j - chunk.len() - pad.len()]);
                    }
                }
            }
        }
    }
}

/// A two-column entry is made of rows no wider than the receipt, the last
/// carrying the right text flush against the right edge, whenever the right
/// text leaves room for some of the left one.
pub proof fn lemma_two_col_rows(left: Seq<char>, right: Seq<char>)
    requires
        right.len() < 47,
        no_newline(left),
        no_newline(right),
    ensures
        two_col_text(left, right) == flatten(two_col_rows(left, right)),
        forall|i: int| 0 <= i < two_col_rows(left, right).len() ==> receipt_row(
            #[trigger] two_col_rows(left, right)[i],
        ),
        has_suffix(two_col_text(left, right), right + seq!['\n']),
{
    let m = max_left(right.len() as int);
    let t = two_col_text(left, right);
    if left.len() <= m {
        let pad = spaces(48 - left.len() - right.len());
        assert(t == left + pad + right + seq!['\n']);
        lemma_flatten_cons(t, Seq::empty());
        assert(seq![t] =~= seq![t] + Seq::<Seq<char>>::empty());
        assert(flatten(Seq::<Seq<char>>::empty()) =~= Seq::<char>::empty());
        assert(t + Seq::<char>::empty() =~= t);
        assert(pad.len() == 48 - left.len() - right.len());
        assert forall|j: int| 0 <= j < t.len() - 1 implies t[j] != '\n' by {
            if j < left.len() {
                assert(t[j] == left[j]);
            } else if j < left.len() + pad.len() {
                assert(t[j] == pad[j - left.len()]);
            } else {
                assert(t[j] == right[j - left.len() - pad.len()]);
            }
        }
        assert(t.skip(t.len() - (right.len() + 1)) =~= right + seq!['\n']);
    } else {
        lemma_wrap_rows(left, right, m, 0);
        lemma_wrap_rows_suffix(left, right, m, 0);
    }
}

proof fn lemma_wrap_rows_suffix(left: Seq<char>, right: Seq<char>, m: int, start: int)
    requires
        0 < m == max_left(right.len() as int),
        right.len() < 47,
        0 <= start < left.len(),
    ensures
        has_suffix(wrap_rows(left, right, m, start), right + seq!['\n']),
    decreases left.len() - start,
{
    let end = if start + m < left.len() { start + m } else { left.len() as int };
    let chunk = left.subrange(start, end);
    let w = wrap_rows(left, right, m, start);
    let tail = right + seq!['\n'];
    if end < left.len() {
        lemma_wrap_rows_suffix(left, right, m, end);
        let rest = wrap_rows(left, right, m, end);
        assert(w == chunk + seq!['\n'] + rest);
        assert(w.skip(w.len() - tail.len()) =~= rest.skip(rest.len() - tail.len()));
    } else {
        let pad = spaces(48 - (end - start) - right.len());
        assert(w == chunk + pad + right + seq!['\n']);
        assert(w.skip(w.len() - tail.len()) =~= tail);
    }
}

/// The centered text is a sequence of rows, each at most the receipt width
/// followed by one newline, as long as no single word is wider than a row.
pub proof fn lemma_center_wrapped_rows(text: Seq<char>)
    requires
        words_fit(text),
    ensures
        center_wrapped_text(text) == flatten(blocks_rows(lines(text))),
        forall|i: int| 0 <= i < blocks_rows(lines(text)).len() ==> receipt_row(
            #[trigger] blocks_rows(lines(text))[i],
        ),
{
    lemma_blocks_rows(lines(text));
}

proof fn lemma_spaced_cons(a: Seq<char>, x: Seq<Seq<char>>)
    ensures
        spaced(seq![a] + x) == (if x.len() == 0 {
            a
        } else {
            a + seq![' '] + spaced(x)
        }),
{
    assert((seq![a] + x).drop_first() =~= x);
    assert((seq![a] + x)[0] == a);
}

proof fn lemma_packed_nonempty(ws: Seq<Seq<char>>, cur: Seq<char>)
    requires
        cur.len() > 0,
        forall|k: int| 0 <= k < ws.len() ==> (#[trigger] ws[k]).len() > 0,
    ensures
        packed_lines(ws, cur).len() > 0,
    decreases ws.len(),
{
    if ws.len() > 0 {
        let w = ws[0];
        let rest = ws.drop_first();
        assert forall|k: int| 0 <= k < rest.len() implies (#[trigger] rest[k]).len() > 0 by {
            assert(rest[k] == ws[k + 1]);
        }
        let next_len = cur.len() + 1 + w.len();
        if !(next_len > 48 && cur.len() > 0) {
            lemma_packed_nonempty(rest, join_word(cur, w));
        }
    }
}

proof fn lemma_packed_keeps_words(ws: Seq<Seq<char>>, cur: Seq<char>)
    requires
        forall|k: int| 0 <= k < ws.len() ==> (#[trigger] ws[k]).len() > 0,
    ensures
        spaced(packed_lines(ws, cur)) == spaced(if cur.len() > 0 {
            seq![cur] + ws
        } else {
            ws
        }),
    decreases ws.len(),
{
    if ws.len() == 0 {
        if cur.len() > 0 {
            assert(seq![cur] + ws =~= seq![cur]);
        }
    } else {
        let w = ws[0];
        let rest = ws.drop_first();
        assert(ws =~= seq![w] + rest);
        assert forall|k: int| 0 <= k < rest.len() implies (#[trigger] rest[k]).len() > 0 by {
            assert(rest[k] == ws[k + 1]);
        }
        let next_len = cur.len() + (if cur.len() == 0 { 0int } else { 1int }) + w.len();
        if next_len > 48 && cur.len() > 0 {
            lemma_packed_keeps_words(rest, w);
            lemma_packed_nonempty(rest, w);
            let p = packed_lines(rest, w);
            lemma_spaced_cons(cur, p);
            lemma_spaced_cons(cur, ws);
            assert(seq![cur] + ws =~= seq![cur] + (seq![w] + rest));
        } else {
            let j = join_word(cur, w);
            lemma_packed_keeps_words(rest, j);
            assert(j.len() > 0);
            lemma_spaced_cons(j, rest);
            if cur.len() > 0 {
                lemma_spaced_cons(cur, ws);
                lemma_spaced_cons(w, rest);
                assert(ws.len() > 0);
                if rest.len() == 0 {
                    assert(j =~= cur + seq![' '] + w);
                } else {
                    assert(j + seq![' '] + spaced(rest) =~= cur + seq![' '] + (w + seq![' '] + spaced(rest)));
                }
            } else {
                assert(j == w);
            }
        }
    }
}

/// Wrapping only breaks lines between words: the lines a source line is
/// wrapped into, joined by single spaces, are its words joined by single
/// spaces.
pub proof fn lemma_center_block_keeps_words(line: Seq<char>)
    ensures
        spaced(packed_lines(words(line), seq![])) == spaced(words(line)),
{
    lemma_words_clean(line, seq![]);
    lemma_packed_keeps_words(words(line), seq![]);
}

// ---------------------------------------------------------------------------
// Receipt bodies
// ---------------------------------------------------------------------------

/// `Q x UNIT NAME`, the left column of an item row.
pub open spec fn item_head(it: InvoiceItem) -> Seq<char> {
    decimal(it.quantity as int) + " x "@ + it.unit@ + " "@ + it.product_name@
}

/// The rate line under an item: `      @ PKR P / UNIT`.
pub open spec fn item_rate_line(it: InvoiceItem) -> Seq<char> {
    "      @ "@ + price_text(it.unit_price as int) + " / "@ + it.unit@ + "\n"@
}

pub open spec fn items_text(items: Seq<InvoiceItem>) -> Seq<char>
    decreases items.len(),
{
    if items.len() == 0 {
        seq![]
    } else {
        items_text(items.drop_last()) + two_col_text(item_head(items.last()), price_text(items.last().line_total as int))
            + item_rate_line(items.last())
    }
}

/// Invoice number, date and customer rows.
pub open spec fn meta_text(inv: Invoice, date: Seq<char>) -> Seq<char> {
    two_col_text("Invoice"@, inv.invoice_no@) + two_col_text("Date"@, date) + two_col_text(
        "Customer"@,
        inv.customer_name@,
    )
}

/// Subtotal row, and the discount row when there is a discount.
pub open spec fn subtotal_text(inv: Invoice) -> Seq<char> {
    two_col_text("Subtotal"@, price_text(inv.subtotal as int)) + (if inv.discount > 0 {
        two_col_text("Discount"@, seq!['-'] + price_text(inv.discount as int))
    } else {
        seq![]
    })
}

/// Non-empty notes: `\nNotes:\n<notes>\n`.
pub open spec fn notes_text(notes: Option<String>) -> Seq<char> {
    match notes {
        Some(n) => if n@.len() > 0 {
            "\nNotes:\n"@ + n@ + "\n"@
        } else {
            seq![]
        },
        None => seq![],
    }
}

/// Paid row, balance row while something is due, method line and notes.
pub open spec fn payment_text(inv: Invoice) -> Seq<char> {
    two_col_text("Paid"@, price_text(inv.amount_paid as int)) + (if inv.amount_paid < inv.total {
        two_col_text("Balance"@, price_text(inv.total - inv.amount_paid))
    } else {
        seq![]
    }) + "Method: "@ + inv.payment_method@ + "\n"@ + notes_text(inv.notes)
}

/// What the receipt layout needs of an invoice: short right-column values
/// (the two-column rows loop forever otherwise) and a representable balance.
pub open spec fn receipt_printable(inv: Invoice) -> bool {
    &&& inv.invoice_no@.len() < 47
    &&& inv.customer_name@.len() < 47
    &&& balance_representable(inv)
}

/// The date a receipt shows for a stored timestamp fits its column: the text
/// is RFC 3339 (shown in local time, at most 22 characters), or the reading
/// used instead has fewer than 47 characters.
pub open spec fn receipt_date_fits(created_at: Seq<char>) -> bool {
    rfc3339_accepts(created_at) || timestamp_text(None, created_at).len() < 47
}

/// The plain-text receipt for a given date text.
pub open spec fn text_receipt(inv: Invoice, items: Seq<InvoiceItem>, date: Seq<char>) -> Seq<char> {
    center_wrapped_text(DEFAULT_BUSINESS_NAME@) + center_wrapped_text(DEFAULT_BUSINESS_ADDRESS@)
        + center_wrapped_text(DEFAULT_BUSINESS_PHONE@) + rule_text('=') + meta_text(inv, date) + rule_text('-')
        + items_text(items) + rule_text('-') + subtotal_text(inv) + two_col_text("TOTAL"@, price_text(inv.total as int))
        + rule_text('=') + payment_text(inv) + center_wrapped_text("Thank you!"@) + center_wrapped_text(
        "Developed by AZ Solutions"@,
    ) + center_wrapped_text("03311203090"@)
}

/// ESC/POS control sequences as characters (all below 0x80, so each is one byte).
pub open spec fn esc_seq(a: char, b: char) -> Seq<char> {
    seq!['\u{1b}', a, b]
}

pub open spec fn gs_seq(a: char, b: char) -> Seq<char> {
    seq!['\u{1d}', a, b]
}

/// Initialize, center, double size, business name; normal size, address and
/// phone (centered by the printer), then a `=` rule.
pub open spec fn escpos_header(business: ReceiptBusiness) -> Seq<char> {
    seq!['\u{1b}', '@'] + esc_seq('a', '\u{1}') + gs_seq('!', '\u{11}') + trim_end(business.name@) + seq!['\n']
        + gs_seq('!', '\u{0}') + trim(business.address@) + seq!['\n'] + trim(business.phone@) + seq!['\n']
        + rule_text('=')
}

/// Centered footer, short feed, full cut.
pub open spec fn escpos_footer() -> Seq<char> {
    esc_seq('a', '\u{1}') + "\nThank you!\nDeveloped by AZ Solutions\n03311203090\n"@ + "\n\n\n"@ + gs_seq(
        'V',
        '\u{1}',
    )
}

/// Totals block: subtotal/discount, bold TOTAL, `=` rule, payment rows.
pub open spec fn escpos_totals(inv: Invoice) -> Seq<char> {
    subtotal_text(inv) + esc_seq('E', '\u{1}') + two_col_text("TOTAL"@, price_text(inv.total as int)) + esc_seq(
        'E',
        '\u{0}',
    ) + rule_text('=') + payment_text(inv)
}

/// The ESC/POS receipt as characters; the byte stream is its UTF-8 encoding.
pub open spec fn escpos_receipt_chars(inv: Invoice, items: Seq<InvoiceItem>, business: ReceiptBusiness, date: Seq<
    char,
>) -> Seq<char> {
    escpos_header(business) + esc_seq('a', '\u{0}') + meta_text(inv, date) + rule_text('-') + items_text(items)
        + rule_text('-') + escpos_totals(inv) + escpos_footer()
}

/// Whether `part` occurs in `whole` as a run of consecutive characters.
pub open spec fn has_infix(whole: Seq<char>, part: Seq<char>) -> bool {
    exists|i: int| 0 <= i <= whole.len() - part.len() && #[trigger] whole.subrange(i, i + part.len()) == part
}

proof fn lemma_infix_self(p: Seq<char>)
    ensures
        has_infix(p, p),
{
    let z: int = 0;
    assert(p.subrange(z, z + p.len()) =~= p);
}

proof fn lemma_infix_left(x: Seq<char>, w: Seq<char>, p: Seq<char>)
    requires
        has_infix(w, p),
    ensures
        has_infix(x + w, p),
{
    let i = choose|i: int| 0 <= i <= w.len() - p.len() && #[trigger] w.subrange(i, i + p.len()) == p;
    assert((x + w).subrange(x.len() + i, x.len() + i + p.len()) =~= w.subrange(i, i + p.len()));
}

proof fn lemma_infix_right(w: Seq<char>, x: Seq<char>, p: Seq<char>)
    requires
        has_infix(w, p),
    ensures
        has_infix(w + x, p),
{
    let i = choose|i: int| 0 <= i <= w.len() - p.len() && #[trigger] w.subrange(i, i + p.len()) == p;
    assert((w + x).subrange(i, i + p.len()) =~= w.subrange(i, i + p.len()));
}

/// The plain-text receipt shows the invoice's own rows: its number, the
/// date, the customer, the subtotal, the discount (when there is one), the
/// TOTAL, the amount actually paid and, while something is unpaid, the
/// balance as total less paid.
pub proof fn lemma_text_receipt_shows_the_figures(inv: Invoice, items: Seq<InvoiceItem>, date: Seq<char>)
    ensures
        has_infix(text_receipt(inv, items, date), two_col_text("Invoice"@, inv.invoice_no@)),
        has_infix(text_receipt(inv, items, date), two_col_text("Date"@, date)),
        has_infix(text_receipt(inv, items, date), two_col_text("Customer"@, inv.customer_name@)),
        has_infix(text_receipt(inv, items, date), two_col_text("Subtotal"@, price_text(inv.subtotal as int))),
        inv.discount > 0 ==> has_infix(text_receipt(inv, items, date), two_col_text("Discount"@, seq!['-'] + price_text(inv.discount as int))),
        has_infix(text_receipt(inv, items, date), two_col_text("TOTAL"@, price_text(inv.total as int))),
        has_infix(text_receipt(inv, items, date), two_col_text("Paid"@, price_text(inv.amount_paid as int))),
        inv.amount_paid < inv.total ==> has_infix(text_receipt(inv, items, date), two_col_text("Balance"@, price_text(inv.total - inv.amount_paid))),
{
    {
        lemma_infix_self(two_col_text("Invoice"@, inv.invoice_no@));
        lemma_infix_right(two_col_text("Invoice"@, inv.invoice_no@), two_col_text("Date"@, date), two_col_text("Invoice"@, inv.invoice_no@));
        lemma_infix_right((two_col_text("Invoice"@, inv.invoice_no@) + two_col_text("Date"@, date)), two_col_text("Customer"@, inv.customer_name@), two_col_text("Invoice"@, inv.invoice_no@));
        lemma_infix_left((((center_wrapped_text(DEFAULT_BUSINESS_NAME@) + center_wrapped_text(DEFAULT_BUSINESS_ADDRESS@)) + center_wrapped_text(DEFAULT_BUSINESS_PHONE@)) + rule_text('=')), meta_text(inv, date), two_col_text("Invoice"@, inv.invoice_no@));
        lemma_infix_right(((((center_wrapped_text(DEFAULT_BUSINESS_NAME@) + center_wrapped_text(DEFAULT_BUSINESS_ADDRESS@)) + center_wrapped_text(DEFAULT_BUSINESS_PHONE@)) + rule_text('=')) + meta_text(inv, date)), rule_text('-'), two_col_text("Invoice"@, inv.invoice_no@));
        lemma_infix_right((((((center_wrapped_text(DEFAULT_BUSINESS_NAME@) + center_wrapped_text(DEFAULT_BUSINESS_ADDRESS@)) + center_wrapped_text(DEFAULT_BUSINESS_PHONE@)) + rule_text('=')) + meta_text(inv, date)) + rule_text('-')), items_text(items), two_col_text("Invoice"@, inv.invoice_no@));
        lemma_infix_right(((((((center_wrapped_text(DEFAULT_BUSINESS_NAME@) + center_wrapped_text(DEFAULT_BUSINESS_ADDRESS@)) + center_wrapped_text(DEFAULT_BUSINESS_PHONE@)) + rule_text('=')) + meta_text(inv, date)) + rule_text('-')) + items_text(items)), rule_text('-'), two_col_text("Invoice"@, inv.invoice_no@));
        lemma_infix_right((((((((center_wrapped_text(DEFAULT_BUSINESS_NAME@) + center_wrapped_text(DEFAULT_BUSINESS_ADDRESS@)) + center_wrapped_text(DEFAULT_BUSINESS_PHONE@)) + rule_text('=')) + meta_text(inv, date)) + rule_text('-')) + items_text(items)) + rule_text('-')), subtotal_text(inv), two_col_text("Invoice"@, inv.invoice_no@));
        lemma_infix_right(((((((((center_wrapped_text(DEFAULT_BUSINESS_NAME@) + center_wrapped_text(DEFAULT_BUSINESS_ADDRESS@)) + center_wrapped_text(DEFAULT_BUSINESS_PHONE@)) + rule_text('=')) + meta_text(inv, date)) + rule_text('-')) + items_text(items)) + rule_text('-')) + subtotal_text(inv)), two_col_text("TOTAL"@, price_text(inv.total as int)), two_col_text("Invoice"@, inv.invoice_no@));
        lemma_infix_right((((((((((center_wrapped_text(DEFAULT_BUSINESS_NAME@) + center_wrapped_text(DEFAULT_BUSINESS_ADDRESS@)) + center_wrapped_text(DEFAULT_BUSINESS_PHONE@)) + rule_text('=')) + meta_text(inv, date)) + rule_text('-')) + items_text(items)) + rule_text('-')) + subtotal_text(inv)) + two_col_text("TOTAL"@, price_text(inv.total as int))), rule_text('='), two_col_text("Invoice"@, inv.invoice_no@));
        lemma_infix_right(((((((((((center_wrapped_text(DEFAULT_BUSINESS_NAME@) + center_wrapped_text(DEFAULT_BUSINESS_ADDRESS@)) + center_wrapped_text(DEFAULT_BUSINESS_PHONE@)) + rule_text('=')) + meta_text(inv, date)) + rule_text('-')) + items_text(items)) + rule_text('-')) + subtotal_text(inv)) + two_col_text("TOTAL"@, price_text(inv.total as int))) + rule_text('=')), payment_text(inv), two_col_text("Invoice"@, inv.invoice_no@));
        lemma_infix_right((((((((((((center_wrapped_text(DEFAULT_BUSINESS_NAME@) + center_wrapped_text(DEFAULT_BUSINESS_ADDRESS@)) + center_wrapped_text(DEFAULT_BUSINESS_PHONE@)) + rule_text('=')) + meta_text(inv, date)) + rule_text('-')) + items_text(items)) + rule_text('-')) + subtotal_text(inv)) + two_col_text("TOTAL"@, price_text(inv.total as int))) + rule_text('=')) + payment_text(inv)), center_wrapped_text("Thank you!"@), two_col_text("Invoice"@, inv.invoice_no@));
        lemma_infix_right(((((((((((((center_wrapped_text(DEFAULT_BUSINESS_NAME@) + center_wrapped_text(DEFAULT_BUSINESS_ADDRESS@)) + center_wrapped_text(DEFAULT_BUSINESS_PHONE@)) + rule_text('=')) + meta_text(inv, date)) + rule_text('-')) + items_text(items)) + rule_text('-')) + subtotal_text(inv)) + two_col_text("TOTAL"@, price_text(inv.total as int))) + rule_text('=')) + payment_text(inv)) + center_wrapped_text("Thank you!"@)), center_wrapped_text("Developed by AZ Solutions"@), two_col_text("Invoice"@, inv.invoice_no@));
        lemma_infix_right((((((((((((((center_wrapped_text(DEFAULT_BUSINESS_NAME@) + center_wrapped_text(DEFAULT_BUSINESS_ADDRESS@)) + center_wrapped_text(DEFAULT_BUSINESS_PHONE@)) + rule_text('=')) + meta_text(inv, date)) + rule_text('-')) + items_text(items)) + rule_text('-')) + subtotal_text(inv)) + two_col_text("TOTAL"@, price_text(inv.total as int))) + rule_text('=')) + payment_text(inv)) + center_wrapped_text("Thank you!"@)) + center_wrapped_text("Developed by AZ Solutions"@)), center_wrapped_text("03311203090"@), two_col_text("Invoice"@, inv.invoice_no@));
        assert(has_infix(text_receipt(inv, items, date), two_col_text("Invoice"@, inv.invoice_no@)));
    }
    {
        lemma_infix_self(two_col_text("Date"@, date));
        lemma_infix_left(two_col_text("Invoice"@, inv.invoice_no@), two_col_text("Date"@, date), two_col_text("Date"@, date));
        lemma_infix_right((two_col_text("Invoice"@, inv.invoice_no@) + two_col_text("Date"@, date)), two_col_text("Customer"@, inv.customer_name@), two_col_text("Date"@, date));
        lemma_infix_left((((center_wrapped_text(DEFAULT_BUSINESS_NAME@) + center_wrapped_text(DEFAULT_BUSINESS_ADDRESS@)) + center_wrapped_text(DEFAULT_BUSINESS_PHONE@)) + rule_text('=')), meta_text(inv, date), two_col_text("Date"@, date));
        lemma_infix_right(((((center_wrapped_text(DEFAULT_BUSINESS_NAME@) + center_wrapped_text(DEFAULT_BUSINESS_ADDRESS@)) + center_wrapped_text(DEFAULT_BUSINESS_PHONE@)) + rule_text('=')) + meta_text(inv, date)), rule_text('-'), two_col_text("Date"@, date));
        lemma_infix_right((((((center_wrapped_text(DEFAULT_BUSINESS_NAME@) + center_wrapped_text(DEFAULT_BUSINESS_ADDRESS@)) + center_wrapped_text(DEFAULT_BUSINESS_PHONE@)) + rule_text('=')) + meta_text(inv, date)) + rule_text('-')), items_text(items), two_col_text("Date"@, date));
        lemma_infix_right(((((((center_wrapped_text(DEFAULT_BUSINESS_NAME@) + center_wrapped_text(DEFAULT_BUSINESS_ADDRESS@)) + center_wrapped_text(DEFAULT_BUSINESS_PHONE@)) + rule_text('=')) + meta_text(inv, date)) + rule_text('-')) + items_text(items)), rule_text('-'), two_col_text("Date"@, date));
        lemma_infix_right((((((((center_wrapped_text(DEFAULT_BUSINESS_NAME@) + center_wrapped_text(DEFAULT_BUSINESS_ADDRESS@)) + center_wrapped_text(DEFAULT_BUSINESS_PHONE@)) + rule_text('=')) + meta_text(inv, date)) + rule_text('-')) + items_text(items)) + rule_text('-')), subtotal_text(inv), two_col_text("Date"@, date));
        lemma_infix_right(((((((((center_wrapped_text(DEFAULT_BUSINESS_NAME@) + center_wrapped_text(DEFAULT_BUSINESS_ADDRESS@)) + center_wrapped_text(DEFAULT_BUSINESS_PHONE@)) + rule_text('=')) + meta_text(inv, date)) + rule_text('-')) + items_text(items)) + rule_text('-')) + subtotal_text(inv)), two_col_text("TOTAL"@, price_text(inv.total as int)), two_col_text("Date"@, date));
        lemma_infix_right((((((((((center_wrapped_text(DEFAULT_BUSINESS_NAME@) + center_wrapped_text(DEFAULT_BUSINESS_ADDRESS@)) + center_wrapped_text(DEFAULT_BUSINESS_PHONE@)) + rule_text('=')) + meta_text(inv, date)) + rule_text('-')) + items_text(items)) + rule_text('-')) + subtotal_text(inv)) + two_col_text("TOTAL"@, price_text(inv.total as int))), rule_text('='), two_col_text("Date"@, date));
        lemma_infix_right(((((((((((center_wrapped_text(DEFAULT_BUSINESS_NAME@) + center_wrapped_text(DEFAULT_BUSINESS_ADDRESS@)) + center_wrapped_text(DEFAULT_BUSINESS_PHONE@)) + rule_text('=')) + meta_text(inv, date)) + rule_text('-')) + items_text(items)) + rule_text('-')) + subtotal_text(inv)) + two_col_text("TOTAL"@, price_text(inv.total as int))) + rule_text('=')), payment_text(inv), two_col_text("Date"@, date));
        lemma_infix_right((((((((((((center_wrapped_text(DEFAULT_BUSINESS_NAME@) + center_wrapped_text(DEFAULT_BUSINESS_ADDRESS@)) + center_wrapped_text(DEFAULT_BUSINESS_PHONE@)) + rule_text('=')) + meta_text(inv, date)) + rule_text('-')) + items_text(items)) + rule_text('-')) + subtotal_text(inv)) + two_col_text("TOTAL"@, price_text(inv.total as int))) + rule_text('=')) + payment_text(inv)), center_wrapped_text("Thank you!"@), two_col_text("Date"@, date));
        lemma_infix_right(((((((((((((center_wrapped_text(DEFAULT_BUSINESS_NAME@) + center_wrapped_text(DEFAULT_BUSINESS_ADDRESS@)) + center_wrapped_text(DEFAULT_BUSINESS_PHONE@)) + rule_text('=')) + meta_text(inv, date)) + rule_text('-')) + items_text(items)) + rule_text('-')) + subtotal_text(inv)) + two_col_text("TOTAL"@, price_text(inv.total as int))) + rule_text('=')) + payment_text(inv)) + center_wrapped_text("Thank you!"@)), center_wrapped_text("Developed by AZ Solutions"@), two_col_text("Date"@, date));
        lemma_infix_right((((((((((((((center_wrapped_text(DEFAULT_BUSINESS_NAME@) + center_wrapped_text(DEFAULT_BUSINESS_ADDRESS@)) + center_wrapped_text(DEFAULT_BUSINESS_PHONE@)) + rule_text('=')) + meta_text(inv, date)) + rule_text('-')) + items_text(items)) + rule_text('-')) + subtotal_text(inv)) + two_col_text("TOTAL"@, price_text(inv.total as int))) + rule_text('=')) + payment_text(inv)) + center_wrapped_text("Thank you!"@)) + center_wrapped_text("Developed by AZ Solutions"@)), center_wrapped_text("03311203090"@), two_col_text("Date"@, date));
        assert(has_infix(text_receipt(inv, items, date), two_col_text("Date"@, date)));
    }
    {
        lemma_infix_self(two_col_text("Customer"@, inv.customer_name@));
        lemma_infix_left((two_col_text("Invoice"@, inv.invoice_no@) + two_col_text("Date"@, date)), two_col_text("Customer"@, inv.customer_name@), two_col_text("Customer"@, inv.customer_name@));
        lemma_infix_left((((center_wrapped_text(DEFAULT_BUSINESS_NAME@) + center_wrapped_text(DEFAULT_BUSINESS_ADDRESS@)) + center_wrapped_text(DEFAULT_BUSINESS_PHONE@)) + rule_text('=')), meta_text(inv, date), two_col_text("Customer"@, inv.customer_name@));
        lemma_infix_right(((((center_wrapped_text(DEFAULT_BUSINESS_NAME@) + center_wrapped_text(DEFAULT_BUSINESS_ADDRESS@)) + center_wrapped_text(DEFAULT_BUSINESS_PHONE@)) + rule_text('=')) + meta_text(inv, date)), rule_text('-'), two_col_text("Customer"@, inv.customer_name@));
        lemma_infix_right((((((center_wrapped_text(DEFAULT_BUSINESS_NAME@) + center_wrapped_text(DEFAULT_BUSINESS_ADDRESS@)) + center_wrapped_text(DEFAULT_BUSINESS_PHONE@)) + rule_text('=')) + meta_text(inv, date)) + rule_text('-')), items_text(items), two_col_text("Customer"@, inv.customer_name@));
        lemma_infix_right(((((((center_wrapped_text(DEFAULT_BUSINESS_NAME@) + center_wrapped_text(DEFAULT_BUSINESS_ADDRESS@)) + center_wrapped_text(DEFAULT_BUSINESS_PHONE@)) + rule_text('=')) + meta_text(inv, date)) + rule_text('-')) + items_text(items)), rule_text('-'), two_col_text("Customer"@, inv.customer_name@));
        lemma_infix_right((((((((center_wrapped_text(DEFAULT_BUSINESS_NAME@) + center_wrapped_text(DEFAULT_BUSINESS_ADDRESS@)) + center_wrapped_text(DEFAULT_BUSINESS_PHONE@)) + rule_text('=')) + meta_text(inv, date)) + rule_text('-')) + items_text(items)) + rule_text('-')), subtotal_text(inv), two_col_text("Customer"@, inv.customer_name@));
        lemma_infix_right(((((((((center_wrapped_text(DEFAULT_BUSINESS_NAME@) + center_wrapped_text(DEFAULT_BUSINESS_ADDRESS@)) + center_wrapped_text(DEFAULT_BUSINESS_PHONE@)) + rule_text('=')) + meta_text(inv, date)) + rule_text('-')) + items_text(items)) + rule_text('-')) + subtotal_text(inv)), two_col_text("TOTAL"@, price_text(inv.total as int)), two_col_text("Customer"@, inv.customer_name@));
        lemma_infix_right((((((((((center_wrapped_text(DEFAULT_BUSINESS_NAME@) + center_wrapped_text(DEFAULT_BUSINESS_ADDRESS@)) + center_wrapped_text(DEFAULT_BUSINESS_PHONE@)) + rule_text('=')) + meta_text(inv, date)) + rule_text('-')) + items_text(items)) + rule_text('-')) + subtotal_text(inv)) + two_col_text("TOTAL"@, price_text(inv.total as int))), rule_text('='), two_col_text("Customer"@, inv.customer_name@));
        lemma_infix_right(((((((((((center_wrapped_text(DEFAULT_BUSINESS_NAME@) + center_wrapped_text(DEFAULT_BUSINESS_ADDRESS@)) + center_wrapped_text(DEFAULT_BUSINESS_PHONE@)) + rule_text('=')) + meta_text(inv, date)) + rule_text('-')) + items_text(items)) + rule_text('-')) + subtotal_text(inv)) + two_col_text("TOTAL"@, price_text(inv.total as int))) + rule_text('=')), payment_text(inv), two_col_text("Customer"@, inv.customer_name@));
        lemma_infix_right((((((((((((center_wrapped_text(DEFAULT_BUSINESS_NAME@) + center_wrapped_text(DEFAULT_BUSINESS_ADDRESS@)) + center_wrapped_text(DEFAULT_BUSINESS_PHONE@)) + rule_text('=')) + meta_text(inv, date)) + rule_text('-')) + items_text(items)) + rule_text('-')) + subtotal_text(inv)) + two_col_text("TOTAL"@, price_text(inv.total as int))) + rule_text('=')) + payment_text(inv)), center_wrapped_text("Thank you!"@), two_col_text("Customer"@, inv.customer_name@));
        lemma_infix_right(((((((((((((center_wrapped_text(DEFAULT_BUSINESS_NAME@) + center_wrapped_text(DEFAULT_BUSINESS_ADDRESS@)) + center_wrapped_text(DEFAULT_BUSINESS_PHONE@)) + rule_text('=')) + meta_text(inv, date)) + rule_text('-')) + items_text(items)) + rule_text('-')) + subtotal_text(inv)) + two_col_text("TOTAL"@, price_text(inv.total as int))) + rule_text('=')) + payment_text(inv)) + center_wrapped_text("Thank you!"@)), center_wrapped_text("Developed by AZ Solutions"@), two_col_text("Customer"@, inv.customer_name@));
        lemma_infix_right((((((((((((((center_wrapped_text(DEFAULT_BUSINESS_NAME@) + center_wrapped_text(DEFAULT_BUSINESS_ADDRESS@)) + center_wrapped_text(DEFAULT_BUSINESS_PHONE@)) + rule_text('=')) + meta_text(inv, date)) + rule_text('-')) + items_text(items)) + rule_text('-')) + subtotal_text(inv)) + two_col_text("TOTAL"@, price_text(inv.total as int))) + rule_text('=')) + payment_text(inv)) + center_wrapped_text("Thank you!"@)) + center_wrapped_text("Developed by AZ Solutions"@)), center_wrapped_text("03311203090"@), two_col_text("Customer"@, inv.customer_name@));
        assert(has_infix(text_receipt(inv, items, date), two_col_text("Customer"@, inv.customer_name@)));
    }
    {
        lemma_infix_self(two_col_text("Subtotal"@, price_text(inv.subtotal as int)));
        lemma_infix_right(two_col_text("Subtotal"@, price_text(inv.subtotal as int)), (if inv.discount > 0 { two_col_text("Discount"@, seq!['-'] + price_text(inv.discount as int)) } else { seq![] }), two_col_text("Subtotal"@, price_text(inv.subtotal as int)));
        lemma_infix_left((((((((center_wrapped_text(DEFAULT_BUSINESS_NAME@) + center_wrapped_text(DEFAULT_BUSINESS_ADDRESS@)) + center_wrapped_text(DEFAULT_BUSINESS_PHONE@)) + rule_text('=')) + meta_text(inv, date)) + rule_text('-')) + items_text(items)) + rule_text('-')), subtotal_text(inv), two_col_text("Subtotal"@, price_text(inv.subtotal as int)));
        lemma_infix_right(((((((((center_wrapped_text(DEFAULT_BUSINESS_NAME@) + center_wrapped_text(DEFAULT_BUSINESS_ADDRESS@)) + center_wrapped_text(DEFAULT_BUSINESS_PHONE@)) + rule_text('=')) + meta_text(inv, date)) + rule_text('-')) + items_text(items)) + rule_text('-')) + subtotal_text(inv)), two_col_text("TOTAL"@, price_text(inv.total as int)), two_col_text("Subtotal"@, price_text(inv.subtotal as int)));
        lemma_infix_right((((((((((center_wrapped_text(DEFAULT_BUSINESS_NAME@) + center_wrapped_text(DEFAULT_BUSINESS_ADDRESS@)) + center_wrapped_text(DEFAULT_BUSINESS_PHONE@)) + rule_text('=')) + meta_text(inv, date)) + rule_text('-')) + items_text(items)) + rule_text('-')) + subtotal_text(inv)) + two_col_text("TOTAL"@, price_text(inv.total as int))), rule_text('='), two_col_text("Subtotal"@, price_text(inv.subtotal as int)));
        lemma_infix_right(((((((((((center_wrapped_text(DEFAULT_BUSINESS_NAME@) + center_wrapped_text(DEFAULT_BUSINESS_ADDRESS@)) + center_wrapped_text(DEFAULT_BUSINESS_PHONE@)) + rule_text('=')) + meta_text(inv, date)) + rule_text('-')) + items_text(items)) + rule_text('-')) + subtotal_text(inv)) + two_col_text("TOTAL"@, price_text(inv.total as int))) + rule_text('=')), payment_text(inv), two_col_text("Subtotal"@, price_text(inv.subtotal as int)));
        lemma_infix_right((((((((((((center_wrapped_text(DEFAULT_BUSINESS_NAME@) + center_wrapped_text(DEFAULT_BUSINESS_ADDRESS@)) + center_wrapped_text(DEFAULT_BUSINESS_PHONE@)) + rule_text('=')) + meta_text(inv, date)) + rule_text('-')) + items_text(items)) + rule_text('-')) + subtotal_text(inv)) + two_col_text("TOTAL"@, price_text(inv.total as int))) + rule_text('=')) + payment_text(inv)), center_wrapped_text("Thank you!"@), two_col_text("Subtotal"@, price_text(inv.subtotal as int)));
        lemma_infix_right(((((((((((((center_wrapped_text(DEFAULT_BUSINESS_NAME@) + center_wrapped_text(DEFAULT_BUSINESS_ADDRESS@)) + center_wrapped_text(DEFAULT_BUSINESS_PHONE@)) + rule_text('=')) + meta_text(inv, date)) + rule_text('-')) + items_text(items)) + rule_text('-')) + subtotal_text(inv)) + two_col_text("TOTAL"@, price_text(inv.total as int))) + rule_text('=')) + payment_text(inv)) + center_wrapped_text("Thank you!"@)), center_wrapped_text("Developed by AZ Solutions"@), two_col_text("Subtotal"@, price_text(inv.subtotal as int)));
        lemma_infix_right((((((((((((((center_wrapped_text(DEFAULT_BUSINESS_NAME@) + center_wrapped_text(DEFAULT_BUSINESS_ADDRESS@)) + center_wrapped_text(DEFAULT_BUSINESS_PHONE@)) + rule_text('=')) + meta_text(inv, date)) + rule_text('-')) + items_text(items)) + rule_text('-')) + subtotal_text(inv)) + two_col_text("TOTAL"@, price_text(inv.total as int))) + rule_text('=')) + payment_text(inv)) + center_wrapped_text("Thank you!"@)) + center_wrapped_text("Developed by AZ Solutions"@)), center_wrapped_text("03311203090"@), two_col_text("Subtotal"@, price_text(inv.subtotal as int)));
        assert(has_infix(text_receipt(inv, items, date), two_col_text("Subtotal"@, price_text(inv.subtotal as int))));
    }
    if inv.discount > 0 {
        lemma_infix_self(two_col_text("Discount"@, seq!['-'] + price_text(inv.discount as int)));
        assert((if inv.discount > 0 { two_col_text("Discount"@, seq!['-'] + price_text(inv.discount as int)) } else { seq![] }) == two_col_text("Discount"@, seq!['-'] + price_text(inv.discount as int)));
        lemma_infix_left(two_col_text("Subtotal"@, price_text(inv.subtotal as int)), (if inv.discount > 0 { two_col_text("Discount"@, seq!['-'] + price_text(inv.discount as int)) } else { seq![] }), two_col_text("Discount"@, seq!['-'] + price_text(inv.discount as int)));
        lemma_infix_left((((((((center_wrapped_text(DEFAULT_BUSINESS_NAME@) + center_wrapped_text(DEFAULT_BUSINESS_ADDRESS@)) + center_wrapped_text(DEFAULT_BUSINESS_PHONE@)) + rule_text('=')) + meta_text(inv, date)) + rule_text('-')) + items_text(items)) + rule_text('-')), subtotal_text(inv), two_col_text("Discount"@, seq!['-'] + price_text(inv.discount as int)));
        lemma_infix_right(((((((((center_wrapped_text(DEFAULT_BUSINESS_NAME@) + center_wrapped_text(DEFAULT_BUSINESS_ADDRESS@)) + center_wrapped_text(DEFAULT_BUSINESS_PHONE@)) + rule_text('=')) + meta_text(inv, date)) + rule_text('-')) + items_text(items)) + rule_text('-')) + subtotal_text(inv)), two_col_text("TOTAL"@, price_text(inv.total as int)), two_col_text("Discount"@, seq!['-'] + price_text(inv.discount as int)));
        lemma_infix_right((((((((((center_wrapped_text(DEFAULT_BUSINESS_NAME@) + center_wrapped_text(DEFAULT_BUSINESS_ADDRESS@)) + center_wrapped_text(DEFAULT_BUSINESS_PHONE@)) + rule_text('=')) + meta_text(inv, date)) + rule_text('-')) + items_text(items)) + rule_text('-')) + subtotal_text(inv)) + two_col_text("TOTAL"@, price_text(inv.total as int))), rule_text('='), two_col_text("Discount"@, seq!['-'] + price_text(inv.discount as int)));
        lemma_infix_right(((((((((((center_wrapped_text(DEFAULT_BUSINESS_NAME@) + center_wrapped_text(DEFAULT_BUSINESS_ADDRESS@)) + center_wrapped_text(DEFAULT_BUSINESS_PHONE@)) + rule_text('=')) + meta_text(inv, date)) + rule_text('-')) + items_text(items)) + rule_text('-')) + subtotal_text(inv)) + two_col_text("TOTAL"@, price_text(inv.total as int))) + rule_text('=')), payment_text(inv), two_col_text("Discount"@, seq!['-'] + price_text(inv.discount as int)));
        lemma_infix_right((((((((((((center_wrapped_text(DEFAULT_BUSINESS_NAME@) + center_wrapped_text(DEFAULT_BUSINESS_ADDRESS@)) + center_wrapped_text(DEFAULT_BUSINESS_PHONE@)) + rule_text('=')) + meta_text(inv, date)) + rule_text('-')) + items_text(items)) + rule_text('-')) + subtotal_text(inv)) + two_col_text("TOTAL"@, price_text(inv.total as int))) + rule_text('=')) + payment_text(inv)), center_wrapped_text("Thank you!"@), two_col_text("Discount"@, seq!['-'] + price_text(inv.discount as int)));
        lemma_infix_right(((((((((((((center_wrapped_text(DEFAULT_BUSINESS_NAME@) + center_wrapped_text(DEFAULT_BUSINESS_ADDRESS@)) + center_wrapped_text(DEFAULT_BUSINESS_PHONE@)) + rule_text('=')) + meta_text(inv, date)) + rule_text('-')) + items_text(items)) + rule_text('-')) + subtotal_text(inv)) + two_col_text("TOTAL"@, price_text(inv.total as int))) + rule_text('=')) + payment_text(inv)) + center_wrapped_text("Thank you!"@)), center_wrapped_text("Developed by AZ Solutions"@), two_col_text("Discount"@, seq!['-'] + price_text(inv.discount as int)));
        lemma_infix_right((((((((((((((center_wrapped_text(DEFAULT_BUSINESS_NAME@) + center_wrapped_text(DEFAULT_BUSINESS_ADDRESS@)) + center_wrapped_text(DEFAULT_BUSINESS_PHONE@)) + rule_text('=')) + meta_text(inv, date)) + rule_text('-')) + items_text(items)) + rule_text('-')) + subtotal_text(inv)) + two_col_text("TOTAL"@, price_text(inv.total as int))) + rule_text('=')) + payment_text(inv)) + center_wrapped_text("Thank you!"@)) + center_wrapped_text("Developed by AZ Solutions"@)), center_wrapped_text("03311203090"@), two_col_text("Discount"@, seq!['-'] + price_text(inv.discount as int)));
        assert(has_infix(text_receipt(inv, items, date), two_col_text("Discount"@, seq!['-'] + price_text(inv.discount as int))));
    }
    {
        lemma_infix_self(two_col_text("TOTAL"@, price_text(inv.total as int)));
        lemma_infix_left(((((((((center_wrapped_text(DEFAULT_BUSINESS_NAME@) + center_wrapped_text(DEFAULT_BUSINESS_ADDRESS@)) + center_wrapped_text(DEFAULT_BUSINESS_PHONE@)) + rule_text('=')) + meta_text(inv, date)) + rule_text('-')) + items_text(items)) + rule_text('-')) + subtotal_text(inv)), two_col_text("TOTAL"@, price_text(inv.total as int)), two_col_text("TOTAL"@, price_text(inv.total as int)));
        lemma_infix_right((((((((((center_wrapped_text(DEFAULT_BUSINESS_NAME@) + center_wrapped_text(DEFAULT_BUSINESS_ADDRESS@)) + center_wrapped_text(DEFAULT_BUSINESS_PHONE@)) + rule_text('=')) + meta_text(inv, date)) + rule_text('-')) + items_text(items)) + rule_text('-')) + subtotal_text(inv)) + two_col_text("TOTAL"@, price_text(inv.total as int))), rule_text('='), two_col_text("TOTAL"@, price_text(inv.total as int)));
        lemma_infix_right(((((((((((center_wrapped_text(DEFAULT_BUSINESS_NAME@) + center_wrapped_text(DEFAULT_BUSINESS_ADDRESS@)) + center_wrapped_text(DEFAULT_BUSINESS_PHONE@)) + rule_text('=')) + meta_text(inv, date)) + rule_text('-')) + items_text(items)) + rule_text('-')) + subtotal_text(inv)) + two_col_text("TOTAL"@, price_text(inv.total as int))) + rule_text('=')), payment_text(inv), two_col_text("TOTAL"@, price_text(inv.total as int)));
        lemma_infix_right((((((((((((center_wrapped_text(DEFAULT_BUSINESS_NAME@) + center_wrapped_text(DEFAULT_BUSINESS_ADDRESS@)) + center_wrapped_text(DEFAULT_BUSINESS_PHONE@)) + rule_text('=')) + meta_text(inv, date)) + rule_text('-')) + items_text(items)) + rule_text('-')) + subtotal_text(inv)) + two_col_text("TOTAL"@, price_text(inv.total as int))) + rule_text('=')) + payment_text(inv)), center_wrapped_text("Thank you!"@), two_col_text("TOTAL"@, price_text(inv.total as int)));
        lemma_infix_right(((((((((((((center_wrapped_text(DEFAULT_BUSINESS_NAME@) + center_wrapped_text(DEFAULT_BUSINESS_ADDRESS@)) + center_wrapped_text(DEFAULT_BUSINESS_PHONE@)) + rule_text('=')) + meta_text(inv, date)) + rule_text('-')) + items_text(items)) + rule_text('-')) + subtotal_text(inv)) + two_col_text("TOTAL"@, price_text(inv.total as int))) + rule_text('=')) + payment_text(inv)) + center_wrapped_text("Thank you!"@)), center_wrapped_text("Developed by AZ Solutions"@), two_col_text("TOTAL"@, price_text(inv.total as int)));
        lemma_infix_right((((((((((((((center_wrapped_text(DEFAULT_BUSINESS_NAME@) + center_wrapped_text(DEFAULT_BUSINESS_ADDRESS@)) + center_wrapped_text(DEFAULT_BUSINESS_PHONE@)) + rule_text('=')) + meta_text(inv, date)) + rule_text('-')) + items_text(items)) + rule_text('-')) + subtotal_text(inv)) + two_col_text("TOTAL"@, price_text(inv.total as int))) + rule_text('=')) + payment_text(inv)) + center_wrapped_text("Thank you!"@)) + center_wrapped_text("Developed by AZ Solutions"@)), center_wrapped_text("03311203090"@), two_col_text("TOTAL"@, price_text(inv.total as int)));
        assert(has_infix(text_receipt(inv, items, date), two_col_text("TOTAL"@, price_text(inv.total as int))));
    }
    {
        lemma_infix_self(two_col_text("Paid"@, price_text(inv.amount_paid as int)));
        lemma_infix_right(two_col_text("Paid"@, price_text(inv.amount_paid as int)), (if inv.amount_paid < inv.total { two_col_text("Balance"@, price_text(inv.total - inv.amount_paid)) } else { seq![] }), two_col_text("Paid"@, price_text(inv.amount_paid as int)));
        lemma_infix_right((two_col_text("Paid"@, price_text(inv.amount_paid as int)) + (if inv.amount_paid < inv.total { two_col_text("Balance"@, price_text(inv.total - inv.amount_paid)) } else { seq![] })), "Method: "@, two_col_text("Paid"@, price_text(inv.amount_paid as int)));
        lemma_infix_right(((two_col_text("Paid"@, price_text(inv.amount_paid as int)) + (if inv.amount_paid < inv.total { two_col_text("Balance"@, price_text(inv.total - inv.amount_paid)) } else { seq![] })) + "Method: "@), inv.payment_method@, two_col_text("Paid"@, price_text(inv.amount_paid as int)));
        lemma_infix_right((((two_col_text("Paid"@, price_text(inv.amount_paid as int)) + (if inv.amount_paid < inv.total { two_col_text("Balance"@, price_text(inv.total - inv.amount_paid)) } else { seq![] })) + "Method: "@) + inv.payment_method@), "\n"@, two_col_text("Paid"@, price_text(inv.amount_paid as int)));
        lemma_infix_right(((((two_col_text("Paid"@, price_text(inv.amount_paid as int)) + (if inv.amount_paid < inv.total { two_col_text("Balance"@, price_text(inv.total - inv.amount_paid)) } else { seq![] })) + "Method: "@) + inv.payment_method@) + "\n"@), notes_text(inv.notes), two_col_text("Paid"@, price_text(inv.amount_paid as int)));
        lemma_infix_left(((((((((((center_wrapped_text(DEFAULT_BUSINESS_NAME@) + center_wrapped_text(DEFAULT_BUSINESS_ADDRESS@)) + center_wrapped_text(DEFAULT_BUSINESS_PHONE@)) + rule_text('=')) + meta_text(inv, date)) + rule_text('-')) + items_text(items)) + rule_text('-')) + subtotal_text(inv)) + two_col_text("TOTAL"@, price_text(inv.total as int))) + rule_text('=')), payment_text(inv), two_col_text("Paid"@, price_text(inv.amount_paid as int)));
        lemma_infix_right((((((((((((center_wrapped_text(DEFAULT_BUSINESS_NAME@) + center_wrapped_text(DEFAULT_BUSINESS_ADDRESS@)) + center_wrapped_text(DEFAULT_BUSINESS_PHONE@)) + rule_text('=')) + meta_text(inv, date)) + rule_text('-')) + items_text(items)) + rule_text('-')) + subtotal_text(inv)) + two_col_text("TOTAL"@, price_text(inv.total as int))) + rule_text('=')) + payment_text(inv)), center_wrapped_text("Thank you!"@), two_col_text("Paid"@, price_text(inv.amount_paid as int)));
        lemma_infix_right(((((((((((((center_wrapped_text(DEFAULT_BUSINESS_NAME@) + center_wrapped_text(DEFAULT_BUSINESS_ADDRESS@)) + center_wrapped_text(DEFAULT_BUSINESS_PHONE@)) + rule_text('=')) + meta_text(inv, date)) + rule_text('-')) + items_text(items)) + rule_text('-')) + subtotal_text(inv)) + two_col_text("TOTAL"@, price_text(inv.total as int))) + rule_text('=')) + payment_text(inv)) + center_wrapped_text("Thank you!"@)), center_wrapped_text("Developed by AZ Solutions"@), two_col_text("Paid"@, price_text(inv.amount_paid as int)));
        lemma_infix_right((((((((((((((center_wrapped_text(DEFAULT_BUSINESS_NAME@) + center_wrapped_text(DEFAULT_BUSINESS_ADDRESS@)) + center_wrapped_text(DEFAULT_BUSINESS_PHONE@)) + rule_text('=')) + meta_text(inv, date)) + rule_text('-')) + items_text(items)) + rule_text('-')) + subtotal_text(inv)) + two_col_text("TOTAL"@, price_text(inv.total as int))) + rule_text('=')) + payment_text(inv)) + center_wrapped_text("Thank you!"@)) + center_wrapped_text("Developed by AZ Solutions"@)), center_wrapped_text("03311203090"@), two_col_text("Paid"@, price_text(inv.amount_paid as int)));
        assert(has_infix(text_receipt(inv, items, date), two_col_text("Paid"@, price_text(inv.amount_paid as int))));
    }
    if inv.amount_paid < inv.total {
        lemma_infix_self(two_col_text("Balance"@, price_text(inv.total - inv.amount_paid)));
        assert((if inv.amount_paid < inv.total { two_col_text("Balance"@, price_text(inv.total - inv.amount_paid)) } else { seq![] }) == two_col_text("Balance"@, price_text(inv.total - inv.amount_paid)));
        lemma_infix_left(two_col_text("Paid"@, price_text(inv.amount_paid as int)), (if inv.amount_paid < inv.total { two_col_text("Balance"@, price_text(inv.total - inv.amount_paid)) } else { seq![] }), two_col_text("Balance"@, price_text(inv.total - inv.amount_paid)));
        lemma_infix_right((two_col_text("Paid"@, price_text(inv.amount_paid as int)) + (if inv.amount_paid < inv.total { two_col_text("Balance"@, price_text(inv.total - inv.amount_paid)) } else { seq![] })), "Method: "@, two_col_text("Balance"@, price_text(inv.total - inv.amount_paid)));
        lemma_infix_right(((two_col_text("Paid"@, price_text(inv.amount_paid as int)) + (if inv.amount_paid < inv.total { two_col_text("Balance"@, price_text(inv.total - inv.amount_paid)) } else { seq![] })) + "Method: "@), inv.payment_method@, two_col_text("Balance"@, price_text(inv.total - inv.amount_paid)));
        lemma_infix_right((((two_col_text("Paid"@, price_text(inv.amount_paid as int)) + (if inv.amount_paid < inv.total { two_col_text("Balance"@, price_text(inv.total - inv.amount_paid)) } else { seq![] })) + "Method: "@) + inv.payment_method@), "\n"@, two_col_text("Balance"@, price_text(inv.total - inv.amount_paid)));
        lemma_infix_right(((((two_col_text("Paid"@, price_text(inv.amount_paid as int)) + (if inv.amount_paid < inv.total { two_col_text("Balance"@, price_text(inv.total - inv.amount_paid)) } else { seq![] })) + "Method: "@) + inv.payment_method@) + "\n"@), notes_text(inv.notes), two_col_text("Balance"@, price_text(inv.total - inv.amount_paid)));
        lemma_infix_left(((((((((((center_wrapped_text(DEFAULT_BUSINESS_NAME@) + center_wrapped_text(DEFAULT_BUSINESS_ADDRESS@)) + center_wrapped_text(DEFAULT_BUSINESS_PHONE@)) + rule_text('=')) + meta_text(inv, date)) + rule_text('-')) + items_text(items)) + rule_text('-')) + subtotal_text(inv)) + two_col_text("TOTAL"@, price_text(inv.total as int))) + rule_text('=')), payment_text(inv), two_col_text("Balance"@, price_text(inv.total - inv.amount_paid)));
        lemma_infix_right((((((((((((center_wrapped_text(DEFAULT_BUSINESS_NAME@) + center_wrapped_text(DEFAULT_BUSINESS_ADDRESS@)) + center_wrapped_text(DEFAULT_BUSINESS_PHONE@)) + rule_text('=')) + meta_text(inv, date)) + rule_text('-')) + items_text(items)) + rule_text('-')) + subtotal_text(inv)) + two_col_text("TOTAL"@, price_text(inv.total as int))) + rule_text('=')) + payment_text(inv)), center_wrapped_text("Thank you!"@), two_col_text("Balance"@, price_text(inv.total - inv.amount_paid)));
        lemma_infix_right(((((((((((((center_wrapped_text(DEFAULT_BUSINESS_NAME@) + center_wrapped_text(DEFAULT_BUSINESS_ADDRESS@)) + center_wrapped_text(DEFAULT_BUSINESS_PHONE@)) + rule_text('=')) + meta_text(inv, date)) + rule_text('-')) + items_text(items)) + rule_text('-')) + subtotal_text(inv)) + two_col_text("TOTAL"@, price_text(inv.total as int))) + rule_text('=')) + payment_text(inv)) + center_wrapped_text("Thank you!"@)), center_wrapped_text("Developed by AZ Solutions"@), two_col_text("Balance"@, price_text(inv.total - inv.amount_paid)));
        lemma_infix_right((((((((((((((center_wrapped_text(DEFAULT_BUSINESS_NAME@) + center_wrapped_text(DEFAULT_BUSINESS_ADDRESS@)) + center_wrapped_text(DEFAULT_BUSINESS_PHONE@)) + rule_text('=')) + meta_text(inv, date)) + rule_text('-')) + items_text(items)) + rule_text('-')) + subtotal_text(inv)) + two_col_text("TOTAL"@, price_text(inv.total as int))) + rule_text('=')) + payment_text(inv)) + center_wrapped_text("Thank you!"@)) + center_wrapped_text("Developed by AZ Solutions"@)), center_wrapped_text("03311203090"@), two_col_text("Balance"@, price_text(inv.total - inv.amount_paid)));
        assert(has_infix(text_receipt(inv, items, date), two_col_text("Balance"@, price_text(inv.total - inv.amount_paid))));
    }
}

/// The ESC/POS receipt shows the invoice's own rows: its number, the date,
/// the customer, the subtotal, the discount (when there is one), the TOTAL,
/// the amount actually paid and, while something is unpaid, the balance as
/// total less paid.
pub proof fn lemma_escpos_receipt_shows_the_figures(inv: Invoice, items: Seq<InvoiceItem>, business: ReceiptBusiness, date: Seq<char>)
    ensures
        has_infix(escpos_receipt_chars(inv, items, business, date), two_col_text("Invoice"@, inv.invoice_no@)),
        has_infix(escpos_receipt_chars(inv, items, business, date), two_col_text("Date"@, date)),
        has_infix(escpos_receipt_chars(inv, items, business, date), two_col_text("Customer"@, inv.customer_name@)),
        has_infix(escpos_receipt_chars(inv, items, business, date), two_col_text("Subtotal"@, price_text(inv.subtotal as int))),
        inv.discount > 0 ==> has_infix(escpos_receipt_chars(inv, items, business, date), two_col_text("Discount"@, seq!['-'] + price_text(inv.discount as int))),
        has_infix(escpos_receipt_chars(inv, items, business, date), two_col_text("TOTAL"@, price_text(inv.total as int))),
        has_infix(escpos_receipt_chars(inv, items, business, date), two_col_text("Paid"@, price_text(inv.amount_paid as int))),
        inv.amount_paid < inv.total ==> has_infix(escpos_receipt_chars(inv, items, business, date), two_col_text("Balance"@, price_text(inv.total - inv.amount_paid))),
{
    {
        lemma_infix_self(two_col_text("Invoice"@, inv.invoice_no@));
        lemma_infix_right(two_col_text("Invoice"@, inv.invoice_no@), two_col_text("Date"@, date), two_col_text("Invoice"@, inv.invoice_no@));
        lemma_infix_right((two_col_text("Invoice"@, inv.invoice_no@) + two_col_text("Date"@, date)), two_col_text("Customer"@, inv.customer_name@), two_col_text("Invoice"@, inv.invoice_no@));
        lemma_infix_left((escpos_header(business) + esc_seq('a', '\u{0}')), meta_text(inv, date), two_col_text("Invoice"@, inv.invoice_no@));
        lemma_infix_right(((escpos_header(business) + esc_seq('a', '\u{0}')) + meta_text(inv, date)), rule_text('-'), two_col_text("Invoice"@, inv.invoice_no@));
        lemma_infix_right((((escpos_header(business) + esc_seq('a', '\u{0}')) + meta_text(inv, date)) + rule_text('-')), items_text(items), two_col_text("Invoice"@, inv.invoice_no@));
        lemma_infix_right(((((escpos_header(business) + esc_seq('a', '\u{0}')) + meta_text(inv, date)) + rule_text('-')) + items_text(items)), rule_text('-'), two_col_text("Invoice"@, inv.invoice_no@));
        lemma_infix_right((((((escpos_header(business) + esc_seq('a', '\u{0}')) + meta_text(inv, date)) + rule_text('-')) + items_text(items)) + rule_text('-')), escpos_totals(inv), two_col_text("Invoice"@, inv.invoice_no@));
        lemma_infix_right(((((((escpos_header(business) + esc_seq('a', '\u{0}')) + meta_text(inv, date)) + rule_text('-')) + items_text(items)) + rule_text('-')) + escpos_totals(inv)), escpos_footer(), two_col_text("Invoice"@, inv.invoice_no@));
        assert(has_infix(escpos_receipt_chars(inv, items, business, date), two_col_text("Invoice"@, inv.invoice_no@)));
    }
    {
        lemma_infix_self(two_col_text("Date"@, date));
        lemma_infix_left(two_col_text("Invoice"@, inv.invoice_no@), two_col_text("Date"@, date), two_col_text("Date"@, date));
        lemma_infix_right((two_col_text("Invoice"@, inv.invoice_no@) + two_col_text("Date"@, date)), two_col_text("Customer"@, inv.customer_name@), two_col_text("Date"@, date));
        lemma_infix_left((escpos_header(business) + esc_seq('a', '\u{0}')), meta_text(inv, date), two_col_text("Date"@, date));
        lemma_infix_right(((escpos_header(business) + esc_seq('a', '\u{0}')) + meta_text(inv, date)), rule_text('-'), two_col_text("Date"@, date));
        lemma_infix_right((((escpos_header(business) + esc_seq('a', '\u{0}')) + meta_text(inv, date)) + rule_text('-')), items_text(items), two_col_text("Date"@, date));
        lemma_infix_right(((((escpos_header(business) + esc_seq('a', '\u{0}')) + meta_text(inv, date)) + rule_text('-')) + items_text(items)), rule_text('-'), two_col_text("Date"@, date));
        lemma_infix_right((((((escpos_header(business) + esc_seq('a', '\u{0}')) + meta_text(inv, date)) + rule_text('-')) + items_text(items)) + rule_text('-')), escpos_totals(inv), two_col_text("Date"@, date));
        lemma_infix_right(((((((escpos_header(business) + esc_seq('a', '\u{0}')) + meta_text(inv, date)) + rule_text('-')) + items_text(items)) + rule_text('-')) + escpos_totals(inv)), escpos_footer(), two_col_text("Date"@, date));
        assert(has_infix(escpos_receipt_chars(inv, items, business, date), two_col_text("Date"@, date)));
    }
    {
        lemma_infix_self(two_col_text("Customer"@, inv.customer_name@));
        lemma_infix_left((two_col_text("Invoice"@, inv.invoice_no@) + two_col_text("Date"@, date)), two_col_text("Customer"@, inv.customer_name@), two_col_text("Customer"@, inv.customer_name@));
        lemma_infix_left((escpos_header(business) + esc_seq('a', '\u{0}')), meta_text(inv, date), two_col_text("Customer"@, inv.customer_name@));
        lemma_infix_right(((escpos_header(business) + esc_seq('a', '\u{0}')) + meta_text(inv, date)), rule_text('-'), two_col_text("Customer"@, inv.customer_name@));
        lemma_infix_right((((escpos_header(business) + esc_seq('a', '\u{0}')) + meta_text(inv, date)) + rule_text('-')), items_text(items), two_col_text("Customer"@, inv.customer_name@));
        lemma_infix_right(((((escpos_header(business) + esc_seq('a', '\u{0}')) + meta_text(inv, date)) + rule_text('-')) + items_text(items)), rule_text('-'), two_col_text("Customer"@, inv.customer_name@));
        lemma_infix_right((((((escpos_header(business) + esc_seq('a', '\u{0}')) + meta_text(inv, date)) + rule_text('-')) + items_text(items)) + rule_text('-')), escpos_totals(inv), two_col_text("Customer"@, inv.customer_name@));
        lemma_infix_right(((((((escpos_header(business) + esc_seq('a', '\u{0}')) + meta_text(inv, date)) + rule_text('-')) + items_text(items)) + rule_text('-')) + escpos_totals(inv)), escpos_footer(), two_col_text("Customer"@, inv.customer_name@));
        assert(has_infix(escpos_receipt_chars(inv, items, business, date), two_col_text("Customer"@, inv.customer_name@)));
    }
    {
        lemma_infix_self(two_col_text("Subtotal"@, price_text(inv.subtotal as int)));
        lemma_infix_right(two_col_text("Subtotal"@, price_text(inv.subtotal as int)), (if inv.discount > 0 { two_col_text("Discount"@, seq!['-'] + price_text(inv.discount as int)) } else { seq![] }), two_col_text("Subtotal"@, price_text(inv.subtotal as int)));
        lemma_infix_right(subtotal_text(inv), esc_seq('E', '\u{1}'), two_col_text("Subtotal"@, price_text(inv.subtotal as int)));
        lemma_infix_right((subtotal_text(inv) + esc_seq('E', '\u{1}')), two_col_text("TOTAL"@, price_text(inv.total as int)), two_col_text("Subtotal"@, price_text(inv.subtotal as int)));
        lemma_infix_right(((subtotal_text(inv) + esc_seq('E', '\u{1}')) + two_col_text("TOTAL"@, price_text(inv.total as int))), esc_seq('E', '\u{0}'), two_col_text("Subtotal"@, price_text(inv.subtotal as int)));
        lemma_infix_right((((subtotal_text(inv) + esc_seq('E', '\u{1}')) + two_col_text("TOTAL"@, price_text(inv.total as int))) + esc_seq('E', '\u{0}')), rule_text('='), two_col_text("Subtotal"@, price_text(inv.subtotal as int)));
        lemma_infix_right(((((subtotal_text(inv) + esc_seq('E', '\u{1}')) + two_col_text("TOTAL"@, price_text(inv.total as int))) + esc_seq('E', '\u{0}')) + rule_text('=')), payment_text(inv), two_col_text("Subtotal"@, price_text(inv.subtotal as int)));
        lemma_infix_left((((((escpos_header(business) + esc_seq('a', '\u{0}')) + meta_text(inv, date)) + rule_text('-')) + items_text(items)) + rule_text('-')), escpos_totals(inv), two_col_text("Subtotal"@, price_text(inv.subtotal as int)));
        lemma_infix_right(((((((escpos_header(business) + esc_seq('a', '\u{0}')) + meta_text(inv, date)) + rule_text('-')) + items_text(items)) + rule_text('-')) + escpos_totals(inv)), escpos_footer(), two_col_text("Subtotal"@, price_text(inv.subtotal as int)));
        assert(has_infix(escpos_receipt_chars(inv, items, business, date), two_col_text("Subtotal"@, price_text(inv.subtotal as int))));
    }
    if inv.discount > 0 {
        lemma_infix_self(two_col_text("Discount"@, seq!['-'] + price_text(inv.discount as int)));
        assert((if inv.discount > 0 { two_col_text("Discount"@, seq!['-'] + price_text(inv.discount as int)) } else { seq![] }) == two_col_text("Discount"@, seq!['-'] + price_text(inv.discount as int)));
        lemma_infix_left(two_col_text("Subtotal"@, price_text(inv.subtotal as int)), (if inv.discount > 0 { two_col_text("Discount"@, seq!['-'] + price_text(inv.discount as int)) } else { seq![] }), two_col_text("Discount"@, seq!['-'] + price_text(inv.discount as int)));
        lemma_infix_right(subtotal_text(inv), esc_seq('E', '\u{1}'), two_col_text("Discount"@, seq!['-'] + price_text(inv.discount as int)));
        lemma_infix_right((subtotal_text(inv) + esc_seq('E', '\u{1}')), two_col_text("TOTAL"@, price_text(inv.total as int)), two_col_text("Discount"@, seq!['-'] + price_text(inv.discount as int)));
        lemma_infix_right(((subtotal_text(inv) + esc_seq('E', '\u{1}')) + two_col_text("TOTAL"@, price_text(inv.total as int))), esc_seq('E', '\u{0}'), two_col_text("Discount"@, seq!['-'] + price_text(inv.discount as int)));
        lemma_infix_right((((subtotal_text(inv) + esc_seq('E', '\u{1}')) + two_col_text("TOTAL"@, price_text(inv.total as int))) + esc_seq('E', '\u{0}')), rule_text('='), two_col_text("Discount"@, seq!['-'] + price_text(inv.discount as int)));
        lemma_infix_right(((((subtotal_text(inv) + esc_seq('E', '\u{1}')) + two_col_text("TOTAL"@, price_text(inv.total as int))) + esc_seq('E', '\u{0}')) + rule_text('=')), payment_text(inv), two_col_text("Discount"@, seq!['-'] + price_text(inv.discount as int)));
        lemma_infix_left((((((escpos_header(business) + esc_seq('a', '\u{0}')) + meta_text(inv, date)) + rule_text('-')) + items_text(items)) + rule_text('-')), escpos_totals(inv), two_col_text("Discount"@, seq!['-'] + price_text(inv.discount as int)));
        lemma_infix_right(((((((escpos_header(business) + esc_seq('a', '\u{0}')) + meta_text(inv, date)) + rule_text('-')) + items_text(items)) + rule_text('-')) + escpos_totals(inv)), escpos_footer(), two_col_text("Discount"@, seq!['-'] + price_text(inv.discount as int)));
        assert(has_infix(escpos_receipt_chars(inv, items, business, date), two_col_text("Discount"@, seq!['-'] + price_text(inv.discount as int))));
    }
    {
        lemma_infix_self(two_col_text("TOTAL"@, price_text(inv.total as int)));
        lemma_infix_left((subtotal_text(inv) + esc_seq('E', '\u{1}')), two_col_text("TOTAL"@, price_text(inv.total as int)), two_col_text("TOTAL"@, price_text(inv.total as int)));
        lemma_infix_right(((subtotal_text(inv) + esc_seq('E', '\u{1}')) + two_col_text("TOTAL"@, price_text(inv.total as int))), esc_seq('E', '\u{0}'), two_col_text("TOTAL"@, price_text(inv.total as int)));
        lemma_infix_right((((subtotal_text(inv) + esc_seq('E', '\u{1}')) + two_col_text("TOTAL"@, price_text(inv.total as int))) + esc_seq('E', '\u{0}')), rule_text('='), two_col_text("TOTAL"@, price_text(inv.total as int)));
        lemma_infix_right(((((subtotal_text(inv) + esc_seq('E', '\u{1}')) + two_col_text("TOTAL"@, price_text(inv.total as int))) + esc_seq('E', '\u{0}')) + rule_text('=')), payment_text(inv), two_col_text("TOTAL"@, price_text(inv.total as int)));
        lemma_infix_left((((((escpos_header(business) + esc_seq('a', '\u{0}')) + meta_text(inv, date)) + rule_text('-')) + items_text(items)) + rule_text('-')), escpos_totals(inv), two_col_text("TOTAL"@, price_text(inv.total as int)));
        lemma_infix_right(((((((escpos_header(business) + esc_seq('a', '\u{0}')) + meta_text(inv, date)) + rule_text('-')) + items_text(items)) + rule_text('-')) + escpos_totals(inv)), escpos_footer(), two_col_text("TOTAL"@, price_text(inv.total as int)));
        assert(has_infix(escpos_receipt_chars(inv, items, business, date), two_col_text("TOTAL"@, price_text(inv.total as int))));
    }
    {
        lemma_infix_self(two_col_text("Paid"@, price_text(inv.amount_paid as int)));
        lemma_infix_right(two_col_text("Paid"@, price_text(inv.amount_paid as int)), (if inv.amount_paid < inv.total { two_col_text("Balance"@, price_text(inv.total - inv.amount_paid)) } else { seq![] }), two_col_text("Paid"@, price_text(inv.amount_paid as int)));
        lemma_infix_right((two_col_text("Paid"@, price_text(inv.amount_paid as int)) + (if inv.amount_paid < inv.total { two_col_text("Balance"@, price_text(inv.total - inv.amount_paid)) } else { seq![] })), "Method: "@, two_col_text("Paid"@, price_text(inv.amount_paid as int)));
        lemma_infix_right(((two_col_text("Paid"@, price_text(inv.amount_paid as int)) + (if inv.amount_paid < inv.total { two_col_text("Balance"@, price_text(inv.total - inv.amount_paid)) } else { seq![] })) + "Method: "@), inv.payment_method@, two_col_text("Paid"@, price_text(inv.amount_paid as int)));
        lemma_infix_right((((two_col_text("Paid"@, price_text(inv.amount_paid as int)) + (if inv.amount_paid < inv.total { two_col_text("Balance"@, price_text(inv.total - inv.amount_paid)) } else { seq![] })) + "Method: "@) + inv.payment_method@), "\n"@, two_col_text("Paid"@, price_text(inv.amount_paid as int)));
        lemma_infix_right(((((two_col_text("Paid"@, price_text(inv.amount_paid as int)) + (if inv.amount_paid < inv.total { two_col_text("Balance"@, price_text(inv.total - inv.amount_paid)) } else { seq![] })) + "Method: "@) + inv.payment_method@) + "\n"@), notes_text(inv.notes), two_col_text("Paid"@, price_text(inv.amount_paid as int)));
        lemma_infix_left(((((subtotal_text(inv) + esc_seq('E', '\u{1}')) + two_col_text("TOTAL"@, price_text(inv.total as int))) + esc_seq('E', '\u{0}')) + rule_text('=')), payment_text(inv), two_col_text("Paid"@, price_text(inv.amount_paid as int)));
        lemma_infix_left((((((escpos_header(business) + esc_seq('a', '\u{0}')) + meta_text(inv, date)) + rule_text('-')) + items_text(items)) + rule_text('-')), escpos_totals(inv), two_col_text("Paid"@, price_text(inv.amount_paid as int)));
        lemma_infix_right(((((((escpos_header(business) + esc_seq('a', '\u{0}')) + meta_text(inv, date)) + rule_text('-')) + items_text(items)) + rule_text('-')) + escpos_totals(inv)), escpos_footer(), two_col_text("Paid"@, price_text(inv.amount_paid as int)));
        assert(has_infix(escpos_receipt_chars(inv, items, business, date), two_col_text("Paid"@, price_text(inv.amount_paid as int))));
    }
    if inv.amount_paid < inv.total {
        lemma_infix_self(two_col_text("Balance"@, price_text(inv.total - inv.amount_paid)));
        assert((if inv.amount_paid < inv.total { two_col_text("Balance"@, price_text(inv.total - inv.amount_paid)) } else { seq![] }) == two_col_text("Balance"@, price_text(inv.total - inv.amount_paid)));
        lemma_infix_left(two_col_text("Paid"@, price_text(inv.amount_paid as int)), (if inv.amount_paid < inv.total { two_col_text("Balance"@, price_text(inv.total - inv.amount_paid)) } else { seq![] }), two_col_text("Balance"@, price_text(inv.total - inv.amount_paid)));
        lemma_infix_right((two_col_text("Paid"@, price_text(inv.amount_paid as int)) + (if inv.amount_paid < inv.total { two_col_text("Balance"@, price_text(inv.total - inv.amount_paid)) } else { seq![] })), "Method: "@, two_col_text("Balance"@, price_text(inv.total - inv.amount_paid)));
        lemma_infix_right(((two_col_text("Paid"@, price_text(inv.amount_paid as int)) + (if inv.amount_paid < inv.total { two_col_text("Balance"@, price_text(inv.total - inv.amount_paid)) } else { seq![] })) + "Method: "@), inv.payment_method@, two_col_text("Balance"@, price_text(inv.total - inv.amount_paid)));
        lemma_infix_right((((two_col_text("Paid"@, price_text(inv.amount_paid as int)) + (if inv.amount_paid < inv.total { two_col_text("Balance"@, price_text(inv.total - inv.amount_paid)) } else { seq![] })) + "Method: "@) + inv.payment_method@), "\n"@, two_col_text("Balance"@, price_text(inv.total - inv.amount_paid)));
        lemma_infix_right(((((two_col_text("Paid"@, price_text(inv.amount_paid as int)) + (if inv.amount_paid < inv.total { two_col_text("Balance"@, price_text(inv.total - inv.amount_paid)) } else { seq![] })) + "Method: "@) + inv.payment_method@) + "\n"@), notes_text(inv.notes), two_col_text("Balance"@, price_text(inv.total - inv.amount_paid)));
        lemma_infix_left(((((subtotal_text(inv) + esc_seq('E', '\u{1}')) + two_col_text("TOTAL"@, price_text(inv.total as int))) + esc_seq('E', '\u{0}')) + rule_text('=')), payment_text(inv), two_col_text("Balance"@, price_text(inv.total - inv.amount_paid)));
        lemma_infix_left((((((escpos_header(business) + esc_seq('a', '\u{0}')) + meta_text(inv, date)) + rule_text('-')) + items_text(items)) + rule_text('-')), escpos_totals(inv), two_col_text("Balance"@, price_text(inv.total - inv.amount_paid)));
        lemma_infix_right(((((((escpos_header(business) + esc_seq('a', '\u{0}')) + meta_text(inv, date)) + rule_text('-')) + items_text(items)) + rule_text('-')) + escpos_totals(inv)), escpos_footer(), two_col_text("Balance"@, price_text(inv.total - inv.amount_paid)));
        assert(has_infix(escpos_receipt_chars(inv, items, business, date), two_col_text("Balance"@, price_text(inv.total - inv.amount_paid))));
    }
}

fn push_escpos_header(v: &mut Vec<char>, business: &ReceiptBusiness)
    ensures
        final(v)@ == old(v)@ + escpos_header(*business),
{
    v.push('\u{1b}');
    v.push('@');
    v.push('\u{1b}');
    v.push('a');
    v.push('\u{1}');
    v.push('\u{1d}');
    v.push('!');
    v.push('\u{11}');
    let name = chars_of(business.name.as_str());
    let name_t = trim_end_chars(&name);
    push_all(v, &name_t);
    v.push('\n');
    v.push('\u{1d}');
    v.push('!');
    v.push('\u{0}');
    let addr = chars_of(business.address.as_str());
    let addr_t = trim_chars(&addr);
    push_all(v, &addr_t);
    v.push('\n');
    let phone = chars_of(business.phone.as_str());
    let phone_t = trim_chars(&phone);
    push_all(v, &phone_t);
    v.push('\n');
    let r1 = chars_of(rule('=').as_str());
    push_all(v, &r1);
    assert(final(v)@ =~= old(v)@ + escpos_header(*business));
}

fn push_escpos_footer(v: &mut Vec<char>)
    ensures
        final(v)@ == old(v)@ + escpos_footer(),
{
    v.push('\u{1b}');
    v.push('a');
    v.push('\u{1}');
    push_str(v, "\nThank you!\nDeveloped by AZ Solutions\n03311203090\n");
    push_str(v, "\n\n\n");
    v.push('\u{1d}');
    v.push('V');
    v.push('\u{1}');
    assert(final(v)@ =~= old(v)@ + escpos_footer());
}

fn push_escpos_totals(v: &mut Vec<char>, inv: &Invoice)
    requires
        receipt_printable(*inv),
    ensures
        final(v)@ == old(v)@ + escpos_totals(*inv),
{
    push_subtotal(v, inv);
    v.push('\u{1b}');
    v.push('E');
    v.push('\u{1}');
    push_total(v, inv);
    v.push('\u{1b}');
    v.push('E');
    v.push('\u{0}');
    let r1 = chars_of(rule('=').as_str());
    push_all(v, &r1);
    push_payment(v, inv);
    assert(final(v)@ =~= old(v)@ + escpos_totals(*inv));
}

fn push_two_col_strs(out: &mut Vec<char>, left: &str, right: &Vec<char>)
    requires
        two_col_fits(left@, right@),
    ensures
        final(out)@ == old(out)@ + two_col_text(left@, right@),
{
    let l = chars_of(left);
    push_two_col(out, &l, right);
}

fn push_meta(out: &mut Vec<char>, inv: &Invoice, date: &Vec<char>)
    requires
        receipt_printable(*inv),
        date@.len() < 47,
    ensures
        final(out)@ == old(out)@ + meta_text(*inv, date@),
{
    let no = chars_of(inv.invoice_no.as_str());
    push_two_col_strs(out, "Invoice", &no);
    push_two_col_strs(out, "Date", date);
    let c = chars_of(inv.customer_name.as_str());
    push_two_col_strs(out, "Customer", &c);
    assert(final(out)@ =~= old(out)@ + meta_text(*inv, date@));
}

fn push_items(out: &mut Vec<char>, items: &[InvoiceItem])
    ensures
        final(out)@ == old(out)@ + items_text(items@),
{
    let mut i: usize = 0;
    let ghost base = old(out)@;
    assert(items@.take(0) =~= Seq::<InvoiceItem>::empty());
    while i < items.len()
        invariant
            i <= items@.len(),
            out@ == base + items_text(items@.take(i as int)),
        decreases items@.len() - i,
    {
        let it = &items[i];
        assert(items@.take(i + 1).drop_last() =~= items@.take(i as int));
        assert(items@.take(i + 1).last() == *it);
        let mut head: Vec<char> = Vec::new();
        push_decimal(&mut head, it.quantity);
        push_str(&mut head, " x ");
        push_str(&mut head, it.unit.as_str());
        push_str(&mut head, " ");
        push_str(&mut head, it.product_name.as_str());
        let mut amount: Vec<char> = Vec::new();
        push_price(&mut amount, it.line_total);
        proof {
            lemma_price_text_len(it.line_total as int);
        }
        push_two_col(out, &head, &amount);
        push_str(out, "      @ ");
        push_price(out, it.unit_price);
        push_str(out, " / ");
        push_str(out, it.unit.as_str());
        push_str(out, "\n");
        i = i + 1;
        assert(out@ =~= base + items_text(items@.take(i as int)));
    }
    assert(items@.take(items@.len() as int) =~= items@);
}

fn push_subtotal(out: &mut Vec<char>, inv: &Invoice)
    ensures
        final(out)@ == old(out)@ + subtotal_text(*inv),
{
    let mut p: Vec<char> = Vec::new();
    push_price(&mut p, inv.subtotal);
    proof {
        lemma_price_text_len(inv.subtotal as int);
    }
    push_two_col_strs(out, "Subtotal", &p);
    if inv.discount > 0 {
        let mut d: Vec<char> = Vec::new();
        d.push('-');
        push_price(&mut d, inv.discount);
        proof {
            lemma_price_text_len(inv.discount as int);
        }
        assert(d@ =~= seq!['-'] + price_text(inv.discount as int));
        push_two_col_strs(out, "Discount", &d);
    }
    assert(final(out)@ =~= old(out)@ + subtotal_text(*inv));
}

fn push_total(out: &mut Vec<char>, inv: &Invoice)
    ensures
        final(out)@ == old(out)@ + two_col_text("TOTAL"@, price_text(inv.total as int)),
{
    let mut p: Vec<char> = Vec::new();
    push_price(&mut p, inv.total);
    proof {
        lemma_price_text_len(inv.total as int);
    }
    push_two_col_strs(out, "TOTAL", &p);
}

fn push_notes(out: &mut Vec<char>, notes: &Option<String>)
    ensures
        final(out)@ == old(out)@ + notes_text(*notes),
{
    match notes {
        Some(n) => {
            if n.as_str().unicode_len() > 0 {
                push_str(out, "\nNotes:\n");
                push_str(out, n.as_str());
                push_str(out, "\n");
            }
        },
        None => {},
    }
    assert(final(out)@ =~= old(out)@ + notes_text(*notes));
}

fn push_payment(out: &mut Vec<char>, inv: &Invoice)
    requires
        receipt_printable(*inv),
    ensures
        final(out)@ == old(out)@ + payment_text(*inv),
{
    let mut p: Vec<char> = Vec::new();
    push_price(&mut p, inv.amount_paid);
    proof {
        lemma_price_text_len(inv.amount_paid as int);
    }
    push_two_col_strs(out, "Paid", &p);
    if inv.amount_paid < inv.total {
        let mut b: Vec<char> = Vec::new();
        push_price(&mut b, inv.total - inv.amount_paid);
        proof {
            lemma_price_text_len(inv.total - inv.amount_paid);
        }
        push_two_col_strs(out, "Balance", &b);
    }
    push_str(out, "Method: ");
    push_str(out, inv.payment_method.as_str());
    push_str(out, "\n");
    push_notes(out, &inv.notes);
    assert(final(out)@ =~= old(out)@ + payment_text(*inv));
}

fn push_center_str(out: &mut Vec<char>, text: &str)
    ensures
        final(out)@ == old(out)@ + center_wrapped_text(text@),
{
    let t = chars_of(text);
    push_center_lines(out, &t);
}

/// The plain-text receipt for a given date text.
pub fn build_text_receipt_dated(inv: &Invoice, items: &[InvoiceItem], date: &Vec<char>) -> (r: String)
    requires
        receipt_printable(*inv),
        date@.len() < 47,
    ensures
        r@ == text_receipt(*inv, items@, date@),
{
    let mut v: Vec<char> = Vec::new();
    push_center_str(&mut v, DEFAULT_BUSINESS_NAME);
    push_center_str(&mut v, DEFAULT_BUSINESS_ADDRESS);
    push_center_str(&mut v, DEFAULT_BUSINESS_PHONE);
    let r1 = chars_of(rule('=').as_str());
    push_all(&mut v, &r1);
    push_meta(&mut v, inv, date);
    let r2 = chars_of(rule('-').as_str());
    push_all(&mut v, &r2);
    push_items(&mut v, items);
    push_all(&mut v, &r2);
    push_subtotal(&mut v, inv);
    push_total(&mut v, inv);
    push_all(&mut v, &r1);
    push_payment(&mut v, inv);
    push_center_str(&mut v, "Thank you!");
    push_center_str(&mut v, "Developed by AZ Solutions");
    push_center_str(&mut v, "03311203090");
    assert(v@ =~= text_receipt(*inv, items@, date@));
    string_of(&v)
}

/// Plain-text twin of the receipt, used by the non-Windows spooler.
pub fn build_text_receipt(inv: &Invoice, items: &[InvoiceItem]) -> (r: String)
    requires
        receipt_printable(*inv),
        receipt_date_fits(inv.created_at@),
    ensures
        exists|local: Option<LocalStamp>|
            rfc3339_reading(local, inv.created_at@) && r@ == text_receipt(
                *inv,
                items@,
                timestamp_text(local, inv.created_at@),
            ),
{
    let date = format_timestamp(inv.created_at.as_str());
    let d = chars_of(date.as_str());
    build_text_receipt_dated(inv, items, &d)
}

/// The ESC/POS byte stream for a given date text.
pub fn build_escpos_receipt_dated(inv: &Invoice, items: &[InvoiceItem], business: &ReceiptBusiness, date: &Vec<
    char,
>) -> (r: Vec<u8>)
    requires
        receipt_printable(*inv),
        date@.len() < 47,
    ensures
        r@ == encode_utf8(escpos_receipt_chars(*inv, items@, *business, date@)),
{
    let mut v: Vec<char> = Vec::new();
    push_escpos_header(&mut v, business);
    v.push('\u{1b}');
    v.push('a');
    v.push('\u{0}');
    push_meta(&mut v, inv, date);
    let r2 = chars_of(rule('-').as_str());
    push_all(&mut v, &r2);
    push_items(&mut v, items);
    push_all(&mut v, &r2);
    push_escpos_totals(&mut v, inv);
    push_escpos_footer(&mut v);
    assert(v@ =~= escpos_receipt_chars(*inv, items@, *business, date@));
    let s = string_of(&v);
    s.as_str().as_bytes_vec()
}

/// The classic ESC/POS text-mode receipt: centered header with a double-size
/// business name, meta rows, items, totals (bold TOTAL), payment, footer,
/// feed and cut.
pub fn build_escpos_receipt(inv: &Invoice, items: &[InvoiceItem], business: &ReceiptBusiness) -> (r: Vec<u8>)
    requires
        receipt_printable(*inv),
        receipt_date_fits(inv.created_at@),
    ensures
        exists|local: Option<LocalStamp>|
            rfc3339_reading(local, inv.created_at@) && r@ == encode_utf8(
                escpos_receipt_chars(*inv, items@, *business, timestamp_text(local, inv.created_at@)),
            ),
{
    let date = format_timestamp(inv.created_at.as_str());
    let d = chars_of(date.as_str());
    build_escpos_receipt_dated(inv, items, business, &d)
}

// ---------------------------------------------------------------------------
// Printer recognition
// ---------------------------------------------------------------------------

/// USB vendor/product ids of thermal printers known to work.
pub open spec fn known_printer(vid: u16, pid: u16) -> bool {
    ||| (vid == 0x0416 && pid == 0x5011)
    ||| (vid == 0x0483 && pid == 0x5740)
    ||| (vid == 0x0FE6 && pid == 0x811E)
    ||| (vid == 0x1FC9 && pid == 0x2016)
    ||| (vid == 0x04B8 && pid == 0x0202)
    ||| (vid == 0x0499 && pid == 0x0032)
}

pub fn is_known_printer(vid: u16, pid: u16) -> (b: bool)
    ensures
        b == known_printer(vid, pid),
{
    (vid == 0x0416 && pid == 0x5011) || (vid == 0x0483 && pid == 0x5740) || (vid == 0x0FE6 && pid == 0x811E) || (
    vid == 0x1FC9 && pid == 0x2016) || (vid == 0x04B8 && pid == 0x0202) || (vid == 0x0499 && pid == 0x0032)
}

/// A USB device is treated as a printer when it claims the printer class
/// (0x07) or is a known thermal printer.
pub fn is_printer_device(class_code: u8, vid: u16, pid: u16) -> (b: bool)
    ensures
        b == (class_code == 0x07 || known_printer(vid, pid)),
{
    class_code == 0x07 || is_known_printer(vid, pid)
}

/// One endpoint of a USB device, in the order the configuration lists them:
/// the interface (setting) it belongs to, its address, and whether it is a
/// bulk endpoint and points out of the host.
#[derive(Debug, Clone, Copy)]
pub struct EndpointInfo {
    pub interface_number: u8,
    pub address: u8,
    pub bulk: bool,
    pub out: bool,
}

/// Index of the first bulk OUT endpoint, if any.
pub open spec fn first_bulk_out_index(eps: Seq<EndpointInfo>) -> int
    decreases eps.len(),
{
    if eps.len() == 0 {
        -1
    } else if eps[0].bulk && eps[0].out {
        0
    } else {
        let k = first_bulk_out_index(eps.drop_first());
        if k < 0 {
            -1
        } else {
            k + 1
        }
    }
}

proof fn lemma_first_bulk_out_step(eps: Seq<EndpointInfo>, i: int)
    requires
        0 <= i < eps.len(),
        forall|j: int| 0 <= j < i ==> !(eps[j].bulk && eps[j].out),
    ensures
        eps[i].bulk && eps[i].out ==> first_bulk_out_index(eps) == i,
    decreases i,
{
    if i > 0 {
        lemma_first_bulk_out_step(eps.drop_first(), i - 1);
    }
}

proof fn lemma_first_bulk_out_none(eps: Seq<EndpointInfo>)
    requires
        forall|j: int| 0 <= j < eps.len() ==> !(eps[j].bulk && eps[j].out),
    ensures
        first_bulk_out_index(eps) == -1,
    decreases eps.len(),
{
    if eps.len() > 0 {
        lemma_first_bulk_out_none(eps.drop_first());
    }
}

/// Where receipt bytes are written: the interface and address of the first
/// bulk OUT endpoint the device lists, if it has one.
pub fn first_bulk_out(eps: &Vec<EndpointInfo>) -> (r: Option<(u8, u8)>)
    ensures
        first_bulk_out_index(eps@) < 0 ==> r is None,
        first_bulk_out_index(eps@) >= 0 ==> r == Some((eps@[first_bulk_out_index(eps@)].interface_number,
            eps@[first_bulk_out_index(eps@)].address)),
{
    let mut i: usize = 0;
    while i < eps.len()
        invariant
            i <= eps@.len(),
            forall|j: int| 0 <= j < i ==> !(eps@[j].bulk && eps@[j].out),
        decreases eps@.len() - i,
    {
        let e = eps[i];
        if e.bulk && e.out {
            proof {
                lemma_first_bulk_out_step(eps@, i as int);
            }
            return Some((e.interface_number, e.address));
        }
        i = i + 1;
    }
    proof {
        lemma_first_bulk_out_none(eps@);
    }
    None
}

} // verus!
