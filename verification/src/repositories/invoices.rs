//! Invoices: records, and the ledger rules applied when an invoice is
//! created or paid (stock guard, amount paid, dues, numbering).
use vstd::prelude::*;
use crate::error::{AppError, validation};
use crate::text::{trim, trim_str, string_of, decimal, padded4, push_str, push_all, push_decimal, push_padded4, str_eq};

verus! {

#[derive(Debug, Clone)]
pub struct Invoice {
    pub id: String,
    pub invoice_no: String,
    pub customer_id: Option<String>,
    pub customer_name: String,
    pub subtotal: i64,
    pub discount: i64,
    pub total: i64,
    pub amount_paid: i64,
    pub payment_method: String,
    pub notes: Option<String>,
    pub delivery_date: Option<String>,
    pub created_at: String,
    pub updated_at: String,
}

/// The balance still due, shown only while something is unpaid, can be
/// held in an `i64`.
pub open spec fn balance_representable(inv: Invoice) -> bool {
    inv.amount_paid < inv.total ==> inv.total - inv.amount_paid <= i64::MAX
}

/// One invoice line. The tile area (display only) is kept in thousandths of a
/// square metre.
#[derive(Debug, Clone)]
pub struct InvoiceItem {
    pub id: String,
    pub invoice_id: String,
    pub product_id: Option<String>,
    pub product_name: String,
    pub quantity: i64,
    pub unit: String,
    pub unit_price: i64,
    pub line_total: i64,
    pub total_area_milli: Option<i64>,
    pub created_at: String,
}

#[derive(Debug, Clone)]
pub struct CreateInvoiceInput {
    pub customer_id: Option<String>,
    pub customer_name: String,
    pub subtotal: i64,
    pub discount: i64,
    pub total: i64,
    pub amount_paid: Option<i64>,
    pub payment_method: String,
    pub notes: Option<String>,
    pub delivery_date: Option<String>,
    pub items: Vec<CreateInvoiceItemInput>,
}

#[derive(Debug, Clone)]
pub struct CreateInvoiceItemInput {
    pub product_id: Option<String>,
    pub product_name: String,
    pub quantity: i64,
    pub unit: String,
    pub unit_price: i64,
    pub line_total: i64,
    pub purchase_price: i64,
    pub total_area_milli: Option<i64>,
}

/// Most rows a full-history search returns.
pub const SEARCH_CAP: i64 = 200;

/// Which listing `InvoiceRepository::list` runs.
#[derive(Debug, Clone)]
pub enum InvoiceListQuery {
    /// Case-insensitive search over number and customer, newest first, capped.
    Search { text: String, cap: i64 },
    /// The newest invoices, paged.
    Page { limit: i64, offset: i64 },
}

/// A search runs when the trimmed query is non-empty; otherwise a page.
pub fn invoice_list_query(limit: i64, offset: i64, query: Option<&str>) -> (r: InvoiceListQuery)
    ensures
        match query {
            Some(q) if trim(q@).len() > 0 => r matches InvoiceListQuery::Search { text, cap }
                && text@ == trim(q@) && cap == SEARCH_CAP,
            _ => r == (InvoiceListQuery::Page { limit, offset }),
        },
{
    match query {
        Some(q) => {
            let t = trim_str(q);
            if t.len() > 0 {
                InvoiceListQuery::Search { text: string_of(&t), cap: SEARCH_CAP }
            } else {
                InvoiceListQuery::Page { limit, offset }
            }
        },
        None => InvoiceListQuery::Page { limit, offset },
    }
}

// ---------------------------------------------------------------------------
// Stock guard
// ---------------------------------------------------------------------------

/// Position of key `p` in an association list, or -1.
pub open spec fn key_index(acc: Seq<(Seq<char>, int)>, p: Seq<char>) -> int
    decreases acc.len(),
{
    if acc.len() == 0 {
        -1
    } else if acc[0].0 == p {
        0
    } else {
        let k = key_index(acc.drop_first(), p);
        if k < 0 {
            -1
        } else {
            k + 1
        }
    }
}

/// Adds `q` to the entry of `p`, or appends a new entry.
pub open spec fn wanted_add(acc: Seq<(Seq<char>, int)>, p: Seq<char>, q: int) -> Seq<(Seq<char>, int)> {
    let i = key_index(acc, p);
    if i >= 0 {
        acc.update(i, (p, acc[i].1 + q))
    } else {
        acc.push((p, q))
    }
}

/// Quantities wanted per product over the cart lines, products in order of
/// first appearance; lines without a product are not stock-tracked.
pub open spec fn wanted(items: Seq<CreateInvoiceItemInput>) -> Seq<(Seq<char>, int)>
    decreases items.len(),
{
    if items.len() == 0 {
        seq![]
    } else {
        let w = wanted(items.drop_last());
        let it = items.last();
        match it.product_id {
            Some(p) => wanted_add(w, p@, it.quantity as int),
            None => w,
        }
    }
}

pub open spec fn wanted_view(v: Seq<(String, i64)>) -> Seq<(Seq<char>, int)> {
    Seq::new(v.len(), |i: int| (v[i].0@, v[i].1 as int))
}

proof fn lemma_key_index_found(acc: Seq<(Seq<char>, int)>, p: Seq<char>, i: int)
    requires
        0 <= i < acc.len(),
        acc[i].0 == p,
        forall|j: int| 0 <= j < i ==> acc[j].0 != p,
    ensures
        key_index(acc, p) == i,
    decreases i,
{
    if i > 0 {
        lemma_key_index_found(acc.drop_first(), p, i - 1);
    }
}

proof fn lemma_key_index_absent(acc: Seq<(Seq<char>, int)>, p: Seq<char>)
    requires
        forall|j: int| 0 <= j < acc.len() ==> acc[j].0 != p,
    ensures
        key_index(acc, p) == -1,
    decreases acc.len(),
{
    if acc.len() > 0 {
        lemma_key_index_absent(acc.drop_first(), p);
    }
}

/// Total quantity of the lines selling product `p`.
pub open spec fn quantity_for(items: Seq<CreateInvoiceItemInput>, p: Seq<char>) -> int
    decreases items.len(),
{
    if items.len() == 0 {
        0
    } else {
        quantity_for(items.drop_last(), p) + (match items.last().product_id {
            Some(q) => if q@ == p {
                items.last().quantity as int
            } else {
                0
            },
            None => 0,
        })
    }
}

/// Every running total per product over the lines, as they are added up in
/// order, fits in an `i64`.
pub open spec fn running_totals_fit(items: Seq<CreateInvoiceItemInput>) -> bool {
    forall|k: int, p: Seq<char>| 0 <= k <= items.len() ==> i64::MIN <= #[trigger] quantity_for(items.take(k), p) <= i64::MAX
}

/// Whether a line sells product `p`.
pub open spec fn line_sells(it: CreateInvoiceItemInput, p: Seq<char>) -> bool {
    match it.product_id {
        Some(q) => q@ == p,
        None => false,
    }
}

/// Whether some line sells product `p`.
pub open spec fn sells(items: Seq<CreateInvoiceItemInput>, p: Seq<char>) -> bool {
    exists|i: int| 0 <= i < items.len() && #[trigger] line_sells(items[i], p)
}

/// Whether product `p` has an entry in an aggregation.
pub open spec fn listed(acc: Seq<(Seq<char>, int)>, p: Seq<char>) -> bool {
    exists|i: int| 0 <= i < acc.len() && #[trigger] acc[i].0 == p
}

proof fn lemma_key_index_spec(acc: Seq<(Seq<char>, int)>, p: Seq<char>)
    ensures
        key_index(acc, p) >= 0 ==> key_index(acc, p) < acc.len() && acc[key_index(acc, p)].0 == p,
        key_index(acc, p) < 0 ==> forall|j: int| 0 <= j < acc.len() ==> acc[j].0 != p,
    decreases acc.len(),
{
    if acc.len() > 0 && acc[0].0 != p {
        lemma_key_index_spec(acc.drop_first(), p);
        let k = key_index(acc.drop_first(), p);
        if k < 0 {
            assert forall|j: int| 0 <= j < acc.len() implies acc[j].0 != p by {
                if j > 0 {
                    assert(acc[j] == acc.drop_first()[j - 1]);
                }
            }
        } else {
            assert(acc[k + 1] == acc.drop_first()[k]);
        }
    }
}

proof fn lemma_unsold_quantity(items: Seq<CreateInvoiceItemInput>, p: Seq<char>)
    requires
        !sells(items, p),
    ensures
        quantity_for(items, p) == 0,
    decreases items.len(),
{
    if items.len() > 0 {
        let init = items.drop_last();
        assert(!sells(init, p)) by {
            if sells(init, p) {
                let i = choose|i: int| 0 <= i < init.len() && #[trigger] line_sells(init[i], p);
                assert(items[i] == init[i]);
            }
        }
        lemma_unsold_quantity(init, p);
        let last = items[items.len() - 1];
        assert(!line_sells(last, p));
    }
}

/// The stock check aggregates the cart per product: each product sold on
/// some line has exactly one entry, holding the total quantity of all its
/// lines; products sold on no line have none.
pub proof fn lemma_wanted_totals(items: Seq<CreateInvoiceItemInput>)
    ensures
        forall|i: int, j: int| 0 <= i < j < wanted(items).len() ==> wanted(items)[i].0 != wanted(items)[j].0,
        forall|i: int| 0 <= i < wanted(items).len() ==> (#[trigger] wanted(items)[i]).1 == quantity_for(
            items,
            wanted(items)[i].0,
        ),
        forall|p: Seq<char>| sells(items, p) <==> listed(wanted(items), p),
    decreases items.len(),
{
    let w = wanted(items);
    if items.len() == 0 {
        assert forall|p: Seq<char>| sells(items, p) <==> listed(w, p) by {}
    } else {
        let init = items.drop_last();
        let it = items.last();
        lemma_wanted_totals(init);
        let v = wanted(init);
        assert forall|x: Seq<char>| sells(items, x) <==> (sells(init, x) || line_sells(it, x)) by {
            if sells(items, x) {
                let i = choose|i: int| 0 <= i < items.len() && #[trigger] line_sells(items[i], x);
                if i < items.len() - 1 {
                    assert(init[i] == items[i]);
                }
            }
            if sells(init, x) {
                let i = choose|i: int| 0 <= i < init.len() && #[trigger] line_sells(init[i], x);
                assert(items[i] == init[i]);
            }
            if line_sells(it, x) {
                assert(items[items.len() - 1] == it);
            }
        }
        match it.product_id {
            None => {
                assert(w == v);
                assert forall|i: int| 0 <= i < w.len() implies (#[trigger] w[i]).1 == quantity_for(items, w[i].0) by {}
            },
            Some(pid) => {
                let p = pid@;
                let q = it.quantity as int;
                lemma_key_index_spec(v, p);
                let k = key_index(v, p);
                if k >= 0 {
                    assert(w == v.update(k, (p, v[k].1 + q)));
                    assert forall|i: int, j: int| 0 <= i < j < w.len() implies w[i].0 != w[j].0 by {
                        assert(w[i].0 == v[i].0 && w[j].0 == v[j].0);
                    }
                    assert forall|i: int| 0 <= i < w.len() implies (#[trigger] w[i]).1 == quantity_for(items, w[i].0) by {
                        if i != k {
                            assert(w[i] == v[i]);
                            assert(v[i].0 != p);
                        }
                    }
                    assert forall|x: Seq<char>| listed(w, x) <==> listed(v, x) by {
                        if listed(w, x) {
                            let i = choose|i: int| 0 <= i < w.len() && #[trigger] w[i].0 == x;
                            assert(v[i].0 == w[i].0);
                        }
                        if listed(v, x) {
                            let i = choose|i: int| 0 <= i < v.len() && #[trigger] v[i].0 == x;
                            assert(v[i].0 == w[i].0);
                        }
                    }
                    assert(listed(v, p));
                } else {
                    assert(w == v.push((p, q)));
                    assert(!listed(v, p));
                    assert(!sells(init, p));
                    lemma_unsold_quantity(init, p);
                    assert forall|i: int, j: int| 0 <= i < j < w.len() implies w[i].0 != w[j].0 by {
                        if j == v.len() {
                            assert(w[i] == v[i]);
                        } else {
                            assert(w[i] == v[i] && w[j] == v[j]);
                        }
                    }
                    assert forall|i: int| 0 <= i < w.len() implies (#[trigger] w[i]).1 == quantity_for(items, w[i].0) by {
                        if i < v.len() {
                            assert(w[i] == v[i]);
                            assert(v[i].0 != p);
                        }
                    }
                    assert forall|x: Seq<char>| listed(w, x) <==> (listed(v, x) || x == p) by {
                        if listed(w, x) {
                            let i = choose|i: int| 0 <= i < w.len() && #[trigger] w[i].0 == x;
                            if i < v.len() {
                                assert(w[i] == v[i]);
                            }
                        }
                        if listed(v, x) {
                            let i = choose|i: int| 0 <= i < v.len() && #[trigger] v[i].0 == x;
                            assert(w[i] == v[i]);
                        }
                        if x == p {
                            assert(w[v.len() as int].0 == p);
                        }
                    }
                }
            },
        }
    }
}

/// A wanted quantity the stock found for it cannot cover.
pub open spec fn short_at(w: (Seq<char>, int), st: Option<(Seq<char>, int)>) -> bool {
    match st {
        Some((n, s)) => w.1 > 0 && s < w.1,
        None => false,
    }
}

/// The stock check refuses a cart exactly when some product it could look
/// up is wanted in a positive quantity larger than its stock.
pub proof fn lemma_shortfalls_empty_iff_covered(wanted: Seq<(Seq<char>, int)>, stock: Seq<Option<(Seq<char>, int)>>)
    requires
        wanted.len() == stock.len(),
    ensures
        shortfalls(wanted, stock).len() == 0 <==> forall|i: int| 0 <= i < wanted.len() ==> !short_at(
            #[trigger] wanted[i],
            stock[i],
        ),
    decreases wanted.len(),
{
    if wanted.len() > 0 {
        let wi = wanted.drop_last();
        let si = stock.drop_last();
        lemma_shortfalls_empty_iff_covered(wi, si);
        let last = wanted.len() - 1;
        assert(wanted[last] == wanted.last() && stock[last] == stock.last());
        assert forall|i: int| 0 <= i < wi.len() implies wanted[i] == #[trigger] wi[i] && stock[i] == si[i] by {}
        if short_at(wanted.last(), stock.last()) {
            assert(shortfalls(wanted, stock).len() == shortfalls(wi, si).len() + 1);
            assert(short_at(wanted[last], stock[last]));
        } else {
            assert(shortfalls(wanted, stock) == shortfalls(wi, si));
            if forall|i: int| 0 <= i < wi.len() ==> !short_at(#[trigger] wi[i], si[i]) {
                assert forall|i: int| 0 <= i < wanted.len() implies !short_at(#[trigger] wanted[i], stock[i]) by {
                    if i < wi.len() {
                        assert(wanted[i] == wi[i] && stock[i] == si[i]);
                    }
                }
            } else {
                let j = choose|j: int| 0 <= j < wi.len() && short_at(#[trigger] wi[j], si[j]);
                assert(wanted[j] == wi[j] && stock[j] == si[j]);
                assert(short_at(wanted[j], stock[j]));
            }
        }
    }
}

/// Quantities per product, in order of first appearance (the stock guard's
/// aggregation across cart lines).
pub fn wanted_quantities(items: &Vec<CreateInvoiceItemInput>) -> (r: Vec<(String, i64)>)
    requires
        running_totals_fit(items@),
    ensures
        wanted_view(r@) == wanted(items@),
{
    let mut out: Vec<(String, i64)> = Vec::new();
    let mut i: usize = 0;
    while i < items.len()
        invariant
            i <= items@.len(),
            running_totals_fit(items@),
            wanted_view(out@) == wanted(items@.take(i as int)),
        decreases items@.len() - i,
    {
        let ghost pre = items@.take(i as int);
        let ghost post = items@.take(i + 1);
        assert(post.drop_last() =~= pre);
        assert(post.last() == items@[i as int]);
        proof {
            lemma_wanted_totals(pre);
        }
        let item = &items[i];
        match &item.product_id {
            Some(pid) => {
                let mut j: usize = 0;
                let mut found = false;
                while j < out.len() && !found
                    invariant
                        j <= out@.len(),
                        found ==> j < out@.len() && out@[j as int].0@ == pid@,
                        forall|k: int| 0 <= k < j ==> out@[k].0@ != pid@,
                    decreases out@.len() - j + (if found { 0int } else { 1int }),
                {
                    if out[j].0 == *pid {
                        found = true;
                    } else {
                        j = j + 1;
                    }
                }
                let ghost w = wanted_view(out@);
                if found {
                    proof {
                        lemma_key_index_found(w, pid@, j as int);
                    }
                    let cur = out[j].1;
                    assert(cur == quantity_for(pre, pid@)) by {
                        assert(w[j as int] == wanted(pre)[j as int]);
                    }
                    assert(i64::MIN <= quantity_for(post, pid@) <= i64::MAX);
                    let name = out[j].0.clone();
                    out.set(j, (name, cur + item.quantity));
                    assert(wanted_view(out@) =~= w.update(j as int, (pid@, w[j as int].1 + item.quantity)));
                } else {
                    proof {
                        lemma_key_index_absent(w, pid@);
                    }
                    out.push((pid.clone(), item.quantity));
                    assert(wanted_view(out@) =~= w.push((pid@, item.quantity as int)));
                }
            },
            None => {},
        }
        i = i + 1;
    }
    assert(items@.take(items@.len() as int) =~= items@);
    out
}

/// The message naming one product that is short: `"<name>" — in stock: S, tried: Q`.
pub open spec fn shortfall_text(name: Seq<char>, stock: int, qty: int) -> Seq<char> {
    "\""@ + name + "\" \u{2014} in stock: "@ + decimal(stock) + ", tried: "@ + decimal(qty)
}

/// Shortfall messages for each wanted product (in order) whose positive wanted
/// quantity exceeds the stock found for it; unknown products are not checked.
pub open spec fn shortfalls(wanted: Seq<(Seq<char>, int)>, stock: Seq<Option<(Seq<char>, int)>>) -> Seq<Seq<char>>
    decreases wanted.len(),
{
    if wanted.len() == 0 {
        seq![]
    } else {
        let rest = shortfalls(wanted.drop_last(), stock.drop_last());
        let q = wanted.last().1;
        match stock.last() {
            Some((name, s)) if q > 0 && s < q => rest.push(shortfall_text(name, s, q)),
            _ => rest,
        }
    }
}

pub open spec fn stock_view(v: Seq<Option<(String, i64)>>) -> Seq<Option<(Seq<char>, int)>> {
    Seq::new(
        v.len(),
        |i: int|
            match v[i] {
                Some((n, s)) => Some((n@, s as int)),
                None => None,
            },
    )
}

/// Lists the products whose stock cannot cover the wanted quantity;
/// `stock[i]` is the name and stock of `wanted[i]` (`None` when unknown).
pub fn stock_shortfalls(wanted: &Vec<(String, i64)>, stock: &Vec<Option<(String, i64)>>) -> (r: Vec<String>)
    requires
        wanted@.len() == stock@.len(),
    ensures
        r@.map_values(|s: String| s@) == shortfalls(wanted_view(wanted@), stock_view(stock@)),
{
    let mut out: Vec<String> = Vec::new();
    let mut i: usize = 0;
    while i < wanted.len()
        invariant
            i <= wanted@.len() == stock@.len(),
            out@.map_values(|s: String| s@) == shortfalls(
                wanted_view(wanted@).take(i as int),
                stock_view(stock@).take(i as int),
            ),
        decreases wanted@.len() - i,
    {
        let ghost w = wanted_view(wanted@).take(i + 1);
        let ghost st = stock_view(stock@).take(i + 1);
        assert(w.drop_last() =~= wanted_view(wanted@).take(i as int));
        assert(st.drop_last() =~= stock_view(stock@).take(i as int));
        let q = wanted[i].1;
        match &stock[i] {
            Some((name, s)) => {
                if q > 0 && *s < q {
                    let mut v: Vec<char> = Vec::new();
                    push_str(&mut v, "\"");
                    push_str(&mut v, name.as_str());
                    push_str(&mut v, "\" \u{2014} in stock: ");
                    push_decimal(&mut v, *s);
                    push_str(&mut v, ", tried: ");
                    push_decimal(&mut v, q);
                    let ghost before = out@.map_values(|s: String| s@);
                    out.push(string_of(&v));
                    assert(out@.map_values(|s: String| s@) =~= before.push(
                        shortfall_text(name@, *s as int, q as int),
                    ));
                }
            },
            None => {},
        }
        i = i + 1;
    }
    assert(wanted_view(wanted@).take(wanted@.len() as int) =~= wanted_view(wanted@));
    assert(stock_view(stock@).take(stock@.len() as int) =~= stock_view(stock@));
    out
}

/// `parts` joined with `sep` between consecutive parts.
pub open spec fn join(parts: Seq<Seq<char>>, sep: Seq<char>) -> Seq<char>
    decreases parts.len(),
{
    if parts.len() == 0 {
        seq![]
    } else if parts.len() == 1 {
        parts[0]
    } else {
        join(parts.drop_last(), sep) + sep + parts.last()
    }
}

/// Joins strings with a separator.
pub fn join_strings(parts: &Vec<String>, sep: &str) -> (r: Vec<char>)
    ensures
        r@ == join(parts@.map_values(|s: String| s@), sep@),
{
    let mut out: Vec<char> = Vec::new();
    let ghost ps = parts@.map_values(|s: String| s@);
    let mut i: usize = 0;
    while i < parts.len()
        invariant
            i <= parts@.len(),
            ps == parts@.map_values(|s: String| s@),
            out@ == join(ps.take(i as int), sep@),
        decreases parts@.len() - i,
    {
        assert(ps.take(i + 1).drop_last() =~= ps.take(i as int));
        assert(ps.take(i + 1).last() == parts@[i as int]@);
        if i > 0 {
            push_str(&mut out, sep);
        }
        push_str(&mut out, parts[i].as_str());
        i = i + 1;
        if i == 1 {
            assert(ps.take(1) =~= seq![ps[0]]);
        }
    }
    assert(ps.take(parts@.len() as int) =~= ps);
    out
}

/// The outcome of the stock check: no error when nothing is short, otherwise a
/// validation error naming every shortfall.
pub fn shortfall_error(short: &Vec<String>) -> (r: Option<AppError>)
    ensures
        short@.len() == 0 ==> r is None,
        short@.len() > 0 ==> (r matches Some(AppError::Validation(m)) && m@ == "Not enough stock: "@
            + join(short@.map_values(|s: String| s@), "; "@)),
{
    if short.len() == 0 {
        None
    } else {
        let mut v: Vec<char> = Vec::new();
        push_str(&mut v, "Not enough stock: ");
        let j = join_strings(short, "; ");
        push_all(&mut v, &j);
        Some(validation(&v))
    }
}

// ---------------------------------------------------------------------------
// Amount paid, dues and payments
// ---------------------------------------------------------------------------

/// `x` clamped into `[lo, hi]` (for `lo <= hi`).
pub open spec fn clamp(x: int, lo: int, hi: int) -> int {
    if x < lo {
        lo
    } else if x > hi {
        hi
    } else {
        x
    }
}

/// Amount recorded as paid when an invoice (or purchase) is created: the
/// given amount, or by default nothing on credit and everything otherwise,
/// clamped into `[0, total]`.
pub open spec fn initial_paid(is_credit: bool, amount_paid: Option<i64>, total: int) -> int {
    let default_paid = if is_credit { 0 } else { total };
    let requested = match amount_paid {
        Some(a) => a as int,
        None => default_paid,
    };
    clamp(requested, 0, total)
}

/// Amount paid and due of a new invoice. `total` must not be negative (the
/// clamp into `[0, total]` is undefined otherwise).
pub fn opening_balance(payment_method: &str, amount_paid: Option<i64>, total: i64) -> (r: (i64, i64))
    requires
        total >= 0,
    ensures
        r.0 == initial_paid(payment_method@ == "credit"@, amount_paid, total as int),
        r.1 == total - r.0,
        0 <= r.0 <= total,
        0 <= r.1 <= total,
        amount_paid is Some && 0 <= amount_paid.unwrap() <= total ==> r.0 == amount_paid.unwrap() && r.1 == total
            - amount_paid.unwrap(),
{
    let is_credit = str_eq(payment_method, "credit");
    let default_paid: i64 = if is_credit { 0 } else { total };
    let requested = match amount_paid {
        Some(a) => a,
        None => default_paid,
    };
    let paid = if requested < 0 {
        0
    } else if requested > total {
        total
    } else {
        requested
    };
    (paid, total - paid)
}

/// What the customer ledger gains when an invoice is created: the due is
/// mirrored onto the attached customer's balance, if any and if positive.
pub fn customer_charge(customer_id: &Option<String>, due: i64) -> (r: Option<(String, i64)>)
    ensures
        r is Some <==> (customer_id is Some && due > 0),
        r matches Some((c, d)) ==> c@ == customer_id->0@ && d == due,
{
    if due > 0 {
        match customer_id {
            Some(c) => Some((c.clone(), due)),
            None => None,
        }
    } else {
        None
    }
}

/// Remaining due before a payment: `max(total - paid, 0)`.
pub open spec fn due_before(total: int, paid: int) -> int {
    if total - paid > 0 {
        total - paid
    } else {
        0
    }
}

/// The error for a payment larger than the remaining due.
pub open spec fn overpayment_text(amount: int, due: int) -> Seq<char> {
    "Payment "@ + decimal(amount) + " exceeds remaining balance "@ + decimal(due)
}

/// Applies a payment of `amount` to an invoice (or purchase) with `total` and
/// `paid` so far. Rejects payments larger than the remaining due; otherwise
/// returns the new amount paid and the amount applied (the payment clamped
/// into `[0, due]`).
pub fn apply_payment(total: i64, paid: i64, amount: i64) -> (r: Result<(i64, i64), AppError>)
    requires
        i64::MIN <= total - paid <= i64::MAX,
    ensures
        amount > due_before(total as int, paid as int) ==> (r matches Err(AppError::Validation(m))
            && m@ == overpayment_text(amount as int, due_before(total as int, paid as int))),
        amount <= due_before(total as int, paid as int) ==> (r matches Ok((new_paid, applied))
            && applied == clamp(amount as int, 0, due_before(total as int, paid as int))
            && new_paid == paid + applied),
{
    let diff = total - paid;
    let due: i64 = if diff > 0 { diff } else { 0 };
    if amount > due {
        let mut v: Vec<char> = Vec::new();
        push_str(&mut v, "Payment ");
        push_decimal(&mut v, amount);
        push_str(&mut v, " exceeds remaining balance ");
        push_decimal(&mut v, due);
        assert(v@ =~= overpayment_text(amount as int, due as int));
        return Err(validation(&v));
    }
    let applied: i64 = if amount < 0 { 0 } else { amount };
    assert(paid + applied == total || paid + applied <= i64::MAX);
    Ok((paid + applied, applied))
}

// ---------------------------------------------------------------------------
// Numbering
// ---------------------------------------------------------------------------

/// Next `(year, sequence)` of a yearly counter: the sequence continues within
/// the current year and restarts at 1 in a new year (or when none is stored).
pub open spec fn next_counter_spec(row: Option<(i64, i64)>, current_year: i64) -> (int, int) {
    match row {
        Some((y, s)) if y == current_year => (y as int, s + 1),
        _ => (current_year as int, 1),
    }
}

pub fn next_counter(row: Option<(i64, i64)>, current_year: i64) -> (r: (i64, i64))
    requires
        match row {
            Some((y, s)) => y == current_year ==> s < i64::MAX,
            None => true,
        },
    ensures
        (r.0 as int, r.1 as int) == next_counter_spec(row, current_year),
{
    match row {
        Some((y, s)) => {
            if y == current_year {
                (y, s + 1)
            } else {
                (current_year, 1)
            }
        },
        None => (current_year, 1),
    }
}

/// `PREFIX-YEAR-NNNN` (`format!("{}-{}-{:04}", prefix, year, sequence)`).
pub open spec fn document_no(prefix: Seq<char>, year: int, sequence: int) -> Seq<char> {
    prefix + "-"@ + decimal(year) + "-"@ + padded4(sequence)
}

pub fn format_document_no(prefix: &str, year: i64, sequence: i64) -> (r: String)
    ensures
        r@ == document_no(prefix@, year as int, sequence as int),
{
    let mut v: Vec<char> = Vec::new();
    push_str(&mut v, prefix);
    push_str(&mut v, "-");
    push_decimal(&mut v, year);
    push_str(&mut v, "-");
    push_padded4(&mut v, sequence);
    assert(v@ =~= document_no(prefix@, year as int, sequence as int));
    string_of(&v)
}

/// Invoice number `INV-YEAR-NNNN`.
pub fn format_invoice_no(year: i64, sequence: i64) -> (r: String)
    ensures
        r@ == document_no("INV"@, year as int, sequence as int),
{
    format_document_no("INV", year, sequence)
}

// ---------------------------------------------------------------------------
// Laws of the ledger
// ---------------------------------------------------------------------------

/// A new invoice starts with the amount paid within `[0, total]`, and what is
/// paid and what is due add up to the total.
pub proof fn lemma_opening_balance_splits_total(is_credit: bool, amount_paid: Option<i64>, total: int)
    requires
        total >= 0,
    ensures
        0 <= initial_paid(is_credit, amount_paid, total) <= total,
        initial_paid(is_credit, amount_paid, total) + (total - initial_paid(is_credit, amount_paid, total))
            == total,
        !is_credit && amount_paid is None ==> initial_paid(is_credit, amount_paid, total) == total,
        is_credit && amount_paid is None ==> initial_paid(is_credit, amount_paid, total) == 0,
{
}

/// The amount a new invoice records as paid, whatever the payment method:
/// an amount given within `[0, total]` is recorded exactly, leaving the rest
/// due; a negative one records nothing and one above the total records the
/// total. Only when no amount is given does the method decide: nothing for
/// credit, the whole total otherwise.
pub proof fn lemma_given_amount_is_recorded(is_credit: bool, amount_paid: Option<i64>, total: int)
    requires
        total >= 0,
    ensures
        amount_paid is Some && 0 <= amount_paid.unwrap() <= total ==> initial_paid(is_credit, amount_paid, total)
            == amount_paid.unwrap() && total - initial_paid(is_credit, amount_paid, total) == total
            - amount_paid.unwrap(),
        amount_paid is Some && amount_paid.unwrap() < 0 ==> initial_paid(is_credit, amount_paid, total) == 0,
        amount_paid is Some && amount_paid.unwrap() > total ==> initial_paid(is_credit, amount_paid, total)
            == total,
        amount_paid is None ==> initial_paid(is_credit, amount_paid, total) == (if is_credit {
            0
        } else {
            total
        }),
{
}

/// An accepted payment never takes the amount paid beyond the total, and
/// never lowers it: starting within `[0, total]`, it stays there.
pub proof fn lemma_payment_keeps_paid_within_total(total: int, paid: int, amount: int)
    requires
        0 <= paid <= total,
        amount <= due_before(total, paid),
    ensures
        paid <= paid + clamp(amount, 0, due_before(total, paid)) <= total,
{
}

/// A payment of no more than what is still due is accepted in full: the
/// amount paid grows by exactly the payment.
pub proof fn lemma_payment_within_due_is_applied(total: int, paid: int, amount: int)
    requires
        0 <= paid <= total,
        0 <= amount <= total - paid,
    ensures
        amount <= due_before(total, paid),
        clamp(amount, 0, due_before(total, paid)) == amount,
        paid + clamp(amount, 0, due_before(total, paid)) == paid + amount,
{
}

/// Paying exactly what is due settles the invoice: the amount paid becomes
/// the total.
pub proof fn lemma_paying_the_due_settles(total: int, paid: int)
    requires
        paid <= total,
    ensures
        paid + clamp(due_before(total, paid), 0, due_before(total, paid)) == total,
{
}

/// The yearly counter goes up by one within a year and restarts at 1 in a
/// new year, so two documents of one year never share a number.
pub proof fn lemma_counter_advances(year: i64, sequence: i64, current_year: i64)
    ensures
        year == current_year ==> next_counter_spec(Some((year, sequence)), current_year) == (year as int,
            sequence + 1),
        year != current_year ==> next_counter_spec(Some((year, sequence)), current_year) == (
            current_year as int,
            1int,
        ),
        next_counter_spec(None, current_year) == (current_year as int, 1int),
{
}

/// A sale the stock guard lets through never takes a product below zero:
/// for every product the cart sells whose stock was found, and was not
/// negative, the stock less the total sold across the cart's lines is at
/// least 0 (the amount each line's stock update takes off).
pub proof fn lemma_guarded_sale_keeps_stock(items: Seq<CreateInvoiceItemInput>, stock: Seq<Option<(Seq<char>, int)>>)
    requires
        stock.len() == wanted(items).len(),
        shortfalls(wanted(items), stock).len() == 0,
    ensures
        forall|i: int|
            0 <= i < stock.len() && (#[trigger] stock[i]) is Some && stock[i].unwrap().1 >= 0 ==> stock[i].unwrap().1
                - quantity_for(items, wanted(items)[i].0) >= 0,
{
    lemma_wanted_totals(items);
    lemma_shortfalls_empty_iff_covered(wanted(items), stock);
    assert forall|i: int|
        0 <= i < stock.len() && (#[trigger] stock[i]) is Some && stock[i].unwrap().1 >= 0 implies stock[i].unwrap().1
            - quantity_for(items, wanted(items)[i].0) >= 0 by {
        assert(!short_at(wanted(items)[i], stock[i]));
        assert(wanted(items)[i].1 == quantity_for(items, wanted(items)[i].0));
    }
}

/// Two numbers drawn one after the other in the same year are consecutive:
/// the first is one past the stored sequence of that year (1 in a new year
/// or with no counter yet), the second one past the first. Sequences are
/// only ever stored by drawing, so a stored one is never negative.
pub proof fn lemma_consecutive_numbers(row: Option<(i64, i64)>, year: i64)
    requires
        match row {
            Some((y, s)) => s >= 0 && (y == year ==> s < i64::MAX - 1),
            None => true,
        },
    ensures
        next_counter_spec(row, year).0 == year,
        next_counter_spec(row, year).1 >= 1,
        next_counter_spec(row, year).1 == (match row {
            Some((y, s)) => if y == year {
                s + 1
            } else {
                1
            },
            None => 1,
        }),
        next_counter_spec(Some((year, next_counter_spec(row, year).1 as i64)), year) == (year as int,
            next_counter_spec(row, year).1 + 1),
{
}

} // verus!
