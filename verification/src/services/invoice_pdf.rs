//! The printable (PDF) invoice: its file name, its title and the blocks of
//! text it is made of.
use vstd::prelude::*;
use crate::clock::{LocalStamp, local_in_range, local_text, push_local_text, rfc3339_local_fields, rfc3339_accepts, rfc3339_reading};
use crate::repositories::invoices::{Invoice, InvoiceItem, balance_representable};
use crate::services::print::{price_text, push_price};
use crate::services::receipt_bitmap::area_text;
use crate::text::{before_first, chars_before, chars_of, decimal, push_all, push_decimal,
    push_padded3, push_str, string_of};

verus! {

/// One block of the document: a paragraph, or a vertical break of some lines.
pub enum PdfBlock {
    Paragraph(String),
    Break(u64),
}

pub enum PdfBlockView {
    Paragraph(Seq<char>),
    Break(u64),
}

impl View for PdfBlock {
    type V = PdfBlockView;

    open spec fn view(&self) -> PdfBlockView {
        match self {
            PdfBlock::Paragraph(s) => PdfBlockView::Paragraph(s@),
            PdfBlock::Break(n) => PdfBlockView::Break(*n),
        }
    }
}

pub open spec fn blocks_view(v: Seq<PdfBlock>) -> Seq<PdfBlockView> {
    v.map_values(|b: PdfBlock| b@)
}

/// The separator line between sections.
pub open spec fn pdf_rule() -> Seq<char> {
    "----------------------------------------"@
}

pub open spec fn par(s: Seq<char>) -> PdfBlockView {
    PdfBlockView::Paragraph(s)
}

/// The date shown: the RFC 3339 reading in local time, or else the text
/// before the first `T`.
pub open spec fn pdf_date_text(local: Option<LocalStamp>, created_at: Seq<char>) -> Seq<char> {
    match local {
        Some(t) => local_text(t),
        None => before_first(created_at, 'T'),
    }
}

/// Title, invoice number, date and customer.
pub open spec fn pdf_header(inv: Invoice, date: Seq<char>) -> Seq<PdfBlockView> {
    seq![
        par("CITY TILES POS"@),
        PdfBlockView::Break(1),
        par("TAX INVOICE"@),
        PdfBlockView::Break(1),
        par(pdf_rule()),
        PdfBlockView::Break(1),
        par("Invoice No: "@ + inv.invoice_no@),
        par("Date: "@ + date),
        par("Customer: "@ + inv.customer_name@),
        PdfBlockView::Break(1),
        par(pdf_rule()),
        PdfBlockView::Break(1),
        par("Items:"@),
    ]
}

/// `Q x UNIT NAME @ PRICE = TOTAL`, with the area when positive.
pub open spec fn pdf_item_text(it: InvoiceItem) -> Seq<char> {
    decimal(it.quantity as int) + " x "@ + it.unit@ + " "@ + it.product_name@ + " @ "@ + price_text(
        it.unit_price as int,
    ) + " = "@ + price_text(it.line_total as int) + (match it.total_area_milli {
        Some(m) => if m > 0 {
            " ["@ + area_text(m as int) + " sqm]"@
        } else {
            Seq::empty()
        },
        None => Seq::empty(),
    })
}

pub open spec fn pdf_items(items: Seq<InvoiceItem>) -> Seq<PdfBlockView>
    decreases items.len(),
{
    if items.len() == 0 {
        seq![]
    } else {
        pdf_items(items.drop_last()).push(par(pdf_item_text(items.last())))
    }
}

/// Subtotal, discount when positive, total, paid, balance when something is
/// still due, payment method.
pub open spec fn pdf_totals(inv: Invoice) -> Seq<PdfBlockView> {
    seq![PdfBlockView::Break(1), par(pdf_rule()), PdfBlockView::Break(1),
        par("Subtotal: "@ + price_text(inv.subtotal as int))]
    + (if inv.discount > 0 {
        seq![par("Discount: -"@ + price_text(inv.discount as int))]
    } else {
        seq![]
    })
    + seq![par("TOTAL: "@ + price_text(inv.total as int)), par("Paid: "@ + price_text(inv.amount_paid as int))]
    + (if inv.amount_paid < inv.total {
        seq![par("Balance: "@ + price_text(inv.total - inv.amount_paid))]
    } else {
        seq![]
    })
    + seq![par("Payment Method: "@ + inv.payment_method@)]
}

/// The notes, when there are any.
pub open spec fn pdf_notes(notes: Option<String>) -> Seq<PdfBlockView> {
    match notes {
        Some(n) => if n@.len() > 0 {
            seq![PdfBlockView::Break(1), par("Notes:"@), par(n@)]
        } else {
            seq![]
        },
        None => seq![],
    }
}

/// The whole document, for a given date text.
pub open spec fn pdf_content(inv: Invoice, items: Seq<InvoiceItem>, date: Seq<char>) -> Seq<PdfBlockView> {
    pdf_header(inv, date) + pdf_items(items) + pdf_totals(inv) + pdf_notes(inv.notes)
}

fn push_block(out: &mut Vec<PdfBlock>, b: PdfBlock)
    ensures
        blocks_view(final(out)@) == blocks_view(old(out)@).push(b@),
{
    out.push(b);
    assert(blocks_view(out@) =~= blocks_view(old(out)@).push(b@));
}

fn paragraph(parts: &Vec<char>) -> (b: PdfBlock)
    ensures
        b@ == par(parts@),
{
    PdfBlock::Paragraph(string_of(parts))
}

fn labelled(label: &str, value: &str) -> (b: PdfBlock)
    ensures
        b@ == par(label@ + value@),
{
    let mut v: Vec<char> = Vec::new();
    push_str(&mut v, label);
    push_str(&mut v, value);
    paragraph(&v)
}

fn labelled_price(label: &str, rupees: i64) -> (b: PdfBlock)
    ensures
        b@ == par(label@ + price_text(rupees as int)),
{
    let mut v: Vec<char> = Vec::new();
    push_str(&mut v, label);
    push_price(&mut v, rupees);
    assert(v@ =~= label@ + price_text(rupees as int));
    paragraph(&v)
}

fn item_block(it: &InvoiceItem) -> (b: PdfBlock)
    ensures
        b@ == par(pdf_item_text(*it)),
{
    let mut v: Vec<char> = Vec::new();
    push_decimal(&mut v, it.quantity);
    push_str(&mut v, " x ");
    push_str(&mut v, it.unit.as_str());
    push_str(&mut v, " ");
    push_str(&mut v, it.product_name.as_str());
    push_str(&mut v, " @ ");
    push_price(&mut v, it.unit_price);
    push_str(&mut v, " = ");
    push_price(&mut v, it.line_total);
    let ghost base = v@;
    match it.total_area_milli {
        Some(m) => {
            if m > 0 {
                push_str(&mut v, " [");
                push_decimal(&mut v, m / 1000);
                v.push('.');
                push_padded3(&mut v, (m % 1000) as u64);
                push_str(&mut v, " sqm]");
                assert(v@ =~= base + " ["@ + area_text(m as int) + " sqm]"@);
            }
        },
        None => {},
    }
    assert(v@ =~= pdf_item_text(*it));
    paragraph(&v)
}

/// The blocks of the invoice document, for the given date text.
#[verifier::rlimit(30)]
pub fn invoice_pdf_blocks_dated(inv: &Invoice, items: &[InvoiceItem], date: &str) -> (r: Vec<PdfBlock>)
    requires
        balance_representable(*inv),
    ensures
        blocks_view(r@) == pdf_content(*inv, items@, date@),
{
    let mut out: Vec<PdfBlock> = Vec::new();
    let rule = "----------------------------------------";
    push_block(&mut out, labelled("CITY TILES POS", ""));
    push_block(&mut out, PdfBlock::Break(1));
    push_block(&mut out, labelled("TAX INVOICE", ""));
    push_block(&mut out, PdfBlock::Break(1));
    push_block(&mut out, labelled(rule, ""));
    push_block(&mut out, PdfBlock::Break(1));
    push_block(&mut out, labelled("Invoice No: ", inv.invoice_no.as_str()));
    push_block(&mut out, labelled("Date: ", date));
    push_block(&mut out, labelled("Customer: ", inv.customer_name.as_str()));
    push_block(&mut out, PdfBlock::Break(1));
    push_block(&mut out, labelled(rule, ""));
    push_block(&mut out, PdfBlock::Break(1));
    push_block(&mut out, labelled("Items:", ""));
    proof {
        reveal_strlit("");
    }
    assert(blocks_view(out@) =~= pdf_header(*inv, date@));
    let ghost head = blocks_view(out@);
    let mut i: usize = 0;
    assert(items@.take(0) =~= Seq::<InvoiceItem>::empty());
    while i < items.len()
        invariant
            i <= items@.len(),
            blocks_view(out@) == head + pdf_items(items@.take(i as int)),
        decreases items@.len() - i,
    {
        assert(items@.take(i + 1).drop_last() =~= items@.take(i as int));
        assert(items@.take(i + 1).last() == items@[i as int]);
        push_block(&mut out, item_block(&items[i]));
        i = i + 1;
    }
    assert(items@.take(items@.len() as int) =~= items@);
    let ghost body = blocks_view(out@);
    push_block(&mut out, PdfBlock::Break(1));
    push_block(&mut out, labelled(rule, ""));
    push_block(&mut out, PdfBlock::Break(1));
    push_block(&mut out, labelled_price("Subtotal: ", inv.subtotal));
    if inv.discount > 0 {
        push_block(&mut out, labelled_price("Discount: -", inv.discount));
    }
    push_block(&mut out, labelled_price("TOTAL: ", inv.total));
    push_block(&mut out, labelled_price("Paid: ", inv.amount_paid));
    if inv.amount_paid < inv.total {
        push_block(&mut out, labelled_price("Balance: ", inv.total - inv.amount_paid));
    }
    push_block(&mut out, labelled("Payment Method: ", inv.payment_method.as_str()));
    assert(blocks_view(out@) =~= body + pdf_totals(*inv));
    let ghost totals = blocks_view(out@);
    match &inv.notes {
        Some(n) => {
            if !n.as_str().is_empty() {
                push_block(&mut out, PdfBlock::Break(1));
                push_block(&mut out, labelled("Notes:", ""));
                push_block(&mut out, labelled(n.as_str(), ""));
            }
        },
        None => {},
    }
    assert(blocks_view(out@) =~= totals + pdf_notes(inv.notes));
    out
}

/// The date text of a stored timestamp for a given local reading.
pub fn pdf_date_with(local: Option<LocalStamp>, created_at: &str) -> (r: String)
    requires
        local matches Some(t) ==> local_in_range(t),
    ensures
        r@ == pdf_date_text(local, created_at@),
{
    let mut v: Vec<char> = Vec::new();
    match local {
        Some(t) => push_local_text(&mut v, t),
        None => {
            let cs = chars_of(created_at);
            let b = chars_before(&cs, 'T');
            push_all(&mut v, &b);
        },
    }
    assert(v@ =~= pdf_date_text(local, created_at@));
    string_of(&v)
}

/// The blocks of the invoice document, dated from the invoice's timestamp
/// read in the machine's local time zone.
pub fn invoice_pdf_blocks(inv: &Invoice, items: &[InvoiceItem]) -> (r: Vec<PdfBlock>)
    requires
        balance_representable(*inv),
    ensures
        exists|local: Option<LocalStamp>| rfc3339_reading(local, inv.created_at@) && blocks_view(r@) == pdf_content(*inv, items@, pdf_date_text(local, inv.created_at@)),
{
    let local = rfc3339_local_fields(inv.created_at.as_str());
    let date = pdf_date_with(local, inv.created_at.as_str());
    let r = invoice_pdf_blocks_dated(inv, items, date.as_str());
    assert(rfc3339_reading(local, inv.created_at@));
    r
}

/// A character that may not appear in a Windows file name, replaced by `_`.
pub open spec fn unsafe_in_file_name(c: char) -> bool {
    c == '\\' || c == '/' || c == ':' || c == '*' || c == '?' || c == '"' || c == '<' || c == '>' || c == '|'
}

pub open spec fn sanitized(name: Seq<char>) -> Seq<char> {
    name.map_values(|c: char| if unsafe_in_file_name(c) { '_' } else { c })
}

/// `name` with each character that Windows forbids in file names replaced by `_`.
pub fn sanitize_filename(name: &str) -> (r: String)
    ensures
        r@ == sanitized(name@),
{
    let cs = chars_of(name);
    let mut v: Vec<char> = Vec::new();
    let mut i: usize = 0;
    while i < cs.len()
        invariant
            i <= cs@.len(),
            v@ == sanitized(cs@.take(i as int)),
        decreases cs@.len() - i,
    {
        let c = cs[i];
        let d = if c == '\\' || c == '/' || c == ':' || c == '*' || c == '?' || c == '"' || c == '<' || c
            == '>' || c == '|' {
            '_'
        } else {
            c
        };
        v.push(d);
        i = i + 1;
        assert(v@ =~= sanitized(cs@.take(i as int)));
    }
    assert(cs@.take(cs@.len() as int) =~= cs@);
    string_of(&v)
}

/// The document's file name: `invoice_<number>.pdf`, the number sanitized.
pub fn pdf_file_name(invoice_no: &str) -> (r: String)
    ensures
        r@ == "invoice_"@ + sanitized(invoice_no@) + ".pdf"@,
{
    let s = sanitize_filename(invoice_no);
    let mut v: Vec<char> = Vec::new();
    push_str(&mut v, "invoice_");
    push_str(&mut v, s.as_str());
    push_str(&mut v, ".pdf");
    assert(v@ =~= "invoice_"@ + sanitized(invoice_no@) + ".pdf"@);
    string_of(&v)
}

/// The document's title: `Invoice <number>`.
pub fn pdf_title(invoice_no: &str) -> (r: String)
    ensures
        r@ == "Invoice "@ + invoice_no@,
{
    let mut v: Vec<char> = Vec::new();
    push_str(&mut v, "Invoice ");
    push_str(&mut v, invoice_no);
    string_of(&v)
}

/// A sanitized name keeps its length, holds no character Windows forbids in
/// a file name, and keeps every other character where it was.
pub proof fn lemma_sanitized_is_safe(name: Seq<char>)
    ensures
        sanitized(name).len() == name.len(),
        forall|i: int| 0 <= i < name.len() ==> !unsafe_in_file_name(#[trigger] sanitized(name)[i]),
        forall|i: int| 0 <= i < name.len() && !unsafe_in_file_name(name[i]) ==> #[trigger] sanitized(name)[i]
            == name[i],
{
}

/// The document shows one paragraph per invoice line, in order.
pub proof fn lemma_one_paragraph_per_item(items: Seq<InvoiceItem>)
    ensures
        pdf_items(items).len() == items.len(),
        forall|i: int| 0 <= i < items.len() ==> #[trigger] pdf_items(items)[i] == par(pdf_item_text(items[i])),
    decreases items.len(),
{
    if items.len() > 0 {
        lemma_one_paragraph_per_item(items.drop_last());
        assert forall|i: int| 0 <= i < items.len() implies #[trigger] pdf_items(items)[i] == par(
            pdf_item_text(items[i]),
        ) by {
            if i < items.len() - 1 {
                assert(items.drop_last()[i] == items[i]);
            }
        }
    }
}

/// The document shows the invoice's own number, date text and customer as
/// its seventh to ninth blocks, and its own figures: right after the
/// rule that follows the item lines comes `Subtotal:` with the invoice's
/// subtotal; then the discount (when there is one), `TOTAL:` with its
/// total, `Paid:` with what was paid and, while something is unpaid,
/// `Balance:` with total less paid.
pub proof fn lemma_pdf_shows_the_figures(inv: Invoice, items: Seq<InvoiceItem>, date: Seq<char>)
    ensures
        pdf_content(inv, items, date)[6] == par("Invoice No: "@ + inv.invoice_no@),
        pdf_content(inv, items, date)[7] == par("Date: "@ + date),
        pdf_content(inv, items, date)[8] == par("Customer: "@ + inv.customer_name@),
        pdf_content(inv, items, date)[16 + items.len() as int] == par("Subtotal: "@ + price_text(inv.subtotal as int)),
        pdf_content(inv, items, date)[14 + items.len() as int] == par(pdf_rule()),
        inv.discount > 0 ==> pdf_content(inv, items, date)[17 + items.len() as int] == par(
            "Discount: -"@ + price_text(inv.discount as int),
        ),
        pdf_content(inv, items, date).contains(par("TOTAL: "@ + price_text(inv.total as int))),
        pdf_content(inv, items, date).contains(par("Paid: "@ + price_text(inv.amount_paid as int))),
        inv.amount_paid < inv.total ==> pdf_content(inv, items, date).contains(
            par("Balance: "@ + price_text(inv.total - inv.amount_paid)),
        ),
{
    lemma_one_paragraph_per_item(items);
    let c = pdf_content(inv, items, date);
    let pre = pdf_header(inv, date) + pdf_items(items);
    let t = pdf_totals(inv);
    let post = pdf_notes(inv.notes);
    assert(c =~= pre + t + post);
    assert(pre.len() == 13 + items.len());
    assert(c[6] == pre[6] && c[7] == pre[7] && c[8] == pre[8]);
    let o = pre.len() as int;
    let d: int = if inv.discount > 0 {
        1
    } else {
        0
    };
    assert forall|k: int| 0 <= k < t.len() implies c[o + k] == t[k] by {
        assert((pre + t + post)[o + k] == t[k]);
    }
    assert(c[o + 1] == t[1]);
    assert(c[o + 3] == t[3]);
    if inv.discount > 0 {
        assert(c[o + 4] == t[4]);
    }
    assert(c[o + 4 + d] == t[4 + d]);
    assert(c[o + 5 + d] == t[5 + d]);
    if inv.amount_paid < inv.total {
        assert(c[o + 6 + d] == t[6 + d]);
    }
}

} // verus!
