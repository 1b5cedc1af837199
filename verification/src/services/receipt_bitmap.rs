//! Rasterized thermal receipts: the packed monochrome canvas, its ESC/POS
//! `GS v 0` encoding, and the layout of a receipt as drawing operations.
//! Glyph rendering itself (font metrics, outlines) is done by the
//! application with `ab_glyph`.
use vstd::prelude::*;
use vstd::array::ArrayAdditionalExecFns;
use crate::text::{decimal, padded3, trim, before_first, push_str, push_all, push_decimal, push_padded3, chars_of,
    chars_before, string_of, trim_str};
use crate::clock::{LocalStamp, local_in_range, local_text, push_local_text, rfc3339_local_fields, rfc3339_accepts, rfc3339_reading};
use crate::repositories::invoices::{Invoice, InvoiceItem, balance_representable};
use crate::services::print::{ReceiptBusiness, price_text, push_price};

verus! {

/// Printable width of an 80mm roll at 203 dpi.
pub const PRINT_WIDTH_PX: usize = 576;
/// Packed bytes per raster row (576 / 8).
pub const ROW_BYTES: usize = PRINT_WIDTH_PX / 8;
/// Side padding (~3 mm).
pub const MARGIN_X: i32 = 24;
/// Blank rows above the first content and below the last content (~6 mm).
pub const MARGIN_Y_ROWS: usize = 48;
/// Raster data is sent in horizontal bands so even small-printer RAM copes.
pub const MAX_ROWS_PER_BAND: usize = 800;

pub const ESC: u8 = 0x1B;
pub const GS: u8 = 0x1D;

/// The mask of pixel column `x` within its byte (most significant bit first).
pub open spec fn bit_mask(x: int) -> u8 {
    (0x80u8 >> ((x % 8) as u8)) as u8
}

/// Whether pixel `x` of a packed row is set.
pub open spec fn pixel_on(row: [u8; 72], x: int) -> bool {
    (row@[x / 8] & bit_mask(x)) != 0u8
}

/// Whether no pixel of a row is set.
pub open spec fn row_is_blank(row: [u8; 72]) -> bool {
    forall|i: int| 0 <= i < 72 ==> row@[i] == 0u8
}

/// A dynamically growing column of packed 576-dot rows.
pub struct Canvas {
    pub rows: Vec<[u8; 72]>,
}

proof fn lemma_or_mask(a: u8, p: u8, q: u8)
    requires
        p < 8,
        q < 8,
    ensures
        ((a | (0x80u8 >> p)) & (0x80u8 >> q)) != 0u8 <==> ((a & (0x80u8 >> q)) != 0u8 || p == q),
{
    assert(((a | (0x80u8 >> p)) & (0x80u8 >> q)) != 0u8 <==> ((a & (0x80u8 >> q)) != 0u8 || p == q))
        by (bit_vector)
        requires
            p < 8,
            q < 8,
    ;
}

proof fn lemma_zero_mask(q: u8)
    requires
        q < 8,
    ensures
        (0u8 & (0x80u8 >> q)) == 0u8,
{
    assert((0u8 & (0x80u8 >> q)) == 0u8) by (bit_vector);
}

/// Setting pixel `x` of a row sets exactly that pixel.
pub proof fn lemma_set_pixel(old_row: [u8; 72], new_row: [u8; 72], x: int)
    requires
        0 <= x < 576,
        new_row@ == old_row@.update(x / 8, old_row@[x / 8] | bit_mask(x)),
    ensures
        forall|z: int| 0 <= z < 576 ==> #[trigger] pixel_on(new_row, z) == (pixel_on(old_row, z) || z == x),
{
    assert forall|z: int| 0 <= z < 576 implies #[trigger] pixel_on(new_row, z) == (pixel_on(old_row, z) || z
        == x) by {
        if z / 8 == x / 8 {
            lemma_or_mask(old_row@[x / 8], (x % 8) as u8, (z % 8) as u8);
            assert((z % 8 == x % 8) == (z == x));
        } else {
            assert(z != x);
        }
    }
}

/// The rows after plotting dot `(x, y)`: the same number of rows; inside
/// the canvas, only byte `x / 8` of row `y` changes, gaining the dot's bit;
/// outside it, nothing changes.
pub open spec fn plotted(before: Seq<[u8; 72]>, x: int, y: int, after: Seq<[u8; 72]>) -> bool {
    &&& after.len() == before.len()
    &&& (0 <= x < 576 && 0 <= y < before.len()) ==> after == before.update(y, after[y]) && after[y]@
        == before[y]@.update(x / 8, before[y]@[x / 8] | bit_mask(x))
    &&& !(0 <= x < 576 && 0 <= y < before.len()) ==> after == before
}

/// Plotting the same dot twice leaves the rows as plotting it once.
pub proof fn lemma_plot_twice(r0: Seq<[u8; 72]>, r1: Seq<[u8; 72]>, r2: Seq<[u8; 72]>, x: int, y: int)
    requires
        plotted(r0, x, y, r1),
        plotted(r1, x, y, r2),
    ensures
        r2 == r1,
{
    if 0 <= x < 576 && 0 <= y < r0.len() {
        let b = r0[y]@[x / 8];
        let m = bit_mask(x);
        assert((b | m) | m == b | m) by (bit_vector);
        assert(r2[y]@ =~= r1[y]@);
        broadcast use vstd::array::axiom_array_ext_equal;
        assert(r2[y] =~= r1[y]);
        assert(r2 =~= r1);
    }
}

/// A blank row has no pixel set.
pub proof fn lemma_blank_pixels(row: [u8; 72])
    requires
        row_is_blank(row),
    ensures
        forall|z: int| 0 <= z < 576 ==> !#[trigger] pixel_on(row, z),
{
    assert forall|z: int| 0 <= z < 576 implies !#[trigger] pixel_on(row, z) by {
        lemma_zero_mask((z % 8) as u8);
    }
}

/// Pixels of the dashed rule: on 3 px, off 3 px, between the side margins.
pub open spec fn dashed_pixel(x: int) -> bool {
    24 <= x < 552 && (x - 24) % 6 < 3
}

/// Pixels of the solid rule: everything between the side margins.
pub open spec fn solid_pixel(x: int) -> bool {
    24 <= x < 552
}

impl Canvas {
    pub fn new() -> (c: Self)
        ensures
            c.rows@.len() == 0,
    {
        Canvas { rows: Vec::new() }
    }

    /// Appends `n` blank rows.
    pub fn push_blank(&mut self, n: usize)
        requires
            old(self).rows@.len() + n <= usize::MAX,
        ensures
            final(self).rows@.len() == old(self).rows@.len() + n,
            final(self).rows@.subrange(0, old(self).rows@.len() as int) == old(self).rows@,
            forall|i: int|
                old(self).rows@.len() <= i < final(self).rows@.len() ==> row_is_blank(
                    #[trigger] final(self).rows@[i],
                ),
    {
        let mut k: usize = 0;
        while k < n
            invariant
                k <= n,
                self.rows@.len() == old(self).rows@.len() + k,
                self.rows@.subrange(0, old(self).rows@.len() as int) == old(self).rows@,
                forall|i: int|
                    old(self).rows@.len() <= i < self.rows@.len() ==> row_is_blank(#[trigger] self.rows@[i]),
            decreases n - k,
        {
            let blank: [u8; 72] = [0u8; 72];
            assert(row_is_blank(blank));
            self.rows.push(blank);
            k = k + 1;
            assert(self.rows@.subrange(0, old(self).rows@.len() as int) =~= old(self).rows@);
        }
    }

    /// Plots a single dot; out-of-bounds coordinates are ignored.
    pub fn set_px(&mut self, x: i32, y: i32)
        ensures
            plotted(old(self).rows@, x as int, y as int, final(self).rows@),
    {
        if x < 0 || y < 0 {
            return ;
        }
        let xu = x as usize;
        let yu = y as usize;
        if xu >= PRINT_WIDTH_PX || yu >= self.rows.len() {
            return ;
        }
        let mut row = self.rows[yu];
        let b = row[xu / 8];
        let shift = (xu % 8) as u32;
        let m: u8 = 0x80u8 >> shift;
        assert(m == bit_mask(x as int));
        row.set(xu / 8, b | m);
        self.rows.set(yu, row);
    }

    /// Sets pixel `x` in both rows of a two-row rule starting at row `n0`.
    fn plot_pair(&mut self, x: i32, n0: usize)
        requires
            old(self).rows@.len() == n0 + 2,
            n0 + 2 <= i32::MAX,
            0 <= x < 576,
        ensures
            final(self).rows@.len() == n0 + 2,
            final(self).rows@.subrange(0, n0 as int) == old(self).rows@.subrange(0, n0 as int),
            forall|i: int, z: int|
                n0 <= i < n0 + 2 && 0 <= z < 576 ==> #[trigger] pixel_on(final(self).rows@[i], z) == (pixel_on(
                    old(self).rows@[i],
                    z,
                ) || z == x),
    {
        let y0 = n0 as i32;
        assert(y0 == n0);
        let ghost r0 = self.rows@[n0 as int];
        let ghost r1 = self.rows@[n0 + 1];
        self.set_px(x, y0);
        proof {
            lemma_set_pixel(r0, self.rows@[n0 as int], x as int);
        }
        let ghost mid = self.rows@;
        self.set_px(x, y0 + 1);
        assert(self.rows@[n0 as int] == mid[n0 as int]);
        proof {
            lemma_set_pixel(r1, self.rows@[n0 + 1], x as int);
        }
        assert(self.rows@.subrange(0, n0 as int) =~= old(self).rows@.subrange(0, n0 as int));
    }

    /// Horizontal rule: dashes on for 3 px / off for 3 px, two rows thick.
    pub fn dashed_rule(&mut self)
        requires
            old(self).rows@.len() + 2 <= i32::MAX,
        ensures
            final(self).rows@.len() == old(self).rows@.len() + 2,
            final(self).rows@.subrange(0, old(self).rows@.len() as int) == old(self).rows@,
            forall|i: int, z: int|
                old(self).rows@.len() <= i < final(self).rows@.len() && 0 <= z < 576 ==> #[trigger] pixel_on(
                    final(self).rows@[i],
                    z,
                ) == dashed_pixel(z),
    {
        let n0 = self.rows.len();
        self.push_blank(2);
        proof {
            lemma_blank_pixels(self.rows@[n0 as int]);
            lemma_blank_pixels(self.rows@[n0 + 1]);
        }
        let mut x: i32 = MARGIN_X;
        assert(576usize as i32 == 576i32) by (bit_vector);
        while x < PRINT_WIDTH_PX as i32 - MARGIN_X
            invariant
                PRINT_WIDTH_PX as i32 == 576,
                24 <= x <= 552,
                n0 == old(self).rows@.len(),
                n0 + 2 <= i32::MAX,
                self.rows@.len() == n0 + 2,
                self.rows@.subrange(0, n0 as int) == old(self).rows@,
                forall|i: int, z: int|
                    n0 <= i < n0 + 2 && 0 <= z < 576 ==> #[trigger] pixel_on(self.rows@[i], z) == (
                    dashed_pixel(z) && z < x),
            decreases 552 - x,
        {
            if (x - MARGIN_X) % 6 < 3 {
                self.plot_pair(x, n0);
            }
            x = x + 1;
        }
    }

    /// Full-width solid rule, two rows thick (used around TOTAL).
    pub fn solid_rule(&mut self)
        requires
            old(self).rows@.len() + 2 <= i32::MAX,
        ensures
            final(self).rows@.len() == old(self).rows@.len() + 2,
            final(self).rows@.subrange(0, old(self).rows@.len() as int) == old(self).rows@,
            forall|i: int, z: int|
                old(self).rows@.len() <= i < final(self).rows@.len() && 0 <= z < 576 ==> #[trigger] pixel_on(
                    final(self).rows@[i],
                    z,
                ) == solid_pixel(z),
    {
        let n0 = self.rows.len();
        self.push_blank(2);
        proof {
            lemma_blank_pixels(self.rows@[n0 as int]);
            lemma_blank_pixels(self.rows@[n0 + 1]);
        }
        let mut x: i32 = MARGIN_X;
        assert(576usize as i32 == 576i32) by (bit_vector);
        while x < PRINT_WIDTH_PX as i32 - MARGIN_X
            invariant
                PRINT_WIDTH_PX as i32 == 576,
                24 <= x <= 552,
                n0 == old(self).rows@.len(),
                n0 + 2 <= i32::MAX,
                self.rows@.len() == n0 + 2,
                self.rows@.subrange(0, n0 as int) == old(self).rows@,
                forall|i: int, z: int|
                    n0 <= i < n0 + 2 && 0 <= z < 576 ==> #[trigger] pixel_on(self.rows@[i], z) == (
                    solid_pixel(z) && z < x),
            decreases 552 - x,
        {
            self.plot_pair(x, n0);
            x = x + 1;
        }
    }
}

// ---------------------------------------------------------------------------
// ESC/POS raster encoding
// ---------------------------------------------------------------------------

/// Little-endian bytes of a 16-bit value.
pub open spec fn le16(n: int) -> Seq<u8> {
    seq![(n % 256) as u8, (n / 256) as u8]
}

/// The bytes of consecutive rows.
pub open spec fn flatten_rows(rows: Seq<[u8; 72]>) -> Seq<u8>
    decreases rows.len(),
{
    if rows.len() == 0 {
        seq![]
    } else {
        flatten_rows(rows.drop_last()) + rows.last()@
    }
}

/// `GS v 0` band commands for the rows from `start` on, at most 800 rows per
/// band: `GS v 0 \0 xL xH yL yH <row data>`.
pub open spec fn raster_bands(rows: Seq<[u8; 72]>, start: int) -> Seq<u8>
    decreases rows.len() - start,
{
    if start < 0 || start >= rows.len() {
        seq![]
    } else {
        let end = if start + 800 < rows.len() {
            start + 800
        } else {
            rows.len() as int
        };
        seq![GS, 0x76u8, 0x30u8, 0u8] + le16(72) + le16(end - start) + flatten_rows(rows.subrange(start, end))
            + raster_bands(rows, end)
    }
}

/// Initialize, the bands, a short feed, a full cut.
pub open spec fn raster_stream(rows: Seq<[u8; 72]>) -> Seq<u8> {
    seq![ESC, 0x40u8] + raster_bands(rows, 0) + seq![0x0Au8, 0x0Au8, 0x0Au8] + seq![GS, 0x56u8, 1u8]
}

fn push_row(out: &mut Vec<u8>, row: &[u8; 72])
    ensures
        final(out)@ == old(out)@ + row@,
{
    let mut k: usize = 0;
    while k < ROW_BYTES
        invariant
            k <= 72,
            out@ == old(out)@ + row@.take(k as int),
        decreases 72 - k,
    {
        out.push(row[k]);
        k = k + 1;
        assert(out@ =~= old(out)@ + row@.take(k as int));
    }
    assert(row@.take(72) =~= row@);
}

fn push_rows(out: &mut Vec<u8>, rows: &Vec<[u8; 72]>, start: usize, end: usize)
    requires
        start <= end <= rows@.len(),
    ensures
        final(out)@ == old(out)@ + flatten_rows(rows@.subrange(start as int, end as int)),
{
    let mut i: usize = start;
    assert(rows@.subrange(start as int, start as int) =~= Seq::<[u8; 72]>::empty());
    while i < end
        invariant
            start <= i <= end <= rows@.len(),
            out@ == old(out)@ + flatten_rows(rows@.subrange(start as int, i as int)),
        decreases end - i,
    {
        push_row(out, &rows[i]);
        assert(rows@.subrange(start as int, i + 1).drop_last() =~= rows@.subrange(start as int, i as int));
        i = i + 1;
        assert(out@ =~= old(out)@ + flatten_rows(rows@.subrange(start as int, i as int)));
    }
}

/// Wraps the canvas into `ESC @`, one or more `GS v 0` band commands (at
/// most 800 rows each), a three-line feed and a full cut.
pub fn encode_raster_stream(c: &Canvas) -> (out: Vec<u8>)
    ensures
        out@ == raster_stream(c.rows@),
{
    let mut out: Vec<u8> = Vec::new();
    out.push(ESC);
    out.push(0x40u8);
    let total_rows = c.rows.len();
    let mut start: usize = 0;
    assert(out@ =~= seq![ESC, 0x40u8]);
    while start < total_rows
        invariant
            start <= total_rows == c.rows@.len(),
            out@ + raster_bands(c.rows@, start as int) == seq![ESC, 0x40u8] + raster_bands(c.rows@, 0),
        decreases total_rows - start,
    {
        let ghost prev = out@;
        let end = if total_rows - start > MAX_ROWS_PER_BAND { start + MAX_ROWS_PER_BAND } else { total_rows };
        let band_rows = end - start;
        out.push(GS);
        out.push(0x76u8);
        out.push(0x30u8);
        out.push(0u8);
        out.push(72u8);
        out.push(0u8);
        out.push((band_rows % 256) as u8);
        out.push((band_rows / 256) as u8);
        push_rows(&mut out, &c.rows, start, end);
        assert(out@ + raster_bands(c.rows@, end as int) =~= prev + raster_bands(c.rows@, start as int));
        start = end;
    }
    assert(raster_bands(c.rows@, start as int) =~= Seq::<u8>::empty());
    out.push(0x0Au8);
    out.push(0x0Au8);
    out.push(0x0Au8);
    out.push(GS);
    out.push(0x56u8);
    out.push(1u8);
    assert(out@ =~= raster_stream(c.rows@));
    out
}

// ---------------------------------------------------------------------------
// Receipt composition
// ---------------------------------------------------------------------------

/// Typeface, size and line spacing of a run of text (the application maps
/// each to its font and pixel metrics).
#[derive(Debug, Clone, Copy, PartialEq, Eq)]
pub enum TextKind {
    /// Display face, banner size: the business name.
    Banner,
    /// Small regular text: address, phone, credit line.
    Small,
    /// Regular rate line under an item.
    ItemRate,
    /// Bold area line under an item.
    ItemArea,
    /// Regular body text: notes.
    Notes,
    /// Regular, slightly larger: the thank-you line.
    Thanks,
    /// Smallest regular text: the contact number.
    Footnote,
}

/// Left edge of a left-aligned block.
#[derive(Debug, Clone, Copy, PartialEq, Eq)]
pub enum Indent {
    /// Indented under an item row.
    Item,
    /// At the side margin.
    Margin,
}

/// Size of a two-column money row.
#[derive(Debug, Clone, Copy, PartialEq, Eq)]
pub enum RowSize {
    Body,
    Total,
}

/// One drawing step of a raster receipt.
#[derive(Debug, Clone)]
pub enum ReceiptOp {
    /// Blank rows.
    Blank(usize),
    /// Dashed two-row rule.
    DashedRule,
    /// Solid two-row rule.
    SolidRule,
    /// Word-wrapped, centered text.
    Centered(TextKind, String),
    /// Word-wrapped, left-aligned text.
    Left(TextKind, String, Indent),
    /// Bold label at the margin, wrapped value beside it.
    Meta(String, String),
    /// Left text (wrapped; bold when asked) with a bold right-aligned amount
    /// on its last line.
    TwoCol(String, String, bool, RowSize),
}

/// A drawing step with its texts as character sequences.
pub enum OpView {
    Blank(nat),
    DashedRule,
    SolidRule,
    Centered(TextKind, Seq<char>),
    Left(TextKind, Seq<char>, Indent),
    Meta(Seq<char>, Seq<char>),
    TwoCol(Seq<char>, Seq<char>, bool, RowSize),
}

impl View for ReceiptOp {
    type V = OpView;

    open spec fn view(&self) -> OpView {
        match self {
            ReceiptOp::Blank(n) => OpView::Blank(*n as nat),
            ReceiptOp::DashedRule => OpView::DashedRule,
            ReceiptOp::SolidRule => OpView::SolidRule,
            ReceiptOp::Centered(k, t) => OpView::Centered(*k, t@),
            ReceiptOp::Left(k, t, i) => OpView::Left(*k, t@, *i),
            ReceiptOp::Meta(l, v) => OpView::Meta(l@, v@),
            ReceiptOp::TwoCol(l, r, b, z) => OpView::TwoCol(l@, r@, *b, *z),
        }
    }
}

pub open spec fn ops_view(ops: Seq<ReceiptOp>) -> Seq<OpView> {
    ops.map_values(|o: ReceiptOp| o@)
}

/// Receipt date: the RFC 3339 reading in local time (`%Y-%m-%d %I:%M %p`)
/// when there is one, else the text before the first `T`.
pub open spec fn receipt_date_text(local: Option<LocalStamp>, s: Seq<char>) -> Seq<char> {
    match local {
        Some(t) => local_text(t),
        None => before_first(s, 'T'),
    }
}

/// ISO-8601 stored timestamp as local `YYYY-MM-DD HH:MM AM/PM`, or the bare date.
pub fn timestamp(created_at: &str) -> (r: String)
    ensures
        exists|local: Option<LocalStamp>|
            rfc3339_reading(local, created_at@) && r@ == receipt_date_text(local, created_at@),
{
    let local = rfc3339_local_fields(created_at);
    let mut v: Vec<char> = Vec::new();
    match local {
        Some(t) => push_local_text(&mut v, t),
        None => {
            let cs = chars_of(created_at);
            let b = chars_before(&cs, 'T');
            push_all(&mut v, &b);
        },
    }
    assert(v@ =~= receipt_date_text(local, created_at@));
    string_of(&v)
}

/// Whole rupees are canonical everywhere: `PKR <amount>`.
pub fn price(rupees: i64) -> (r: String)
    ensures
        r@ == price_text(rupees as int),
{
    let mut v: Vec<char> = Vec::new();
    push_price(&mut v, rupees);
    string_of(&v)
}

/// Area in thousandths of a square metre, with three decimals (`{:.3}`).
pub open spec fn area_text(milli: int) -> Seq<char> {
    decimal(milli / 1000) + seq!['.'] + padded3((milli % 1000) as nat)
}

/// Item row head: `Q UNIT × NAME`.
pub open spec fn bitmap_item_head(it: InvoiceItem) -> Seq<char> {
    decimal(it.quantity as int) + seq![' '] + it.unit@ + " \u{00D7} "@ + it.product_name@
}

/// The steps for one item: amount row, rate line, area line when the item
/// carries a positive area, a small gap.
pub open spec fn item_ops(it: InvoiceItem) -> Seq<OpView> {
    seq![
        OpView::TwoCol(bitmap_item_head(it), price_text(it.line_total as int), false, RowSize::Body),
        OpView::Left(
            TextKind::ItemRate,
            "@ "@ + price_text(it.unit_price as int) + " / "@ + it.unit@,
            Indent::Item,
        ),
    ] + (match it.total_area_milli {
        Some(m) => if m > 0 {
            seq![OpView::Left(TextKind::ItemArea, "Area: "@ + area_text(m as int) + " sqm"@, Indent::Item)]
        } else {
            seq![]
        },
        None => seq![],
    }) + seq![OpView::Blank(6)]
}

pub open spec fn items_ops(items: Seq<InvoiceItem>) -> Seq<OpView>
    decreases items.len(),
{
    if items.len() == 0 {
        seq![]
    } else {
        items_ops(items.drop_last()) + item_ops(items.last())
    }
}

/// Margin, banner, address and phone, dashed rule.
pub open spec fn header_ops(business: ReceiptBusiness) -> Seq<OpView> {
    seq![
        OpView::Blank(48),
        OpView::Centered(TextKind::Banner, trim(business.name@)),
        OpView::Centered(TextKind::Small, trim(business.address@)),
        OpView::Centered(TextKind::Small, trim(business.phone@)),
        OpView::Blank(14),
        OpView::DashedRule,
        OpView::Blank(12),
    ]
}

/// Invoice number, date, customer (when named), dashed rule.
pub open spec fn meta_ops(inv: Invoice, date: Seq<char>) -> Seq<OpView> {
    seq![OpView::Meta("Invoice"@, inv.invoice_no@), OpView::Meta("Date"@, date)] + (if trim(inv.customer_name@).len()
        > 0 {
        seq![OpView::Meta("Customer"@, trim(inv.customer_name@))]
    } else {
        seq![]
    }) + seq![OpView::Blank(12), OpView::DashedRule, OpView::Blank(12)]
}

/// Rule under the items, subtotal, discount, TOTAL between solid rules,
/// paid, balance due, method.
pub open spec fn totals_ops(inv: Invoice) -> Seq<OpView> {
    seq![OpView::Blank(6), OpView::DashedRule, OpView::Blank(12),
        OpView::TwoCol("Subtotal"@, price_text(inv.subtotal as int), false, RowSize::Body),
    ] + (if inv.discount > 0 {
        seq![OpView::TwoCol("Discount"@, seq!['-'] + price_text(inv.discount as int), false, RowSize::Body)]
    } else {
        seq![]
    }) + seq![
        OpView::Blank(8),
        OpView::SolidRule,
        OpView::Blank(10),
        OpView::TwoCol("TOTAL"@, price_text(inv.total as int), true, RowSize::Total),
        OpView::Blank(4),
        OpView::SolidRule,
        OpView::Blank(12),
        OpView::TwoCol("Paid"@, price_text(inv.amount_paid as int), false, RowSize::Body),
    ] + (if inv.amount_paid < inv.total {
        seq![OpView::TwoCol("Balance due"@, price_text(inv.total - inv.amount_paid), true, RowSize::Body)]
    } else {
        seq![]
    }) + seq![OpView::TwoCol("Method"@, inv.payment_method@, false, RowSize::Body)]
}

/// Notes that are not blank, after a dashed rule.
pub open spec fn notes_ops(notes: Option<String>) -> Seq<OpView> {
    match notes {
        Some(n) => if trim(n@).len() > 0 {
            seq![OpView::Blank(12), OpView::DashedRule, OpView::Blank(10), OpView::Left(TextKind::Notes, trim(n@), Indent::Margin)]
        } else {
            seq![]
        },
        None => seq![],
    }
}

/// Thank-you line, credit, contact number, bottom margin.
pub open spec fn footer_ops() -> Seq<OpView> {
    seq![
        OpView::Blank(20),
        OpView::Centered(TextKind::Thanks, "Thank you!"@),
        OpView::Centered(TextKind::Small, "Developed by AZ Solutions"@),
        OpView::Centered(TextKind::Footnote, "03311203090"@),
        OpView::Blank(48),
    ]
}

/// The whole raster receipt as drawing steps, for a given date text.
pub open spec fn receipt_ops(inv: Invoice, items: Seq<InvoiceItem>, business: ReceiptBusiness, date: Seq<char>) -> Seq<
    OpView,
> {
    header_ops(business) + meta_ops(inv, date) + items_ops(items) + totals_ops(inv) + notes_ops(inv.notes)
        + footer_ops()
}

/// The raster receipt shows the invoice's own number and date text, and
/// its own figures: its subtotal, its
/// TOTAL, the amount actually paid, and, while something is unpaid, the
/// balance due as total less paid, so that Paid and Balance due add up to
/// TOTAL.
pub proof fn lemma_receipt_shows_the_figures(inv: Invoice, items: Seq<InvoiceItem>, business: ReceiptBusiness, date: Seq<char>)
    ensures
        receipt_ops(inv, items, business, date).contains(OpView::Meta("Invoice"@, inv.invoice_no@)),
        receipt_ops(inv, items, business, date).contains(OpView::Meta("Date"@, date)),
        receipt_ops(inv, items, business, date).contains(
            OpView::TwoCol("Subtotal"@, price_text(inv.subtotal as int), false, RowSize::Body),
        ),
        receipt_ops(inv, items, business, date).contains(
            OpView::TwoCol("TOTAL"@, price_text(inv.total as int), true, RowSize::Total),
        ),
        receipt_ops(inv, items, business, date).contains(
            OpView::TwoCol("Paid"@, price_text(inv.amount_paid as int), false, RowSize::Body),
        ),
        inv.amount_paid < inv.total ==> receipt_ops(inv, items, business, date).contains(
            OpView::TwoCol("Balance due"@, price_text(inv.total - inv.amount_paid), true, RowSize::Body),
        ),
        inv.amount_paid < inv.total ==> inv.amount_paid + (inv.total - inv.amount_paid) == inv.total,
{
    let ops = receipt_ops(inv, items, business, date);
    let pre = header_ops(business) + meta_ops(inv, date) + items_ops(items);
    let t = totals_ops(inv);
    let post = notes_ops(inv.notes) + footer_ops();
    assert(ops =~= pre + t + post);
    let o = pre.len() as int;
    let d: int = if inv.discount > 0 {
        1
    } else {
        0
    };
    assert forall|k: int| 0 <= k < t.len() implies ops[o + k] == t[k] by {
        assert((pre + t + post)[o + k] == t[k]);
    }
    let h = header_ops(business);
    let m = meta_ops(inv, date);
    let hl: int = h.len() as int;
    assert(ops[hl] == (pre + t + post)[hl]);
    assert(pre[hl] == m[0]);
    assert(ops[hl + 1] == (pre + t + post)[hl + 1]);
    assert(pre[hl + 1] == m[1]);
    assert(ops[hl] == OpView::Meta("Invoice"@, inv.invoice_no@));
    assert(ops[hl + 1] == OpView::Meta("Date"@, date));
    assert(t[3] == OpView::TwoCol("Subtotal"@, price_text(inv.subtotal as int), false, RowSize::Body));
    assert(ops[o + 3] == t[3]);
    assert(t[7 + d] == OpView::TwoCol("TOTAL"@, price_text(inv.total as int), true, RowSize::Total));
    assert(ops[o + 7 + d] == t[7 + d]);
    assert(t[11 + d] == OpView::TwoCol("Paid"@, price_text(inv.amount_paid as int), false, RowSize::Body));
    assert(ops[o + 11 + d] == t[11 + d]);
    if inv.amount_paid < inv.total {
        assert(t[12 + d] == OpView::TwoCol("Balance due"@, price_text(inv.total - inv.amount_paid), true, RowSize::Body));
        assert(ops[o + 12 + d] == t[12 + d]);
    }
}

fn text_of(s: &str) -> (r: String)
    ensures
        r@ == s@,
{
    let cs = chars_of(s);
    string_of(&cs)
}

fn push_op(ops: &mut Vec<ReceiptOp>, op: ReceiptOp)
    ensures
        ops_view(final(ops)@) == ops_view(old(ops)@).push(op@),
{
    ops.push(op);
    assert(ops_view(ops@) =~= ops_view(old(ops)@).push(op@));
}

fn push_header_ops(ops: &mut Vec<ReceiptOp>, business: &ReceiptBusiness)
    ensures
        ops_view(final(ops)@) == ops_view(old(ops)@) + header_ops(*business),
{
    push_op(ops, ReceiptOp::Blank(MARGIN_Y_ROWS));
    push_op(ops, ReceiptOp::Centered(TextKind::Banner, string_of(&trim_str(business.name.as_str()))));
    push_op(ops, ReceiptOp::Centered(TextKind::Small, string_of(&trim_str(business.address.as_str()))));
    push_op(ops, ReceiptOp::Centered(TextKind::Small, string_of(&trim_str(business.phone.as_str()))));
    push_op(ops, ReceiptOp::Blank(14));
    push_op(ops, ReceiptOp::DashedRule);
    push_op(ops, ReceiptOp::Blank(12));
    assert(ops_view(ops@) =~= ops_view(old(ops)@) + header_ops(*business));
}

fn push_meta_ops(ops: &mut Vec<ReceiptOp>, inv: &Invoice, date: &String)
    ensures
        ops_view(final(ops)@) == ops_view(old(ops)@) + meta_ops(*inv, date@),
{
    push_op(ops, ReceiptOp::Meta(text_of("Invoice"), text_of(inv.invoice_no.as_str())));
    push_op(ops, ReceiptOp::Meta(text_of("Date"), text_of(date.as_str())));
    let c = trim_str(inv.customer_name.as_str());
    if c.len() > 0 {
        push_op(ops, ReceiptOp::Meta(text_of("Customer"), string_of(&c)));
    }
    push_op(ops, ReceiptOp::Blank(12));
    push_op(ops, ReceiptOp::DashedRule);
    push_op(ops, ReceiptOp::Blank(12));
    assert(ops_view(ops@) =~= ops_view(old(ops)@) + meta_ops(*inv, date@));
}

fn push_item_ops(ops: &mut Vec<ReceiptOp>, it: &InvoiceItem)
    ensures
        ops_view(final(ops)@) == ops_view(old(ops)@) + item_ops(*it),
{
    let mut head: Vec<char> = Vec::new();
    push_decimal(&mut head, it.quantity);
    head.push(' ');
    push_str(&mut head, it.unit.as_str());
    push_str(&mut head, " \u{00D7} ");
    push_str(&mut head, it.product_name.as_str());
    assert(head@ =~= bitmap_item_head(*it));
    push_op(ops, ReceiptOp::TwoCol(string_of(&head), price(it.line_total), false, RowSize::Body));
    let mut rate: Vec<char> = Vec::new();
    push_str(&mut rate, "@ ");
    push_price(&mut rate, it.unit_price);
    push_str(&mut rate, " / ");
    push_str(&mut rate, it.unit.as_str());
    assert(rate@ =~= "@ "@ + price_text(it.unit_price as int) + " / "@ + it.unit@);
    push_op(ops, ReceiptOp::Left(TextKind::ItemRate, string_of(&rate), Indent::Item));
    let ghost two = ops_view(ops@);
    assert(two =~= ops_view(old(ops)@) + item_ops(*it).take(2));
    match it.total_area_milli {
        Some(m) => {
            if m > 0 {
                let mut a: Vec<char> = Vec::new();
                push_str(&mut a, "Area: ");
                push_decimal(&mut a, m / 1000);
                a.push('.');
                push_padded3(&mut a, (m % 1000) as u64);
                push_str(&mut a, " sqm");
                assert(a@ =~= "Area: "@ + area_text(m as int) + " sqm"@);
                push_op(ops, ReceiptOp::Left(TextKind::ItemArea, string_of(&a), Indent::Item));
                assert(ops_view(ops@) =~= ops_view(old(ops)@) + item_ops(*it).take(3));
            } else {
                assert(ops_view(ops@) =~= ops_view(old(ops)@) + item_ops(*it).take(2));
            }
        },
        None => {
            assert(ops_view(ops@) =~= ops_view(old(ops)@) + item_ops(*it).take(2));
        },
    }
    let ghost before_gap = ops_view(ops@);
    assert(item_ops(*it) =~= item_ops(*it).take(item_ops(*it).len() - 1).push(OpView::Blank(6)));
    push_op(ops, ReceiptOp::Blank(6));
    assert(ops_view(ops@) =~= ops_view(old(ops)@) + item_ops(*it));
}

fn push_totals_ops(ops: &mut Vec<ReceiptOp>, inv: &Invoice)
    requires
        balance_representable(*inv),
    ensures
        ops_view(final(ops)@) == ops_view(old(ops)@) + totals_ops(*inv),
{
    push_op(ops, ReceiptOp::Blank(6));
    push_op(ops, ReceiptOp::DashedRule);
    push_op(ops, ReceiptOp::Blank(12));
    push_op(ops, ReceiptOp::TwoCol(text_of("Subtotal"), price(inv.subtotal), false, RowSize::Body));
    if inv.discount > 0 {
        let mut d: Vec<char> = Vec::new();
        d.push('-');
        push_price(&mut d, inv.discount);
        assert(d@ =~= seq!['-'] + price_text(inv.discount as int));
        push_op(ops, ReceiptOp::TwoCol(text_of("Discount"), string_of(&d), false, RowSize::Body));
    }
    push_op(ops, ReceiptOp::Blank(8));
    push_op(ops, ReceiptOp::SolidRule);
    push_op(ops, ReceiptOp::Blank(10));
    push_op(ops, ReceiptOp::TwoCol(text_of("TOTAL"), price(inv.total), true, RowSize::Total));
    push_op(ops, ReceiptOp::Blank(4));
    push_op(ops, ReceiptOp::SolidRule);
    push_op(ops, ReceiptOp::Blank(12));
    push_op(ops, ReceiptOp::TwoCol(text_of("Paid"), price(inv.amount_paid), false, RowSize::Body));
    if inv.amount_paid < inv.total {
        push_op(ops, ReceiptOp::TwoCol(text_of("Balance due"), price(inv.total - inv.amount_paid), true, RowSize::Body));
    }
    push_op(ops, ReceiptOp::TwoCol(text_of("Method"), text_of(inv.payment_method.as_str()), false, RowSize::Body));
    assert(ops_view(ops@) =~= ops_view(old(ops)@) + totals_ops(*inv));
}

fn push_notes_ops(ops: &mut Vec<ReceiptOp>, notes: &Option<String>)
    ensures
        ops_view(final(ops)@) == ops_view(old(ops)@) + notes_ops(*notes),
{
    match notes {
        Some(n) => {
            let t = trim_str(n.as_str());
            if t.len() > 0 {
                push_op(ops, ReceiptOp::Blank(12));
                push_op(ops, ReceiptOp::DashedRule);
                push_op(ops, ReceiptOp::Blank(10));
                push_op(ops, ReceiptOp::Left(TextKind::Notes, string_of(&t), Indent::Margin));
            }
        },
        None => {},
    }
    assert(ops_view(ops@) =~= ops_view(old(ops)@) + notes_ops(*notes));
}

fn push_footer_ops(ops: &mut Vec<ReceiptOp>)
    ensures
        ops_view(final(ops)@) == ops_view(old(ops)@) + footer_ops(),
{
    push_op(ops, ReceiptOp::Blank(20));
    push_op(ops, ReceiptOp::Centered(TextKind::Thanks, text_of("Thank you!")));
    push_op(ops, ReceiptOp::Centered(TextKind::Small, text_of("Developed by AZ Solutions")));
    push_op(ops, ReceiptOp::Centered(TextKind::Footnote, text_of("03311203090")));
    push_op(ops, ReceiptOp::Blank(MARGIN_Y_ROWS));
    assert(ops_view(ops@) =~= ops_view(old(ops)@) + footer_ops());
}

/// The raster receipt as drawing steps for a given date text.
pub fn receipt_layout_dated(inv: &Invoice, items: &[InvoiceItem], business: &ReceiptBusiness, date: &String) -> (r:
    Vec<ReceiptOp>)
    requires
        balance_representable(*inv),
    ensures
        ops_view(r@) == receipt_ops(*inv, items@, *business, date@),
{
    let mut ops: Vec<ReceiptOp> = Vec::new();
    push_header_ops(&mut ops, business);
    push_meta_ops(&mut ops, inv, date);
    let mut i: usize = 0;
    let ghost base = ops_view(ops@);
    assert(items@.take(0) =~= Seq::<InvoiceItem>::empty());
    while i < items.len()
        invariant
            i <= items@.len(),
            ops_view(ops@) == base + items_ops(items@.take(i as int)),
        decreases items@.len() - i,
    {
        assert(items@.take(i + 1).drop_last() =~= items@.take(i as int));
        assert(items@.take(i + 1).last() == items@[i as int]);
        push_item_ops(&mut ops, &items[i]);
        i = i + 1;
        assert(ops_view(ops@) =~= base + items_ops(items@.take(i as int)));
    }
    assert(items@.take(items@.len() as int) =~= items@);
    push_totals_ops(&mut ops, inv);
    push_notes_ops(&mut ops, &inv.notes);
    push_footer_ops(&mut ops);
    assert(ops_view(ops@) =~= receipt_ops(*inv, items@, *business, date@));
    ops
}

/// The full receipt layout: header, meta, items, totals, payment, notes,
/// footer, with the invoice date rendered by `timestamp`.
pub fn receipt_layout(inv: &Invoice, items: &[InvoiceItem], business: &ReceiptBusiness) -> (r: Vec<ReceiptOp>)
    requires
        balance_representable(*inv),
    ensures
        exists|local: Option<LocalStamp>|
            rfc3339_reading(local, inv.created_at@) && ops_view(r@) == receipt_ops(
                *inv,
                items@,
                *business,
                receipt_date_text(local, inv.created_at@),
            ),
{
    let date = timestamp(inv.created_at.as_str());
    receipt_layout_dated(inv, items, business, &date)
}

} // verus!
