use city_tiles_pos::clock::LocalStamp;
use city_tiles_pos::repositories::invoices::{Invoice, InvoiceItem};
use city_tiles_pos::services::invoice_pdf::{invoice_pdf_blocks_dated, pdf_date_with, pdf_file_name, pdf_title,
    sanitize_filename, PdfBlock};

fn invoice(discount: i64, paid: i64, notes: Option<&str>) -> Invoice {
    Invoice {
        id: "t".into(),
        invoice_no: "INV-2026-0042".into(),
        customer_id: None,
        customer_name: "Walk-in customer".into(),
        subtotal: 4500,
        discount,
        total: 4500 - discount,
        amount_paid: paid,
        payment_method: "cash".into(),
        notes: notes.map(|n| n.to_string()),
        delivery_date: None,
        created_at: "2026-08-23T14:35:00+00:00".into(),
        updated_at: "2026-08-23T14:35:00+00:00".into(),
    }
}

fn item(area: Option<i64>) -> InvoiceItem {
    InvoiceItem {
        id: "i".into(),
        invoice_id: "t".into(),
        product_id: None,
        product_name: "Glazed Tile".into(),
        quantity: 2,
        unit: "box".into(),
        unit_price: 2250,
        line_total: 4500,
        total_area_milli: area,
        created_at: String::new(),
    }
}

fn paragraphs(blocks: &[PdfBlock]) -> Vec<String> {
    blocks
        .iter()
        .filter_map(|b| match b {
            PdfBlock::Paragraph(s) => Some(s.clone()),
            PdfBlock::Break(_) => None,
        })
        .collect()
}

#[test]
fn file_names_lose_forbidden_characters() {
    assert_eq!(sanitize_filename("INV/2026:0042?"), "INV_2026_0042_");
    assert_eq!(sanitize_filename("a\\b*c\"d<e>f|g"), "a_b_c_d_e_f_g");
    assert_eq!(pdf_file_name("INV-2026-0042"), "invoice_INV-2026-0042.pdf");
    assert_eq!(pdf_title("INV-2026-0042"), "Invoice INV-2026-0042");
}

#[test]
fn pdf_lists_items_totals_and_notes() {
    let blocks = invoice_pdf_blocks_dated(&invoice(200, 3000, Some("Deliver Friday")), &[item(Some(1440))], "2026-08-23 02:35 PM");
    let p = paragraphs(&blocks);
    assert_eq!(p[0], "CITY TILES POS");
    assert_eq!(p[3], "Invoice No: INV-2026-0042");
    assert_eq!(p[4], "Date: 2026-08-23 02:35 PM");
    assert!(p.contains(&"2 x box Glazed Tile @ PKR 2250 = PKR 4500 [1.440 sqm]".to_string()));
    assert!(p.contains(&"Discount: -PKR 200".to_string()));
    assert!(p.contains(&"TOTAL: PKR 4300".to_string()));
    assert!(p.contains(&"Balance: PKR 1300".to_string()));
    assert_eq!(p[p.len() - 2], "Notes:");
    assert_eq!(p[p.len() - 1], "Deliver Friday");
}

#[test]
fn pdf_omits_empty_sections() {
    let blocks = invoice_pdf_blocks_dated(&invoice(0, 4500, Some("")), &[item(Some(0))], "2026-08-23");
    let p = paragraphs(&blocks);
    assert!(p.contains(&"2 x box Glazed Tile @ PKR 2250 = PKR 4500".to_string()));
    assert!(!p.iter().any(|s| s.starts_with("Discount")));
    assert!(!p.iter().any(|s| s.starts_with("Balance")));
    assert_eq!(p.last().unwrap(), "Payment Method: cash");
}

#[test]
fn pdf_date_falls_back_to_the_bare_date() {
    assert_eq!(pdf_date_with(None, "2026-08-23T14:35:00"), "2026-08-23");
    let t = LocalStamp { year: 2026, month: 8, day: 23, hour12: 2, minute: 35, pm: true };
    assert_eq!(pdf_date_with(Some(t), "ignored"), "2026-08-23 02:35 PM");
}
