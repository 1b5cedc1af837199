use city_tiles_pos::clock::format_timestamp;
use city_tiles_pos::repositories::invoices::{Invoice, InvoiceItem};
use city_tiles_pos::services::print::{first_bulk_out, EndpointInfo, build_escpos_receipt, build_text_receipt, center_wrapped, format_price,
    is_known_printer, is_printer_device, rule, two_col, ReceiptBusiness, DEFAULT_BUSINESS_ADDRESS,
    DEFAULT_BUSINESS_NAME, RECEIPT_WIDTH};

#[test]
fn two_col_aligns_amounts_right() {
    let row = two_col("Subtotal", "PKR 100");
    assert_eq!(row.trim_end().chars().count(), RECEIPT_WIDTH);
    assert!(row.ends_with("PKR 100\n"));
}

#[test]
fn center_wraps_long_addresses_on_word_boundaries() {
    let out = center_wrapped(DEFAULT_BUSINESS_ADDRESS);
    for line in out.lines() {
        assert!(line.chars().count() <= RECEIPT_WIDTH);
    }
    assert_eq!(out.split_whitespace().collect::<Vec<_>>().join(" "), DEFAULT_BUSINESS_ADDRESS);
}

#[test]
fn timestamp_parses_iso_and_keeps_fallback() {
    assert_eq!(format_timestamp("2026-08-23T14:35:00"), "2026-08-23 14:35");
    let expected = chrono::DateTime::parse_from_rfc3339("2026-08-23T14:35:00.123456+00:00")
        .unwrap()
        .with_timezone(&chrono::Local)
        .format("%Y-%m-%d %I:%M %p")
        .to_string();
    assert_eq!(format_timestamp("2026-08-23T14:35:00.123456+00:00"), expected);
    assert_eq!(format_timestamp("2026-08-23"), "2026-08-23");
}

#[test]
fn two_col_wraps_a_long_left_column() {
    let left = "A very long product description that cannot possibly fit on one line";
    let row = two_col(left, "PKR 4500");
    let lines: Vec<&str> = row.lines().collect();
    assert!(lines.len() > 1);
    assert_eq!(lines[0].chars().count(), RECEIPT_WIDTH - ("PKR 4500".len() + 1));
    assert!(row.ends_with("PKR 4500\n"));
    assert_eq!(lines.last().unwrap().chars().count(), RECEIPT_WIDTH);
}

#[test]
fn centering_pads_short_lines() {
    assert_eq!(center_wrapped("Thank you!"), format!("{}Thank you!\n", " ".repeat(19)));
    assert_eq!(center_wrapped("a\n\nb"), format!("{}a\n\n{}b\n", " ".repeat(23), " ".repeat(23)));
}

#[test]
fn price_and_rule_texts() {
    assert_eq!(format_price(4300), "PKR 4300");
    assert_eq!(format_price(-15), "PKR -15");
    assert_eq!(rule('-'), format!("{}\n", "-".repeat(48)));
}

#[test]
fn printer_recognition() {
    assert!(is_known_printer(0x0416, 0x5011));
    assert!(!is_known_printer(0x1234, 0x5678));
    assert!(is_printer_device(7, 0x1234, 0x5678));
}

fn sample() -> (Invoice, Vec<InvoiceItem>) {
    let inv = Invoice {
        id: "t".into(),
        invoice_no: "INV-2026-0042".into(),
        customer_id: None,
        customer_name: "Walk-in customer".into(),
        subtotal: 4500,
        discount: 200,
        total: 4300,
        amount_paid: 3000,
        payment_method: "cash".into(),
        notes: Some("Deliver before Friday".into()),
        delivery_date: None,
        created_at: "2026-08-23".into(),
        updated_at: "2026-08-23".into(),
    };
    let items = vec![InvoiceItem {
        id: "i".into(),
        invoice_id: "t".into(),
        product_id: None,
        product_name: "Glazed Ceramic Floor Tile 60x60".into(),
        quantity: 2,
        unit: "sqft".into(),
        unit_price: 2250,
        line_total: 4500,
        total_area_milli: None,
        created_at: String::new(),
    }];
    (inv, items)
}

#[test]
fn text_receipt_lists_totals_and_balance() {
    let (inv, items) = sample();
    let text = build_text_receipt(&inv, &items);
    assert!(text.contains(DEFAULT_BUSINESS_NAME));
    assert!(text.contains("INV-2026-0042"));
    assert!(text.contains("2 x sqft Glazed Ceramic"));
    assert!(text.contains("PKR 4300\n"));
    assert!(text.contains("PKR 1300\n"));
    assert!(text.contains("Deliver before Friday"));
}

#[test]
fn escpos_receipt_starts_with_init_and_ends_with_cut() {
    let (inv, items) = sample();
    let bytes = build_escpos_receipt(&inv, &items, &ReceiptBusiness::default());
    assert_eq!(&bytes[0..2], &[0x1B, b'@']);
    assert_eq!(&bytes[bytes.len() - 3..], &[0x1D, b'V', 0x01]);
}

#[test]
fn receipts_go_to_the_first_bulk_out_endpoint() {
    let ep = |interface_number: u8, address: u8, bulk: bool, out: bool| EndpointInfo { interface_number, address, bulk, out };
    assert_eq!(first_bulk_out(&vec![]), None);
    assert_eq!(first_bulk_out(&vec![ep(0, 0x81, true, false), ep(0, 0x83, false, true)]), None);
    assert_eq!(
        first_bulk_out(&vec![ep(0, 0x81, true, false), ep(1, 0x02, true, true), ep(2, 0x03, true, true)]),
        Some((1, 0x02))
    );
}

#[test]
fn receipts_print_a_long_rfc3339_timestamp() {
    let (mut inv, items) = sample();
    inv.created_at = "2026-08-23T14:35:00.123456789123456789123456789+00:00".into();
    assert!(inv.created_at.chars().count() >= 47);
    let shown = format_timestamp(&inv.created_at);
    assert!(shown.chars().count() <= 22);
    let text = build_text_receipt(&inv, &items);
    assert!(text.contains(&shown));
    let bytes = build_escpos_receipt(&inv, &items, &ReceiptBusiness::default());
    assert_eq!(&bytes[bytes.len() - 3..], &[0x1D, b'V', 0x01]);
}
