use city_tiles_pos::clock::UtcStamp;
use city_tiles_pos::commands::cashiers::{status_for, CashierDecision};
use city_tiles_pos::commands::customers::{CreateCustomerInputCmd, UpdateCustomerInput};
use city_tiles_pos::commands::invoices::{check_payment_amount, create_invoice_input, page_or_default,
    validate_create_invoice, CreateInvoiceInputCmd, CreateInvoiceItemInputCmd};
use city_tiles_pos::commands::products::CreateProductInputCmd;
use city_tiles_pos::commands::reports::{sales_report_range_at, SalesReportInput, SalesReportItem};
use city_tiles_pos::commands::sales_returns::CreateReturnInputCmd;
use city_tiles_pos::commands::suppliers::{create_purchase_input, supplier_record, validate_create_purchase,
    CreatePurchaseInputCmd, CreatePurchaseItemInputCmd};
use city_tiles_pos::error::AppError;

fn validation_text<T: std::fmt::Debug>(r: Result<T, AppError>) -> String {
    match r {
        Err(AppError::Validation(m)) => m,
        other => panic!("expected a validation error, got {:?}", other),
    }
}

fn line(name: &str, quantity: i64, unit_price: i64, line_total: i64) -> CreateInvoiceItemInputCmd {
    CreateInvoiceItemInputCmd {
        product_id: Some("p1".into()),
        product_name: name.into(),
        quantity,
        unit: "box".into(),
        unit_price,
        line_total,
        purchase_price: 100,
        total_area_milli: Some(1440),
    }
}

fn invoice(discount: i64, subtotal: i64, paid: Option<i64>, items: Vec<CreateInvoiceItemInputCmd>) -> CreateInvoiceInputCmd {
    CreateInvoiceInputCmd {
        customer_id: None,
        customer_name: "Walk-in".into(),
        subtotal,
        discount,
        total: subtotal - discount,
        amount_paid: paid,
        payment_method: "cash".into(),
        notes: None,
        delivery_date: None,
        items,
    }
}

#[test]
fn invoice_checks_come_in_order() {
    assert!(validate_create_invoice(&invoice(0, 500, None, vec![line("Tile", 2, 250, 500)])).is_ok());
    assert_eq!(validation_text(validate_create_invoice(&invoice(-1, -5, Some(-1), vec![]))),
        "Discount cannot be negative");
    assert_eq!(validation_text(validate_create_invoice(&invoice(0, -5, Some(-1), vec![]))),
        "Invoice amounts cannot be negative");
    assert_eq!(validation_text(validate_create_invoice(&invoice(10, 5, None, vec![]))),
        "Invoice amounts cannot be negative");
    assert_eq!(validation_text(validate_create_invoice(&invoice(0, 5, Some(-1), vec![]))),
        "Amount paid cannot be negative");
    let items = vec![line("Good", 1, 1, 1), line("Zero Tile", 0, 1, 0), line("Neg", 1, -1, 1)];
    assert_eq!(validation_text(validate_create_invoice(&invoice(0, 5, None, items))),
        "Zero Tile: quantity must be at least 1");
    let items = vec![line("Neg", 1, 5, -5)];
    assert_eq!(validation_text(validate_create_invoice(&invoice(0, 5, None, items))),
        "Neg: amounts cannot be negative");
}

#[test]
fn invoice_command_maps_onto_the_repository_input() {
    let cmd = invoice(50, 500, Some(100), vec![line("Tile", 2, 250, 500)]);
    let input = create_invoice_input(cmd);
    assert_eq!(input.total, 450);
    assert_eq!(input.amount_paid, Some(100));
    assert_eq!(input.items.len(), 1);
    assert_eq!(input.items[0].product_name, "Tile");
    assert_eq!(input.items[0].total_area_milli, Some(1440));
    assert_eq!(input.items[0].purchase_price, 100);
}

#[test]
fn payments_must_be_positive() {
    assert!(check_payment_amount(1).is_ok());
    assert_eq!(validation_text(check_payment_amount(0)), "Payment amount must be greater than zero");
    assert_eq!(validation_text(check_payment_amount(-3)), "Payment amount must be greater than zero");
}

#[test]
fn listing_defaults_to_fifty_from_the_start() {
    assert_eq!(page_or_default(None, None), (50, 0));
    assert_eq!(page_or_default(Some(10), Some(30)), (10, 30));
}

fn purchase(discount: i64, subtotal: i64, total: i64, items: Vec<CreatePurchaseItemInputCmd>) -> CreatePurchaseInputCmd {
    CreatePurchaseInputCmd {
        supplier_id: "s1".into(),
        supplier_name: "Cement Co".into(),
        subtotal,
        discount,
        total,
        amount_paid: None,
        payment_method: "credit".into(),
        notes: None,
        items,
    }
}

fn pline(description: &str, quantity: i64) -> CreatePurchaseItemInputCmd {
    CreatePurchaseItemInputCmd {
        description: description.into(),
        quantity,
        unit: "bag".into(),
        unit_price: 10,
        line_total: 10 * quantity,
    }
}

#[test]
fn purchase_checks_come_in_order() {
    assert!(validate_create_purchase(&purchase(0, 100, 100, vec![pline("Cement", 10)])).is_ok());
    assert_eq!(validation_text(validate_create_purchase(&purchase(-1, 100, 100, vec![]))),
        "Discount cannot be negative");
    assert_eq!(validation_text(validate_create_purchase(&purchase(200, 100, 100, vec![]))),
        "Discount cannot exceed subtotal");
    assert_eq!(validation_text(validate_create_purchase(&purchase(0, 100, -1, vec![]))),
        "Purchase amounts cannot be negative");
    assert_eq!(validation_text(validate_create_purchase(&purchase(0, 100, 100, vec![]))),
        "Purchase must have at least one line item");
    assert_eq!(validation_text(validate_create_purchase(&purchase(0, 100, 100, vec![pline("Sand", 0)]))),
        "Sand: quantity must be at least 1");
    let input = create_purchase_input(purchase(0, 100, 100, vec![pline("Cement", 10)]));
    assert_eq!(input.items[0].line_total, 100);
    assert_eq!(input.supplier_name, "Cement Co");
}

#[test]
fn supplier_names_are_trimmed_and_required() {
    let s = supplier_record("  Cement Co  ", None, None, Some("CC".into()), None, None).unwrap();
    assert_eq!(s.name, "Cement Co");
    assert_eq!(s.company, Some("CC".to_string()));
    assert_eq!(validation_text(supplier_record(" \t ", None, None, None, None, None)), "Supplier name is required");
}

#[test]
fn products_are_published_unless_asked_otherwise() {
    let cmd = |p: Option<bool>| CreateProductInputCmd {
        name: "Marble".into(),
        sku: None,
        category: "marble".into(),
        description: "White".into(),
        color: None,
        size: None,
        finish: None,
        unit: "sqft".into(),
        price: 900,
        pieces_per_carton: None,
        stock_qty: 10,
        low_stock_threshold: 2,
        image_url: None,
        is_published: p,
    };
    assert_eq!(cmd(None).into_record().is_published, 1);
    assert_eq!(cmd(Some(true)).into_record().is_published, 1);
    let r = cmd(Some(false)).into_record();
    assert_eq!(r.is_published, 0);
    assert_eq!(r.description, Some("White".to_string()));
    assert_eq!(r.company, None);
}

#[test]
fn customer_and_return_commands_carry_their_fields() {
    let c = CreateCustomerInputCmd { name: "Ali".into(), phone: Some("1".into()), email: None, address: None }
        .into_record();
    assert_eq!(c.name, "Ali");
    let (id, u) = UpdateCustomerInput { id: "c9".into(), name: "Ali K".into(), phone: None, email: None, address: None }
        .into_record();
    assert_eq!((id.as_str(), u.name.as_str()), ("c9", "Ali K"));
    let r = CreateReturnInputCmd {
        invoice_id: "i1".into(),
        product_id: None,
        product_name: "Tile".into(),
        quantity: 2,
        unit: "pcs".into(),
        unit_price: 50,
        line_total: 100,
        reason: "broken".into(),
    }
    .into_record("u7".into());
    assert_eq!(r.processed_by, "u7");
    assert_eq!(r.line_total, 100);
}

#[test]
fn cashier_decisions_set_statuses() {
    assert_eq!(status_for(CashierDecision::Approve), "approved");
    assert_eq!(status_for(CashierDecision::Reject), "rejected");
    assert_eq!(status_for(CashierDecision::Suspend), "suspended");
}

#[test]
fn sales_report_defaults_to_the_current_month() {
    let now = UtcStamp { year: 2026, month: 8, day: 23, hour: 14, minute: 35, second: 0 };
    let (from, to) = sales_report_range_at(SalesReportInput { from_date: None, to_date: None }, now);
    assert_eq!((from.as_str(), to.as_str()), ("2026-08-01", "2026-08-23"));
    let (from, to) = sales_report_range_at(
        SalesReportInput { from_date: Some("2026-01-01".into()), to_date: Some("2026-01-31".into()) },
        now,
    );
    assert_eq!((from.as_str(), to.as_str()), ("2026-01-01", "2026-01-31"));
    assert_eq!(SalesReportItem::from_row(None, 1, 2, 3, 4, 5).date, "");
}
