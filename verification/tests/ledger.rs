use city_tiles_pos::services::retention::{purge_after_snapshot, purge_candidates, purge_first_step, AgedInvoice, PurgeStep};
use city_tiles_pos::services::reconciliation::{reconciled_balance, text_less, LedgerEntry};
use city_tiles_pos::error::AppError;
use city_tiles_pos::repositories::invoices::{apply_payment, customer_charge, format_document_no,
    format_invoice_no, invoice_list_query, next_counter, opening_balance, shortfall_error, stock_shortfalls,
    wanted_quantities, CreateInvoiceItemInput, InvoiceListQuery, SEARCH_CAP};
use city_tiles_pos::repositories::sales_returns::{adjust_for_return, check_returnable};
use city_tiles_pos::repositories::suppliers::{check_supplier_deletable, format_purchase_no,
    purchase_list_query, purchase_totals, PurchaseListQuery};

fn validation_text(e: AppError) -> String {
    match e {
        AppError::Validation(m) => m,
        other => panic!("expected a validation error, got {:?}", other),
    }
}

fn item(product_id: Option<&str>, quantity: i64) -> CreateInvoiceItemInput {
    CreateInvoiceItemInput {
        product_id: product_id.map(|s| s.to_string()),
        product_name: "Tile".into(),
        quantity,
        unit: "pcs".into(),
        unit_price: 10,
        line_total: 10 * quantity,
        purchase_price: 5,
        total_area_milli: None,
    }
}

#[test]
fn opening_balance_defaults_by_payment_method() {
    assert_eq!(opening_balance("cash", None, 5000), (5000, 0));
    assert_eq!(opening_balance("credit", None, 5000), (0, 5000));
    assert_eq!(opening_balance("credit", Some(1200), 5000), (1200, 3800));
    assert_eq!(opening_balance("cash", Some(9000), 5000), (5000, 0));
    assert_eq!(opening_balance("bank", Some(-50), 5000), (0, 5000));
}

#[test]
fn payments_are_applied_up_to_the_due() {
    assert_eq!(apply_payment(5000, 1000, 1500).unwrap(), (2500, 1500));
    assert_eq!(apply_payment(5000, 1000, 4000).unwrap(), (5000, 4000));
    assert_eq!(apply_payment(5000, 1000, 0).unwrap(), (1000, 0));
}

#[test]
fn overpayment_is_refused() {
    let e = apply_payment(5000, 1000, 4001).unwrap_err();
    assert_eq!(validation_text(e), "Payment 4001 exceeds remaining balance 4000");
    let e = apply_payment(5000, 6000, 1).unwrap_err();
    assert_eq!(validation_text(e), "Payment 1 exceeds remaining balance 0");
}

#[test]
fn customer_is_charged_only_a_positive_due() {
    assert_eq!(customer_charge(&Some("c1".into()), 300), Some(("c1".to_string(), 300)));
    assert_eq!(customer_charge(&Some("c1".into()), 0), None);
    assert_eq!(customer_charge(&None, 300), None);
}

#[test]
fn counters_continue_within_a_year_and_restart_in_a_new_one() {
    assert_eq!(next_counter(Some((2026, 41)), 2026), (2026, 42));
    assert_eq!(next_counter(Some((2025, 900)), 2026), (2026, 1));
    assert_eq!(next_counter(None, 2026), (2026, 1));
}

#[test]
fn document_numbers_are_zero_padded() {
    assert_eq!(format_invoice_no(2026, 42), "INV-2026-0042");
    assert_eq!(format_purchase_no(2026, 7), "PO-2026-0007");
    assert_eq!(format_document_no("INV", 2026, 12345), "INV-2026-12345");
}

#[test]
fn list_queries_pick_search_or_page() {
    match invoice_list_query(50, 0, Some("  inv-2026 ")) {
        InvoiceListQuery::Search { text, cap } => {
            assert_eq!(text, "inv-2026");
            assert_eq!(cap, SEARCH_CAP);
        }
        _ => panic!("expected a search"),
    }
    assert!(matches!(invoice_list_query(20, 40, Some("   ")), InvoiceListQuery::Page { limit: 20, offset: 40 }));
    assert!(matches!(invoice_list_query(20, 40, None), InvoiceListQuery::Page { limit: 20, offset: 40 }));
    match purchase_list_query(50, 0, Some("cement"), Some(" s-1 ")) {
        PurchaseListQuery::BySupplier { supplier_id, cap } => {
            assert_eq!(supplier_id, "s-1");
            assert_eq!(cap, SEARCH_CAP);
        }
        _ => panic!("expected the supplier filter"),
    }
    assert!(matches!(purchase_list_query(50, 0, Some("cement"), Some("")), PurchaseListQuery::Search { .. }));
}

#[test]
fn wanted_quantities_sum_per_product_in_first_seen_order() {
    let items = vec![item(Some("b"), 2), item(None, 5), item(Some("a"), 1), item(Some("b"), 3)];
    assert_eq!(wanted_quantities(&items), vec![("b".to_string(), 5), ("a".to_string(), 1)]);
}

#[test]
fn stock_guard_names_every_short_product() {
    let wanted = vec![("b".to_string(), 5), ("a".to_string(), 1), ("c".to_string(), 4)];
    let stock = vec![Some(("Blue Tile".to_string(), 3)), Some(("Amber".to_string(), 1)), None];
    let short = stock_shortfalls(&wanted, &stock);
    assert_eq!(short, vec!["\"Blue Tile\" \u{2014} in stock: 3, tried: 5".to_string()]);
    let e = shortfall_error(&short).unwrap();
    assert_eq!(validation_text(e), "Not enough stock: \"Blue Tile\" \u{2014} in stock: 3, tried: 5");
    assert!(shortfall_error(&Vec::new()).is_none());
}

#[test]
fn over_returns_are_refused() {
    assert!(check_returnable(2, "pcs", 5, 3).is_ok());
    let e = check_returnable(3, "pcs", 5, 3).unwrap_err();
    assert_eq!(validation_text(e), "Cannot return 3 pcs: only 2 remain returnable on this invoice");
    let e = check_returnable(1, "box", 2, 4).unwrap_err();
    assert_eq!(validation_text(e), "Cannot return 1 box: only 0 remain returnable on this invoice");
}

#[test]
fn a_return_lowers_totals_and_never_raises_the_due() {
    let a = adjust_for_return(4500, 4300, 3000, 500);
    assert_eq!((a.new_subtotal, a.new_total, a.new_paid, a.due_delta), (4000, 3800, 3000, -500));
    let b = adjust_for_return(4500, 4300, 4300, 1000);
    assert_eq!((b.new_subtotal, b.new_total, b.new_paid, b.due_delta), (3500, 3300, 3300, 0));
    let c = adjust_for_return(100, 100, 50, 400);
    assert_eq!((c.new_subtotal, c.new_total, c.new_paid, c.due_delta), (0, 0, 0, -50));
}

#[test]
fn purchases_total_is_subtotal_less_discount() {
    assert_eq!(purchase_totals(10000, 500, None), (9500, 0, 9500));
    assert_eq!(purchase_totals(10000, 500, Some(2000)), (9500, 2000, 7500));
    assert_eq!(purchase_totals(10000, 500, Some(20000)), (9500, 9500, 0));
    assert_eq!(purchase_totals(10000, 500, Some(-5)), (9500, 0, 9500));
}

#[test]
fn suppliers_with_a_balance_cannot_be_deleted() {
    assert!(check_supplier_deletable(0).is_ok());
    let e = check_supplier_deletable(-250).unwrap_err();
    assert_eq!(validation_text(e), "Cannot delete supplier with non-zero balance of PKR -250");
}

#[test]
fn balances_reconcile_to_the_latest_open_invoice() {
    let e = |total: i64, paid: i64, carried: bool, at: &str| LedgerEntry {
        total,
        amount_paid: paid,
        carried_forward: carried,
        created_at: at.to_string(),
    };
    assert_eq!(reconciled_balance(&vec![]), 0);
    assert_eq!(reconciled_balance(&vec![e(100, 100, false, "2026-01-01")]), 0);
    let entries = vec![
        e(500, 100, false, "2026-01-05T10:00:00+00:00"),
        e(900, 200, true, "2026-03-01T10:00:00+00:00"),
        e(300, 50, false, "2026-02-01T10:00:00+00:00"),
        e(800, 800, false, "2026-04-01T10:00:00+00:00"),
    ];
    assert_eq!(reconciled_balance(&entries), 250);
    assert!(text_less("2026-01-31", "2026-02-01"));
    assert!(!text_less("2026-02-01", "2026-02-01"));
    assert!(text_less("2026", "2026-01"));
}

#[test]
fn only_settled_invoices_are_purged() {
    let inv = |id: &str, total: i64, paid: i64| AgedInvoice { id: id.to_string(), total, amount_paid: paid };
    let aged = vec![inv("a", 100, 100), inv("b", 100, 40), inv("c", 0, 0), inv("d", 50, 80), inv("e", 10, 0)];
    assert_eq!(purge_candidates(&aged), vec!["a".to_string(), "c".to_string(), "d".to_string()]);
    assert!(purge_candidates(&vec![inv("x", 5, 4)]).is_empty());
}

fn aged_inv(id: &str, total: i64, paid: i64) -> AgedInvoice {
    AgedInvoice { id: id.to_string(), total, amount_paid: paid }
}

#[test]
fn a_purge_with_nothing_settled_does_nothing() {
    let aged = vec![aged_inv("x", 5, 4), aged_inv("y", 10, 0)];
    assert!(matches!(purge_first_step(&aged), PurgeStep::Nothing));
    assert!(matches!(purge_first_step(&Vec::new()), PurgeStep::Nothing));
}

#[test]
fn a_purge_snapshots_before_deleting_the_settled() {
    let aged = vec![aged_inv("a", 5, 5), aged_inv("b", 5, 4), aged_inv("c", 0, 0)];
    let ids = match purge_first_step(&aged) {
        PurgeStep::Snapshot(ids) => ids,
        other => panic!("unexpected step {:?}", other),
    };
    assert_eq!(ids, vec!["a".to_string(), "c".to_string()]);
    match purge_after_snapshot(ids.clone(), &Ok(())) {
        PurgeStep::Delete(d) => assert_eq!(d, ids),
        other => panic!("unexpected step {:?}", other),
    }
}

#[test]
fn a_failed_snapshot_aborts_the_purge() {
    match purge_after_snapshot(vec!["a".to_string()], &Err("disk full".to_string())) {
        PurgeStep::Abort(AppError::Internal(m)) => {
            assert_eq!(m, "Retention aborted: could not snapshot before deleting (disk full)")
        }
        other => panic!("unexpected step {:?}", other),
    }
}

#[test]
fn numbers_drawn_in_a_row_are_consecutive() {
    let first = next_counter(Some((2026, 41)), 2026);
    assert_eq!(first, (2026, 42));
    let second = next_counter(Some(first), 2026);
    assert_eq!(second, (2026, 43));
    assert_eq!(format_invoice_no(first.0, first.1), "INV-2026-0042");
    assert_eq!(format_invoice_no(second.0, second.1), "INV-2026-0043");
    assert_eq!(next_counter(Some((2025, 900)), 2026), (2026, 1));
    assert_eq!(next_counter(None, 2026), (2026, 1));
}

#[test]
fn a_guarded_sale_leaves_no_stock_below_zero() {
    let items = vec![item(Some("a"), 3), item(Some("b"), 2), item(Some("a"), 2)];
    let wanted = wanted_quantities(&items);
    let stock = vec![Some(("A".to_string(), 5)), Some(("B".to_string(), 2))];
    assert!(stock_shortfalls(&wanted, &stock).is_empty());
    for ((_, w), s) in wanted.iter().zip(stock.iter()) {
        assert!(s.as_ref().unwrap().1 - w >= 0);
    }
}

#[test]
fn a_second_purge_finds_nothing() {
    let aged = vec![aged_inv("a", 5, 5), aged_inv("b", 5, 4), aged_inv("c", 9, 0)];
    let left: Vec<AgedInvoice> = aged.into_iter().filter(|i| i.amount_paid < i.total).collect();
    assert_eq!(left.len(), 2);
    assert!(matches!(purge_first_step(&left), PurgeStep::Nothing));
}
