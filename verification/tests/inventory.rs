use city_tiles_pos::services::inventory::{parse_area_milli, parse_category, parse_price, product_from_row, read_records,
    ImportState};

fn row(cells: &[&str]) -> Vec<String> {
    cells.iter().map(|c| c.to_string()).collect()
}

#[test]
fn prices_are_whole_rupees() {
    assert_eq!(parse_price("1,250"), 1250);
    assert_eq!(parse_price(" 4 500 "), 4500);
    assert_eq!(parse_price("12.50"), 1250);
    assert_eq!(parse_price("abc"), 0);
    assert_eq!(parse_price(""), 0);
}

#[test]
fn categories_fall_back_to_tiles() {
    assert_eq!(parse_category(" Marble "), "marble");
    assert_eq!(parse_category("SANITARY"), "sanitary");
    assert_eq!(parse_category("chips"), "chips");
    assert_eq!(parse_category("granite"), "tiles");
}

#[test]
fn a_row_describes_a_product_with_defaults() {
    let p = product_from_row(&row(&["Carrara", "", "marble"]));
    assert_eq!(p.name, "Carrara");
    assert_eq!(p.sku, None);
    assert_eq!(p.category, "marble");
    assert_eq!(p.unit, "pcs");
    assert_eq!(p.price, 0);
    assert_eq!(p.stock_qty, 0);
    assert_eq!(p.low_stock_threshold, 5);
    assert_eq!(p.is_published, 1);
    let q = product_from_row(&row(&[
        "Tile", "T-1", "tiles", "Glossy", "white", "60x60", "matte", "box", "1,200", "4", "0.32", "30", "3", "", "0",
    ]));
    assert_eq!(q.sku, Some("T-1".to_string()));
    assert_eq!(q.price, 1200);
    assert_eq!(q.pieces_per_carton, Some(4));
    assert_eq!(q.area_per_tile_milli, Some(320));
    assert_eq!(p.area_per_tile_milli, None);
    assert_eq!(q.stock_qty, 30);
    assert_eq!(q.low_stock_threshold, 3);
    assert_eq!(q.image_url, None);
    assert_eq!(q.is_published, 0);
    // Only `true` or a number other than 1 is read; other text publishes.
    let r = product_from_row(&row(&["Tile", "", "", "", "", "", "", "", "", "", "", "", "", "", " TRUE "]));
    assert_eq!(r.is_published, 1);
    let s = product_from_row(&row(&["Tile", "", "", "", "", "", "", "", "", "", "", "", "", "", "false"]));
    assert_eq!(s.is_published, 1);
}

#[test]
fn import_tally_counts_and_reports_rows() {
    let records = read_records("name,sku\nTile,T1\n , \nMarble,M1\n");
    assert_eq!(records.len(), 3);
    let mut st = ImportState::new();
    let mut made = Vec::new();
    for r in &records {
        if let Some(p) = st.take_record(r) {
            made.push(p);
        }
    }
    assert_eq!(made.len(), 2);
    st.take_insert_result(&Ok(()));
    st.take_insert_result(&Err("UNIQUE constraint failed".to_string()));
    let result = st.finish();
    assert_eq!(result.imported, 1);
    assert_eq!(result.errors, vec!["Row 2: UNIQUE constraint failed".to_string()]);
}

#[test]
fn malformed_records_are_reported() {
    let records = read_records("a,b\n1,2,3\n");
    let mut st = ImportState::new();
    assert!(st.take_record(&records[0]).is_none());
    let result = st.finish();
    assert_eq!(result.errors.len(), 1);
    assert!(result.errors[0].starts_with("CSV parse error: "));
}

#[test]
fn areas_are_read_in_thousandths_of_a_square_metre() {
    assert_eq!(parse_area_milli("0.32"), Some(320));
    assert_eq!(parse_area_milli("1.5"), Some(1500));
    assert_eq!(parse_area_milli("2"), Some(2000));
    assert_eq!(parse_area_milli(".125"), Some(125));
    assert_eq!(parse_area_milli("0.3604"), Some(360));
    assert_eq!(parse_area_milli("0.3606"), Some(361));
    assert_eq!(parse_area_milli("0.3125"), Some(312));
    assert_eq!(parse_area_milli("0.3135"), Some(314));
    assert_eq!(parse_area_milli("0.31250001"), Some(313));
    assert_eq!(parse_area_milli("+0.5"), Some(500));
    assert_eq!(parse_area_milli("-0.5"), Some(-500));
    assert_eq!(parse_area_milli("-"), None);
    assert_eq!(parse_area_milli("3."), Some(3000));
    assert_eq!(parse_area_milli("."), None);
    assert_eq!(parse_area_milli("abc"), None);
    assert_eq!(parse_area_milli("1.2.3"), None);
    assert_eq!(parse_area_milli("99999999999999999999"), None);
}
