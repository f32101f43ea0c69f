use inventorix_server::auth::extractor::{AuthUser, Role};
use inventorix_server::error::AppError;
use inventorix_server::routes::import::{
    authorize_import, authorize_import_page, begin_import, check_header, check_upload_name, classify_rows, end_import,
    read_first_sheet,
};

fn auth(role: Role) -> AuthUser {
    AuthUser { id: 2, role, branch_id: 1, name: "Alice".to_string() }
}

fn make_xlsx(items: &[(&str, i64)]) -> Vec<u8> {
    let mut wb = rust_xlsxwriter::Workbook::new();
    let ws = wb.add_worksheet();
    for (col, h) in ["ROW", "ITEM NUMBER", "COLLECTION", "GTS DESCRIPTION", "NEW BIN", "QTY", "Overflow Rack", "Order #", "Notes"]
        .iter()
        .enumerate()
    {
        ws.write_string(0, col as u16, *h).unwrap();
    }
    for (i, (item, qty)) in items.iter().enumerate() {
        let row = (i + 1) as u32;
        ws.write_string(row, 1, *item).unwrap();
        ws.write_number(row, 5, *qty as f64).unwrap();
    }
    wb.save_to_buffer().unwrap()
}

fn qtys_of(rows: &[Vec<String>]) -> Vec<Option<i64>> {
    rows.iter()
        .map(|r| r.get(5).and_then(|c| c.trim().parse::<f64>().ok()).map(|f| f as i64))
        .collect()
}

fn row(cells: &[&str]) -> Vec<String> {
    cells.iter().map(|c| c.to_string()).collect()
}

#[test]
fn who_may_import() {
    assert!(authorize_import_page(&auth(Role::Admin)).is_ok());
    assert!(authorize_import_page(&auth(Role::Coordinator)).is_ok());
    assert!(matches!(authorize_import_page(&auth(Role::SalesRep)), Err(AppError::Forbidden)));
    assert!(authorize_import(&auth(Role::Coordinator)).is_ok());
    assert!(matches!(authorize_import(&auth(Role::SalesRep)), Err(AppError::Forbidden)));
}

#[test]
fn import_lock_refuses_a_second_import() {
    let mut running = false;
    assert!(begin_import(&mut running).is_ok());
    assert!(running);
    match begin_import(&mut running) {
        Err(AppError::Conflict(m)) => assert_eq!(m, "Import already in progress"),
        other => panic!("unexpected {other:?}"),
    }
    end_import(&mut running);
    assert!(!running);
    assert!(begin_import(&mut running).is_ok());
}

#[test]
fn xls_extension_is_rejected() {
    match check_upload_name("inventory.xls") {
        Err(AppError::ValidationError(m)) => {
            assert_eq!(m, "Legacy .xls format not supported — please save as .xlsx first.")
        }
        other => panic!("unexpected {other:?}"),
    }
    assert!(check_upload_name("INVENTORY.XLS").is_err());
    assert!(check_upload_name("inventory.xlsx").is_ok());
    assert!(check_upload_name("inventory.XLSX").is_ok());
    assert!(check_upload_name("inventory").is_ok());
}

#[test]
fn valid_xlsx_upserts_tiles() {
    let bytes = make_xlsx(&[("ITEM-001", 10), ("ITEM-002", 5), ("ITEM-003", 0)]);
    let rows = read_first_sheet(&bytes).expect("readable");
    assert_eq!(rows.len(), 4);
    assert_eq!(rows[1][1], "ITEM-001");
    assert_eq!(rows[1][5], "10");
    assert!(check_header(&rows).is_ok());
    let plan = classify_rows(&rows, &qtys_of(&rows));
    let got: Vec<(&str, i64)> = plan.records.iter().map(|r| (r.item_number.as_str(), r.qty)).collect();
    assert_eq!(got, vec![("ITEM-001", 10), ("ITEM-002", 5), ("ITEM-003", 0)]);
    assert_eq!((plan.skipped, plan.errors.len()), (0, 0));
}

#[test]
fn unreadable_upload_is_a_validation_error() {
    match read_first_sheet(b"not-real-xlsx") {
        Err(AppError::ValidationError(m)) => assert!(m.starts_with("Cannot open file: "), "{m}"),
        other => panic!("unexpected {other:?}"),
    }
}

#[test]
fn missing_required_column_is_rejected() {
    let mut wb = rust_xlsxwriter::Workbook::new();
    let ws = wb.add_worksheet();
    ws.write_string(0, 0, "WRONG").unwrap();
    ws.write_string(0, 1, "HEADERS").unwrap();
    ws.write_string(0, 2, "EVERYWHERE").unwrap();
    let bytes = wb.save_to_buffer().unwrap();
    let rows = read_first_sheet(&bytes).expect("readable");
    match check_header(&rows) {
        Err(AppError::ValidationError(m)) => assert_eq!(m, "Column 2 expected to contain 'ITEM', got 'HEADERS'"),
        other => panic!("unexpected {other:?}"),
    }
}

#[test]
fn header_checks_in_order() {
    assert!(matches!(check_header(&vec![]), Err(AppError::ValidationError(m)) if m == "Sheet is empty"));
    let no_qty = vec![row(&["#", " item number ", "", "", "", "amount"])];
    match check_header(&no_qty) {
        Err(AppError::ValidationError(m)) => assert_eq!(m, "Column 6 expected to contain 'QTY', got 'AMOUNT'"),
        other => panic!("unexpected {other:?}"),
    }
    let short = vec![row(&["#", "Item"])];
    match check_header(&short) {
        Err(AppError::ValidationError(m)) => assert_eq!(m, "Column 6 expected to contain 'QTY', got ''"),
        other => panic!("unexpected {other:?}"),
    }
    assert!(check_header(&vec![row(&["", "tile item #", "", "", "", "qty on hand"])]).is_ok());
}

#[test]
fn rows_are_classified() {
    let rows = vec![
        row(&["ROW", "ITEM NUMBER", "COLLECTION", "GTS", "BIN", "QTY", "OVERFLOW", "ORDER", "NOTES"]),
        row(&["1", " ITEM-1 ", " Marble ", "", "B2", "12.9", "y", "PO-7", "  "]),
        row(&["2", "", "x", "", "", "5"]),
        row(&["3", "ITEM-3", "", "", "", "lots"]),
        row(&["4", "ITEM-4", "", "", "", "   "]),
        row(&["5", "ITEM-5"]),
    ];
    let plan = classify_rows(&rows, &qtys_of(&rows));
    assert_eq!(plan.records.len(), 3);
    let r = &plan.records[0];
    assert_eq!(r.item_number, "ITEM-1");
    assert_eq!(r.collection.as_deref(), Some("Marble"));
    assert_eq!(r.gts_description, None);
    assert_eq!(r.new_bin.as_deref(), Some("B2"));
    assert_eq!(r.qty, 12);
    assert_eq!(r.overflow_rack, 1);
    assert_eq!(r.order_number.as_deref(), Some("PO-7"));
    assert_eq!(r.notes, None);
    assert_eq!((plan.records[1].item_number.as_str(), plan.records[1].qty), ("ITEM-4", 0));
    assert_eq!((plan.records[2].item_number.as_str(), plan.records[2].qty), ("ITEM-5", 0));
    assert_eq!(plan.skipped, 2);
    assert_eq!(plan.errors, vec!["Row 4: invalid qty 'lots' for 'ITEM-3' — skipped".to_string()]);
}

#[test]
fn reimport_updates_existing_tile() {
    let first = read_first_sheet(&make_xlsx(&[("ITEM-001", 10)])).unwrap();
    let second = read_first_sheet(&make_xlsx(&[("ITEM-001", 99)])).unwrap();
    let a = classify_rows(&first, &qtys_of(&first));
    let b = classify_rows(&second, &qtys_of(&second));
    assert_eq!((a.records[0].item_number.as_str(), a.records[0].qty), ("ITEM-001", 10));
    assert_eq!((b.records[0].item_number.as_str(), b.records[0].qty), ("ITEM-001", 99));
}

#[test]
fn repeated_item_keeps_both_rows_in_sheet_order() {
    let rows = vec![
        row(&["ROW", "ITEM NUMBER", "C", "D", "E", "QTY"]),
        row(&["1", "ITEM-9", "", "", "", "3"]),
        row(&["2", "", "", "", "", "4"]),
        row(&["3", "ITEM-9", "", "", "", "7"]),
    ];
    let plan = classify_rows(&rows, &qtys_of(&rows));
    let recs: Vec<(&str, i64)> = plan.records.iter().map(|r| (r.item_number.as_str(), r.qty)).collect();
    assert_eq!(recs, vec![("ITEM-9", 3), ("ITEM-9", 7)]);
    assert_eq!(plan.skipped, 1);
    assert_eq!(plan.records.len() + plan.skipped, 3);
}
