//! The inventory export: the worksheet of a branch's tiles (written with
//! rust_xlsxwriter), the digest of today's changes and empty bins, and the
//! names of the files it produces.
use vstd::prelude::*;
use crate::auth::extractor::{AuthUser, Role};
use crate::datetime::{is_day_text, utc_date_days_ago};
use crate::error::{AppError, Refusal, verdict};
use crate::text::{has_prefix, int_decimal, owned, push_int, text_starts_with};
use rust_xlsxwriter::{Format, Workbook, Worksheet};

verus! {

#[verifier::external_type_specification]
#[verifier::external_body]
pub struct ExWorksheet(Worksheet);

#[verifier::external_type_specification]
#[verifier::external_body]
pub struct ExFormat(Format);

/// A cell position: zero-based row and column.
#[derive(Clone, Copy, PartialEq, Eq, Debug)]
pub struct CellAt {
    pub row: u32,
    pub col: u16,
}

/// The text cells of a worksheet, by position.
pub uninterp spec fn sheet_texts(ws: Worksheet) -> Map<CellAt, Seq<char>>;

/// The number cells of a worksheet, by position, each with the integer
/// nearest its value.
pub uninterp spec fn sheet_numbers(ws: Worksheet) -> Map<CellAt, int>;

/// Excel's sheet size: rows below 1,048,576, columns below 16,384.
pub open spec fn in_excel_range(at: CellAt) -> bool {
    at.row < 1048576 && at.col < 16384
}

/// A text that a write stores: not empty, and within Excel's 32,767 characters.
pub open spec fn stored_text(t: Seq<char>) -> bool {
    0 < t.len() <= 32767
}

/// An empty worksheet.
/// Trusted: `Worksheet::new` holds no cells.
#[verifier::external_body]
fn new_sheet() -> (ws: Worksheet)
    ensures
        sheet_texts(ws).dom().is_empty(),
        sheet_numbers(ws).dom().is_empty(),
{
    Worksheet::new()
}

/// The bold format of the header row.
/// Trusted: `Format::new().set_bold()`; nothing is claimed of the value.
#[verifier::external_body]
fn bold_format() -> Format {
    Format::new().set_bold()
}

/// Writes `text` at `at`; true when the write succeeded.
/// Trusted: `Worksheet::write_string`. From its source (`store_string`): an
/// empty text is ignored and succeeds; a position outside Excel's range, or a
/// text over 32,767 characters, fails and stores nothing; otherwise the text
/// replaces whatever the cell held.
#[verifier::external_body]
fn put_text(ws: &mut Worksheet, at: CellAt, text: &str) -> (ok: bool)
    ensures
        text@.len() == 0 ==> ok && sheet_texts(*final(ws)) == sheet_texts(*old(ws)) && sheet_numbers(*final(ws))
            == sheet_numbers(*old(ws)),
        text@.len() > 0 && !(in_excel_range(at) && stored_text(text@)) ==> !ok && sheet_texts(*final(ws))
            == sheet_texts(*old(ws)) && sheet_numbers(*final(ws)) == sheet_numbers(*old(ws)),
        in_excel_range(at) && stored_text(text@) ==> ok && sheet_texts(*final(ws)) == sheet_texts(*old(ws)).insert(
            at,
            text@,
        ) && sheet_numbers(*final(ws)) == sheet_numbers(*old(ws)).remove(at),
{
    ws.write_string(at.row, at.col, text).is_ok()
}

/// Writes `text` at `at` in format `fmt`; true when the write succeeded.
/// Trusted: `Worksheet::write_string_with_format`. As `write_string`, except
/// that an empty text leaves a blank formatted cell (which replaces whatever
/// the cell held) where the position is in range.
#[verifier::external_body]
fn put_text_in_format(ws: &mut Worksheet, at: CellAt, text: &str, fmt: &Format) -> (ok: bool)
    ensures
        text@.len() == 0 && in_excel_range(at) ==> ok && sheet_texts(*final(ws)) == sheet_texts(*old(ws)).remove(at)
            && sheet_numbers(*final(ws)) == sheet_numbers(*old(ws)).remove(at),
        !(in_excel_range(at) && (text@.len() == 0 || stored_text(text@))) ==> !ok && sheet_texts(*final(ws))
            == sheet_texts(*old(ws)) && sheet_numbers(*final(ws)) == sheet_numbers(*old(ws)),
        in_excel_range(at) && stored_text(text@) ==> ok && sheet_texts(*final(ws)) == sheet_texts(*old(ws)).insert(
            at,
            text@,
        ) && sheet_numbers(*final(ws)) == sheet_numbers(*old(ws)).remove(at),
{
    ws.write_string_with_format(at.row, at.col, text, fmt).is_ok()
}

/// Writes the number `n` at `at`; true when the write succeeded.
/// Trusted: `Worksheet::write` for an `i64`, which stores `n as f64`
/// (`store_number`): a position outside Excel's range fails and stores
/// nothing; otherwise the number replaces whatever the cell held. An `f64`
/// holds every integer up to 2^53 exactly, so only there is the value stated.
#[verifier::external_body]
fn put_number(ws: &mut Worksheet, at: CellAt, n: i64) -> (ok: bool)
    ensures
        !in_excel_range(at) ==> !ok && sheet_texts(*final(ws)) == sheet_texts(*old(ws)) && sheet_numbers(
            *final(ws),
        ) == sheet_numbers(*old(ws)),
        in_excel_range(at) ==> ok && sheet_texts(*final(ws)) == sheet_texts(*old(ws)).remove(at) && sheet_numbers(
            *final(ws),
        ).dom() == sheet_numbers(*old(ws)).dom().insert(at) && (forall|other: CellAt|
            other != at && sheet_numbers(*old(ws)).contains_key(other) ==> sheet_numbers(*final(ws))[other]
                == sheet_numbers(*old(ws))[other]),
        in_excel_range(at) && -0x20_0000_0000_0000 <= n <= 0x20_0000_0000_0000 ==> sheet_numbers(*final(ws))[at]
            == n,
{
    ws.write(at.row, at.col, n).is_ok()
}

/// Whether `bytes` is an `.xlsx` workbook whose first sheet holds exactly
/// the text cells `texts` and the number cells `numbers` (each number cell
/// with the integer nearest its value).
pub uninterp spec fn xlsx_workbook_holds(bytes: Seq<u8>, texts: Map<CellAt, Seq<char>>, numbers: Map<CellAt, int>) -> bool;

/// The bytes of an `.xlsx` file holding the one worksheet `ws`.
/// Trusted: `Workbook::push_worksheet` then `Workbook::save_to_buffer`, which
/// writes the worksheet's cells into the file as its first (and only) sheet.
/// The file also carries its creation time, so the bytes themselves are not
/// named; neither is when saving fails. The error is rust_xlsxwriter's message.
#[verifier::external_body]
fn workbook_bytes(ws: Worksheet) -> (r: Result<Vec<u8>, String>)
    ensures
        r matches Ok(b) ==> xlsx_workbook_holds(b@, sheet_texts(ws), sheet_numbers(ws)),
{
    let mut wb = Workbook::new();
    wb.push_worksheet(ws);
    wb.save_to_buffer().map_err(|e| e.to_string())
}

/// A tile as the export reads it.
#[derive(Debug)]
pub struct ExportRow {
    pub item_number: String,
    pub collection: Option<String>,
    pub gts_description: Option<String>,
    pub new_bin: Option<String>,
    pub qty: i64,
    pub overflow_rack: i64,
    pub order_number: Option<String>,
    pub notes: Option<String>,
    pub updated_at: String,
    pub coordinator_name: String,
    pub sales_rep_name: String,
    pub refill_status: String,
}

/// The number of columns of the sheet.
pub open spec fn export_columns() -> int {
    12
}

/// The header of column `col`.
pub open spec fn header_text(col: int) -> Seq<char> {
    if col == 0 {
        "ITEM NUMBER"@
    } else if col == 1 {
        "COLLECTION"@
    } else if col == 2 {
        "GTS DESCRIPTION"@
    } else if col == 3 {
        "NEW BIN"@
    } else if col == 4 {
        "QTY"@
    } else if col == 5 {
        "OVERFLOW RACK"@
    } else if col == 6 {
        "ORDER #"@
    } else if col == 7 {
        "NOTES"@
    } else if col == 8 {
        "COORDINATOR"@
    } else if col == 9 {
        "SALES REP"@
    } else if col == 10 {
        "REFILL STATUS"@
    } else {
        "LAST UPDATED"@
    }
}

/// An optional text, or the empty text.
pub open spec fn or_blank(o: Option<String>) -> Seq<char> {
    match o {
        Some(s) => s@,
        None => Seq::empty(),
    }
}

/// The text a tile puts in column `col` (the quantity column holds a number,
/// so no text).
pub open spec fn row_text(r: ExportRow, col: int) -> Seq<char> {
    if col == 0 {
        r.item_number@
    } else if col == 1 {
        or_blank(r.collection)
    } else if col == 2 {
        or_blank(r.gts_description)
    } else if col == 3 {
        or_blank(r.new_bin)
    } else if col == 5 {
        if r.overflow_rack != 0 {
            "Y"@
        } else {
            Seq::empty()
        }
    } else if col == 6 {
        or_blank(r.order_number)
    } else if col == 7 {
        or_blank(r.notes)
    } else if col == 8 {
        r.coordinator_name@
    } else if col == 9 {
        r.sales_rep_name@
    } else if col == 10 {
        r.refill_status@
    } else if col == 11 {
        r.updated_at@
    } else {
        Seq::empty()
    }
}

/// The text meant for position `at`: the header in row 0, then one tile per row.
pub open spec fn text_meant(rows: Seq<ExportRow>, at: CellAt) -> Seq<char> {
    if at.row == 0 {
        header_text(at.col as int)
    } else {
        row_text(rows[at.row - 1], at.col as int)
    }
}

/// Whether position `at` of the sheet holds text: within the header and tile
/// rows, within Excel's rows, and with a text that is stored.
pub open spec fn holds_text(rows: Seq<ExportRow>, at: CellAt) -> bool {
    &&& at.col < export_columns()
    &&& at.row <= rows.len()
    &&& at.row < 1048576
    &&& stored_text(text_meant(rows, at))
}

/// The text cells of the inventory sheet.
pub open spec fn export_texts(rows: Seq<ExportRow>) -> Map<CellAt, Seq<char>> {
    Map::new(|at: CellAt| holds_text(rows, at), |at: CellAt| text_meant(rows, at))
}

/// The positions of the quantity cells: column 4 of each tile row Excel has room for.
pub open spec fn quantity_cells(rows: Seq<ExportRow>) -> Set<CellAt> {
    Set::new(|at: CellAt| at.col == 4 && 1 <= at.row <= rows.len() && at.row < 1048576)
}

/// Whether `at` comes before the cell at `row`, `col` in writing order.
pub open spec fn written_before(at: CellAt, row: int, col: int) -> bool {
    at.row < row || (at.row == row && at.col < col)
}

/// The text cells once every cell before `row`, `col` is written.
pub open spec fn texts_before(rows: Seq<ExportRow>, row: int, col: int) -> Map<CellAt, Seq<char>> {
    Map::new(|at: CellAt| holds_text(rows, at) && written_before(at, row, col), |at: CellAt| text_meant(rows, at))
}

/// The quantity cells once every cell before `row`, `col` is written.
pub open spec fn numbers_before(rows: Seq<ExportRow>, row: int, col: int) -> Set<CellAt> {
    Set::new(|at: CellAt| quantity_cells(rows).contains(at) && written_before(at, row, col))
}

/// Header `col` as an executable string.
fn header_at(col: u16) -> (h: &'static str)
    requires
        col < 12,
    ensures
        h@ == header_text(col as int),
{
    if col == 0 {
        "ITEM NUMBER"
    } else if col == 1 {
        "COLLECTION"
    } else if col == 2 {
        "GTS DESCRIPTION"
    } else if col == 3 {
        "NEW BIN"
    } else if col == 4 {
        "QTY"
    } else if col == 5 {
        "OVERFLOW RACK"
    } else if col == 6 {
        "ORDER #"
    } else if col == 7 {
        "NOTES"
    } else if col == 8 {
        "COORDINATOR"
    } else if col == 9 {
        "SALES REP"
    } else if col == 10 {
        "REFILL STATUS"
    } else {
        "LAST UPDATED"
    }
}

proof fn lemma_headers_stored(col: int)
    requires
        0 <= col < 12,
    ensures
        stored_text(header_text(col)),
{
    reveal_strlit("ITEM NUMBER");
    reveal_strlit("COLLECTION");
    reveal_strlit("GTS DESCRIPTION");
    reveal_strlit("NEW BIN");
    reveal_strlit("QTY");
    reveal_strlit("OVERFLOW RACK");
    reveal_strlit("ORDER #");
    reveal_strlit("NOTES");
    reveal_strlit("COORDINATOR");
    reveal_strlit("SALES REP");
    reveal_strlit("REFILL STATUS");
    reveal_strlit("LAST UPDATED");
}

/// An optional text as a string slice, empty when missing.
fn blank_or<'a>(o: &'a Option<String>) -> (s: &'a str)
    ensures
        s@ == or_blank(*o),
{
    proof {
        reveal_strlit("");
        assert(""@ =~= Seq::<char>::empty());
    }
    match o {
        Some(s) => s.as_str(),
        None => "",
    }
}

/// Writes the text tile `r` puts in column `col` of sheet row `row`.
fn put_row_text(ws: &mut Worksheet, row: u32, col: u16, r: &ExportRow)
    requires
        col < 12,
        col != 4,
    ensures
        ({
            let at = CellAt { row, col };
            let t = row_text(*r, col as int);
            &&& in_excel_range(at) && stored_text(t) ==> sheet_texts(*final(ws)) == sheet_texts(*old(ws)).insert(at, t)
                && sheet_numbers(*final(ws)) == sheet_numbers(*old(ws)).remove(at)
            &&& !(in_excel_range(at) && stored_text(t)) ==> sheet_texts(*final(ws)) == sheet_texts(*old(ws))
                && sheet_numbers(*final(ws)) == sheet_numbers(*old(ws))
        }),
{
    let at = CellAt { row, col };
    proof {
        reveal_strlit("");
        reveal_strlit("Y");
        assert(""@ =~= Seq::<char>::empty());
    }
    let text: &str = if col == 0 {
        r.item_number.as_str()
    } else if col == 1 {
        blank_or(&r.collection)
    } else if col == 2 {
        blank_or(&r.gts_description)
    } else if col == 3 {
        blank_or(&r.new_bin)
    } else if col == 5 {
        if r.overflow_rack != 0 {
            "Y"
        } else {
            ""
        }
    } else if col == 6 {
        blank_or(&r.order_number)
    } else if col == 7 {
        blank_or(&r.notes)
    } else if col == 8 {
        r.coordinator_name.as_str()
    } else if col == 9 {
        r.sales_rep_name.as_str()
    } else if col == 10 {
        r.refill_status.as_str()
    } else {
        r.updated_at.as_str()
    };
    assert(text@ == row_text(*r, col as int));
    let _ = put_text(ws, at, text);
}

/// Whether the quantity cells before `row`, `col` hold their tiles' quantities
/// (where a quantity is small enough to be held exactly).
pub open spec fn quantities_hold(rows: Seq<ExportRow>, numbers: Map<CellAt, int>) -> bool {
    forall|at: CellAt|
        #[trigger] numbers.contains_key(at) && 1 <= at.row <= rows.len() && -0x20_0000_0000_0000 <= rows[at.row
            - 1].qty <= 0x20_0000_0000_0000 ==> numbers[at] == rows[at.row - 1].qty
}

/// What tile `r` shows under the column headed `header`: its field of that
/// name ("Y" under OVERFLOW RACK when the tile is on the overflow rack),
/// empty where the field is missing; no text under any other header.
pub open spec fn field_under(r: ExportRow, header: Seq<char>) -> Seq<char> {
    if header == "ITEM NUMBER"@ {
        r.item_number@
    } else if header == "COLLECTION"@ {
        or_blank(r.collection)
    } else if header == "GTS DESCRIPTION"@ {
        or_blank(r.gts_description)
    } else if header == "NEW BIN"@ {
        or_blank(r.new_bin)
    } else if header == "OVERFLOW RACK"@ {
        if r.overflow_rack != 0 {
            "Y"@
        } else {
            Seq::empty()
        }
    } else if header == "ORDER #"@ {
        or_blank(r.order_number)
    } else if header == "NOTES"@ {
        or_blank(r.notes)
    } else if header == "COORDINATOR"@ {
        r.coordinator_name@
    } else if header == "SALES REP"@ {
        r.sales_rep_name@
    } else if header == "REFILL STATUS"@ {
        r.refill_status@
    } else if header == "LAST UPDATED"@ {
        r.updated_at@
    } else {
        Seq::empty()
    }
}

/// Whether `texts` holds `t` at `at` when `t` is a text a write stores, and
/// nothing there otherwise.
pub open spec fn cell_holds(texts: Map<CellAt, Seq<char>>, at: CellAt, t: Seq<char>) -> bool {
    if stored_text(t) {
        texts.contains_key(at) && texts[at] == t
    } else {
        !texts.contains_key(at)
    }
}

proof fn lemma_row_text_by_header(r: ExportRow, col: int)
    requires
        0 <= col < 12,
        col != 4,
    ensures
        row_text(r, col) == field_under(r, header_text(col)),
{
    reveal_strlit("ITEM NUMBER");
    reveal_strlit("COLLECTION");
    reveal_strlit("GTS DESCRIPTION");
    reveal_strlit("NEW BIN");
    reveal_strlit("OVERFLOW RACK");
    reveal_strlit("ORDER #");
    reveal_strlit("NOTES");
    reveal_strlit("COORDINATOR");
    reveal_strlit("SALES REP");
    reveal_strlit("REFILL STATUS");
    reveal_strlit("LAST UPDATED");
    assert("ITEM NUMBER"@.len() == 11 && "COLLECTION"@.len() == 10 && "GTS DESCRIPTION"@.len() == 15);
    assert("NEW BIN"@.len() == 7 && "OVERFLOW RACK"@.len() == 13 && "ORDER #"@.len() == 7 && "NOTES"@.len() == 5);
    assert("COORDINATOR"@.len() == 11 && "SALES REP"@.len() == 9 && "REFILL STATUS"@.len() == 13);
    assert("LAST UPDATED"@.len() == 12);
    assert("COORDINATOR"@[0] != "ITEM NUMBER"@[0]);
    assert("ORDER #"@[0] != "NEW BIN"@[0]);
    assert("REFILL STATUS"@[0] != "OVERFLOW RACK"@[0]);
}

/// The sheet's columns hold what their headers name: row 0 holds the
/// headers, and under each header (but QTY, which holds numbers) the row of
/// each tile that Excel has room for holds that tile's field of that name,
/// or nothing where the field is empty or too long to store.
pub proof fn lemma_columns_under_headers(rows: Seq<ExportRow>)
    ensures
        forall|c: int|
            0 <= c < 12 ==> cell_holds(export_texts(rows), CellAt { row: 0, col: c as u16 }, #[trigger] header_text(c)),
        forall|k: int, c: int|
            0 <= k < rows.len() && k + 1 < 1048576 && 0 <= c < 12 && c != 4 ==> cell_holds(
                export_texts(rows),
                CellAt { row: (k + 1) as u32, col: c as u16 },
                #[trigger] field_under(rows[k], header_text(c)),
            ),
{
    assert forall|c: int| 0 <= c < 12 implies cell_holds(
        export_texts(rows),
        CellAt { row: 0, col: c as u16 },
        #[trigger] header_text(c),
    ) by {
        lemma_headers_stored(c);
    }
    assert forall|k: int, c: int|
        0 <= k < rows.len() && k + 1 < 1048576 && 0 <= c < 12 && c != 4 implies cell_holds(
        export_texts(rows),
        CellAt { row: (k + 1) as u32, col: c as u16 },
        #[trigger] field_under(rows[k], header_text(c)),
    ) by {
        lemma_row_text_by_header(rows[k], c);
        let at = CellAt { row: (k + 1) as u32, col: c as u16 };
        assert(at.row - 1 == k);
        assert(text_meant(rows, at) == row_text(rows[k], c));
    }
}

/// The inventory worksheet: the bold header row, then one row per tile in
/// the order given. Tiles past Excel's last row are left out, as are texts
/// over Excel's length limit; empty texts leave their cells empty.
pub fn build_inventory_sheet(rows: &Vec<ExportRow>) -> (ws: Worksheet)
    requires
        rows@.len() < 0xFFFF_FFFF,
    ensures
        sheet_texts(ws) == export_texts(rows@),
        sheet_numbers(ws).dom() == quantity_cells(rows@),
        quantities_hold(rows@, sheet_numbers(ws)),
        forall|k: int, c: int|
            0 <= k < rows@.len() && k + 1 < 1048576 && 0 <= c < 12 && c != 4 ==> cell_holds(
                sheet_texts(ws),
                CellAt { row: (k + 1) as u32, col: c as u16 },
                #[trigger] field_under(rows@[k], header_text(c)),
            ),
{
    let mut ws = new_sheet();
    let bold = bold_format();
    assert(sheet_texts(ws) =~= texts_before(rows@, 0, 0));
    assert(sheet_numbers(ws).dom() =~= numbers_before(rows@, 0, 0));
    let mut col: u16 = 0;
    while col < 12
        invariant
            col <= 12,
            sheet_texts(ws) == texts_before(rows@, 0, col as int),
            sheet_numbers(ws).dom() == numbers_before(rows@, 0, col as int),
        decreases 12 - col,
    {
        let at = CellAt { row: 0, col };
        proof {
            lemma_headers_stored(col as int);
        }
        let ghost before = ws;
        let _ = put_text_in_format(&mut ws, at, header_at(col), &bold);
        assert(sheet_texts(ws) =~= texts_before(rows@, 0, col + 1));
        assert(!sheet_numbers(before).dom().contains(at));
        assert(sheet_numbers(ws).dom() =~= numbers_before(rows@, 0, col + 1));
        col = col + 1;
    }
    assert(sheet_texts(ws) =~= texts_before(rows@, 1, 0));
    assert(sheet_numbers(ws).dom() =~= numbers_before(rows@, 1, 0));
    let mut i: usize = 0;
    while i < rows.len()
        invariant
            rows@.len() < 0xFFFF_FFFF,
            i <= rows@.len(),
            sheet_texts(ws) == texts_before(rows@, i + 1, 0),
            sheet_numbers(ws).dom() == numbers_before(rows@, i + 1, 0),
            quantities_hold(rows@, sheet_numbers(ws)),
        decreases rows@.len() - i,
    {
        let row: u32 = (i + 1) as u32;
        let r = &rows[i];
        let mut col: u16 = 0;
        while col < 12
            invariant
                rows@.len() < 0xFFFF_FFFF,
                i < rows@.len(),
                row == i + 1,
                *r == rows@[i as int],
                col <= 12,
                sheet_texts(ws) == texts_before(rows@, row as int, col as int),
                sheet_numbers(ws).dom() == numbers_before(rows@, row as int, col as int),
                quantities_hold(rows@, sheet_numbers(ws)),
            decreases 12 - col,
        {
            let at = CellAt { row, col };
            let ghost before = ws;
            assert(!sheet_numbers(before).dom().contains(at));
            if col == 4 {
                let _ = put_number(&mut ws, at, r.qty);
                assert(sheet_texts(before).remove(at) =~= sheet_texts(before));
                assert(sheet_numbers(ws).dom() =~= numbers_before(rows@, row as int, col + 1));
                assert forall|k: CellAt|
                    #[trigger] sheet_numbers(ws).contains_key(k) && 1 <= k.row <= rows@.len() && -0x20_0000_0000_0000
                        <= rows@[k.row - 1].qty <= 0x20_0000_0000_0000 implies sheet_numbers(ws)[k] == rows@[k.row
                    - 1].qty by {
                    if k != at {
                        assert(sheet_numbers(before).contains_key(k));
                    }
                }
            } else {
                put_row_text(&mut ws, row, col, r);
                assert(sheet_numbers(before).remove(at) =~= sheet_numbers(before));
                assert(sheet_numbers(ws).dom() =~= numbers_before(rows@, row as int, col + 1));
            }
            assert(sheet_texts(ws) =~= texts_before(rows@, row as int, col + 1));
            col = col + 1;
        }
        assert(sheet_texts(ws) =~= texts_before(rows@, row + 1, 0));
        assert(sheet_numbers(ws).dom() =~= numbers_before(rows@, row + 1, 0));
        i = i + 1;
    }
    assert(sheet_texts(ws) =~= export_texts(rows@));
    assert(sheet_numbers(ws).dom() =~= quantity_cells(rows@));
    proof {
        lemma_columns_under_headers(rows@);
    }
    ws
}

/// Whether `bytes` is a workbook of the inventory sheet of `rows`: its text
/// cells are `export_texts(rows)`, and its number cells are the quantity
/// cells, each holding its tile's quantity where that is held exactly.
pub open spec fn is_inventory_workbook(bytes: Seq<u8>, rows: Seq<ExportRow>) -> bool {
    exists|numbers: Map<CellAt, int>|
        numbers.dom() == quantity_cells(rows) && quantities_hold(rows, numbers) && #[trigger] xlsx_workbook_holds(
            bytes,
            export_texts(rows),
            numbers,
        )
}

/// The sheet as an `.xlsx` file; a failure to assemble the file is an
/// internal error.
pub fn export_workbook(rows: &Vec<ExportRow>) -> (r: Result<Vec<u8>, AppError>)
    requires
        rows@.len() < 0xFFFF_FFFF,
    ensures
        r matches Ok(b) ==> is_inventory_workbook(b@, rows@),
        r matches Err(e) ==> (e@ matches Refusal::Internal(m) && has_prefix(m, "xlsx save: "@)),
{
    let ws = build_inventory_sheet(rows);
    let ghost texts = sheet_texts(ws);
    let ghost numbers = sheet_numbers(ws);
    match workbook_bytes(ws) {
        Ok(bytes) => {
            assert(xlsx_workbook_holds(bytes@, texts, numbers));
            Ok(bytes)
        },
        Err(e) => {
            let mut m = owned("xlsx save: ");
            m.append(e.as_str());
            proof {
                assert(m@.subrange(0, "xlsx save: "@.len() as int) =~= "xlsx save: "@);
            }
            Err(AppError::Internal(m))
        },
    }
}

/// A line of the export digest.
#[derive(Debug)]
pub struct DigestRow {
    pub item_number: String,
    pub collection: String,
    pub new_bin: String,
    pub qty: i64,
    pub refill_status: String,
    pub updated_at: String,
}

/// A `DigestRow` as plain values.
pub struct DigestModel {
    pub item_number: Seq<char>,
    pub collection: Seq<char>,
    pub new_bin: Seq<char>,
    pub qty: i64,
    pub refill_status: Seq<char>,
    pub updated_at: Seq<char>,
}

impl View for DigestRow {
    type V = DigestModel;

    open spec fn view(&self) -> DigestModel {
        DigestModel {
            item_number: self.item_number@,
            collection: self.collection@,
            new_bin: self.new_bin@,
            qty: self.qty,
            refill_status: self.refill_status@,
            updated_at: self.updated_at@,
        }
    }
}

/// The digest lines as plain values.
pub open spec fn digest_view(lines: Seq<DigestRow>) -> Seq<DigestModel> {
    lines.map_values(|d: DigestRow| d@)
}

/// The digest line of a tile.
pub open spec fn digest_of(r: ExportRow) -> DigestModel {
    DigestModel {
        item_number: r.item_number@,
        collection: or_blank(r.collection),
        new_bin: or_blank(r.new_bin),
        qty: r.qty,
        refill_status: r.refill_status@,
        updated_at: r.updated_at@,
    }
}

/// The tiles last updated on day `today` (their timestamp starts with it), in order.
pub open spec fn updated_on(rows: Seq<ExportRow>, today: Seq<char>) -> Seq<DigestModel>
    decreases rows.len(),
{
    if rows.len() == 0 {
        Seq::empty()
    } else if has_prefix(rows.last().updated_at@, today) {
        updated_on(rows.drop_last(), today).push(digest_of(rows.last()))
    } else {
        updated_on(rows.drop_last(), today)
    }
}

/// The tiles whose bin is empty (quantity 0), in order.
pub open spec fn empty_bins(rows: Seq<ExportRow>) -> Seq<DigestModel>
    decreases rows.len(),
{
    if rows.len() == 0 {
        Seq::empty()
    } else if rows.last().qty == 0 {
        empty_bins(rows.drop_last()).push(digest_of(rows.last()))
    } else {
        empty_bins(rows.drop_last())
    }
}

/// The digest line of a tile.
pub fn digest_row(r: &ExportRow) -> (d: DigestRow)
    ensures
        d@ == digest_of(*r),
{
    DigestRow {
        item_number: owned(r.item_number.as_str()),
        collection: owned(blank_or(&r.collection)),
        new_bin: owned(blank_or(&r.new_bin)),
        qty: r.qty,
        refill_status: owned(r.refill_status.as_str()),
        updated_at: owned(r.updated_at.as_str()),
    }
}

/// The digest's "updated today" list.
pub fn recently_updated(rows: &Vec<ExportRow>, today: &str) -> (r: Vec<DigestRow>)
    ensures
        digest_view(r@) == updated_on(rows@, today@),
{
    let mut out: Vec<DigestRow> = Vec::new();
    let mut i: usize = 0;
    while i < rows.len()
        invariant
            i <= rows@.len(),
            digest_view(out@) == updated_on(rows@.subrange(0, i as int), today@),
        decreases rows@.len() - i,
    {
        assert(rows@.subrange(0, i + 1).drop_last() =~= rows@.subrange(0, i as int));
        let ghost before = digest_view(out@);
        if text_starts_with(rows[i].updated_at.as_str(), today) {
            out.push(digest_row(&rows[i]));
            assert(digest_view(out@) =~= before.push(digest_of(rows@[i as int])));
        }
        i = i + 1;
    }
    assert(rows@.subrange(0, rows@.len() as int) =~= rows@);
    out
}

/// The digest's "empty bins" list.
pub fn critical_tiles(rows: &Vec<ExportRow>) -> (r: Vec<DigestRow>)
    ensures
        digest_view(r@) == empty_bins(rows@),
{
    let mut out: Vec<DigestRow> = Vec::new();
    let mut i: usize = 0;
    while i < rows.len()
        invariant
            i <= rows@.len(),
            digest_view(out@) == empty_bins(rows@.subrange(0, i as int)),
        decreases rows@.len() - i,
    {
        assert(rows@.subrange(0, i + 1).drop_last() =~= rows@.subrange(0, i as int));
        let ghost before = digest_view(out@);
        if rows[i].qty == 0 {
            out.push(digest_row(&rows[i]));
            assert(digest_view(out@) =~= before.push(digest_of(rows@[i as int])));
        }
        i = i + 1;
    }
    assert(rows@.subrange(0, rows@.len() as int) =~= rows@);
    out
}

/// The directory a branch's exports are kept in.
pub open spec fn export_dir_text(branch_id: i64) -> Seq<char> {
    "./exports/"@ + int_decimal(branch_id as int)
}

/// Where the digest of day `today` is saved.
pub open spec fn digest_path_text(branch_id: i64, today: Seq<char>) -> Seq<char> {
    export_dir_text(branch_id) + "/digest-"@ + today + ".html"@
}

/// The name the workbook of day `today` is downloaded under.
pub open spec fn xlsx_filename_text(today: Seq<char>) -> Seq<char> {
    "inventory-"@ + today + ".xlsx"@
}

/// The `Content-Disposition` value that downloads a file as `name`.
pub open spec fn disposition_text(name: Seq<char>) -> Seq<char> {
    "attachment; filename=\""@ + name + "\""@
}

/// The directory a branch's exports are kept in.
pub fn export_dir(branch_id: i64) -> (s: String)
    ensures
        s@ == export_dir_text(branch_id),
{
    let mut s = owned("./exports/");
    push_int(&mut s, branch_id);
    s
}

/// Where the digest of day `today` is saved.
pub fn digest_path(branch_id: i64, today: &str) -> (s: String)
    ensures
        s@ == digest_path_text(branch_id, today@),
{
    let mut s = export_dir(branch_id);
    s.append("/digest-");
    s.append(today);
    s.append(".html");
    s
}

/// The name the workbook of day `today` is downloaded under.
pub fn xlsx_filename(today: &str) -> (s: String)
    ensures
        s@ == xlsx_filename_text(today@),
{
    let mut s = owned("inventory-");
    s.append(today);
    s.append(".xlsx");
    s
}

/// The `Content-Disposition` value that downloads a file as `name`.
pub fn content_disposition(name: &str) -> (s: String)
    ensures
        s@ == disposition_text(name@),
{
    let mut s = owned("attachment; filename=\"");
    s.append(name);
    s.append("\"");
    s
}

/// Everything an export produces but the rendered digest: the workbook, the
/// digest's lists and the names of the files.
#[derive(Debug)]
pub struct ExportPlan {
    pub today: String,
    pub xlsx: Vec<u8>,
    pub total: usize,
    pub recently_updated: Vec<DigestRow>,
    pub critical: Vec<DigestRow>,
    pub export_dir: String,
    pub digest_path: String,
    pub xlsx_filename: String,
    pub content_disposition: String,
}

/// Only coordinators and admins may export.
pub fn authorize_export(auth: &AuthUser) -> (r: Result<(), AppError>)
    ensures
        verdict(r) == (if auth.role == Role::SalesRep {
            Err(Refusal::Forbidden)
        } else {
            Ok(())
        }),
{
    if auth.role == Role::SalesRep {
        Err(AppError::Forbidden)
    } else {
        Ok(())
    }
}

/// Prepares the export of the user's branch's tiles (in the order given) on
/// today's date: the workbook of `build_inventory_sheet`, the tiles updated
/// today and those with an empty bin, and the file names of that day. A
/// sales rep is refused.
pub fn plan_export(auth: &AuthUser, rows: &Vec<ExportRow>) -> (r: Result<ExportPlan, AppError>)
    requires
        rows@.len() < 0xFFFF_FFFF,
    ensures
        auth.role == Role::SalesRep <==> r matches Err(AppError::Forbidden),
        r matches Ok(p) ==> {
            &&& is_day_text(p.today@)
            &&& p.total == rows@.len()
            &&& is_inventory_workbook(p.xlsx@, rows@)
            &&& digest_view(p.recently_updated@) == updated_on(rows@, p.today@)
            &&& digest_view(p.critical@) == empty_bins(rows@)
            &&& p.export_dir@ == export_dir_text(auth.branch_id)
            &&& p.digest_path@ == digest_path_text(auth.branch_id, p.today@)
            &&& p.xlsx_filename@ == xlsx_filename_text(p.today@)
            &&& p.content_disposition@ == disposition_text(xlsx_filename_text(p.today@))
        },
        r matches Err(e) ==> (e is Forbidden || (e@ matches Refusal::Internal(m) && has_prefix(m, "xlsx save: "@))),
{
    if let Err(e) = authorize_export(auth) {
        return Err(e);
    }
    let branch_id: i64 = auth.branch_id;
    let today = utc_date_days_ago(0);
    let xlsx = export_workbook(rows)?;
    let recently = recently_updated(rows, today.as_str());
    let critical = critical_tiles(rows);
    let dir = export_dir(branch_id);
    let path = digest_path(branch_id, today.as_str());
    let name = xlsx_filename(today.as_str());
    let disposition = content_disposition(name.as_str());
    Ok(
        ExportPlan {
            today,
            xlsx,
            total: rows.len(),
            recently_updated: recently,
            critical,
            export_dir: dir,
            digest_path: path,
            xlsx_filename: name,
            content_disposition: disposition,
        },
    )
}

/// The digest lists only what they claim: every "updated today" line was
/// last updated on that day, every "empty bin" line has quantity 0, and no
/// list is longer than the inventory.
pub proof fn lemma_digest_lists(rows: Seq<ExportRow>, today: Seq<char>)
    ensures
        updated_on(rows, today).len() <= rows.len(),
        empty_bins(rows).len() <= rows.len(),
        forall|i: int| 0 <= i < updated_on(rows, today).len() ==> has_prefix(#[trigger] updated_on(rows, today)[i].updated_at, today),
        forall|i: int| 0 <= i < empty_bins(rows).len() ==> (#[trigger] empty_bins(rows)[i]).qty == 0,
    decreases rows.len(),
{
    if rows.len() > 0 {
        lemma_digest_lists(rows.drop_last(), today);
        let prev_u = updated_on(rows.drop_last(), today);
        let prev_e = empty_bins(rows.drop_last());
        assert forall|i: int| 0 <= i < updated_on(rows, today).len() implies has_prefix(
            #[trigger] updated_on(rows, today)[i].updated_at,
            today,
        ) by {
            if i < prev_u.len() {
                assert(updated_on(rows, today)[i] == prev_u[i]);
            }
        }
        assert forall|i: int| 0 <= i < empty_bins(rows).len() implies (#[trigger] empty_bins(rows)[i]).qty == 0 by {
            if i < prev_e.len() {
                assert(empty_bins(rows)[i] == prev_e[i]);
            }
        }
    }
}

} // verus!
