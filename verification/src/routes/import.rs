//! Excel import: who may import, the upload checks, reading the first sheet,
//! the header check and the classification of each data row.
use vstd::prelude::*;
use crate::auth::extractor::{AuthUser, Role};
use crate::error::{AppError, Refusal, verdict};
use crate::text::{
    has_substring, has_suffix, int_decimal, opt_text, owned, push_int, text_contains, text_ends_with, text_eq,
    to_lower, to_upper, trim, trimmed, unicode_lowercase, unicode_uppercase,
};
use calamine::{open_workbook_from_rs, Reader, Xlsx};
use std::io::Cursor;

verus! {

/// Who may open the import page: admins and coordinators.
pub fn authorize_import_page(auth: &AuthUser) -> (r: Result<(), AppError>)
    ensures
        verdict(r) == (if auth.role != Role::Admin && auth.role != Role::Coordinator {
            Err(Refusal::Forbidden)
        } else {
            Ok(())
        }),
{
    if auth.role != Role::Admin && auth.role != Role::Coordinator {
        Err(AppError::Forbidden)
    } else {
        Ok(())
    }
}

/// Who may upload an import: everyone but sales reps.
pub fn authorize_import(auth: &AuthUser) -> (r: Result<(), AppError>)
    ensures
        verdict(r) == (if auth.role == Role::SalesRep {
            Err(Refusal::Forbidden)
        } else {
            Ok(())
        }),
{
    if auth.role == Role::SalesRep {
        Err(AppError::Forbidden)
    } else {
        Ok(())
    }
}

/// Takes the import lock; a second import while one runs is a conflict.
pub fn begin_import(running: &mut bool) -> (r: Result<(), AppError>)
    ensures
        *old(running) ==> verdict(r) == Err::<(), Refusal>(Refusal::Conflict("Import already in progress"@)) && *final(running),
        !*old(running) ==> r is Ok && *final(running),
{
    if *running {
        return Err(AppError::conflict(owned("Import already in progress")));
    }
    *running = true;
    Ok(())
}

/// Releases the import lock.
pub fn end_import(running: &mut bool)
    ensures
        !*final(running),
{
    *running = false;
}

pub open spec fn legacy_xls_message() -> Seq<char> {
    "Legacy .xls format not supported — please save as .xlsx first."@
}

/// The outcome of uploading a file named `name`: the legacy `.xls` format is refused.
pub open spec fn upload_name_verdict(name: Seq<char>) -> Result<(), Refusal> {
    if has_suffix(unicode_lowercase(name), ".xls"@) && !has_suffix(unicode_lowercase(name), ".xlsx"@) {
        Err(Refusal::Validation(legacy_xls_message()))
    } else {
        Ok(())
    }
}

/// Checks the uploaded file's name.
pub fn check_upload_name(name: &str) -> (r: Result<(), AppError>)
    ensures
        verdict(r) == upload_name_verdict(name@),
{
    let lower = to_lower(name);
    if text_ends_with(lower.as_str(), ".xls") && !text_ends_with(lower.as_str(), ".xlsx") {
        return Err(AppError::validation("Legacy .xls format not supported — please save as .xlsx first."));
    }
    Ok(())
}

/// Why the first sheet of a workbook could not be read.
pub enum SheetFailure {
    CannotOpen(String),
    NoSheets,
    CannotRead(String),
}

/// The cells of the first sheet of the .xlsx workbook `bytes`, row by row,
/// each cell as calamine displays it, or `None` where calamine cannot open
/// the workbook, finds no sheet, or cannot read the first sheet.
pub uninterp spec fn xlsx_first_sheet(bytes: Seq<u8>) -> Option<Seq<Seq<Seq<char>>>>;

pub open spec fn cells_of(rows: Seq<Vec<String>>) -> Seq<Seq<Seq<char>>> {
    rows.map_values(|r: Vec<String>| r@.map_values(|c: String| c@))
}

/// Reads the first sheet of an uploaded workbook.
/// Trusted: calamine's `open_workbook_from_rs` (as `Xlsx`), `sheet_names`
/// and `worksheet_range` read the workbook; the rows of the range are
/// handed back with each cell's `Display` text. The cells are named by
/// `xlsx_first_sheet`; the error texts are calamine's and are not named.
#[verifier::external_body]
fn xlsx_rows(bytes: &[u8]) -> (r: Result<Vec<Vec<String>>, SheetFailure>)
    ensures
        r matches Ok(rows) ==> xlsx_first_sheet(bytes@) == Some(cells_of(rows@)),
        r is Err ==> xlsx_first_sheet(bytes@) is None,
{
    let mut wb: Xlsx<_> = match open_workbook_from_rs(Cursor::new(bytes.to_vec())) {
        Ok(wb) => wb,
        Err(e) => return Err(SheetFailure::CannotOpen(e.to_string())),
    };
    let name = match wb.sheet_names().first() {
        Some(n) => n.clone(),
        None => return Err(SheetFailure::NoSheets),
    };
    match wb.worksheet_range(&name) {
        Ok(range) => Ok(range.rows().map(|row| row.iter().map(|c| c.to_string()).collect()).collect()),
        Err(e) => Err(SheetFailure::CannotRead(e.to_string())),
    }
}

/// Reads the first sheet of an uploaded workbook; failures become
/// validation errors carrying calamine's message.
pub fn read_first_sheet(bytes: &[u8]) -> (r: Result<Vec<Vec<String>>, AppError>)
    ensures
        r matches Ok(rows) ==> xlsx_first_sheet(bytes@) == Some(cells_of(rows@)),
        r matches Err(e) ==> xlsx_first_sheet(bytes@) is None && e@ is Validation,
{
    match xlsx_rows(bytes) {
        Ok(rows) => Ok(rows),
        Err(SheetFailure::CannotOpen(m)) => {
            let mut s = owned("Cannot open file: ");
            s.append(m.as_str());
            Err(AppError::ValidationError(s))
        },
        Err(SheetFailure::NoSheets) => Err(AppError::validation("Workbook has no sheets")),
        Err(SheetFailure::CannotRead(m)) => {
            let mut s = owned("Cannot read sheet: ");
            s.append(m.as_str());
            Err(AppError::ValidationError(s))
        },
    }
}

/// The display text of cell `i` of a row ("" past its end).
pub open spec fn cell_text(row: Seq<Seq<char>>, i: int) -> Seq<char> {
    if 0 <= i < row.len() {
        row[i]
    } else {
        ""@
    }
}

/// The trimmed text of cell `i`, when it is not empty.
pub open spec fn opt_cell(row: Seq<Seq<char>>, i: int) -> Option<Seq<char>> {
    if 0 <= i < row.len() && trimmed(row[i]).len() > 0 {
        Some(trimmed(row[i]))
    } else {
        None
    }
}

/// The header check for column `idx` (zero-based), which must contain `name`
/// once trimmed and upper-cased.
pub open spec fn column_ok(header: Seq<Seq<char>>, idx: int, name: Seq<char>) -> bool {
    has_substring(unicode_uppercase(trimmed(cell_text(header, idx))), name)
}

pub open spec fn column_message(idx: int, name: Seq<char>, header: Seq<Seq<char>>) -> Seq<char> {
    "Column "@ + int_decimal(idx + 1) + " expected to contain '"@ + name + "', got '"@ + unicode_uppercase(
        trimmed(cell_text(header, idx)),
    ) + "'"@
}

/// The outcome of the header check: the sheet must have a header row whose
/// second column holds "ITEM" and whose sixth holds "QTY".
pub open spec fn header_verdict(rows: Seq<Seq<Seq<char>>>) -> Result<(), Refusal> {
    if rows.len() == 0 {
        Err(Refusal::Validation("Sheet is empty"@))
    } else if !column_ok(rows[0], 1, "ITEM"@) {
        Err(Refusal::Validation(column_message(1, "ITEM"@, rows[0])))
    } else if !column_ok(rows[0], 5, "QTY"@) {
        Err(Refusal::Validation(column_message(5, "QTY"@, rows[0])))
    } else {
        Ok(())
    }
}

fn cell_at(row: &Vec<String>, i: usize) -> (r: String)
    ensures
        r@ == cell_text(cells_of(seq![*row])[0], i as int),
{
    proof {
        reveal_strlit("");
    }
    if i < row.len() {
        assert(cells_of(seq![*row])[0][i as int] == row@[i as int]@);
        owned(row[i].as_str())
    } else {
        String::new()
    }
}

fn check_column(header: &Vec<String>, idx: i64, name: &str) -> (r: Result<(), AppError>)
    requires
        0 <= idx < 100,
    ensures
        verdict(r) == (if column_ok(cells_of(seq![*header])[0], idx as int, name@) {
            Ok(())
        } else {
            Err(Refusal::Validation(column_message(idx as int, name@, cells_of(seq![*header])[0])))
        }),
{
    let cell = cell_at(header, idx as usize);
    let upper = to_upper(trim(cell.as_str()));
    if text_contains(upper.as_str(), name) {
        return Ok(());
    }
    let mut m = owned("Column ");
    push_int(&mut m, idx + 1);
    m.append(" expected to contain '");
    m.append(name);
    m.append("', got '");
    m.append(upper.as_str());
    m.append("'");
    assert(m@ =~= column_message(idx as int, name@, cells_of(seq![*header])[0]));
    Err(AppError::ValidationError(m))
}

/// Checks the header row of the sheet.
pub fn check_header(rows: &Vec<Vec<String>>) -> (r: Result<(), AppError>)
    ensures
        verdict(r) == header_verdict(cells_of(rows@)),
{
    if rows.len() == 0 {
        return Err(AppError::validation("Sheet is empty"));
    }
    assert(cells_of(seq![rows@[0]])[0] == cells_of(rows@)[0]);
    check_column(&rows[0], 1, "ITEM")?;
    check_column(&rows[0], 5, "QTY")?;
    Ok(())
}

/// A tile row to upsert.
#[derive(Debug)]
pub struct TileRecord {
    pub item_number: String,
    pub collection: Option<String>,
    pub gts_description: Option<String>,
    pub new_bin: Option<String>,
    pub qty: i64,
    pub overflow_rack: i64,
    pub order_number: Option<String>,
    pub notes: Option<String>,
}

/// A `TileRecord` as plain values.
pub struct TileRecordModel {
    pub item_number: Seq<char>,
    pub collection: Option<Seq<char>>,
    pub gts_description: Option<Seq<char>>,
    pub new_bin: Option<Seq<char>>,
    pub qty: i64,
    pub overflow_rack: i64,
    pub order_number: Option<Seq<char>>,
    pub notes: Option<Seq<char>>,
}

impl View for TileRecord {
    type V = TileRecordModel;

    open spec fn view(&self) -> TileRecordModel {
        TileRecordModel {
            item_number: self.item_number@,
            collection: opt_text(self.collection),
            gts_description: opt_text(self.gts_description),
            new_bin: opt_text(self.new_bin),
            qty: self.qty,
            overflow_rack: self.overflow_rack,
            order_number: opt_text(self.order_number),
            notes: opt_text(self.notes),
        }
    }
}

/// What becomes of a data row.
pub enum RowOutcome {
    Upsert(TileRecordModel),
    Skip,
    Invalid(Seq<char>),
}

/// How the records to upsert, the skipped rows and the row errors come out.
#[derive(Debug)]
pub struct ImportPlan {
    pub records: Vec<TileRecord>,
    pub skipped: usize,
    pub errors: Vec<String>,
}

pub open spec fn bad_qty_message(line: int, raw: Seq<char>, item: Seq<char>) -> Seq<char> {
    "Row "@ + int_decimal(line) + ": invalid qty '"@ + raw + "' for '"@ + item + "' — skipped"@
}

/// The outcome of data row `row`, the `line`-th row of the sheet (counting
/// from 1), given what the QTY cell parsed to as a number (`qty`, already
/// truncated to an integer; `None` where it is not a number). A row without
/// an item number is skipped; a blank QTY counts as 0; any other unreadable
/// QTY skips the row with an error; "Y" (any case) marks the overflow rack.
pub open spec fn row_outcome(row: Seq<Seq<char>>, line: int, qty: Option<i64>) -> RowOutcome {
    let item = match opt_cell(row, 1) {
        Some(s) => s,
        None => ""@,
    };
    if item.len() == 0 {
        RowOutcome::Skip
    } else if qty is None && trimmed(cell_text(row, 5)).len() != 0 {
        RowOutcome::Invalid(bad_qty_message(line, cell_text(row, 5), item))
    } else {
        RowOutcome::Upsert(
            TileRecordModel {
                item_number: item,
                collection: opt_cell(row, 2),
                gts_description: opt_cell(row, 3),
                new_bin: opt_cell(row, 4),
                qty: match qty {
                    Some(q) => q,
                    None => 0,
                },
                overflow_rack: if unicode_uppercase(
                    match opt_cell(row, 6) {
                        Some(s) => s,
                        None => ""@,
                    },
                ) == "Y"@ {
                    1
                } else {
                    0
                },
                order_number: opt_cell(row, 7),
                notes: opt_cell(row, 8),
            },
        )
    }
}

/// The outcomes of the data rows `1..n` of the sheet.
pub open spec fn outcomes(rows: Seq<Seq<Seq<char>>>, qtys: Seq<Option<i64>>, n: int) -> Seq<RowOutcome>
    decreases n,
{
    if n <= 1 {
        Seq::empty()
    } else {
        outcomes(rows, qtys, n - 1).push(row_outcome(rows[n - 1], n, qtys[n - 1]))
    }
}

pub open spec fn upserts(os: Seq<RowOutcome>) -> Seq<TileRecordModel>
    decreases os.len(),
{
    if os.len() == 0 {
        Seq::empty()
    } else {
        let rest = upserts(os.drop_last());
        match os.last() {
            RowOutcome::Upsert(r) => rest.push(r),
            _ => rest,
        }
    }
}

pub open spec fn skips(os: Seq<RowOutcome>) -> nat
    decreases os.len(),
{
    if os.len() == 0 {
        0
    } else {
        skips(os.drop_last()) + match os.last() {
            RowOutcome::Upsert(_) => 0nat,
            _ => 1nat,
        }
    }
}

pub open spec fn row_errors(os: Seq<RowOutcome>) -> Seq<Seq<char>>
    decreases os.len(),
{
    if os.len() == 0 {
        Seq::empty()
    } else {
        let rest = row_errors(os.drop_last());
        match os.last() {
            RowOutcome::Invalid(m) => rest.push(m),
            _ => rest,
        }
    }
}

fn opt_cell_exec(row: &Vec<String>, i: usize) -> (r: Option<String>)
    ensures
        opt_text(r) == opt_cell(cells_of(seq![*row])[0], i as int),
{
    if i < row.len() {
        assert(cells_of(seq![*row])[0][i as int] == row@[i as int]@);
        let t = trim(row[i].as_str());
        if t.unicode_len() > 0 {
            return Some(owned(t));
        }
    }
    None
}

fn classify_row(row: &Vec<String>, line: i64, qty: Option<i64>) -> (r: (Option<TileRecord>, Option<String>))
    ensures
        match row_outcome(cells_of(seq![*row])[0], line as int, qty) {
            RowOutcome::Upsert(m) => (r.0 matches Some(rec) && rec@ == m) && r.1 is None,
            RowOutcome::Skip => r.0 is None && r.1 is None,
            RowOutcome::Invalid(msg) => r.0 is None && (r.1 matches Some(e) && e@ == msg),
        },
{
    let ghost cells = cells_of(seq![*row])[0];
    let item = match opt_cell_exec(row, 1) {
        Some(s) => s,
        None => String::new(),
    };
    proof {
        reveal_strlit("");
    }
    if item.as_str().unicode_len() == 0 {
        return (None, None);
    }
    let raw = cell_at(row, 5);
    let qty_value: i64 = match qty {
        Some(q) => q,
        None => {
            if trim(raw.as_str()).unicode_len() != 0 {
                let mut m = owned("Row ");
                push_int(&mut m, line);
                m.append(": invalid qty '");
                m.append(raw.as_str());
                m.append("' for '");
                m.append(item.as_str());
                m.append("' — skipped");
                assert(m@ =~= bad_qty_message(line as int, cell_text(cells, 5), item@));
                return (None, Some(m));
            }
            0
        },
    };
    let overflow_cell = match opt_cell_exec(row, 6) {
        Some(s) => s,
        None => String::new(),
    };
    assert(""@ =~= Seq::<char>::empty());
    assert(overflow_cell@ == match opt_cell(cells, 6) {
        Some(s) => s,
        None => ""@,
    });
    let overflow_rack: i64 = if text_eq(to_upper(overflow_cell.as_str()).as_str(), "Y") {
        1
    } else {
        0
    };
    let rec = TileRecord {
        item_number: item,
        collection: opt_cell_exec(row, 2),
        gts_description: opt_cell_exec(row, 3),
        new_bin: opt_cell_exec(row, 4),
        qty: qty_value,
        overflow_rack,
        order_number: opt_cell_exec(row, 7),
        notes: opt_cell_exec(row, 8),
    };
    (Some(rec), None)
}

/// Whether record `rec` is data row `row` read column by column, each field
/// the trimmed text of its cell (missing where that is empty): ITEM NUMBER
/// from the 2nd cell, COLLECTION the 3rd, GTS DESCRIPTION the 4th, NEW BIN
/// the 5th, ORDER # the 8th and NOTES the 9th; the quantity is the QTY
/// cell's number (`qty`), 0 where it is blank; the tile is on the overflow
/// rack when the 7th cell reads "Y" in any case.
pub open spec fn record_of_row(rec: TileRecordModel, row: Seq<Seq<char>>, qty: Option<i64>) -> bool {
    &&& opt_cell(row, 1) == Some(rec.item_number)
    &&& rec.collection == opt_cell(row, 2)
    &&& rec.gts_description == opt_cell(row, 3)
    &&& rec.new_bin == opt_cell(row, 4)
    &&& rec.qty == (match qty {
        Some(q) => q,
        None => 0,
    })
    &&& rec.order_number == opt_cell(row, 7)
    &&& rec.notes == opt_cell(row, 8)
    &&& rec.overflow_rack == (if unicode_uppercase(
        match opt_cell(row, 6) {
            Some(t) => t,
            None => ""@,
        },
    ) == "Y"@ {
        1i64
    } else {
        0i64
    })
}

/// Whether `rec` is one of the data rows `1..n` of `rows`, read column by column.
pub open spec fn record_of_some_row(rec: TileRecordModel, rows: Seq<Seq<Seq<char>>>, qtys: Seq<Option<i64>>, n: int) -> bool {
    exists|m: int| 1 <= m < n && record_of_row(rec, #[trigger] rows[m], qtys[m])
}

/// Every record an import upserts is one of the sheet's data rows, each
/// field read from its own column.
pub proof fn lemma_records_read_by_column(rows: Seq<Seq<Seq<char>>>, qtys: Seq<Option<i64>>, n: int)
    requires
        n <= rows.len(),
        n <= qtys.len(),
    ensures
        forall|k: int|
            0 <= k < upserts(outcomes(rows, qtys, n)).len() ==> record_of_some_row(
                #[trigger] upserts(outcomes(rows, qtys, n))[k],
                rows,
                qtys,
                n,
            ),
    decreases n,
{
    if n > 1 {
        lemma_records_read_by_column(rows, qtys, n - 1);
        let prev_os = outcomes(rows, qtys, n - 1);
        let os = outcomes(rows, qtys, n);
        assert(os.drop_last() =~= prev_os);
        let prev = upserts(prev_os);
        let cur = upserts(os);
        reveal_strlit("");
        assert forall|k: int| 0 <= k < cur.len() implies record_of_some_row(#[trigger] cur[k], rows, qtys, n) by {
            if k < prev.len() {
                assert(cur[k] == prev[k]);
                assert(record_of_some_row(prev[k], rows, qtys, n - 1));
                let m = choose|m: int| 1 <= m < n - 1 && record_of_row(prev[k], #[trigger] rows[m], qtys[m]);
                assert(record_of_row(cur[k], rows[m], qtys[m]));
            } else {
                assert(record_of_row(cur[k], rows[n - 1], qtys[n - 1]));
            }
        }
    }
}


/// Classifies the data rows (every row after the header). `qtys[i]` is what
/// row `i`'s QTY cell, trimmed, parsed to as a number truncated to an integer
/// (`None` where it is not a number); the header's entry is not used.
pub fn classify_rows(rows: &Vec<Vec<String>>, qtys: &Vec<Option<i64>>) -> (plan: ImportPlan)
    requires
        qtys@.len() == rows@.len(),
        rows@.len() < i64::MAX,
    ensures
        plan.records@.map_values(|t: TileRecord| t@) == upserts(outcomes(cells_of(rows@), qtys@, rows@.len() as int)),
        plan.skipped == skips(outcomes(cells_of(rows@), qtys@, rows@.len() as int)),
        plan.errors@.map_values(|e: String| e@) == row_errors(outcomes(cells_of(rows@), qtys@, rows@.len() as int)),
        forall|k: int|
            0 <= k < plan.records@.len() ==> record_of_some_row(
                #[trigger] plan.records@[k]@,
                cells_of(rows@),
                qtys@,
                rows@.len() as int,
            ),
{
    let ghost cells = cells_of(rows@);
    if rows.len() == 0 {
        let plan = ImportPlan { records: Vec::new(), skipped: 0, errors: Vec::new() };
        assert(plan.records@.map_values(|t: TileRecord| t@) =~= Seq::<TileRecordModel>::empty());
        assert(plan.errors@.map_values(|e: String| e@) =~= Seq::<Seq<char>>::empty());
        assert(plan.records@.len() == 0);
        return plan;
    }
    let mut records: Vec<TileRecord> = Vec::new();
    let mut errors: Vec<String> = Vec::new();
    let mut skipped: usize = 0;
    let mut i: usize = 1;
    while i < rows.len()
        invariant
            qtys@.len() == rows@.len(),
            rows@.len() < i64::MAX,
            cells == cells_of(rows@),
            1 <= i <= rows@.len(),
            skipped <= i,
            records@.map_values(|t: TileRecord| t@) == upserts(outcomes(cells, qtys@, i as int)),
            skipped == skips(outcomes(cells, qtys@, i as int)),
            errors@.map_values(|e: String| e@) == row_errors(outcomes(cells, qtys@, i as int)),
        decreases rows@.len() - i,
    {
        assert(cells_of(seq![rows@[i as int]])[0] == cells[i as int]);
        let (rec, err) = classify_row(&rows[i], (i + 1) as i64, qtys[i]);
        let ghost os = outcomes(cells, qtys@, (i + 1) as int);
        assert(os.drop_last() =~= outcomes(cells, qtys@, i as int));
        match rec {
            Some(r) => {
                let ghost before = records@;
                records.push(r);
                assert(records@.map_values(|t: TileRecord| t@) =~= before.map_values(|t: TileRecord| t@).push(r@));
            },
            None => {
                skipped = skipped + 1;
            },
        }
        match err {
            Some(e) => {
                let ghost before = errors@;
                errors.push(e);
                assert(errors@.map_values(|e: String| e@) =~= before.map_values(|e: String| e@).push(e@));
            },
            None => {},
        }
        i = i + 1;
    }
    let plan = ImportPlan { records, skipped, errors };
    proof {
        lemma_records_read_by_column(cells, qtys@, rows@.len() as int);
        assert forall|k: int| 0 <= k < plan.records@.len() implies record_of_some_row(
            #[trigger] plan.records@[k]@,
            cells,
            qtys@,
            rows@.len() as int,
        ) by {
            assert(plan.records@[k]@ == plan.records@.map_values(|t: TileRecord| t@)[k]);
        }
    }
    plan
}

/// Every data row is either upserted or skipped, and each row error belongs
/// to a skipped row.
pub proof fn lemma_rows_accounted(rows: Seq<Seq<Seq<char>>>, qtys: Seq<Option<i64>>, n: int)
    ensures
        upserts(outcomes(rows, qtys, n)).len() + skips(outcomes(rows, qtys, n)) == outcomes(rows, qtys, n).len(),
        row_errors(outcomes(rows, qtys, n)).len() <= skips(outcomes(rows, qtys, n)),
        n >= 1 ==> outcomes(rows, qtys, n).len() == n - 1,
    decreases n,
{
    if n > 1 {
        lemma_rows_accounted(rows, qtys, n - 1);
        let os = outcomes(rows, qtys, n);
        assert(os.drop_last() =~= outcomes(rows, qtys, n - 1));
    }
}

/// The tiles table, each tile under its (branch id, item number), after
/// `recs` are upserted in order into branch `branch`: each record replaces
/// the tile of its item number in that branch, or adds it.
pub open spec fn upsert_all(
    table: Map<(i64, Seq<char>), TileRecordModel>,
    branch: i64,
    recs: Seq<TileRecordModel>,
) -> Map<(i64, Seq<char>), TileRecordModel>
    decreases recs.len(),
{
    if recs.len() == 0 {
        table
    } else {
        upsert_all(table, branch, recs.drop_last()).insert((branch, recs.last().item_number), recs.last())
    }
}

/// The last of `recs` with item number `item`, if any.
pub open spec fn last_record_for(recs: Seq<TileRecordModel>, item: Seq<char>) -> Option<TileRecordModel>
    decreases recs.len(),
{
    if recs.len() == 0 {
        None
    } else if recs.last().item_number == item {
        Some(recs.last())
    } else {
        last_record_for(recs.drop_last(), item)
    }
}

proof fn lemma_upsert_all(table: Map<(i64, Seq<char>), TileRecordModel>, branch: i64, recs: Seq<TileRecordModel>, key: (i64, Seq<char>))
    ensures
        key.0 != branch ==> (upsert_all(table, branch, recs).contains_key(key) == table.contains_key(key) && (
        table.contains_key(key) ==> upsert_all(table, branch, recs)[key] == table[key])),
        key.0 == branch ==> match last_record_for(recs, key.1) {
            Some(r) => upsert_all(table, branch, recs).contains_key(key) && upsert_all(table, branch, recs)[key] == r,
            None => upsert_all(table, branch, recs).contains_key(key) == table.contains_key(key) && (table.contains_key(
                key,
            ) ==> upsert_all(table, branch, recs)[key] == table[key]),
        },
    decreases recs.len(),
{
    if recs.len() > 0 {
        lemma_upsert_all(table, branch, recs.drop_last(), key);
    }
}

/// What an import does to the tiles table: the records of the sheet's data
/// rows (all rows after the header) are upserted into the user's branch.
/// Tiles of other branches stay as they were; in the branch, the tile of an
/// item number that some upserted row carries is that item's last such row
/// (the last row wins), and every other tile stays as it was. A row without
/// an item number, or with an unreadable quantity, changes nothing.
pub proof fn lemma_import_upserts(
    table: Map<(i64, Seq<char>), TileRecordModel>,
    branch: i64,
    rows: Seq<Seq<Seq<char>>>,
    qtys: Seq<Option<i64>>,
)
    ensures
        forall|key: (i64, Seq<char>)|
            key.0 != branch ==> (#[trigger] upsert_all(table, branch, upserts(outcomes(rows, qtys, rows.len() as int))).contains_key(key)
                == table.contains_key(key) && (table.contains_key(key) ==> upsert_all(
                table,
                branch,
                upserts(outcomes(rows, qtys, rows.len() as int)),
            )[key] == table[key])),
        forall|item: Seq<char>|
            match #[trigger] last_record_for(upserts(outcomes(rows, qtys, rows.len() as int)), item) {
                Some(r) => r.item_number == item && upsert_all(table, branch, upserts(outcomes(rows, qtys, rows.len() as int))).contains_key((branch, item))
                    && upsert_all(table, branch, upserts(outcomes(rows, qtys, rows.len() as int)))[(branch, item)] == r,
                None => upsert_all(table, branch, upserts(outcomes(rows, qtys, rows.len() as int))).contains_key((branch, item))
                    == table.contains_key((branch, item)) && (table.contains_key((branch, item)) ==> upsert_all(
                    table,
                    branch,
                    upserts(outcomes(rows, qtys, rows.len() as int)),
                )[(branch, item)] == table[(branch, item)]),
            },
{
    let recs = upserts(outcomes(rows, qtys, rows.len() as int));
    assert forall|key: (i64, Seq<char>)| key.0 != branch implies (#[trigger] upsert_all(table, branch, recs).contains_key(key)
        == table.contains_key(key) && (table.contains_key(key) ==> upsert_all(table, branch, recs)[key] == table[key])) by {
        lemma_upsert_all(table, branch, recs, key);
    }
    assert forall|item: Seq<char>|
        match #[trigger] last_record_for(recs, item) {
            Some(r) => r.item_number == item && upsert_all(table, branch, recs).contains_key((branch, item))
                && upsert_all(table, branch, recs)[(branch, item)] == r,
            None => upsert_all(table, branch, recs).contains_key((branch, item)) == table.contains_key((branch, item))
                && (table.contains_key((branch, item)) ==> upsert_all(table, branch, recs)[(branch, item)] == table[(
                branch,
                item,
            )]),
        } by {
        lemma_upsert_all(table, branch, recs, (branch, item));
        lemma_last_record_item(recs, item);
    }
}

proof fn lemma_last_record_item(recs: Seq<TileRecordModel>, item: Seq<char>)
    ensures
        last_record_for(recs, item) matches Some(r) ==> r.item_number == item,
    decreases recs.len(),
{
    if recs.len() > 0 {
        lemma_last_record_item(recs.drop_last(), item);
    }
}

} // verus!
