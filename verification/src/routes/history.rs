//! The unified action log: restock requests, approvals, fulfilments and
//! rejections, give-outs and note edits, newest first.
use vstd::prelude::*;
use crate::datetime::{clock_and_date, format_clock_and_date, parse_sqlite_datetime, sqlite_datetime};
use crate::order::{apply_permutation, is_text_sort, permuted, sort_by_text};
use crate::routes::chat::{chat_ts_texts, fmt_chat_ts};
use crate::text::{lemma_text_lt_irreflexive, lemma_text_lt_transitive, text_lt, chars_of, copy_opt, nat_decimal, opt_text, owned, push_nat};

verus! {

/// A refill request with the names of the people who acted on it.
#[derive(Debug)]
pub struct RefillHistoryRow {
    pub item_number: String,
    pub qty_requested: i64,
    pub requested_at: String,
    pub requested_by_name: String,
    pub approved_at: Option<String>,
    pub approved_by_name: Option<String>,
    pub fulfilled_at: Option<String>,
    pub fulfilled_by_name: Option<String>,
    pub rejected_at: Option<String>,
    pub rejected_by_name: Option<String>,
    pub rejection_reason: Option<String>,
}

/// An item marked as given out from the chat.
#[derive(Debug)]
pub struct GiveOutRow {
    pub item_number: String,
    pub handled_by_name: String,
    pub handled_at: String,
}

/// A note edit.
#[derive(Debug)]
pub struct NoteEditRow {
    pub edited_at: String,
    pub edited_by_name: String,
    pub item_number: String,
}

/// One line of the history page.
#[derive(Debug)]
pub struct HistoryEntry {
    pub ts: String,
    pub date_str: String,
    pub time_str: String,
    pub item_number: String,
    pub action: String,
    pub action_slug: String,
    pub person: String,
    pub qty: Option<i64>,
    pub processing_time: Option<String>,
    pub rejection_reason: Option<String>,
    pub pending_fulfillment: bool,
}

/// A `HistoryEntry` as plain values.
pub struct HistoryModel {
    pub ts: Seq<char>,
    pub date_str: Seq<char>,
    pub time_str: Seq<char>,
    pub item_number: Seq<char>,
    pub action: Seq<char>,
    pub action_slug: Seq<char>,
    pub person: Seq<char>,
    pub qty: Option<i64>,
    pub processing_time: Option<Seq<char>>,
    pub rejection_reason: Option<Seq<char>>,
    pub pending_fulfillment: bool,
}

impl View for HistoryEntry {
    type V = HistoryModel;

    open spec fn view(&self) -> HistoryModel {
        HistoryModel {
            ts: self.ts@,
            date_str: self.date_str@,
            time_str: self.time_str@,
            item_number: self.item_number@,
            action: self.action@,
            action_slug: self.action_slug@,
            person: self.person@,
            qty: self.qty,
            processing_time: opt_text(self.processing_time),
            rejection_reason: opt_text(self.rejection_reason),
            pending_fulfillment: self.pending_fulfillment,
        }
    }
}

/// The (time, date) display texts of a SQLite `datetime()` text, falling
/// back to RFC 3339, then to placeholders.
pub open spec fn history_ts_texts(ts: Seq<char>) -> (Seq<char>, Seq<char>) {
    match sqlite_datetime(ts) {
        Some(f) => clock_and_date(f),
        None => chat_ts_texts(ts),
    }
}

/// The processing time between two SQLite `datetime()` texts, in whole
/// minutes (negative spans count as none), e.g. "2h 34m" or "45m"; `None`
/// when either does not parse.
pub open spec fn duration_text(start: Seq<char>, end: Seq<char>) -> Option<Seq<char>> {
    match (sqlite_datetime(start), sqlite_datetime(end)) {
        (Some(s), Some(e)) => {
            let diff = e.6 - s.6;
            let total = if diff > 0 {
                diff / 60
            } else {
                0
            };
            let hours = total / 60;
            let minutes = total % 60;
            if hours == 0 {
                Some(nat_decimal(minutes as nat) + "m"@)
            } else {
                Some(nat_decimal(hours as nat) + "h "@ + nat_decimal(minutes as nat) + "m"@)
            }
        },
        _ => None,
    }
}

/// Formats a timestamp for the history page.
pub fn fmt_ts(ts: &str) -> (r: (String, String))
    ensures
        (r.0@, r.1@) == history_ts_texts(ts@),
{
    match parse_sqlite_datetime(ts) {
        Some(t) => format_clock_and_date(&t),
        None => fmt_chat_ts(ts),
    }
}

/// The time a request took, from `start` (requested) to `end` (approved,
/// fulfilled or rejected).
pub fn fmt_duration(start: &str, end: &str) -> (r: Option<String>)
    ensures
        opt_text(r) == duration_text(start@, end@),
{
    let s = match parse_sqlite_datetime(start) {
        Some(s) => s,
        None => return None,
    };
    let e = match parse_sqlite_datetime(end) {
        Some(e) => e,
        None => return None,
    };
    let diff: i128 = e.unix_secs as i128 - s.unix_secs as i128;
    let total: i128 = if diff > 0 {
        diff / 60
    } else {
        0
    };
    let hours: u64 = (total / 60) as u64;
    let minutes: u64 = (total % 60) as u64;
    let mut out = String::new();
    if hours == 0 {
        push_nat(&mut out, minutes);
        out.append("m");
    } else {
        push_nat(&mut out, hours);
        out.append("h ");
        push_nat(&mut out, minutes);
        out.append("m");
    }
    assert(opt_text(Some(out)) =~= duration_text(start@, end@));
    Some(out)
}

pub open spec fn name_or_unknown(o: Option<String>) -> Seq<char> {
    match o {
        Some(s) => s@,
        None => "Unknown"@,
    }
}

/// A history line at `ts` with the remaining fields given.
pub open spec fn entry_at(
    ts: Seq<char>,
    item_number: Seq<char>,
    action: Seq<char>,
    slug: Seq<char>,
    person: Seq<char>,
    qty: Option<i64>,
    processing_time: Option<Seq<char>>,
    rejection_reason: Option<Seq<char>>,
    pending: bool,
) -> HistoryModel {
    HistoryModel {
        ts,
        date_str: history_ts_texts(ts).1,
        time_str: history_ts_texts(ts).0,
        item_number,
        action,
        action_slug: slug,
        person,
        qty,
        processing_time,
        rejection_reason,
        pending_fulfillment: pending,
    }
}

/// The lines of one refill request: requested, then approved, fulfilled and
/// rejected where those happened. Each approval, fulfilment and rejection
/// carries the time since the request. An approval still awaits fulfilment
/// while the request is neither fulfilled nor rejected.
pub open spec fn refill_entries(r: RefillHistoryRow) -> Seq<HistoryModel> {
    let requested = seq![entry_at(r.requested_at@, r.item_number@, "Restock Requested"@, "requested"@, r.requested_by_name@, Some(r.qty_requested), None, None, false)];
    let approved = match r.approved_at {
        Some(ts) => seq![entry_at(ts@, r.item_number@, "Restock Approved"@, "approved"@, name_or_unknown(r.approved_by_name), Some(r.qty_requested), duration_text(r.requested_at@, ts@), None, r.fulfilled_at is None && r.rejected_at is None)],
        None => Seq::empty(),
    };
    let fulfilled = match r.fulfilled_at {
        Some(ts) => seq![entry_at(ts@, r.item_number@, "Restock Fulfilled"@, "fulfilled"@, name_or_unknown(r.fulfilled_by_name), Some(r.qty_requested), duration_text(r.requested_at@, ts@), None, false)],
        None => Seq::empty(),
    };
    let rejected = match r.rejected_at {
        Some(ts) => seq![entry_at(ts@, r.item_number@, "Restock Rejected"@, "rejected"@, name_or_unknown(r.rejected_by_name), None, duration_text(r.requested_at@, ts@), opt_text(r.rejection_reason), false)],
        None => Seq::empty(),
    };
    requested + approved + fulfilled + rejected
}

pub open spec fn all_refill_entries(rows: Seq<RefillHistoryRow>) -> Seq<HistoryModel>
    decreases rows.len(),
{
    if rows.len() == 0 {
        Seq::empty()
    } else {
        all_refill_entries(rows.drop_last()) + refill_entries(rows.last())
    }
}

pub open spec fn give_out_entry(g: GiveOutRow) -> HistoryModel {
    entry_at(g.handled_at@, g.item_number@, "Give Out"@, "giveout"@, g.handled_by_name@, None, None, None, false)
}

pub open spec fn note_entry(n: NoteEditRow) -> HistoryModel {
    entry_at(n.edited_at@, n.item_number@, "Note Edited"@, "note-edited"@, n.edited_by_name@, None, None, None, false)
}

/// Every line before ordering: refill lines, then give-outs, then note edits.
pub open spec fn history_lines(refills: Seq<RefillHistoryRow>, give_outs: Seq<GiveOutRow>, notes: Seq<NoteEditRow>) -> Seq<HistoryModel> {
    all_refill_entries(refills) + give_outs.map_values(|g: GiveOutRow| give_out_entry(g)) + notes.map_values(
        |n: NoteEditRow| note_entry(n),
    )
}

pub open spec fn line_keys(lines: Seq<HistoryModel>) -> Seq<Seq<char>> {
    lines.map_values(|h: HistoryModel| h.ts)
}

fn make_entry(
    ts: &str,
    item_number: &str,
    action: &str,
    slug: &str,
    person: String,
    qty: Option<i64>,
    processing_time: Option<String>,
    rejection_reason: Option<String>,
    pending: bool,
) -> (e: HistoryEntry)
    ensures
        e@ == entry_at(ts@, item_number@, action@, slug@, person@, qty, opt_text(processing_time), opt_text(rejection_reason), pending),
{
    let (time_str, date_str) = fmt_ts(ts);
    HistoryEntry {
        ts: owned(ts),
        date_str,
        time_str,
        item_number: owned(item_number),
        action: owned(action),
        action_slug: owned(slug),
        person,
        qty,
        processing_time,
        rejection_reason,
        pending_fulfillment: pending,
    }
}

fn name_or_unknown_exec(o: &Option<String>) -> (r: String)
    ensures
        r@ == name_or_unknown(*o),
{
    match o {
        Some(s) => owned(s.as_str()),
        None => owned("Unknown"),
    }
}

fn push_refill_entries(out: &mut Vec<HistoryEntry>, r: &RefillHistoryRow)
    ensures
        final(out)@.map_values(|h: HistoryEntry| h@) == old(out)@.map_values(|h: HistoryEntry| h@) + refill_entries(*r),
{
    let ghost start = old(out)@.map_values(|h: HistoryEntry| h@);
    let ghost mut expected = start;
    let e = make_entry(r.requested_at.as_str(), r.item_number.as_str(), "Restock Requested", "requested", owned(r.requested_by_name.as_str()), Some(r.qty_requested), None, None, false);
    out.push(e);
    proof {
        expected = expected.push(e@);
        assert(out@.map_values(|h: HistoryEntry| h@) =~= expected);
    }
    if let Some(ts) = &r.approved_at {
        let pending: bool = r.fulfilled_at.is_none() && r.rejected_at.is_none();
        let e = make_entry(ts.as_str(), r.item_number.as_str(), "Restock Approved", "approved", name_or_unknown_exec(&r.approved_by_name), Some(r.qty_requested), fmt_duration(r.requested_at.as_str(), ts.as_str()), None, pending);
        out.push(e);
        proof {
            expected = expected.push(e@);
            assert(out@.map_values(|h: HistoryEntry| h@) =~= expected);
        }
    }
    if let Some(ts) = &r.fulfilled_at {
        let e = make_entry(ts.as_str(), r.item_number.as_str(), "Restock Fulfilled", "fulfilled", name_or_unknown_exec(&r.fulfilled_by_name), Some(r.qty_requested), fmt_duration(r.requested_at.as_str(), ts.as_str()), None, false);
        out.push(e);
        proof {
            expected = expected.push(e@);
            assert(out@.map_values(|h: HistoryEntry| h@) =~= expected);
        }
    }
    if let Some(ts) = &r.rejected_at {
        let e = make_entry(ts.as_str(), r.item_number.as_str(), "Restock Rejected", "rejected", name_or_unknown_exec(&r.rejected_by_name), None, fmt_duration(r.requested_at.as_str(), ts.as_str()), copy_opt(&r.rejection_reason), false);
        out.push(e);
        proof {
            expected = expected.push(e@);
            assert(out@.map_values(|h: HistoryEntry| h@) =~= expected);
        }
    }
    assert(expected =~= start + refill_entries(*r));
}

/// Whether `action` is one of the four steps of a restock request.
pub open spec fn is_restock_step(action: Seq<char>) -> bool {
    action == "Restock Requested"@ || action == "Restock Approved"@ || action == "Restock Fulfilled"@ || action
        == "Restock Rejected"@
}

/// The recorded name, or "Unknown" where none is recorded.
pub open spec fn named_or_unknown(o: Option<String>) -> Seq<char> {
    match o {
        Some(n) => n@,
        None => "Unknown"@,
    }
}

/// Whether history line `h` is a step of request `r`, stamped with that
/// step's time and naming the person who took it: the requester for the
/// request, the approver for the approval, the fulfiller for the fulfilment,
/// the rejecter for the rejection. Every step but the request shows the
/// time since the request; every step but the rejection shows the requested
/// quantity, and the rejection shows its reason.
pub open spec fn step_of(r: RefillHistoryRow, h: HistoryModel) -> bool {
    &&& h.item_number == r.item_number@
    &&& h.action == "Restock Requested"@ ==> h.ts == r.requested_at@ && h.person == r.requested_by_name@ && h.qty == Some(
        r.qty_requested,
    ) && h.processing_time is None
    &&& h.action == "Restock Approved"@ ==> (r.approved_at matches Some(t) && h.ts == t@ && h.processing_time
        == duration_text(r.requested_at@, t@)) && h.person == named_or_unknown(r.approved_by_name) && h.qty == Some(
        r.qty_requested,
    )
    &&& h.action == "Restock Fulfilled"@ ==> (r.fulfilled_at matches Some(t) && h.ts == t@ && h.processing_time
        == duration_text(r.requested_at@, t@)) && h.person == named_or_unknown(r.fulfilled_by_name) && h.qty == Some(
        r.qty_requested,
    )
    &&& h.action == "Restock Rejected"@ ==> (r.rejected_at matches Some(t) && h.ts == t@ && h.processing_time
        == duration_text(r.requested_at@, t@)) && h.person == named_or_unknown(r.rejected_by_name) && h.qty is None
        && h.rejection_reason == opt_text(r.rejection_reason)
}

/// Whether history line `h` is give-out `g`: its time, item and the person
/// who handed it out.
pub open spec fn give_out_line(g: GiveOutRow, h: HistoryModel) -> bool {
    h.ts == g.handled_at@ && h.item_number == g.item_number@ && h.person == g.handled_by_name@
}

/// Whether history line `h` is note edit `n`: its time, item and editor.
pub open spec fn note_line(n: NoteEditRow, h: HistoryModel) -> bool {
    h.ts == n.edited_at@ && h.item_number == n.item_number@ && h.person == n.edited_by_name@
}

/// Whether `h` is a line of one of the inputs: a step of a request, a
/// give-out or a note edit, as its action says.
pub open spec fn line_of_inputs(
    refills: Seq<RefillHistoryRow>,
    give_outs: Seq<GiveOutRow>,
    notes: Seq<NoteEditRow>,
    h: HistoryModel,
) -> bool {
    &&& is_restock_step(h.action) ==> exists|i: int| 0 <= i < refills.len() && step_of(#[trigger] refills[i], h)
    &&& h.action == "Give Out"@ ==> exists|i: int| 0 <= i < give_outs.len() && give_out_line(#[trigger] give_outs[i], h)
    &&& h.action == "Note Edited"@ ==> exists|i: int| 0 <= i < notes.len() && note_line(#[trigger] notes[i], h)
    &&& (is_restock_step(h.action) || h.action == "Give Out"@ || h.action == "Note Edited"@)
}

proof fn lemma_step_names_differ()
    ensures
        "Restock Requested"@ != "Restock Approved"@,
        "Restock Requested"@ != "Restock Fulfilled"@,
        "Restock Requested"@ != "Restock Rejected"@,
        "Restock Approved"@ != "Restock Fulfilled"@,
        "Restock Approved"@ != "Restock Rejected"@,
        "Restock Fulfilled"@ != "Restock Rejected"@,
        !is_restock_step("Give Out"@),
        !is_restock_step("Note Edited"@),
        "Give Out"@ != "Note Edited"@,
{
    reveal_strlit("Restock Requested");
    reveal_strlit("Restock Approved");
    reveal_strlit("Restock Fulfilled");
    reveal_strlit("Restock Rejected");
    reveal_strlit("Give Out");
    reveal_strlit("Note Edited");
    assert("Restock Requested"@.len() == 17 && "Restock Fulfilled"@.len() == 17);
    assert("Restock Approved"@.len() == 16 && "Restock Rejected"@.len() == 16);
    assert("Give Out"@.len() == 8 && "Note Edited"@.len() == 11);
    assert("Restock Requested"@[8] != "Restock Fulfilled"@[8]);
    assert("Restock Approved"@[8] != "Restock Rejected"@[8]);
}

proof fn lemma_refill_entries_are_steps(r: RefillHistoryRow)
    ensures
        forall|m: int| 0 <= m < refill_entries(r).len() ==> step_of(r, #[trigger] refill_entries(r)[m]),
{
    lemma_step_names_differ();
    let e = refill_entries(r);
    assert forall|m: int| 0 <= m < e.len() implies step_of(r, #[trigger] e[m]) by {
        let approved = match r.approved_at {
            Some(ts) => seq![entry_at(ts@, r.item_number@, "Restock Approved"@, "approved"@, name_or_unknown(r.approved_by_name), Some(r.qty_requested), duration_text(r.requested_at@, ts@), None, r.fulfilled_at is None && r.rejected_at is None)],
            None => Seq::empty(),
        };
        let fulfilled = match r.fulfilled_at {
            Some(ts) => seq![entry_at(ts@, r.item_number@, "Restock Fulfilled"@, "fulfilled"@, name_or_unknown(r.fulfilled_by_name), Some(r.qty_requested), duration_text(r.requested_at@, ts@), None, false)],
            None => Seq::empty(),
        };
        let rejected = match r.rejected_at {
            Some(ts) => seq![entry_at(ts@, r.item_number@, "Restock Rejected"@, "rejected"@, name_or_unknown(r.rejected_by_name), None, duration_text(r.requested_at@, ts@), opt_text(r.rejection_reason), false)],
            None => Seq::empty(),
        };
        let requested = seq![entry_at(r.requested_at@, r.item_number@, "Restock Requested"@, "requested"@, r.requested_by_name@, Some(r.qty_requested), None, None, false)];
        assert(e == requested + approved + fulfilled + rejected);
        let n1 = requested.len() as int;
        let n2 = n1 + approved.len();
        let n3 = n2 + fulfilled.len();
        if m < n1 {
            assert(e[m] == requested[m]);
        } else if m < n2 {
            assert(e[m] == approved[m - n1]);
        } else if m < n3 {
            assert(e[m] == fulfilled[m - n2]);
        } else {
            assert(e[m] == rejected[m - n3]);
        }
    }
}

/// Whether `h` is a step of one of `rows`.
pub open spec fn step_of_some(rows: Seq<RefillHistoryRow>, h: HistoryModel) -> bool {
    exists|i: int| 0 <= i < rows.len() && step_of(#[trigger] rows[i], h)
}

proof fn lemma_refill_lines_are_steps(rows: Seq<RefillHistoryRow>)
    ensures
        forall|m: int| 0 <= m < all_refill_entries(rows).len() ==> step_of_some(rows, #[trigger] all_refill_entries(rows)[m]),
    decreases rows.len(),
{
    if rows.len() > 0 {
        let init = rows.drop_last();
        lemma_refill_lines_are_steps(init);
        lemma_refill_entries_are_steps(rows.last());
        let prev = all_refill_entries(init);
        let e = all_refill_entries(rows);
        assert forall|m: int| 0 <= m < e.len() implies step_of_some(rows, #[trigger] e[m]) by {
            if m < prev.len() {
                assert(e[m] == prev[m]);
                assert(step_of_some(init, prev[m]));
                let i = choose|i: int| 0 <= i < init.len() && step_of(#[trigger] init[i], prev[m]);
                assert(rows[i] == init[i]);
            } else {
                assert(e[m] == refill_entries(rows.last())[m - prev.len()]);
                assert(step_of(rows[rows.len() - 1], e[m]));
            }
        }
    }
}

/// Every line of the history comes from the inputs, as its action says: a
/// restock line is a step of one of the requests (stamped with that step's
/// time, naming who took it, "Unknown" where no name is recorded, with the
/// quantity, processing time and rejection reason of that step), a give-out
/// line is one of the give-outs and a note line one of the note edits. And
/// the lines come newest first.
pub proof fn lemma_history_lines_from_inputs(
    refills: Seq<RefillHistoryRow>,
    give_outs: Seq<GiveOutRow>,
    notes: Seq<NoteEditRow>,
    p: Seq<usize>,
)
    requires
        is_text_sort(line_keys(history_lines(refills, give_outs, notes)), true, p),
    ensures
        forall|k: int|
            0 <= k < p.len() ==> line_of_inputs(refills, give_outs, notes, #[trigger] permuted(history_lines(refills, give_outs, notes), p)[k]),
        forall|i: int, j: int|
            0 <= i < j < p.len() ==> !text_lt(
                (#[trigger] permuted(history_lines(refills, give_outs, notes), p)[i]).ts,
                (#[trigger] permuted(history_lines(refills, give_outs, notes), p)[j]).ts,
            ),
{
    lemma_step_names_differ();
    lemma_refill_lines_are_steps(refills);
    let lines = history_lines(refills, give_outs, notes);
    let keys = line_keys(lines);
    let a = all_refill_entries(refills);
    let g = give_outs.map_values(|g: GiveOutRow| give_out_entry(g));
    let n = notes.map_values(|n: NoteEditRow| note_entry(n));
    reveal_strlit("Give Out");
    reveal_strlit("Note Edited");
    assert forall|k: int| 0 <= k < p.len() implies line_of_inputs(refills, give_outs, notes, #[trigger] permuted(lines, p)[k]) by {
        let m = p[k] as int;
        assert(permuted(lines, p)[k] == lines[m]);
        if m < a.len() {
            assert(lines[m] == a[m]);
            assert(step_of_some(refills, a[m]));
            lemma_refill_entry_actions(refills, m);
        } else if m < a.len() + g.len() {
            let x = m - a.len();
            assert(lines[m] == g[x]);
            assert(give_out_line(give_outs[x], lines[m]));
        } else {
            let x = m - a.len() - g.len();
            assert(lines[m] == n[x]);
            assert(note_line(notes[x], lines[m]));
        }
    }
    assert forall|i: int, j: int| 0 <= i < j < p.len() implies !text_lt(
        (#[trigger] permuted(lines, p)[i]).ts,
        (#[trigger] permuted(lines, p)[j]).ts,
    ) by {
        let x = p[i] as int;
        let y = p[j] as int;
        assert(crate::order::text_key_before(keys, true, x, y));
        assert(keys[x] == lines[x].ts && keys[y] == lines[y].ts);
        if text_lt(lines[x].ts, lines[y].ts) {
            if text_lt(lines[y].ts, lines[x].ts) {
                lemma_text_lt_transitive(lines[x].ts, lines[y].ts, lines[x].ts);
            }
            lemma_text_lt_irreflexive(lines[x].ts);
        }
    }
}

proof fn lemma_refill_entry_actions(rows: Seq<RefillHistoryRow>, m: int)
    requires
        0 <= m < all_refill_entries(rows).len(),
    ensures
        is_restock_step(all_refill_entries(rows)[m].action),
    decreases rows.len(),
{
    let init = rows.drop_last();
    let prev = all_refill_entries(init);
    if m < prev.len() {
        lemma_refill_entry_actions(init, m);
    } else {
        lemma_refill_entry_action(rows.last(), m - prev.len());
    }
}

proof fn lemma_refill_entry_action(r: RefillHistoryRow, m: int)
    requires
        0 <= m < refill_entries(r).len(),
    ensures
        is_restock_step(refill_entries(r)[m].action),
{
    let e = refill_entries(r);
    let requested = seq![entry_at(r.requested_at@, r.item_number@, "Restock Requested"@, "requested"@, r.requested_by_name@, Some(r.qty_requested), None, None, false)];
    let approved = match r.approved_at {
        Some(ts) => seq![entry_at(ts@, r.item_number@, "Restock Approved"@, "approved"@, name_or_unknown(r.approved_by_name), Some(r.qty_requested), duration_text(r.requested_at@, ts@), None, r.fulfilled_at is None && r.rejected_at is None)],
        None => Seq::empty(),
    };
    let fulfilled = match r.fulfilled_at {
        Some(ts) => seq![entry_at(ts@, r.item_number@, "Restock Fulfilled"@, "fulfilled"@, name_or_unknown(r.fulfilled_by_name), Some(r.qty_requested), duration_text(r.requested_at@, ts@), None, false)],
        None => Seq::empty(),
    };
    let rejected = match r.rejected_at {
        Some(ts) => seq![entry_at(ts@, r.item_number@, "Restock Rejected"@, "rejected"@, name_or_unknown(r.rejected_by_name), None, duration_text(r.requested_at@, ts@), opt_text(r.rejection_reason), false)],
        None => Seq::empty(),
    };
    assert(e == requested + approved + fulfilled + rejected);
}

/// The history page's lines, newest first: every refill step, give-out and
/// note edit, ordered by timestamp text descending (a stable sort, so lines
/// with equal timestamps keep the order refill lines, give-outs, note edits).
pub fn build_history(refills: &Vec<RefillHistoryRow>, give_outs: &Vec<GiveOutRow>, notes: &Vec<NoteEditRow>) -> (r: Vec<HistoryEntry>)
    ensures
        exists|p: Seq<usize>|
            is_text_sort(line_keys(history_lines(refills@, give_outs@, notes@)), true, p) && r@.map_values(
                |h: HistoryEntry| h@,
            ) == permuted(history_lines(refills@, give_outs@, notes@), p),
        forall|k: int| 0 <= k < r@.len() ==> line_of_inputs(refills@, give_outs@, notes@, #[trigger] r@[k]@),
        forall|i: int, j: int| 0 <= i < j < r@.len() ==> !text_lt((#[trigger] r@[i]).ts@, (#[trigger] r@[j]).ts@),
{
    let mut out: Vec<HistoryEntry> = Vec::new();
    let mut i: usize = 0;
    while i < refills.len()
        invariant
            i <= refills@.len(),
            out@.map_values(|h: HistoryEntry| h@) == all_refill_entries(refills@.subrange(0, i as int)),
        decreases refills@.len() - i,
    {
        assert(refills@.subrange(0, i + 1).drop_last() =~= refills@.subrange(0, i as int));
        push_refill_entries(&mut out, &refills[i]);
        i = i + 1;
    }
    assert(refills@.subrange(0, refills@.len() as int) =~= refills@);
    let ghost base = out@.map_values(|h: HistoryEntry| h@);
    let mut j: usize = 0;
    while j < give_outs.len()
        invariant
            j <= give_outs@.len(),
            out@.map_values(|h: HistoryEntry| h@) == base + give_outs@.subrange(0, j as int).map_values(|g: GiveOutRow| give_out_entry(g)),
        decreases give_outs@.len() - j,
    {
        let g = &give_outs[j];
        let e = make_entry(g.handled_at.as_str(), g.item_number.as_str(), "Give Out", "giveout", owned(g.handled_by_name.as_str()), None, None, None, false);
        let ghost before = out@.map_values(|h: HistoryEntry| h@);
        out.push(e);
        assert(out@.map_values(|h: HistoryEntry| h@) =~= before.push(e@));
        assert(give_outs@.subrange(0, j + 1).map_values(|g: GiveOutRow| give_out_entry(g)) =~= give_outs@.subrange(0, j as int).map_values(|g: GiveOutRow| give_out_entry(g)).push(give_out_entry(*g)));
        j = j + 1;
    }
    assert(give_outs@.subrange(0, give_outs@.len() as int) =~= give_outs@);
    let ghost base2 = out@.map_values(|h: HistoryEntry| h@);
    let mut k: usize = 0;
    while k < notes.len()
        invariant
            k <= notes@.len(),
            out@.map_values(|h: HistoryEntry| h@) == base2 + notes@.subrange(0, k as int).map_values(|n: NoteEditRow| note_entry(n)),
        decreases notes@.len() - k,
    {
        let n = &notes[k];
        let e = make_entry(n.edited_at.as_str(), n.item_number.as_str(), "Note Edited", "note-edited", owned(n.edited_by_name.as_str()), None, None, None, false);
        let ghost before = out@.map_values(|h: HistoryEntry| h@);
        out.push(e);
        assert(out@.map_values(|h: HistoryEntry| h@) =~= before.push(e@));
        assert(notes@.subrange(0, k + 1).map_values(|n: NoteEditRow| note_entry(n)) =~= notes@.subrange(0, k as int).map_values(|n: NoteEditRow| note_entry(n)).push(note_entry(*n)));
        k = k + 1;
    }
    assert(notes@.subrange(0, notes@.len() as int) =~= notes@);
    let ghost lines = history_lines(refills@, give_outs@, notes@);
    assert(out@.map_values(|h: HistoryEntry| h@) =~= lines);
    let mut keys: Vec<Vec<char>> = Vec::new();
    let mut t: usize = 0;
    while t < out.len()
        invariant
            t <= out@.len(),
            out@.map_values(|h: HistoryEntry| h@) == lines,
            keys@.len() == t,
            forall|q: int| 0 <= q < t ==> #[trigger] keys@[q]@ == out@[q].ts@,
        decreases out@.len() - t,
    {
        keys.push(chars_of(out[t].ts.as_str()));
        t = t + 1;
    }
    assert(keys@.map_values(|q: Vec<char>| q@) =~= line_keys(lines)) by {
        assert forall|q: int| 0 <= q < keys@.len() implies keys@[q]@ == lines[q].ts by {
            assert(lines[q] == out@[q]@);
        }
    }
    let p = sort_by_text(&keys, true);
    let ghost unsorted = out@;
    let sorted = apply_permutation(out, &p);
    assert(sorted@.map_values(|h: HistoryEntry| h@) =~= permuted(lines, p@)) by {
        assert forall|q: int| 0 <= q < p@.len() implies sorted@[q]@ == lines[p@[q] as int] by {
            assert(lines[p@[q] as int] == unsorted[p@[q] as int]@);
        }
    }
    proof {
        lemma_history_lines_from_inputs(refills@, give_outs@, notes@, p@);
        assert forall|k: int| 0 <= k < sorted@.len() implies line_of_inputs(refills@, give_outs@, notes@, #[trigger] sorted@[k]@) by {
            assert(sorted@[k]@ == sorted@.map_values(|h: HistoryEntry| h@)[k]);
            assert(sorted@[k]@ == permuted(lines, p@)[k]);
        }
        assert forall|i: int, j: int| 0 <= i < j < sorted@.len() implies !text_lt((#[trigger] sorted@[i]).ts@, (#[trigger] sorted@[j]).ts@) by {
            assert(sorted@[i]@ == sorted@.map_values(|h: HistoryEntry| h@)[i]);
            assert(sorted@[j]@ == sorted@.map_values(|h: HistoryEntry| h@)[j]);
            assert(!text_lt(permuted(lines, p@)[i].ts, permuted(lines, p@)[j].ts));
        }
    }
    sorted
}

} // verus!
