//! Branch chat: message checks, the chat history assembled from the daily log
//! files, the "handled" marks, and which log files are old enough to purge.
use vstd::prelude::*;
use crate::auth::extractor::{AuthUser, Role, role_text};
use crate::datetime::{
    utc_civil_date_days_ago, utc_date_days_ago, utc_now_rfc3339, is_day_text,
    clock_and_date, date_text, day_format, format_clock_and_date, naive_date_parse, parse_naive_date,
    parse_rfc3339, placeholder, placeholder_text, rfc3339_parse, CivilDate,
};
use crate::error::{AppError, Refusal, verdict};
use crate::routes::refill::{opt_tile, TileRef};
use crate::order::{apply_permutation, is_text_sort, permuted, sort_by_text, text_key_before};
use crate::text::{lemma_text_lt_irreflexive, lemma_text_lt_transitive, text_lt, chars_of, has_prefix, has_suffix, owned, text_ends_with, text_eq, text_starts_with, trim, trimmed, utf8_len};
use crate::ws::manager::WsEvent;

verus! {

pub open spec fn empty_message() -> Seq<char> {
    "Message cannot be empty"@
}

pub open spec fn long_message() -> Seq<char> {
    "Message must be 1,000 characters or fewer"@
}

pub open spec fn bad_item_message() -> Seq<char> {
    "Invalid item number"@
}

/// The outcome of posting `raw` to the branch chat.
pub open spec fn chat_verdict(raw: Seq<char>) -> Result<(), Refusal> {
    if trimmed(raw).len() == 0 {
        Err(Refusal::Validation(empty_message()))
    } else if utf8_len(trimmed(raw)) > 1000 {
        Err(Refusal::Validation(long_message()))
    } else {
        Ok(())
    }
}

/// Checks a chat message; the message is kept trimmed.
pub fn validate_chat_message(raw: &str) -> (r: Result<String, AppError>)
    ensures
        verdict(r) == chat_verdict(raw@),
        r matches Ok(m) ==> m@ == trimmed(raw@),
{
    let t = trim(raw);
    if t.unicode_len() == 0 {
        return Err(AppError::validation("Message cannot be empty"));
    }
    if t.as_bytes().len() > 1000 {
        return Err(AppError::validation("Message must be 1,000 characters or fewer"));
    }
    Ok(owned(t))
}

/// The event carrying a chat message to the branch.
pub fn chat_event(auth: &AuthUser, message: String) -> (e: WsEvent)
    ensures
        e matches WsEvent::ChatMessage { sender_name, role, message: m } && sender_name@ == auth.name@
            && role@ == role_text(auth.role) && m@ == message@,
{
    WsEvent::ChatMessage {
        sender_name: owned(auth.name.as_str()),
        role: owned(auth.role.as_str()),
        message,
    }
}

/// The outcome of posting `raw` to the chat of `tile` (looked up by id in
/// any branch): the message is checked first, then the tile must be in the
/// user's branch.
pub open spec fn tile_chat_verdict(auth: AuthUser, raw: Seq<char>, tile: Option<TileRef>) -> Result<(), Refusal> {
    if chat_verdict(raw) is Err {
        chat_verdict(raw)
    } else if !(tile matches Some(t) && t.branch_id == auth.branch_id) {
        Err(Refusal::NotFound)
    } else {
        Ok(())
    }
}

/// A message to store in a tile's chat.
#[derive(Debug)]
pub struct TileChatPost {
    pub tile_id: i64,
    pub sender_id: i64,
    pub message: String,
}

/// Decides a message posted to a tile's chat; the message is kept trimmed.
pub fn plan_tile_chat(auth: &AuthUser, raw: &str, tile: Option<&TileRef>) -> (r: Result<TileChatPost, AppError>)
    ensures
        verdict(r) == tile_chat_verdict(*auth, raw@, opt_tile(tile)),
        r matches Ok(p) ==> p.tile_id == tile.unwrap().id && p.sender_id == auth.id && p.message@ == trimmed(raw@),
{
    let message = validate_chat_message(raw)?;
    match tile {
        Some(t) => {
            if t.branch_id != auth.branch_id {
                return Err(AppError::NotFound);
            }
            Ok(TileChatPost { tile_id: t.id, sender_id: auth.id, message })
        },
        None => Err(AppError::NotFound),
    }
}

/// The outcome of marking `item_number` as handled.
pub open spec fn handled_verdict(auth: AuthUser, item_number: Seq<char>) -> Result<(), Refusal> {
    if auth.role == Role::SalesRep {
        Err(Refusal::Forbidden)
    } else if item_number.len() == 0 || utf8_len(item_number) > 100 {
        Err(Refusal::Validation(bad_item_message()))
    } else {
        Ok(())
    }
}

/// Decides whether `auth` may mark `item_number` as given out.
pub fn check_handled(auth: &AuthUser, item_number: &str) -> (r: Result<(), AppError>)
    ensures
        verdict(r) == handled_verdict(*auth, item_number@),
{
    if auth.role == Role::SalesRep {
        return Err(AppError::Forbidden);
    }
    if item_number.unicode_len() == 0 || item_number.as_bytes().len() > 100 {
        return Err(AppError::validation("Invalid item number"));
    }
    Ok(())
}

/// One line of a chat log file, with the fields it carried.
#[derive(Debug)]
pub struct RawChatLine {
    pub ts: Option<String>,
    pub branch_id: Option<i64>,
    pub user_name: Option<String>,
    pub role: Option<String>,
    pub message: Option<String>,
}

/// A message as the chat history shows it.
#[derive(Debug)]
pub struct ChatEntry {
    pub ts: String,
    pub user_name: String,
    pub role: String,
    pub message: String,
    pub time_str: String,
    pub date_str: String,
    pub show_date_sep: bool,
}

/// A `ChatEntry` as plain values.
pub struct ChatEntryModel {
    pub ts: Seq<char>,
    pub user_name: Seq<char>,
    pub role: Seq<char>,
    pub message: Seq<char>,
    pub time_str: Seq<char>,
    pub date_str: Seq<char>,
    pub show_date_sep: bool,
}

impl View for ChatEntry {
    type V = ChatEntryModel;

    open spec fn view(&self) -> ChatEntryModel {
        ChatEntryModel {
            ts: self.ts@,
            user_name: self.user_name@,
            role: self.role@,
            message: self.message@,
            time_str: self.time_str@,
            date_str: self.date_str@,
            show_date_sep: self.show_date_sep,
        }
    }
}

/// The (time, date) display texts of an RFC 3339 timestamp, e.g.
/// ("2:30 PM", "Mar 31, 2026"), or placeholders when it does not parse.
pub open spec fn chat_ts_texts(ts: Seq<char>) -> (Seq<char>, Seq<char>) {
    match rfc3339_parse(ts) {
        Some(f) => clock_and_date(f),
        None => (placeholder(), placeholder()),
    }
}

/// Formats a chat timestamp for display.
pub fn fmt_chat_ts(ts: &str) -> (r: (String, String))
    ensures
        (r.0@, r.1@) == chat_ts_texts(ts@),
{
    match parse_rfc3339(ts) {
        Some(t) => format_clock_and_date(&t),
        None => (placeholder_text(), placeholder_text()),
    }
}

pub open spec fn text_or(o: Option<String>, default: Seq<char>) -> Seq<char> {
    match o {
        Some(s) => s@,
        None => default,
    }
}

/// The (timestamp, name, role, message) of each line of branch `branch`,
/// missing fields read as "", "Unknown", "" and "".
pub open spec fn branch_lines(lines: Seq<RawChatLine>, branch: i64) -> Seq<(Seq<char>, Seq<char>, Seq<char>, Seq<char>)>
    decreases lines.len(),
{
    if lines.len() == 0 {
        Seq::empty()
    } else {
        let rest = branch_lines(lines.drop_last(), branch);
        let l = lines.last();
        if l.branch_id == Some(branch) {
            rest.push((text_or(l.ts, ""@), text_or(l.user_name, "Unknown"@), text_or(l.role, ""@), text_or(l.message, ""@)))
        } else {
            rest
        }
    }
}

/// The newest hundred of `s` (all of it when shorter).
pub open spec fn last_hundred<T>(s: Seq<T>) -> Seq<T> {
    if s.len() > 100 {
        s.skip(s.len() - 100)
    } else {
        s
    }
}

/// The history entries of messages already in time order: each shows its
/// time and date, and a date separator where its date differs from the
/// previous message's (for the first, from the empty text).
pub open spec fn chat_entries(msgs: Seq<(Seq<char>, Seq<char>, Seq<char>, Seq<char>)>) -> Seq<ChatEntryModel> {
    Seq::new(
        msgs.len(),
        |i: int|
            ChatEntryModel {
                ts: msgs[i].0,
                user_name: msgs[i].1,
                role: msgs[i].2,
                message: msgs[i].3,
                time_str: chat_ts_texts(msgs[i].0).0,
                date_str: chat_ts_texts(msgs[i].0).1,
                show_date_sep: if i == 0 {
                    chat_ts_texts(msgs[0].0).1 != ""@
                } else {
                    chat_ts_texts(msgs[i].0).1 != chat_ts_texts(msgs[i - 1].0).1
                },
            },
    )
}

pub open spec fn ts_keys(msgs: Seq<(Seq<char>, Seq<char>, Seq<char>, Seq<char>)>) -> Seq<Seq<char>> {
    msgs.map_values(|m: (Seq<char>, Seq<char>, Seq<char>, Seq<char>)| m.0)
}

fn text_of(o: &Option<String>, default: &str) -> (r: String)
    ensures
        r@ == text_or(*o, default@),
{
    match o {
        Some(s) => owned(s.as_str()),
        None => owned(default),
    }
}

/// The chat history of branch `branch_id` from the lines read out of the log
/// files: the branch's messages in timestamp order (a stable sort, so equal
/// timestamps keep their file order), at most the newest hundred, with
/// display times and date separators.
pub fn assemble_branch_chat(lines: &Vec<RawChatLine>, branch_id: i64) -> (r: Vec<ChatEntry>)
    ensures
        exists|p: Seq<usize>|
            is_text_sort(ts_keys(branch_lines(lines@, branch_id)), false, p) && r@.map_values(
                |e: ChatEntry| e@,
            ) == chat_entries(last_hundred(permuted(branch_lines(lines@, branch_id), p))),
        forall|i: int, j: int| 0 <= i < j < r@.len() ==> !text_lt((#[trigger] r@[j]).ts@, (#[trigger] r@[i]).ts@),
        forall|k: int| 0 <= k < r@.len() ==> (#[trigger] r@[k]).show_date_sep == (k == 0 || r@[k].date_str@ != r@[k - 1].date_str@),
{
    let mut selected: Vec<(String, String, String, String)> = Vec::new();
    let mut keys: Vec<Vec<char>> = Vec::new();
    let mut i: usize = 0;
    while i < lines.len()
        invariant
            i <= lines@.len(),
            selected@.len() == keys@.len(),
            selected@.map_values(|m: (String, String, String, String)| (m.0@, m.1@, m.2@, m.3@))
                == branch_lines(lines@.subrange(0, i as int), branch_id),
            forall|k: int| 0 <= k < keys@.len() ==> #[trigger] keys@[k]@ == selected@[k].0@,
        decreases lines@.len() - i,
    {
        let l = &lines[i];
        assert(lines@.subrange(0, i + 1).drop_last() =~= lines@.subrange(0, i as int));
        if l.branch_id == Some(branch_id) {
            let ts = text_of(&l.ts, "");
            keys.push(chars_of(ts.as_str()));
            let ghost before = selected@;
            selected.push((ts, text_of(&l.user_name, "Unknown"), text_of(&l.role, ""), text_of(&l.message, "")));
            assert(selected@.map_values(|m: (String, String, String, String)| (m.0@, m.1@, m.2@, m.3@))
                =~= before.map_values(|m: (String, String, String, String)| (m.0@, m.1@, m.2@, m.3@)).push(
                (selected@.last().0@, selected@.last().1@, selected@.last().2@, selected@.last().3@)));
        }
        i = i + 1;
    }
    assert(lines@.subrange(0, lines@.len() as int) =~= lines@);
    let ghost msgs = branch_lines(lines@, branch_id);
    let ghost sel_view = selected@.map_values(|m: (String, String, String, String)| (m.0@, m.1@, m.2@, m.3@));
    assert(keys@.map_values(|k: Vec<char>| k@) =~= ts_keys(msgs));
    let p = sort_by_text(&keys, false);
    let sorted = apply_permutation(selected, &p);
    let ghost kept = last_hundred(permuted(msgs, p@));
    let n: usize = sorted.len();
    let start: usize = if n > 100 {
        n - 100
    } else {
        0
    };
    assert(kept =~= permuted(msgs, p@).skip(start as int));
    let mut out: Vec<ChatEntry> = Vec::new();
    let mut prev = String::new();
    proof {
        reveal_strlit("");
    }
    let mut j: usize = start;
    while j < n
        invariant
            n == sorted@.len(),
            n == p@.len(),
            start <= j <= n,
            kept == permuted(msgs, p@).skip(start as int),
            sel_view == msgs,
            sorted@ == permuted(selected@, p@),
            selected@.len() == msgs.len(),
            forall|k: int| 0 <= k < p@.len() ==> #[trigger] p@[k] < msgs.len(),
            sel_view == selected@.map_values(|m: (String, String, String, String)| (m.0@, m.1@, m.2@, m.3@)),
            out@.len() == j - start,
            forall|k: int| 0 <= k < out@.len() ==> #[trigger] out@[k]@ == chat_entries(kept)[k],
            prev@ == (if j == start {
                ""@
            } else {
                chat_ts_texts(kept[j - start - 1].0).1
            }),
        decreases n - j,
    {
        let m = &sorted[j];
        let ghost k = j - start;
        assert(kept[k] == (m.0@, m.1@, m.2@, m.3@)) by {
            assert(sorted@[j as int] == selected@[p@[j as int] as int]);
            assert(sel_view[p@[j as int] as int] == (m.0@, m.1@, m.2@, m.3@));
        }
        let (time_str, date_str) = fmt_chat_ts(m.0.as_str());
        let show: bool = !text_eq(date_str.as_str(), prev.as_str());
        if show {
            prev = owned(date_str.as_str());
        } else {
            assert(prev@ == date_str@);
        }
        let entry = ChatEntry {
            ts: owned(m.0.as_str()),
            user_name: owned(m.1.as_str()),
            role: owned(m.2.as_str()),
            message: owned(m.3.as_str()),
            time_str,
            date_str,
            show_date_sep: show,
        };
        out.push(entry);
        j = j + 1;
    }
    assert(out@.map_values(|e: ChatEntry| e@) =~= chat_entries(kept));
    proof {
        let keys = ts_keys(msgs);
        let ordered = permuted(msgs, p@);
        assert forall|i: int, j: int| 0 <= i < j < out@.len() implies !text_lt((#[trigger] out@[j]).ts@, (#[trigger] out@[i]).ts@) by {
            let x = p@[start + i] as int;
            let y = p@[start + j] as int;
            assert(out@[i]@ == chat_entries(kept)[i]);
            assert(out@[j]@ == chat_entries(kept)[j]);
            assert(kept[i] == ordered[start + i] && kept[j] == ordered[start + j]);
            assert(crate::order::text_key_before(keys, false, x, y));
            assert(keys[x] == msgs[x].0 && keys[y] == msgs[y].0);
            if text_lt(msgs[y].0, msgs[x].0) {
                if text_lt(msgs[x].0, msgs[y].0) {
                    lemma_text_lt_transitive(msgs[x].0, msgs[y].0, msgs[x].0);
                }
                lemma_text_lt_irreflexive(msgs[x].0);
            }
        }
        assert forall|k: int| 0 <= k < out@.len() implies (#[trigger] out@[k]).show_date_sep == (k == 0 || out@[k].date_str@
            != out@[k - 1].date_str@) by {
            assert(out@[k]@ == chat_entries(kept)[k]);
            if k == 0 {
                lemma_first_message_shows_date(kept);
            } else {
                assert(out@[k - 1]@ == chat_entries(kept)[k - 1]);
            }
        }
    }
    out
}

/// The date in a chat log file name "chat-YYYY-MM-DD.log", if it has one.
pub open spec fn log_file_date(name: Seq<char>) -> Option<(int, int, int)> {
    if has_prefix(name, "chat-"@) && has_suffix(name.skip(5), ".log"@) {
        naive_date_parse(name.subrange(5, name.len() - 4), day_format())
    } else {
        None
    }
}

/// Reads the date out of a chat log file name.
pub fn chat_log_date(name: &str) -> (r: Option<CivilDate>)
    ensures
        match r {
            Some(d) => log_file_date(name@) == Some(d.fields()),
            None => log_file_date(name@) is None,
        },
{
    proof {
        reveal_strlit("chat-");
        reveal_strlit(".log");
    }
    if !text_starts_with(name, "chat-") {
        return None;
    }
    let len: usize = name.unicode_len();
    let rest = name.substring_char(5, len);
    if !text_ends_with(rest, ".log") {
        return None;
    }
    let middle = name.substring_char(5, len - 4);
    assert(middle@ == name@.subrange(5, name@.len() - 4));
    parse_naive_date(middle, "%Y-%m-%d")
}

/// Whether a chat log file is older than `cutoff` and should be deleted;
/// files whose names carry no date are kept.
pub fn should_purge(name: &str, cutoff: &CivilDate) -> (r: bool)
    ensures
        r == (log_file_date(name@) matches Some(d) && (CivilDate { year: d.0 as i32, month: d.1 as u32, day: d.2 as u32 }).before(*cutoff)),
{
    match chat_log_date(name) {
        Some(d) => {
            assert(d == CivilDate { year: d.fields().0 as i32, month: d.fields().1 as u32, day: d.fields().2 as u32 });
            d.is_before(cutoff)
        },
        None => false,
    }
}

/// The chat log file of day `date` in directory `dir`.
pub open spec fn log_path_text(dir: Seq<char>, date: Seq<char>) -> Seq<char> {
    dir + "/chat-"@ + date + ".log"@
}

/// Whether `p` is the path of some day's chat log file in directory `dir`,
/// the day written `YYYY-MM-DD`.
pub open spec fn is_log_path(dir: Seq<char>, p: Seq<char>) -> bool {
    exists|date: Seq<char>| is_day_text(date) && p == #[trigger] log_path_text(dir, date)
}

/// The chat log file of day `date` in directory `dir`.
pub fn chat_log_path(dir: &str, date: &str) -> (p: String)
    ensures
        p@ == log_path_text(dir@, date@),
{
    let mut p = owned(dir);
    p.append("/chat-");
    p.append(date);
    p.append(".log");
    p
}

/// The log files the chat history reads: those of the last seven days,
/// oldest first, each named for its day.
pub fn recent_chat_log_paths(dir: &str) -> (r: Vec<String>)
    ensures
        r@.len() == 7,
        forall|i: int| 0 <= i < 7 ==> is_log_path(dir@, #[trigger] r@[i]@),
{
    let mut r: Vec<String> = Vec::new();
    let mut days_ago: i64 = 7;
    while days_ago > 0
        invariant
            0 <= days_ago <= 7,
            r@.len() == 7 - days_ago,
            forall|i: int| 0 <= i < r@.len() ==> is_log_path(dir@, #[trigger] r@[i]@),
        decreases days_ago,
    {
        days_ago = days_ago - 1;
        let date = utc_date_days_ago(days_ago);
        let p = chat_log_path(dir, date.as_str());
        r.push(p);
        assert(r@[r@.len() - 1]@ == log_path_text(dir@, date@));
    }
    r
}

/// A line of a chat log file.
#[derive(Debug)]
pub struct ChatLogEntry {
    pub ts: String,
    pub tile_id: Option<i64>,
    pub branch_id: i64,
    pub user_id: i64,
    pub user_name: String,
    pub role: String,
    pub message: String,
}

/// What sending a chat message appends: the entry, stamped now and carrying
/// no tile, to today's log file in `dir`.
pub fn chat_log_record(dir: &str, auth: &AuthUser, message: &str) -> (r: (String, ChatLogEntry))
    ensures
        is_log_path(dir@, r.0@),
        r.1.tile_id is None,
        r.1.branch_id == auth.branch_id,
        r.1.user_id == auth.id,
        r.1.user_name@ == auth.name@,
        r.1.role@ == role_text(auth.role),
        r.1.message@ == message@,
{
    let today = utc_date_days_ago(0);
    let path = chat_log_path(dir, today.as_str());
    let entry = ChatLogEntry {
        ts: utc_now_rfc3339(),
        tile_id: None,
        branch_id: auth.branch_id,
        user_id: auth.id,
        user_name: owned(auth.name.as_str()),
        role: owned(auth.role.as_str()),
        message: owned(message),
    };
    (path, entry)
}

/// Whether the file named `name` is a chat log dated before `cutoff`.
pub open spec fn dated_before(name: Seq<char>, cutoff: CivilDate) -> bool {
    log_file_date(name) matches Some(d) && (CivilDate { year: d.0 as i32, month: d.1 as u32, day: d.2 as u32 }).before(
        cutoff,
    )
}

/// `sel` lists, in increasing order, the positions of the names in `names`
/// that are chat logs dated before `cutoff`.
pub open spec fn purge_selection(names: Seq<String>, sel: Seq<usize>, cutoff: CivilDate) -> bool {
    &&& forall|k: int| 0 <= k < sel.len() ==> #[trigger] sel[k] < names.len()
    &&& forall|k: int, l: int| 0 <= k < l < sel.len() ==> sel[k] < sel[l]
    &&& forall|i: int| 0 <= i < names.len() ==> (sel.contains(i as usize) <==> dated_before(#[trigger] names[i]@, cutoff))
}

/// The positions, in increasing order, of the files named `names` that are
/// chat logs dated before `cutoff`.
pub fn logs_dated_before(names: &Vec<String>, cutoff: &CivilDate) -> (r: Vec<usize>)
    ensures
        purge_selection(names@, r@, *cutoff),
{
    let cutoff = *cutoff;
    let mut r: Vec<usize> = Vec::new();
    let mut i: usize = 0;
    while i < names.len()
        invariant
            i <= names@.len(),
            forall|k: int| 0 <= k < r@.len() ==> #[trigger] r@[k] < i,
            forall|k: int, l: int| 0 <= k < l < r@.len() ==> r@[k] < r@[l],
            forall|j: int| 0 <= j < i ==> (r@.contains(j as usize) <==> dated_before(#[trigger] names@[j]@, cutoff)),
        decreases names@.len() - i,
    {
        let ghost before = r@;
        if should_purge(names[i].as_str(), &cutoff) {
            r.push(i);
            assert(r@ =~= before.push(i));
            assert(r@[r@.len() - 1] == i);
        }
        assert forall|j: int| 0 <= j < i + 1 implies (r@.contains(j as usize) <==> dated_before(
            #[trigger] names@[j]@,
            cutoff,
        )) by {
            if j < i {
                if r@.contains(j as usize) && !before.contains(j as usize) {
                    let k = choose|k: int| 0 <= k < r@.len() && r@[k] == j as usize;
                    assert(k == r@.len() - 1);
                }
                if before.contains(j as usize) {
                    let k = choose|k: int| 0 <= k < before.len() && before[k] == j as usize;
                    assert(r@[k] == j as usize);
                }
            } else {
                if r@.contains(i) && r@.len() == before.len() {
                    let k = choose|k: int| 0 <= k < r@.len() && r@[k] == i;
                    assert(r@[k] < i);
                }
            }
        }
        i = i + 1;
    }
    assert(purge_selection(names@, r@, cutoff));
    r
}

/// Which of the files named `names` the daily purge deletes: the chat logs
/// dated before the cutoff, the UTC date thirty days ago, which comes back
/// beside them.
pub fn chat_logs_to_purge(names: &Vec<String>) -> (r: (CivilDate, Vec<usize>))
    ensures
        1 <= r.0.month <= 12,
        1 <= r.0.day <= 31,
        purge_selection(names@, r.1@, r.0),
{
    let cutoff = utc_civil_date_days_ago(30);
    let selected = logs_dated_before(names, &cutoff);
    (cutoff, selected)
}

/// The chat history holds at most a hundred messages: the newest hundred of
/// the branch's messages once they are in time order, or all of them when
/// there are fewer.
pub proof fn lemma_chat_history_bounded(msgs: Seq<(Seq<char>, Seq<char>, Seq<char>, Seq<char>)>)
    ensures
        chat_entries(last_hundred(msgs)).len() <= 100,
        chat_entries(last_hundred(msgs)).len() == (if msgs.len() > 100 {
            100
        } else {
            msgs.len()
        }),
        forall|i: int|
            0 <= i < chat_entries(last_hundred(msgs)).len() ==> (#[trigger] chat_entries(last_hundred(msgs))[i]).ts
                == msgs[msgs.len() - chat_entries(last_hundred(msgs)).len() + i].0,
{
}

/// The chat history opens with a date separator: the first message's date
/// text is never empty.
pub proof fn lemma_first_message_shows_date(msgs: Seq<(Seq<char>, Seq<char>, Seq<char>, Seq<char>)>)
    requires
        msgs.len() > 0,
    ensures
        chat_entries(msgs)[0].show_date_sep,
{
    reveal_strlit("—");
    reveal_strlit("");
    let d = chat_ts_texts(msgs[0].0).1;
    match rfc3339_parse(msgs[0].0) {
        Some(f) => {
            assert(d == date_text(f.0, f.1, f.2));
            assert(d.len() > 0);
        },
        None => {
            assert(d.len() > 0);
        },
    }
    assert(d != ""@);
    assert(chat_entries(msgs)[0].date_str == d);
}

/// The positions of the messages of `msgs`, other than the `j`-th, stamped
/// at or after it.
pub open spec fn stamped_at_or_after(msgs: Seq<(Seq<char>, Seq<char>, Seq<char>, Seq<char>)>, j: int) -> Set<int> {
    Set::new(|x: int| 0 <= x < msgs.len() && x != j && !text_lt(msgs[x].0, msgs[j].0))
}

/// A message in the logs reaches the chat history: the `j`-th of a branch's
/// messages (as read from its log lines, `branch_lines`) is shown, with its
/// timestamp, sender, role and text, unless a hundred of the branch's other
/// messages are stamped at or after it.
pub proof fn lemma_logged_message_is_shown(lines: Seq<RawChatLine>, branch_id: i64, p: Seq<usize>, j: int)
    requires
        is_text_sort(ts_keys(branch_lines(lines, branch_id)), false, p),
        0 <= j < branch_lines(lines, branch_id).len(),
        stamped_at_or_after(branch_lines(lines, branch_id), j).len() < 100,
    ensures
        exists|k: int|
            0 <= k < chat_entries(last_hundred(permuted(branch_lines(lines, branch_id), p))).len() && {
                let e = #[trigger] chat_entries(last_hundred(permuted(branch_lines(lines, branch_id), p)))[k];
                let m = branch_lines(lines, branch_id)[j];
                e.ts == m.0 && e.user_name == m.1 && e.role == m.2 && e.message == m.3
            },
{
    let msgs = branch_lines(lines, branch_id);
    let keys = ts_keys(msgs);
    let n = msgs.len() as int;
    let pi = p.map_values(|u: usize| u as int);
    // Every position is somewhere in the order.
    assert(pi.no_duplicates()) by {
        assert forall|x: int, y: int| 0 <= x < pi.len() && 0 <= y < pi.len() && x != y implies pi[x] != pi[y] by {
            if x < y {
                assert(p[x] != p[y]);
            } else {
                assert(p[y] != p[x]);
            }
        }
    }
    pi.unique_seq_to_set();
    vstd::set_lib::lemma_int_range(0, n);
    assert(pi.to_set().subset_of(vstd::set_lib::set_int_range(0, n))) by {
        assert forall|v: int| pi.to_set().contains(v) implies vstd::set_lib::set_int_range(0, n).contains(v) by {
            let x = choose|x: int| 0 <= x < pi.len() && pi[x] == v;
            assert(p[x] < n);
        }
    }
    vstd::set_lib::lemma_set_subset_finite(vstd::set_lib::set_int_range(0, n), pi.to_set());
    vstd::set_lib::lemma_subset_equality(pi.to_set(), vstd::set_lib::set_int_range(0, n));
    assert(vstd::set_lib::set_int_range(0, n).contains(j));
    assert(pi.to_set().contains(j));
    let a = choose|a: int| 0 <= a < pi.len() && pi[a] == j;
    assert(p[a] as int == j);
    // Everything after it in the order is stamped at or after it.
    let after = pi.subrange(a + 1, n);
    let later = stamped_at_or_after(msgs, j);
    assert(after.no_duplicates()) by {
        assert forall|x: int, y: int| 0 <= x < after.len() && 0 <= y < after.len() && x != y implies after[x] != after[y] by {
            assert(after[x] == pi[a + 1 + x] && after[y] == pi[a + 1 + y]);
        }
    }
    after.unique_seq_to_set();
    assert(after.to_set().subset_of(later)) by {
        assert forall|v: int| after.to_set().contains(v) implies later.contains(v) by {
            let x = choose|x: int| 0 <= x < after.len() && after[x] == v;
            let b = a + 1 + x;
            assert(after[x] == pi[b]);
            assert(text_key_before(keys, false, p[a] as int, p[b] as int));
            assert(p[b] != p[a]);
            assert(keys[j] == msgs[j].0 && keys[v] == msgs[v].0);
            if text_lt(msgs[v].0, msgs[j].0) {
                if text_lt(msgs[j].0, msgs[v].0) {
                    lemma_text_lt_transitive(msgs[j].0, msgs[v].0, msgs[j].0);
                    lemma_text_lt_irreflexive(msgs[j].0);
                } else {
                    lemma_text_lt_irreflexive(msgs[j].0);
                }
            }
        }
    }
    assert(later.subset_of(vstd::set_lib::set_int_range(0, n)));
    vstd::set_lib::lemma_set_subset_finite(vstd::set_lib::set_int_range(0, n), later);
    vstd::set_lib::lemma_len_subset(after.to_set(), later);
    assert(n - 1 - a < 100);
    // So it lies among the newest hundred.
    let sorted = permuted(msgs, p);
    assert(sorted[a] == msgs[j]);
    let shown = last_hundred(sorted);
    let k = if n > 100 {
        a - (n - 100)
    } else {
        a
    };
    assert(shown[k] == sorted[a]);
    let e = chat_entries(shown)[k];
    assert(e.ts == msgs[j].0 && e.user_name == msgs[j].1 && e.role == msgs[j].2 && e.message == msgs[j].3);
}

} // verus!
