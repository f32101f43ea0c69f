//! Schedules of the background jobs and the refill timer rule.
use vstd::prelude::*;
use crate::datetime::now_parts;
use crate::models::refill_request::{next_status, RefillAction, RefillStatus};
use crate::text::{chars_of, chars_lt, text_eq, text_lt};

verus! {

/// Seconds in a day.
pub open spec fn day_secs() -> int {
    86_400
}

/// Seconds from Unix time `now` to the next UTC midnight (a full day at midnight).
pub open spec fn secs_to_midnight(now: int) -> int {
    day_secs() - now % day_secs()
}

/// Seconds from Unix time `now_secs` to the next UTC midnight.
pub fn seconds_until_next_midnight(now_secs: u64) -> (s: u64)
    ensures
        s == secs_to_midnight(now_secs as int),
        1 <= s <= 86_400,
        (now_secs + s) % 86_400 == 0,
{
    86_400 - (now_secs % 86_400)
}

/// Seconds until the next UTC midnight, for the daily jobs. `None` when the
/// system clock reads earlier than the Unix epoch.
pub fn until_next_midnight() -> (r: Option<u64>)
    ensures
        r matches Some(s) ==> 1 <= s <= 86_400,
{
    let (now, _) = now_parts();
    if now < 0 {
        None
    } else {
        Some(seconds_until_next_midnight(now as u64))
    }
}

/// A refill request with its tile's branch, as the timer job reads it.
#[derive(Debug)]
pub struct TimedRefill {
    pub id: i64,
    pub branch_id: i64,
    pub status: String,
    pub timer_expires_at: String,
}

/// A pending request expires once its timer's time (SQLite `datetime()`
/// text) sorts before the current time in the same format.
pub open spec fn has_expired(r: TimedRefill, now: Seq<char>) -> bool {
    r.status@ == "pending"@ && text_lt(r.timer_expires_at@, now)
}

/// The requests that expire at `now`, in the order given.
pub open spec fn expiring(rows: Seq<TimedRefill>, now: Seq<char>) -> Seq<(i64, i64)>
    decreases rows.len(),
{
    if rows.len() == 0 {
        Seq::empty()
    } else {
        let rest = expiring(rows.drop_last(), now);
        if has_expired(rows.last(), now) {
            rest.push((rows.last().id, rows.last().branch_id))
        } else {
            rest
        }
    }
}

/// The (request id, branch id) of every request that expires at `now`.
pub fn expired_refills(rows: &Vec<TimedRefill>, now: &str) -> (r: Vec<(i64, i64)>)
    ensures
        r@ == expiring(rows@, now@),
{
    let now_chars = chars_of(now);
    let mut out: Vec<(i64, i64)> = Vec::new();
    let mut i: usize = 0;
    while i < rows.len()
        invariant
            now_chars@ == now@,
            i <= rows@.len(),
            out@ == expiring(rows@.subrange(0, i as int), now@),
        decreases rows@.len() - i,
    {
        let row = &rows[i];
        assert(rows@.subrange(0, i + 1).drop_last() =~= rows@.subrange(0, i as int));
        let expires = chars_of(row.timer_expires_at.as_str());
        if text_eq(row.status.as_str(), "pending") && chars_lt(&expires, &now_chars) {
            out.push((row.id, row.branch_id));
        }
        i = i + 1;
    }
    assert(rows@.subrange(0, rows@.len() as int) =~= rows@);
    out
}

/// The timer job only ever expires pending requests, which the workflow
/// allows: each of them moves from pending to expired.
pub proof fn lemma_expiry_follows_workflow(rows: Seq<TimedRefill>, now: Seq<char>, k: int)
    requires
        0 <= k < expiring(rows, now).len(),
    ensures
        exists|i: int|
            0 <= i < rows.len() && has_expired(#[trigger] rows[i], now) && rows[i].id == expiring(rows, now)[k].0,
        next_status(RefillStatus::Pending, RefillAction::Expire) == Some(RefillStatus::Expired),
    decreases rows.len(),
{
    let rest = expiring(rows.drop_last(), now);
    if k < rest.len() {
        lemma_expiry_follows_workflow(rows.drop_last(), now, k);
        let i = choose|i: int| 0 <= i < rows.drop_last().len() && has_expired(#[trigger] rows.drop_last()[i], now) && rows.drop_last()[i].id == rest[k].0;
        assert(rows[i] == rows.drop_last()[i]);
    } else {
        assert(has_expired(rows[rows.len() - 1], now));
    }
}

/// The stored statuses, by request id, after each request in `done` (request
/// id, branch id) is set to expired.
pub open spec fn mark_expired(statuses: Map<i64, Seq<char>>, done: Seq<(i64, i64)>) -> Map<i64, Seq<char>>
    decreases done.len(),
{
    if done.len() == 0 {
        statuses
    } else {
        mark_expired(statuses, done.drop_last()).insert(done.last().0, "expired"@)
    }
}

/// Whether `entry` (request id, branch id) is that of some request of
/// `rows` that has expired at `now`.
pub open spec fn expired_row_of(rows: Seq<TimedRefill>, now: Seq<char>, entry: (i64, i64)) -> bool {
    exists|i: int| 0 <= i < rows.len() && has_expired(#[trigger] rows[i], now) && rows[i].id == entry.0 && rows[i].branch_id == entry.1
}

/// No two of `rows` share a request id.
pub open spec fn distinct_ids(rows: Seq<TimedRefill>) -> bool {
    forall|i: int, j: int| 0 <= i < j < rows.len() ==> #[trigger] rows[i].id != #[trigger] rows[j].id
}

/// What a timer run does to the stored requests, given the requests it read
/// (each once, by id): a pending request whose timer ran out before `now` is
/// expired; every other request, read or not, keeps its status. Each expired
/// request is listed once (so its branch hears of it once), and nothing else
/// is listed.
pub proof fn lemma_timer_run(statuses: Map<i64, Seq<char>>, rows: Seq<TimedRefill>, now: Seq<char>)
    requires
        distinct_ids(rows),
    ensures
        forall|i: int|
            0 <= i < rows.len() && has_expired(#[trigger] rows[i], now) ==> mark_expired(statuses, expiring(rows, now)).contains_key(rows[i].id)
                && mark_expired(statuses, expiring(rows, now))[rows[i].id] == "expired"@,
        forall|id: i64|
            (forall|i: int| 0 <= i < rows.len() && #[trigger] rows[i].id == id ==> !has_expired(rows[i], now)) ==> (
            #[trigger] mark_expired(statuses, expiring(rows, now)).contains_key(id) == statuses.contains_key(id) && (
            statuses.contains_key(id) ==> mark_expired(statuses, expiring(rows, now))[id] == statuses[id])),
        forall|k: int, l: int|
            0 <= k < l < expiring(rows, now).len() ==> #[trigger] expiring(rows, now)[k].0 != #[trigger] expiring(rows, now)[l].0,
        forall|k: int| 0 <= k < expiring(rows, now).len() ==> expired_row_of(rows, now, #[trigger] expiring(rows, now)[k]),
    decreases rows.len(),
{
    if rows.len() > 0 {
        let init = rows.drop_last();
        assert(distinct_ids(init)) by {
            assert forall|i: int, j: int| 0 <= i < j < init.len() implies #[trigger] init[i].id != #[trigger] init[j].id by {
                assert(init[i] == rows[i] && init[j] == rows[j]);
            }
        }
        lemma_timer_run(statuses, init, now);
        lemma_expiring_from(init, now);
        let last = rows.last();
        let before = mark_expired(statuses, expiring(init, now));
        let e = expiring(rows, now);
        if has_expired(last, now) {
            assert(e.drop_last() =~= expiring(init, now));
        } else {
            assert(e =~= expiring(init, now));
        }
        assert forall|i: int|
            0 <= i < rows.len() && has_expired(#[trigger] rows[i], now) implies mark_expired(statuses, e).contains_key(rows[i].id)
                && mark_expired(statuses, e)[rows[i].id] == "expired"@ by {
            if i < init.len() {
                assert(init[i] == rows[i]);
                assert(has_expired(init[i], now));
            }
        }
        assert forall|id: i64|
            (forall|i: int| 0 <= i < rows.len() && #[trigger] rows[i].id == id ==> !has_expired(rows[i], now)) implies (
            #[trigger] mark_expired(statuses, e).contains_key(id) == statuses.contains_key(id) && (statuses.contains_key(id)
                ==> mark_expired(statuses, e)[id] == statuses[id])) by {
            assert forall|i: int| 0 <= i < init.len() && #[trigger] init[i].id == id implies !has_expired(init[i], now) by {
                assert(init[i] == rows[i]);
            }
            assert(before.contains_key(id) == statuses.contains_key(id));
            if has_expired(last, now) {
                assert(rows[rows.len() - 1] == last);
                assert(last.id != id);
            }
        }
        assert forall|k: int| 0 <= k < e.len() implies expired_row_of(rows, now, #[trigger] e[k]) by {
            if k < expiring(init, now).len() {
                assert(expired_row_of(init, now, expiring(init, now)[k]));
                let i = choose|i: int|
                    0 <= i < init.len() && has_expired(#[trigger] init[i], now) && init[i].id == expiring(init, now)[k].0
                        && init[i].branch_id == expiring(init, now)[k].1;
                assert(rows[i] == init[i]);
            } else {
                assert(rows[rows.len() - 1] == last);
            }
        }
        assert forall|k: int, l: int| 0 <= k < l < e.len() implies #[trigger] e[k].0 != #[trigger] e[l].0 by {
            if l == expiring(init, now).len() {
                assert(expired_row_of(init, now, expiring(init, now)[k]));
                let i = choose|i: int|
                    0 <= i < init.len() && has_expired(#[trigger] init[i], now) && init[i].id == expiring(init, now)[k].0
                        && init[i].branch_id == expiring(init, now)[k].1;
                assert(rows[i] == init[i]);
                assert(rows[rows.len() - 1] == last);
            } else {
                assert(e[k] == expiring(init, now)[k]);
                assert(e[l] == expiring(init, now)[l]);
            }
        }
    }
}

proof fn lemma_expiring_from(rows: Seq<TimedRefill>, now: Seq<char>)
    ensures
        forall|k: int| 0 <= k < expiring(rows, now).len() ==> expired_row_of(rows, now, #[trigger] expiring(rows, now)[k]),
    decreases rows.len(),
{
    if rows.len() > 0 {
        let init = rows.drop_last();
        lemma_expiring_from(init, now);
        assert forall|k: int| 0 <= k < expiring(rows, now).len() implies expired_row_of(rows, now, #[trigger] expiring(rows, now)[k]) by {
            if k < expiring(init, now).len() {
                assert(expired_row_of(init, now, expiring(init, now)[k]));
                let i = choose|i: int|
                    0 <= i < init.len() && has_expired(#[trigger] init[i], now) && init[i].id == expiring(init, now)[k].0
                        && init[i].branch_id == expiring(init, now)[k].1;
                assert(rows[i] == init[i]);
            } else {
                assert(rows[rows.len() - 1] == rows.last());
            }
        }
    }
}

} // verus!
