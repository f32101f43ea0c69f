//! The inventory table, the tile detail view and tile edits.
use vstd::prelude::*;
use crate::auth::extractor::{AuthUser, Role};
use crate::datetime::{now_parts, parse_sqlite_datetime, placeholder, placeholder_text, sqlite_datetime};
use crate::error::{AppError, Refusal, verdict};
use crate::models::tile::{health_label, health_of, health_rank, TileHealth};
use crate::order::{apply_permutation, is_text_sort, permuted, sort_by_text};
use crate::text::{
    chars_of, copy_opt, lemma_text_lt_irreflexive, lemma_text_lt_transitive, nat_decimal, opt_text, owned, push_nat, text_eq,
    text_lt,
};
use crate::ws::manager::WsEvent;
use std::collections::HashMap;

verus! {

broadcast use vstd::std_specs::hash::group_hash_axioms;

/// A tile row with the names of its assigned coordinator and sales rep.
#[derive(Debug)]
pub struct TileRow {
    pub id: i64,
    pub branch_id: i64,
    pub item_number: String,
    pub collection: Option<String>,
    pub gts_description: Option<String>,
    pub new_bin: Option<String>,
    pub qty: i64,
    pub overflow_rack: i64,
    pub order_number: Option<String>,
    pub notes: Option<String>,
    pub sample_coordinator_id: Option<i64>,
    pub sales_rep_id: Option<i64>,
    pub low_inventory_threshold: i64,
    pub created_at: String,
    pub updated_at: String,
    pub coordinator_name: Option<String>,
    pub sales_rep_name: Option<String>,
}

/// A refill request of some tile, newest first in the lists handed in.
#[derive(Debug)]
pub struct ActiveRefill {
    pub tile_id: i64,
    pub id: i64,
    pub status: String,
    pub timer_expires_at: String,
    pub qty_requested: i64,
}

/// What the inventory table and the detail page show of a tile.
#[derive(Debug)]
pub struct TileView {
    pub id: i64,
    pub item_number: String,
    pub collection: Option<String>,
    pub gts_description: Option<String>,
    pub new_bin: Option<String>,
    pub qty: i64,
    pub overflow_rack: bool,
    pub order_number: Option<String>,
    pub notes: Option<String>,
    pub low_inventory_threshold: i64,
    pub coordinator_name: Option<String>,
    pub sales_rep_name: Option<String>,
    pub health: String,
    pub refill_status: Option<String>,
    pub refill_countdown: Option<String>,
    pub refill_id: Option<i64>,
    pub refill_qty: Option<i64>,
}

/// A `TileView` as plain values.
pub struct TileViewModel {
    pub id: i64,
    pub item_number: Seq<char>,
    pub collection: Option<Seq<char>>,
    pub gts_description: Option<Seq<char>>,
    pub new_bin: Option<Seq<char>>,
    pub qty: i64,
    pub overflow_rack: bool,
    pub order_number: Option<Seq<char>>,
    pub notes: Option<Seq<char>>,
    pub low_inventory_threshold: i64,
    pub coordinator_name: Option<Seq<char>>,
    pub sales_rep_name: Option<Seq<char>>,
    pub health: Seq<char>,
    pub refill_status: Option<Seq<char>>,
    pub refill_countdown: Option<Seq<char>>,
    pub refill_id: Option<i64>,
    pub refill_qty: Option<i64>,
}

impl View for TileView {
    type V = TileViewModel;

    open spec fn view(&self) -> TileViewModel {
        TileViewModel {
            id: self.id,
            item_number: self.item_number@,
            collection: opt_text(self.collection),
            gts_description: opt_text(self.gts_description),
            new_bin: opt_text(self.new_bin),
            qty: self.qty,
            overflow_rack: self.overflow_rack,
            order_number: opt_text(self.order_number),
            notes: opt_text(self.notes),
            low_inventory_threshold: self.low_inventory_threshold,
            coordinator_name: opt_text(self.coordinator_name),
            sales_rep_name: opt_text(self.sales_rep_name),
            health: self.health@,
            refill_status: opt_text(self.refill_status),
            refill_countdown: opt_text(self.refill_countdown),
            refill_id: self.refill_id,
            refill_qty: self.refill_qty,
        }
    }
}

/// The health summary shown above the table.
#[derive(Debug)]
pub struct InventoryStats {
    pub critical: usize,
    pub low: usize,
    pub healthy: usize,
    pub total: usize,
}

/// The remaining time of a pending refill's timer, as "43h 12m", "Expired"
/// once it has run out, or the placeholder when the time cannot be read.
/// `now_secs`/`now_nanos` is the current Unix time; the elapsed time is
/// truncated to whole seconds as chrono's `num_seconds` does.
pub open spec fn countdown_text(expires_at: Seq<char>, now_secs: int, now_nanos: int) -> Seq<char> {
    match sqlite_datetime(expires_at) {
        None => placeholder(),
        Some(f) => {
            let rem = f.6 - now_secs;
            let secs = if now_nanos > 0 && rem > 0 {
                rem - 1
            } else {
                rem
            };
            if secs <= 0 {
                "Expired"@
            } else {
                nat_decimal((secs / 3600) as nat) + "h "@ + nat_decimal(((secs / 60) % 60) as nat)
                    + "m"@
            }
        },
    }
}

/// Whether a refill request is still open (pending or approved).
pub open spec fn is_active(r: ActiveRefill) -> bool {
    r.status@ == "pending"@ || r.status@ == "approved"@
}

/// The first open refill request of `tile_id` in `refills`.
pub open spec fn active_refill(refills: Seq<ActiveRefill>, tile_id: i64) -> Option<ActiveRefill>
    decreases refills.len(),
{
    if refills.len() == 0 {
        None
    } else if refills[0].tile_id == tile_id && is_active(refills[0]) {
        Some(refills[0])
    } else {
        active_refill(refills.drop_first(), tile_id)
    }
}

/// The view of tile `t` with its open refill request, if any.
pub open spec fn tile_view_of(t: TileRow, refill: Option<ActiveRefill>, health: Seq<char>, now_secs: int, now_nanos: int) -> TileViewModel {
    TileViewModel {
        id: t.id,
        item_number: t.item_number@,
        collection: opt_text(t.collection),
        gts_description: opt_text(t.gts_description),
        new_bin: opt_text(t.new_bin),
        qty: t.qty,
        overflow_rack: t.overflow_rack != 0,
        order_number: opt_text(t.order_number),
        notes: opt_text(t.notes),
        low_inventory_threshold: t.low_inventory_threshold,
        coordinator_name: opt_text(t.coordinator_name),
        sales_rep_name: opt_text(t.sales_rep_name),
        health,
        refill_status: match refill {
            Some(r) => Some(r.status@),
            None => None,
        },
        refill_countdown: match refill {
            Some(r) => if r.status@ == "pending"@ {
                Some(countdown_text(r.timer_expires_at@, now_secs, now_nanos))
            } else {
                None
            },
            None => None,
        },
        refill_id: match refill {
            Some(r) => Some(r.id),
            None => None,
        },
        refill_qty: match refill {
            Some(r) => Some(r.qty_requested),
            None => None,
        },
    }
}

/// The table rows of the user's branch, in the order given.
pub open spec fn inventory_of(rows: Seq<TileRow>, refills: Seq<ActiveRefill>, branch: i64, now_secs: int, now_nanos: int) -> Seq<TileViewModel>
    decreases rows.len(),
{
    if rows.len() == 0 {
        Seq::empty()
    } else {
        let rest = inventory_of(rows.drop_last(), refills, branch, now_secs, now_nanos);
        let t = rows.last();
        if t.branch_id == branch {
            rest.push(
                tile_view_of(
                    t,
                    active_refill(refills, t.id),
                    health_label(health_of(t.qty as int, t.low_inventory_threshold as int)),
                    now_secs,
                    now_nanos,
                ),
            )
        } else {
            rest
        }
    }
}

/// How many of the branch's tiles are in health state `h`.
pub open spec fn health_count(rows: Seq<TileRow>, branch: i64, h: TileHealth) -> nat
    decreases rows.len(),
{
    if rows.len() == 0 {
        0
    } else {
        let t = rows.last();
        health_count(rows.drop_last(), branch, h) + if t.branch_id == branch && health_of(
            t.qty as int,
            t.low_inventory_threshold as int,
        ) == h {
            1nat
        } else {
            0nat
        }
    }
}

/// The health label of a quantity against its threshold.
pub fn tile_health(qty: i64, threshold: i64) -> (s: String)
    ensures
        s@ == health_label(health_of(qty as int, threshold as int)),
{
    if qty == 0 {
        owned("critical")
    } else if qty <= threshold {
        owned("low")
    } else {
        owned("healthy")
    }
}

fn health_state(qty: i64, threshold: i64) -> (h: TileHealth)
    ensures
        h == health_of(qty as int, threshold as int),
{
    if qty == 0 {
        TileHealth::Critical
    } else if qty <= threshold {
        TileHealth::Low
    } else {
        TileHealth::Healthy
    }
}

/// Formats the remaining time of a refill timer that expires at
/// `expires_at` (SQLite `datetime()` text), at Unix time `now_secs` plus
/// `now_nanos` nanoseconds.
pub fn fmt_countdown(expires_at: &str, now_secs: i64, now_nanos: u32) -> (s: String)
    requires
        now_nanos < 1_000_000_000,
    ensures
        s@ == countdown_text(expires_at@, now_secs as int, now_nanos as int),
{
    match parse_sqlite_datetime(expires_at) {
        None => placeholder_text(),
        Some(t) => {
            let rem: i128 = t.unix_secs as i128 - now_secs as i128;
            let secs: i128 = if now_nanos > 0 && rem > 0 {
                rem - 1
            } else {
                rem
            };
            if secs <= 0 {
                owned("Expired")
            } else {
                let hours: u64 = (secs / 3600) as u64;
                let minutes: u64 = ((secs / 60) % 60) as u64;
                let mut s = String::new();
                push_nat(&mut s, hours);
                s.append("h ");
                push_nat(&mut s, minutes);
                s.append("m");
                assert(s@ =~= countdown_text(expires_at@, now_secs as int, now_nanos as int));
                s
            }
        },
    }
}

/// Builds the view of a tile and its open refill request.
pub fn tile_view_from(t: &TileRow, refill: Option<&ActiveRefill>, health: &str, now_secs: i64, now_nanos: u32) -> (v: TileView)
    requires
        now_nanos < 1_000_000_000,
    ensures
        v@ == tile_view_of(
            *t,
            match refill {
                Some(r) => Some(*r),
                None => None,
            },
            health@,
            now_secs as int,
            now_nanos as int,
        ),
{
    let (refill_status, refill_countdown, refill_id, refill_qty) = match refill {
        Some(r) => {
            let countdown = if text_eq(r.status.as_str(), "pending") {
                Some(fmt_countdown(r.timer_expires_at.as_str(), now_secs, now_nanos))
            } else {
                None
            };
            (Some(owned(r.status.as_str())), countdown, Some(r.id), Some(r.qty_requested))
        },
        None => (None, None, None, None),
    };
    TileView {
        id: t.id,
        item_number: owned(t.item_number.as_str()),
        collection: copy_opt(&t.collection),
        gts_description: copy_opt(&t.gts_description),
        new_bin: copy_opt(&t.new_bin),
        qty: t.qty,
        overflow_rack: t.overflow_rack != 0,
        order_number: copy_opt(&t.order_number),
        notes: copy_opt(&t.notes),
        low_inventory_threshold: t.low_inventory_threshold,
        coordinator_name: copy_opt(&t.coordinator_name),
        sales_rep_name: copy_opt(&t.sales_rep_name),
        health: owned(health),
        refill_status,
        refill_countdown,
        refill_id,
        refill_qty,
    }
}

fn is_active_exec(r: &ActiveRefill) -> (b: bool)
    ensures
        b == is_active(*r),
{
    text_eq(r.status.as_str(), "pending") || text_eq(r.status.as_str(), "approved")
}

/// The newest open refill request of `tile_id`.
pub fn find_active_refill(refills: &Vec<ActiveRefill>, tile_id: i64) -> (r: Option<&ActiveRefill>)
    ensures
        match r {
            Some(a) => active_refill(refills@, tile_id) == Some(*a),
            None => active_refill(refills@, tile_id) is None,
        },
{
    let mut i: usize = 0;
    assert(refills@.skip(0) =~= refills@);
    while i < refills.len()
        invariant
            i <= refills@.len(),
            active_refill(refills@, tile_id) == active_refill(refills@.skip(i as int), tile_id),
        decreases refills@.len() - i,
    {
        let r = &refills[i];
        if r.tile_id == tile_id && is_active_exec(r) {
            return Some(r);
        }
        assert(refills@.skip(i as int).drop_first() =~= refills@.skip(i + 1));
        i = i + 1;
    }
    None
}

/// Where a health label sorts: critical first, then low, then healthy.
pub open spec fn health_rank_char(health: Seq<char>) -> char {
    if health == "critical"@ {
        '0'
    } else if health == "low"@ {
        '1'
    } else {
        '2'
    }
}

/// The inventory table's sort key: the health rank, then the item number.
pub open spec fn inventory_key(v: TileViewModel) -> Seq<char> {
    seq![health_rank_char(v.health)] + v.item_number
}

/// The sort keys of the table's rows.
pub open spec fn inventory_keys(vs: Seq<TileViewModel>) -> Seq<Seq<char>> {
    vs.map_values(|v: TileViewModel| inventory_key(v))
}

/// The health rank of a table line, from its quantity and threshold.
pub open spec fn line_rank(v: TileViewModel) -> int {
    health_rank(health_of(v.qty as int, v.low_inventory_threshold as int))
}

/// Whether line `a` may stand before line `b` in the inventory table: a
/// lower health rank, or the same rank and an item number not after `b`'s.
pub open spec fn listed_before(a: TileViewModel, b: TileViewModel) -> bool {
    line_rank(a) < line_rank(b) || (line_rank(a) == line_rank(b) && !text_lt(b.item_number, a.item_number))
}

/// Whether a line's health label is that of its quantity and threshold.
pub open spec fn labelled_by_stock(v: TileViewModel) -> bool {
    v.health == health_label(health_of(v.qty as int, v.low_inventory_threshold as int))
}

proof fn lemma_rank_char(v: TileViewModel)
    requires
        labelled_by_stock(v),
    ensures
        health_rank_char(v.health) as u32 == 48 + line_rank(v),
{
    reveal_strlit("critical");
    reveal_strlit("low");
    reveal_strlit("healthy");
    assert("critical"@.len() == 8 && "low"@.len() == 3 && "healthy"@.len() == 7);
    match health_of(v.qty as int, v.low_inventory_threshold as int) {
        TileHealth::Critical => {
            assert(health_rank_char(v.health) == '0');
        },
        TileHealth::Low => {
            assert(v.health != "critical"@);
            assert(health_rank_char(v.health) == '1');
        },
        TileHealth::Healthy => {
            assert(v.health != "critical"@);
            assert(v.health != "low"@);
            assert(health_rank_char(v.health) == '2');
        },
    }
}

proof fn lemma_key_order(a: TileViewModel, b: TileViewModel)
    requires
        labelled_by_stock(a),
        labelled_by_stock(b),
        text_lt(inventory_key(a), inventory_key(b)) || inventory_key(a) == inventory_key(b),
    ensures
        listed_before(a, b),
{
    lemma_rank_char(a);
    lemma_rank_char(b);
    let ka = inventory_key(a);
    let kb = inventory_key(b);
    assert(ka[0] == health_rank_char(a.health));
    assert(kb[0] == health_rank_char(b.health));
    assert(ka.drop_first() =~= a.item_number);
    assert(kb.drop_first() =~= b.item_number);
    if ka == kb {
        assert(a.item_number == b.item_number);
        lemma_text_lt_irreflexive(a.item_number);
    } else if ka[0] == kb[0] {
        assert(text_lt(a.item_number, b.item_number));
        if text_lt(b.item_number, a.item_number) {
            lemma_text_lt_transitive(a.item_number, b.item_number, a.item_number);
            lemma_text_lt_irreflexive(a.item_number);
        }
    }
}

/// The inventory table's order: every critical line comes before every low
/// line and every low line before every healthy one (health from each
/// tile's quantity and threshold), and within one health the item numbers
/// ascend.
pub proof fn lemma_inventory_order(lines: Seq<TileViewModel>, p: Seq<usize>)
    requires
        is_text_sort(inventory_keys(lines), false, p),
        forall|k: int| 0 <= k < lines.len() ==> labelled_by_stock(#[trigger] lines[k]),
    ensures
        forall|i: int, j: int|
            0 <= i < j < p.len() ==> listed_before(#[trigger] permuted(lines, p)[i], #[trigger] permuted(lines, p)[j]),
{
    let keys = inventory_keys(lines);
    assert forall|i: int, j: int| 0 <= i < j < p.len() implies listed_before(
        #[trigger] permuted(lines, p)[i],
        #[trigger] permuted(lines, p)[j],
    ) by {
        let x = p[i] as int;
        let y = p[j] as int;
        assert(crate::order::text_key_before(keys, false, x, y));
        assert(keys[x] == inventory_key(lines[x]) && keys[y] == inventory_key(lines[y]));
        assert(labelled_by_stock(lines[x]) && labelled_by_stock(lines[y]));
        lemma_key_order(lines[x], lines[y]);
    }
}

proof fn lemma_inventory_labels(rows: Seq<TileRow>, refills: Seq<ActiveRefill>, branch: i64, now_secs: int, now_nanos: int)
    ensures
        forall|k: int|
            0 <= k < inventory_of(rows, refills, branch, now_secs, now_nanos).len() ==> labelled_by_stock(
                #[trigger] inventory_of(rows, refills, branch, now_secs, now_nanos)[k],
            ),
    decreases rows.len(),
{
    if rows.len() > 0 {
        lemma_inventory_labels(rows.drop_last(), refills, branch, now_secs, now_nanos);
        let prev = inventory_of(rows.drop_last(), refills, branch, now_secs, now_nanos);
        let cur = inventory_of(rows, refills, branch, now_secs, now_nanos);
        assert forall|k: int| 0 <= k < cur.len() implies labelled_by_stock(#[trigger] cur[k]) by {
            if k < prev.len() {
                assert(cur[k] == prev[k]);
            }
        }
    }
}

fn inventory_key_exec(v: &TileView) -> (k: Vec<char>)
    ensures
        k@ == inventory_key(v@),
{
    let mut s = if text_eq(v.health.as_str(), "critical") {
        owned("0")
    } else if text_eq(v.health.as_str(), "low") {
        owned("1")
    } else {
        owned("2")
    };
    s.append(v.item_number.as_str());
    let k = chars_of(s.as_str());
    proof {
        reveal_strlit("0");
        reveal_strlit("1");
        reveal_strlit("2");
    }
    assert(k@ =~= inventory_key(v@));
    k
}

/// Each tile's newest open refill request, by tile id: the first open
/// request of each tile in `refills` (which come newest first).
pub fn active_refill_map(refills: &Vec<ActiveRefill>) -> (m: HashMap<i64, &ActiveRefill>)
    ensures
        forall|tile: i64|
            (#[trigger] m@.contains_key(tile) <==> active_refill(refills@, tile) is Some) && (m@.contains_key(tile)
                ==> active_refill(refills@, tile) == Some(*m@[tile])),
{
    let mut m: HashMap<i64, &ActiveRefill> = HashMap::new();
    let mut i: usize = refills.len();
    assert(refills@.skip(refills@.len() as int) =~= Seq::<ActiveRefill>::empty());
    while i > 0
        invariant
            i <= refills@.len(),
            forall|tile: i64|
                (#[trigger] m@.contains_key(tile) <==> active_refill(refills@.skip(i as int), tile) is Some) && (
                m@.contains_key(tile) ==> active_refill(refills@.skip(i as int), tile) == Some(*m@[tile])),
        decreases i,
    {
        i = i - 1;
        let r = &refills[i];
        assert(refills@.skip(i as int).drop_first() =~= refills@.skip(i + 1));
        assert(refills@.skip(i as int)[0] == *r);
        if is_active_exec(r) {
            m.insert(r.tile_id, r);
        }
    }
    assert(refills@.skip(0) =~= refills@);
    m
}

/// The refill of `tile` in a map made by `active_refill_map`.
fn lookup_refill<'a>(m: &HashMap<i64, &'a ActiveRefill>, tile: i64) -> (r: Option<&'a ActiveRefill>)
    ensures
        match r {
            Some(a) => m@.contains_key(tile) && *m@[tile] == *a,
            None => !m@.contains_key(tile),
        },
{
    match m.get(&tile) {
        Some(a) => Some(*a),
        None => None,
    }
}

/// The inventory table of the user's branch: the views of the branch's
/// tiles, each with its newest open refill request, critical first, then
/// low, then healthy, each group by item number (a stable sort), and the
/// health summary. Rows of other branches are left out.
pub fn inventory_view(auth: &AuthUser, rows: &Vec<TileRow>, refills: &Vec<ActiveRefill>, now_secs: i64, now_nanos: u32) -> (r: (Vec<TileView>, InventoryStats))
    requires
        now_nanos < 1_000_000_000,
    ensures
        exists|p: Seq<usize>|
            is_text_sort(inventory_keys(inventory_of(rows@, refills@, auth.branch_id, now_secs as int, now_nanos as int)), false, p)
                && r.0@.map_values(|v: TileView| v@) == permuted(
                inventory_of(rows@, refills@, auth.branch_id, now_secs as int, now_nanos as int),
                p,
            ),
        r.1.critical == health_count(rows@, auth.branch_id, TileHealth::Critical),
        r.1.low == health_count(rows@, auth.branch_id, TileHealth::Low),
        r.1.healthy == health_count(rows@, auth.branch_id, TileHealth::Healthy),
        r.1.total == r.0@.len(),
        r.1.critical + r.1.low + r.1.healthy == r.1.total,
        forall|i: int, j: int| 0 <= i < j < r.0@.len() ==> listed_before(#[trigger] r.0@[i]@, #[trigger] r.0@[j]@),
{
    let by_tile = active_refill_map(refills);
    let mut views: Vec<TileView> = Vec::new();
    let mut critical: usize = 0;
    let mut low: usize = 0;
    let mut healthy: usize = 0;
    let mut i: usize = 0;
    while i < rows.len()
        invariant
            now_nanos < 1_000_000_000,
            i <= rows@.len(),
            views@.len() <= i,
            forall|tile: i64|
                (#[trigger] by_tile@.contains_key(tile) <==> active_refill(refills@, tile) is Some) && (
                by_tile@.contains_key(tile) ==> active_refill(refills@, tile) == Some(*by_tile@[tile])),
            views@.map_values(|v: TileView| v@) == inventory_of(rows@.subrange(0, i as int), refills@, auth.branch_id, now_secs as int, now_nanos as int),
            critical == health_count(rows@.subrange(0, i as int), auth.branch_id, TileHealth::Critical),
            low == health_count(rows@.subrange(0, i as int), auth.branch_id, TileHealth::Low),
            healthy == health_count(rows@.subrange(0, i as int), auth.branch_id, TileHealth::Healthy),
            critical + low + healthy == views@.len(),
        decreases rows@.len() - i,
    {
        let t = &rows[i];
        let ghost prefix = rows@.subrange(0, i + 1);
        assert(prefix.drop_last() =~= rows@.subrange(0, i as int));
        assert(prefix.last() == *t);
        if t.branch_id == auth.branch_id {
            let h = health_state(t.qty, t.low_inventory_threshold);
            let refill = lookup_refill(&by_tile, t.id);
            let view = tile_view_from(t, refill, h.as_str(), now_secs, now_nanos);
            let ghost before = views@;
            views.push(view);
            assert(views@.map_values(|v: TileView| v@) =~= before.map_values(|v: TileView| v@).push(view@));
            match h {
                TileHealth::Critical => critical = critical + 1,
                TileHealth::Low => low = low + 1,
                TileHealth::Healthy => healthy = healthy + 1,
            }
        }
        i = i + 1;
    }
    assert(rows@.subrange(0, rows@.len() as int) =~= rows@);
    let ghost lines = inventory_of(rows@, refills@, auth.branch_id, now_secs as int, now_nanos as int);
    let mut keys: Vec<Vec<char>> = Vec::new();
    let mut t: usize = 0;
    while t < views.len()
        invariant
            t <= views@.len(),
            views@.map_values(|v: TileView| v@) == lines,
            keys@.len() == t,
            forall|q: int| 0 <= q < t ==> #[trigger] keys@[q]@ == inventory_key(views@[q]@),
        decreases views@.len() - t,
    {
        keys.push(inventory_key_exec(&views[t]));
        t = t + 1;
    }
    assert(keys@.map_values(|q: Vec<char>| q@) =~= inventory_keys(lines)) by {
        assert forall|q: int| 0 <= q < keys@.len() implies keys@[q]@ == inventory_key(lines[q]) by {
            assert(lines[q] == views@[q]@);
        }
    }
    let p = sort_by_text(&keys, false);
    let total: usize = views.len();
    let ghost unsorted = views@;
    let sorted = apply_permutation(views, &p);
    assert(sorted@.map_values(|v: TileView| v@) =~= permuted(lines, p@)) by {
        assert forall|q: int| 0 <= q < p@.len() implies sorted@[q]@ == lines[p@[q] as int] by {
            assert(lines[p@[q] as int] == unsorted[p@[q] as int]@);
        }
    }
    proof {
        lemma_inventory_labels(rows@, refills@, auth.branch_id, now_secs as int, now_nanos as int);
        lemma_inventory_order(lines, p@);
        assert forall|i: int, j: int| 0 <= i < j < sorted@.len() implies listed_before(
            #[trigger] sorted@[i]@,
            #[trigger] sorted@[j]@,
        ) by {
            assert(sorted@[i]@ == sorted@.map_values(|v: TileView| v@)[i]);
            assert(sorted@[j]@ == sorted@.map_values(|v: TileView| v@)[j]);
            assert(listed_before(permuted(lines, p@)[i], permuted(lines, p@)[j]));
        }
    }
    (sorted, InventoryStats { critical, low, healthy, total })
}

/// The tile detail of `row`, the tile looked up by id in any branch: a tile
/// of another branch is answered as missing.
pub fn tile_detail_view(auth: &AuthUser, row: Option<&TileRow>, refills: &Vec<ActiveRefill>, now_secs: i64, now_nanos: u32) -> (r: Result<TileView, AppError>)
    requires
        now_nanos < 1_000_000_000,
    ensures
        match row {
            Some(t) if t.branch_id == auth.branch_id => r matches Ok(v) && v@ == tile_view_of(
                *t,
                active_refill(refills@, t.id),
                health_label(health_of(t.qty as int, t.low_inventory_threshold as int)),
                now_secs as int,
                now_nanos as int,
            ),
            _ => verdict(r) == Err::<(), Refusal>(Refusal::NotFound),
        },
{
    match row {
        Some(t) => {
            if t.branch_id != auth.branch_id {
                return Err(AppError::NotFound);
            }
            let h = health_state(t.qty, t.low_inventory_threshold);
            let refill = find_active_refill(refills, t.id);
            Ok(tile_view_from(t, refill, h.as_str(), now_secs, now_nanos))
        },
        None => Err(AppError::NotFound),
    }
}

/// The fields of a tile edit (`PUT /tiles/{id}`); absent fields stay unchanged.
#[derive(Debug)]
pub struct UpdateTileForm {
    pub qty: Option<i64>,
    pub notes: Option<String>,
    pub sample_coordinator_id: Option<i64>,
    pub sales_rep_id: Option<i64>,
}

/// The tile being edited, looked up by id in any branch.
#[derive(Debug)]
pub struct TileQty {
    pub id: i64,
    pub branch_id: i64,
    pub qty: i64,
}

/// A user named for assignment, looked up by id.
#[derive(Debug)]
pub struct UserRef {
    pub id: i64,
    pub branch_id: i64,
}

/// What an accepted tile edit changes.
#[derive(Debug)]
pub struct TileUpdate {
    pub tile_id: i64,
    pub edited_by: i64,
    /// The quantity before and after, logged as a manual edit and broadcast.
    pub qty_change: Option<(i64, i64)>,
    /// Whether notes or assignments are written (absent ones are kept).
    pub update_fields: bool,
}

pub open spec fn foreign_assignee_message() -> Seq<char> {
    "Assigned users must belong to your branch"@
}

/// An assignment is acceptable when nothing is assigned, or when the named
/// user exists in the editor's branch.
pub open spec fn assignment_ok(requested: Option<i64>, found: Option<UserRef>, auth: AuthUser) -> bool {
    match requested {
        None => true,
        Some(id) => found matches Some(u) && u.id == id && u.branch_id == auth.branch_id,
    }
}

pub open spec fn opt_user(u: Option<&UserRef>) -> Option<UserRef> {
    match u {
        Some(x) => Some(*x),
        None => None,
    }
}

/// The outcome of a tile edit.
pub open spec fn update_verdict(auth: AuthUser, form: UpdateTileForm, tile: Option<TileQty>, coordinator: Option<UserRef>, sales_rep: Option<UserRef>) -> Result<(), Refusal> {
    if auth.role == Role::SalesRep {
        Err(Refusal::Forbidden)
    } else if !(tile matches Some(t) && t.branch_id == auth.branch_id) {
        Err(Refusal::NotFound)
    } else if !assignment_ok(form.sample_coordinator_id, coordinator, auth) || !assignment_ok(
        form.sales_rep_id,
        sales_rep,
        auth,
    ) {
        Err(Refusal::Validation(foreign_assignee_message()))
    } else {
        Ok(())
    }
}

fn assignment_ok_exec(requested: Option<i64>, found: Option<&UserRef>, auth: &AuthUser) -> (b: bool)
    ensures
        b == assignment_ok(requested, opt_user(found), *auth),
{
    match requested {
        None => true,
        Some(id) => match found {
            Some(u) => u.id == id && u.branch_id == auth.branch_id,
            None => false,
        },
    }
}

/// Decides a tile edit. `tile` is the tile with that id in any branch;
/// `coordinator` and `sales_rep` are the users the form names, if it names any.
pub fn plan_update_tile(
    auth: &AuthUser,
    form: &UpdateTileForm,
    tile: Option<&TileQty>,
    coordinator: Option<&UserRef>,
    sales_rep: Option<&UserRef>,
) -> (r: Result<TileUpdate, AppError>)
    ensures
        verdict(r) == update_verdict(
            *auth,
            *form,
            match tile {
                Some(t) => Some(*t),
                None => None,
            },
            opt_user(coordinator),
            opt_user(sales_rep),
        ),
        r matches Ok(u) ==> u.tile_id == tile.unwrap().id && u.edited_by == auth.id
            && u.qty_change == (match form.qty {
            Some(q) => Some((tile.unwrap().qty, q)),
            None => None,
        }) && u.update_fields == (form.notes is Some || form.sample_coordinator_id is Some
            || form.sales_rep_id is Some),
{
    if auth.role == Role::SalesRep {
        return Err(AppError::Forbidden);
    }
    let t = match tile {
        Some(t) => t,
        None => return Err(AppError::NotFound),
    };
    if t.branch_id != auth.branch_id {
        return Err(AppError::NotFound);
    }
    if !assignment_ok_exec(form.sample_coordinator_id, coordinator, auth) || !assignment_ok_exec(
        form.sales_rep_id,
        sales_rep,
        auth,
    ) {
        return Err(AppError::validation("Assigned users must belong to your branch"));
    }
    Ok(
        TileUpdate {
            tile_id: t.id,
            edited_by: auth.id,
            qty_change: match form.qty {
                Some(q) => Some((t.qty, q)),
                None => None,
            },
            update_fields: form.notes.is_some() || form.sample_coordinator_id.is_some()
                || form.sales_rep_id.is_some(),
        },
    )
}

/// The event announcing a tile's edited quantity, when the edit changed it.
pub fn edit_event(u: &TileUpdate) -> (e: Option<WsEvent>)
    ensures
        match u.qty_change {
            Some((_, q)) => e == Some(WsEvent::InventoryUpdate { tile_id: u.tile_id, new_qty: q }),
            None => e is None,
        },
{
    match u.qty_change {
        Some((_, q)) => Some(WsEvent::InventoryUpdate { tile_id: u.tile_id, new_qty: q }),
        None => None,
    }
}

/// A sales rep cannot edit a tile, and no edit reaches a tile of another branch.
pub proof fn lemma_tile_edits_guarded(auth: AuthUser, form: UpdateTileForm, tile: Option<TileQty>, coordinator: Option<UserRef>, sales_rep: Option<UserRef>)
    ensures
        auth.role == Role::SalesRep ==> update_verdict(auth, form, tile, coordinator, sales_rep)
            == Err::<(), Refusal>(Refusal::Forbidden),
        update_verdict(auth, form, tile, coordinator, sales_rep) is Ok ==> tile.unwrap().branch_id
            == auth.branch_id,
        update_verdict(auth, form, tile, coordinator, sales_rep) is Ok ==> assignment_ok(
            form.sample_coordinator_id,
            coordinator,
            auth,
        ) && assignment_ok(form.sales_rep_id, sales_rep, auth),
{
}

/// The health summary always adds up: every tile of the branch is exactly one
/// of critical, low or healthy.
pub proof fn lemma_health_counts_partition(rows: Seq<TileRow>, refills: Seq<ActiveRefill>, branch: i64, now_secs: int, now_nanos: int)
    ensures
        health_count(rows, branch, TileHealth::Critical) + health_count(rows, branch, TileHealth::Low)
            + health_count(rows, branch, TileHealth::Healthy) == inventory_of(rows, refills, branch, now_secs, now_nanos).len(),
    decreases rows.len(),
{
    if rows.len() > 0 {
        lemma_health_counts_partition(rows.drop_last(), refills, branch, now_secs, now_nanos);
    }
}

/// The inventory table of the user's branch as of now.
pub fn inventory_now(auth: &AuthUser, rows: &Vec<TileRow>, refills: &Vec<ActiveRefill>) -> (r: (Vec<TileView>, InventoryStats))
    ensures
        exists|secs: int, nanos: int, p: Seq<usize>|
            0 <= nanos < 1_000_000_000 && is_text_sort(inventory_keys(inventory_of(rows@, refills@, auth.branch_id, secs, nanos)), false, p)
                && r.0@.map_values(|v: TileView| v@) == #[trigger] permuted(inventory_of(rows@, refills@, auth.branch_id, secs, nanos), p),
        r.1.critical == health_count(rows@, auth.branch_id, TileHealth::Critical),
        r.1.low == health_count(rows@, auth.branch_id, TileHealth::Low),
        r.1.healthy == health_count(rows@, auth.branch_id, TileHealth::Healthy),
        r.1.total == r.0@.len(),
        r.1.critical + r.1.low + r.1.healthy == r.1.total,
        forall|i: int, j: int| 0 <= i < j < r.0@.len() ==> listed_before(#[trigger] r.0@[i]@, #[trigger] r.0@[j]@),
{
    let (secs, nanos) = now_parts();
    inventory_view(auth, rows, refills, secs, nanos)
}

/// The tile detail of `row` as of now: a tile of another branch is answered
/// as missing.
pub fn tile_detail_now(auth: &AuthUser, row: Option<&TileRow>, refills: &Vec<ActiveRefill>) -> (r: Result<TileView, AppError>)
    ensures
        match row {
            Some(t) if t.branch_id == auth.branch_id => r matches Ok(v) && exists|secs: int, nanos: int|
                0 <= nanos < 1_000_000_000 && v@ == #[trigger] tile_view_of(
                    *t,
                    active_refill(refills@, t.id),
                    health_label(health_of(t.qty as int, t.low_inventory_threshold as int)),
                    secs,
                    nanos,
                ),
            _ => verdict(r) == Err::<(), Refusal>(Refusal::NotFound),
        },
{
    let (secs, nanos) = now_parts();
    tile_detail_view(auth, row, refills, secs, nanos)
}

/// The rows of branch `branch` among `rows`, in order.
pub open spec fn branch_rows(rows: Seq<TileRow>, branch: i64) -> Seq<TileRow>
    decreases rows.len(),
{
    if rows.len() == 0 {
        Seq::empty()
    } else if rows.last().branch_id == branch {
        branch_rows(rows.drop_last(), branch).push(rows.last())
    } else {
        branch_rows(rows.drop_last(), branch)
    }
}

/// The inventory table's lines, before they are ordered by health, are
/// exactly the tiles of the user's branch, one line per tile in the order
/// given, each line the view of its tile.
pub proof fn lemma_inventory_is_branch_only(
    rows: Seq<TileRow>,
    refills: Seq<ActiveRefill>,
    branch: i64,
    now_secs: int,
    now_nanos: int,
)
    ensures
        inventory_of(rows, refills, branch, now_secs, now_nanos).len() == branch_rows(rows, branch).len(),
        forall|i: int|
            0 <= i < branch_rows(rows, branch).len() ==> (#[trigger] branch_rows(rows, branch)[i]).branch_id == branch
                && inventory_of(rows, refills, branch, now_secs, now_nanos)[i].id == branch_rows(rows, branch)[i].id
                && inventory_of(rows, refills, branch, now_secs, now_nanos)[i].item_number
                == branch_rows(rows, branch)[i].item_number@,
    decreases rows.len(),
{
    if rows.len() > 0 {
        lemma_inventory_is_branch_only(rows.drop_last(), refills, branch, now_secs, now_nanos);
        let prev = branch_rows(rows.drop_last(), branch);
        let inv_prev = inventory_of(rows.drop_last(), refills, branch, now_secs, now_nanos);
        assert forall|i: int| 0 <= i < branch_rows(rows, branch).len() implies (#[trigger] branch_rows(
            rows,
            branch,
        )[i]).branch_id == branch && inventory_of(rows, refills, branch, now_secs, now_nanos)[i].id == branch_rows(
            rows,
            branch,
        )[i].id && inventory_of(rows, refills, branch, now_secs, now_nanos)[i].item_number == branch_rows(
            rows,
            branch,
        )[i].item_number@ by {
            if i < prev.len() {
                assert(branch_rows(rows, branch)[i] == prev[i]);
                assert(inventory_of(rows, refills, branch, now_secs, now_nanos)[i] == inv_prev[i]);
            }
        }
    }
}

} // verus!
