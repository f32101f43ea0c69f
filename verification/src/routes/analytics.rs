//! The admin's analytics page: restock and give-out counts per tile, merged
//! into one row per item number and ranked by activity, with the page totals.
use vstd::prelude::*;
use crate::datetime::{is_day_text, utc_date_days_ago};
use crate::order::{apply_permutation, distinct_indices, is_count_sort, permuted, sort_by_count_desc};
use crate::text::{owned, text_eq};

verus! {

/// How many restock requests a tile had in the chosen period.
#[derive(Debug)]
pub struct RestockCountRow {
    pub item_number: String,
    pub collection: Option<String>,
    pub gts_description: Option<String>,
    pub qty: i64,
    pub restock_count: i64,
}

/// How many times a tile was given out in the chosen period.
#[derive(Debug)]
pub struct GiveOutCountRow {
    pub item_number: String,
    pub collection: Option<String>,
    pub gts_description: Option<String>,
    pub qty: i64,
    pub give_out_count: i64,
}

/// One row of the analytics table.
#[derive(Debug)]
pub struct TileAnalytics {
    pub item_number: String,
    pub collection: String,
    pub gts_description: String,
    pub current_qty: i64,
    pub give_out_count: i64,
    pub restock_count: i64,
    /// The tile has an approved restock request that is not yet fulfilled.
    pub pending_restock: bool,
}

/// A `TileAnalytics` as plain values.
pub struct TileAnalyticsModel {
    pub item_number: Seq<char>,
    pub collection: Seq<char>,
    pub gts_description: Seq<char>,
    pub current_qty: i64,
    pub give_out_count: i64,
    pub restock_count: i64,
    pub pending_restock: bool,
}

impl View for TileAnalytics {
    type V = TileAnalyticsModel;

    open spec fn view(&self) -> TileAnalyticsModel {
        TileAnalyticsModel {
            item_number: self.item_number@,
            collection: self.collection@,
            gts_description: self.gts_description@,
            current_qty: self.current_qty,
            give_out_count: self.give_out_count,
            restock_count: self.restock_count,
            pending_restock: self.pending_restock,
        }
    }
}

/// The rows as plain values.
pub open spec fn analytics_view(rows: Seq<TileAnalytics>) -> Seq<TileAnalyticsModel> {
    rows.map_values(|t: TileAnalytics| t@)
}

/// An optional text, or the empty text when there is none.
pub open spec fn text_or_empty(o: Option<String>) -> Seq<char> {
    match o {
        Some(s) => s@,
        None => Seq::empty(),
    }
}

/// The item numbers that have an approved, unfulfilled restock request.
pub open spec fn pending_items(pending: Seq<String>) -> Set<Seq<char>> {
    pending.map_values(|s: String| s@).to_set()
}

/// The row a restock count starts.
pub open spec fn restock_entry(r: RestockCountRow, pend: Set<Seq<char>>) -> TileAnalyticsModel {
    TileAnalyticsModel {
        item_number: r.item_number@,
        collection: text_or_empty(r.collection),
        gts_description: text_or_empty(r.gts_description),
        current_qty: r.qty,
        give_out_count: 0,
        restock_count: r.restock_count,
        pending_restock: pend.contains(r.item_number@),
    }
}

/// The row a give-out count starts when its tile had no restock.
pub open spec fn give_out_entry(g: GiveOutCountRow, pend: Set<Seq<char>>) -> TileAnalyticsModel {
    TileAnalyticsModel {
        item_number: g.item_number@,
        collection: text_or_empty(g.collection),
        gts_description: text_or_empty(g.gts_description),
        current_qty: g.qty,
        give_out_count: g.give_out_count,
        restock_count: 0,
        pending_restock: pend.contains(g.item_number@),
    }
}

/// `m` with its give-out count replaced.
pub open spec fn with_count(m: TileAnalyticsModel, count: i64) -> TileAnalyticsModel {
    TileAnalyticsModel {
        item_number: m.item_number,
        collection: m.collection,
        gts_description: m.gts_description,
        current_qty: m.current_qty,
        give_out_count: count,
        restock_count: m.restock_count,
        pending_restock: m.pending_restock,
    }
}

/// Some row is for item `key`.
pub open spec fn has_item(entries: Seq<TileAnalyticsModel>, key: Seq<char>) -> bool {
    exists|i: int| 0 <= i < entries.len() && #[trigger] entries[i].item_number == key
}

/// The position of the row for item `key`.
pub open spec fn item_index(entries: Seq<TileAnalyticsModel>, key: Seq<char>) -> int {
    choose|i: int| 0 <= i < entries.len() && #[trigger] entries[i].item_number == key
}

/// No two rows are for the same item.
pub open spec fn items_distinct(entries: Seq<TileAnalyticsModel>) -> bool {
    forall|i: int, j: int|
        0 <= i < j < entries.len() ==> #[trigger] entries[i].item_number != #[trigger] entries[j].item_number
}

/// The rows after a restock count: it replaces the row for its item, or is added last.
pub open spec fn with_restock(
    entries: Seq<TileAnalyticsModel>,
    r: RestockCountRow,
    pend: Set<Seq<char>>,
) -> Seq<TileAnalyticsModel> {
    if has_item(entries, r.item_number@) {
        entries.update(item_index(entries, r.item_number@), restock_entry(r, pend))
    } else {
        entries.push(restock_entry(r, pend))
    }
}

/// The rows after a give-out count: it sets the count on the row for its item,
/// or a new row is added last.
pub open spec fn with_give_out(
    entries: Seq<TileAnalyticsModel>,
    g: GiveOutCountRow,
    pend: Set<Seq<char>>,
) -> Seq<TileAnalyticsModel> {
    if has_item(entries, g.item_number@) {
        let i = item_index(entries, g.item_number@);
        entries.update(i, with_count(entries[i], g.give_out_count))
    } else {
        entries.push(give_out_entry(g, pend))
    }
}

/// The rows after all the restock counts, in order.
pub open spec fn restock_fold(rows: Seq<RestockCountRow>, pend: Set<Seq<char>>) -> Seq<TileAnalyticsModel>
    decreases rows.len(),
{
    if rows.len() == 0 {
        Seq::empty()
    } else {
        with_restock(restock_fold(rows.drop_last(), pend), rows.last(), pend)
    }
}

/// The rows `base` after all the give-out counts, in order.
pub open spec fn give_out_fold(
    base: Seq<TileAnalyticsModel>,
    rows: Seq<GiveOutCountRow>,
    pend: Set<Seq<char>>,
) -> Seq<TileAnalyticsModel>
    decreases rows.len(),
{
    if rows.len() == 0 {
        base
    } else {
        with_give_out(give_out_fold(base, rows.drop_last(), pend), rows.last(), pend)
    }
}

/// One row per item number: restock counts first, then give-out counts.
pub open spec fn merged_analytics(
    restocks: Seq<RestockCountRow>,
    give_outs: Seq<GiveOutCountRow>,
    pending: Seq<String>,
) -> Seq<TileAnalyticsModel> {
    give_out_fold(restock_fold(restocks, pending_items(pending)), give_outs, pending_items(pending))
}

/// Every row's pending flag says whether its item is pending.
pub open spec fn pending_faithful(entries: Seq<TileAnalyticsModel>, pend: Set<Seq<char>>) -> bool {
    forall|i: int| 0 <= i < entries.len() ==> #[trigger] entries[i].pending_restock == pend.contains(entries[i].item_number)
}

/// Whether `pending` lists item `key`.
pub fn pending_has(pending: &Vec<String>, key: &str) -> (r: bool)
    ensures
        r == pending_items(pending@).contains(key@),
{
    let ghost pv = pending@.map_values(|s: String| s@);
    let mut i: usize = 0;
    while i < pending.len()
        invariant
            pv == pending@.map_values(|s: String| s@),
            i <= pending@.len(),
            forall|k: int| 0 <= k < i ==> pv[k] != key@,
        decreases pending@.len() - i,
    {
        if text_eq(pending[i].as_str(), key) {
            assert(pv[i as int] == key@);
            assert(pv.contains(key@));
            return true;
        }
        i = i + 1;
    }
    assert(!pv.contains(key@));
    false
}

/// An optional text, or the empty text.
pub fn or_empty(o: &Option<String>) -> (r: String)
    ensures
        r@ == text_or_empty(*o),
{
    match o {
        Some(s) => owned(s.as_str()),
        None => String::new(),
    }
}

/// The position of the row for item `key`, if there is one.
fn find_item(entries: &Vec<TileAnalytics>, key: &str) -> (r: Option<usize>)
    ensures
        match r {
            Some(k) => k < entries@.len() && entries@[k as int].item_number@ == key@,
            None => !has_item(analytics_view(entries@), key@),
        },
{
    let ghost ev = analytics_view(entries@);
    let mut i: usize = 0;
    while i < entries.len()
        invariant
            ev == analytics_view(entries@),
            i <= entries@.len(),
            forall|k: int| 0 <= k < i ==> ev[k].item_number != key@,
        decreases entries@.len() - i,
    {
        if text_eq(entries[i].item_number.as_str(), key) {
            return Some(i);
        }
        i = i + 1;
    }
    None
}

proof fn lemma_item_index_unique(entries: Seq<TileAnalyticsModel>, key: Seq<char>, k: int)
    requires
        items_distinct(entries),
        0 <= k < entries.len(),
        entries[k].item_number == key,
    ensures
        has_item(entries, key),
        item_index(entries, key) == k,
{
    assert(has_item(entries, key));
    let c = item_index(entries, key);
    if c < k {
        assert(entries[c].item_number != entries[k].item_number);
    } else if c > k {
        assert(entries[k].item_number != entries[c].item_number);
    }
}

/// A restock count keeps the rows distinct, covers its item, keeps every
/// earlier item, adds no other, and keeps the pending flags faithful.
proof fn lemma_with_restock(entries: Seq<TileAnalyticsModel>, r: RestockCountRow, pend: Set<Seq<char>>)
    requires
        items_distinct(entries),
        pending_faithful(entries, pend),
    ensures
        items_distinct(with_restock(entries, r, pend)),
        pending_faithful(with_restock(entries, r, pend), pend),
        has_item(with_restock(entries, r, pend), r.item_number@),
        forall|key: Seq<char>| has_item(entries, key) ==> has_item(with_restock(entries, r, pend), key),
        forall|i: int|
            0 <= i < with_restock(entries, r, pend).len() ==> (#[trigger] with_restock(entries, r, pend)[i]).item_number
                == r.item_number@ || has_item(entries, with_restock(entries, r, pend)[i].item_number),
{
    let out = with_restock(entries, r, pend);
    let key = r.item_number@;
    if has_item(entries, key) {
        let c = item_index(entries, key);
        assert(out[c].item_number == key);
        assert forall|k: Seq<char>| has_item(entries, k) implies has_item(out, k) by {
            let j = choose|j: int| 0 <= j < entries.len() && #[trigger] entries[j].item_number == k;
            assert(out[j].item_number == k);
        }
        assert forall|i: int| 0 <= i < out.len() implies (#[trigger] out[i]).item_number == key || has_item(
            entries,
            out[i].item_number,
        ) by {
            if i != c {
                assert(entries[i].item_number == out[i].item_number);
            }
        }
    } else {
        assert(out[entries.len() as int].item_number == key);
        assert forall|k: Seq<char>| has_item(entries, k) implies has_item(out, k) by {
            let j = choose|j: int| 0 <= j < entries.len() && #[trigger] entries[j].item_number == k;
            assert(out[j].item_number == k);
        }
        assert forall|i: int| 0 <= i < out.len() implies (#[trigger] out[i]).item_number == key || has_item(
            entries,
            out[i].item_number,
        ) by {
            if i < entries.len() {
                assert(entries[i].item_number == out[i].item_number);
            }
        }
        assert forall|i: int, j: int| 0 <= i < j < out.len() implies #[trigger] out[i].item_number
            != #[trigger] out[j].item_number by {
            if j == entries.len() {
                assert(entries[i].item_number != key);
            }
        }
    }
}

/// The same facts for a give-out count.
proof fn lemma_with_give_out(entries: Seq<TileAnalyticsModel>, g: GiveOutCountRow, pend: Set<Seq<char>>)
    requires
        items_distinct(entries),
        pending_faithful(entries, pend),
    ensures
        items_distinct(with_give_out(entries, g, pend)),
        pending_faithful(with_give_out(entries, g, pend), pend),
        has_item(with_give_out(entries, g, pend), g.item_number@),
        forall|key: Seq<char>| has_item(entries, key) ==> has_item(with_give_out(entries, g, pend), key),
        forall|i: int|
            0 <= i < with_give_out(entries, g, pend).len() ==> (#[trigger] with_give_out(entries, g, pend)[i]).item_number
                == g.item_number@ || has_item(entries, with_give_out(entries, g, pend)[i].item_number),
{
    let out = with_give_out(entries, g, pend);
    let key = g.item_number@;
    if has_item(entries, key) {
        let c = item_index(entries, key);
        assert(out[c].item_number == key);
        assert forall|k: Seq<char>| has_item(entries, k) implies has_item(out, k) by {
            let j = choose|j: int| 0 <= j < entries.len() && #[trigger] entries[j].item_number == k;
            assert(out[j].item_number == k);
        }
        assert forall|i: int| 0 <= i < out.len() implies (#[trigger] out[i]).item_number == key || has_item(
            entries,
            out[i].item_number,
        ) by {
            if i != c {
                assert(entries[i].item_number == out[i].item_number);
            }
        }
        assert forall|i: int, j: int| 0 <= i < j < out.len() implies #[trigger] out[i].item_number
            != #[trigger] out[j].item_number by {
            assert(entries[i].item_number != entries[j].item_number);
        }
        assert forall|i: int| 0 <= i < out.len() implies #[trigger] out[i].pending_restock == pend.contains(
            out[i].item_number,
        ) by {
            assert(entries[i].pending_restock == pend.contains(entries[i].item_number));
        }
    } else {
        assert(out[entries.len() as int].item_number == key);
        assert forall|k: Seq<char>| has_item(entries, k) implies has_item(out, k) by {
            let j = choose|j: int| 0 <= j < entries.len() && #[trigger] entries[j].item_number == k;
            assert(out[j].item_number == k);
        }
        assert forall|i: int| 0 <= i < out.len() implies (#[trigger] out[i]).item_number == key || has_item(
            entries,
            out[i].item_number,
        ) by {
            if i < entries.len() {
                assert(entries[i].item_number == out[i].item_number);
            }
        }
        assert forall|i: int, j: int| 0 <= i < j < out.len() implies #[trigger] out[i].item_number
            != #[trigger] out[j].item_number by {
            if j == entries.len() {
                assert(entries[i].item_number != key);
            }
        }
    }
}

/// Merges the restock and give-out counts into one row per item number. A
/// restock count starts a row (or replaces the one for its item); a give-out
/// count sets the count on its item's row, or starts a row with no restocks.
pub fn merge_tile_analytics(
    restocks: &Vec<RestockCountRow>,
    give_outs: &Vec<GiveOutCountRow>,
    pending: &Vec<String>,
) -> (r: Vec<TileAnalytics>)
    ensures
        analytics_view(r@) == merged_analytics(restocks@, give_outs@, pending@),
{
    let ghost pend = pending_items(pending@);
    let mut out: Vec<TileAnalytics> = Vec::new();
    let mut i: usize = 0;
    while i < restocks.len()
        invariant
            pend == pending_items(pending@),
            i <= restocks@.len(),
            analytics_view(out@) == restock_fold(restocks@.subrange(0, i as int), pend),
            items_distinct(analytics_view(out@)),
            pending_faithful(analytics_view(out@), pend),
        decreases restocks@.len() - i,
    {
        let r = &restocks[i];
        let ghost before = analytics_view(out@);
        proof {
            lemma_with_restock(before, *r, pend);
            assert(restocks@.subrange(0, i + 1).drop_last() =~= restocks@.subrange(0, i as int));
        }
        let e = TileAnalytics {
            item_number: owned(r.item_number.as_str()),
            collection: or_empty(&r.collection),
            gts_description: or_empty(&r.gts_description),
            current_qty: r.qty,
            give_out_count: 0,
            restock_count: r.restock_count,
            pending_restock: pending_has(pending, r.item_number.as_str()),
        };
        assert(e@ == restock_entry(*r, pend));
        match find_item(&out, r.item_number.as_str()) {
            Some(k) => {
                proof {
                    lemma_item_index_unique(before, r.item_number@, k as int);
                }
                out[k] = e;
                assert(analytics_view(out@) =~= before.update(k as int, restock_entry(*r, pend)));
            },
            None => {
                out.push(e);
                assert(analytics_view(out@) =~= before.push(restock_entry(*r, pend)));
            },
        }
        i = i + 1;
    }
    assert(restocks@.subrange(0, restocks@.len() as int) =~= restocks@);
    let ghost base = analytics_view(out@);
    let mut j: usize = 0;
    while j < give_outs.len()
        invariant
            pend == pending_items(pending@),
            j <= give_outs@.len(),
            analytics_view(out@) == give_out_fold(base, give_outs@.subrange(0, j as int), pend),
            items_distinct(analytics_view(out@)),
            pending_faithful(analytics_view(out@), pend),
        decreases give_outs@.len() - j,
    {
        let g = &give_outs[j];
        let ghost before = analytics_view(out@);
        proof {
            lemma_with_give_out(before, *g, pend);
            assert(give_outs@.subrange(0, j + 1).drop_last() =~= give_outs@.subrange(0, j as int));
        }
        match find_item(&out, g.item_number.as_str()) {
            Some(k) => {
                proof {
                    lemma_item_index_unique(before, g.item_number@, k as int);
                }
                out[k].give_out_count = g.give_out_count;
                assert(analytics_view(out@) =~= before.update(k as int, with_count(before[k as int], g.give_out_count)));
            },
            None => {
                let e = TileAnalytics {
                    item_number: owned(g.item_number.as_str()),
                    collection: or_empty(&g.collection),
                    gts_description: or_empty(&g.gts_description),
                    current_qty: g.qty,
                    give_out_count: g.give_out_count,
                    restock_count: 0,
                    pending_restock: pending_has(pending, g.item_number.as_str()),
                };
                out.push(e);
                assert(analytics_view(out@) =~= before.push(give_out_entry(*g, pend)));
            },
        }
        j = j + 1;
    }
    assert(give_outs@.subrange(0, give_outs@.len() as int) =~= give_outs@);
    out
}

/// The activity of each row, the number it is ranked by: give-outs plus restocks.
pub open spec fn activity_keys(entries: Seq<TileAnalyticsModel>) -> Seq<i128> {
    Seq::new(entries.len(), |k: int| (entries[k].give_out_count + entries[k].restock_count) as i128)
}

/// A row's activity: its give-outs plus its restock requests.
pub open spec fn activity(t: TileAnalyticsModel) -> int {
    t.give_out_count + t.restock_count
}

/// Ranked rows come most active first: along the ranking, give-outs plus
/// restock requests never increase.
pub proof fn lemma_ranked_by_activity(entries: Seq<TileAnalyticsModel>, p: Seq<usize>)
    requires
        is_count_sort(activity_keys(entries), p),
    ensures
        forall|i: int, j: int|
            0 <= i < j < p.len() ==> activity(#[trigger] permuted(entries, p)[i]) >= activity(
                #[trigger] permuted(entries, p)[j],
            ),
{
    let keys = activity_keys(entries);
    assert forall|i: int, j: int| 0 <= i < j < p.len() implies activity(#[trigger] permuted(entries, p)[i]) >= activity(
        #[trigger] permuted(entries, p)[j],
    ) by {
        let x = p[i] as int;
        let y = p[j] as int;
        assert(crate::order::count_key_before(keys, x, y));
        assert(keys[x] as int == activity(entries[x]));
        assert(keys[y] as int == activity(entries[y]));
    }
}

/// Ranks the rows by activity, most active first; rows of equal activity keep
/// their order.
pub fn rank_by_activity(entries: Vec<TileAnalytics>) -> (r: Vec<TileAnalytics>)
    ensures
        exists|p: Seq<usize>|
            is_count_sort(activity_keys(analytics_view(entries@)), p) && analytics_view(r@) == permuted(
                analytics_view(entries@),
                p,
            ),
        forall|i: int, j: int|
            0 <= i < j < r@.len() ==> #[trigger] r@[i].give_out_count + r@[i].restock_count >= #[trigger] r@[j].give_out_count
                + r@[j].restock_count,
{
    let ghost ev = analytics_view(entries@);
    let mut keys: Vec<i128> = Vec::new();
    let mut i: usize = 0;
    while i < entries.len()
        invariant
            ev == analytics_view(entries@),
            i <= entries@.len(),
            keys@ == activity_keys(ev).subrange(0, i as int),
        decreases entries@.len() - i,
    {
        let key: i128 = entries[i].give_out_count as i128 + entries[i].restock_count as i128;
        keys.push(key);
        assert(keys@ =~= activity_keys(ev).subrange(0, i + 1));
        i = i + 1;
    }
    assert(keys@ =~= activity_keys(ev));
    let p = sort_by_count_desc(&keys);
    let out = apply_permutation(entries, &p);
    assert(analytics_view(out@) =~= permuted(ev, p@));
    proof {
        lemma_ranked_by_activity(ev, p@);
        assert forall|i: int, j: int| 0 <= i < j < out@.len() implies #[trigger] out@[i].give_out_count
            + out@[i].restock_count >= #[trigger] out@[j].give_out_count + out@[j].restock_count by {
            assert(analytics_view(out@)[i] == out@[i]@);
            assert(analytics_view(out@)[j] == out@[j]@);
            assert(activity(permuted(ev, p@)[i]) >= activity(permuted(ev, p@)[j]));
        }
    }
    out
}

/// The give-outs of all rows.
pub open spec fn give_out_sum(entries: Seq<TileAnalyticsModel>) -> int
    decreases entries.len(),
{
    if entries.len() == 0 {
        0
    } else {
        give_out_sum(entries.drop_last()) + entries.last().give_out_count
    }
}

/// The restock requests of all rows.
pub open spec fn restock_sum(entries: Seq<TileAnalyticsModel>) -> int
    decreases entries.len(),
{
    if entries.len() == 0 {
        0
    } else {
        restock_sum(entries.drop_last()) + entries.last().restock_count
    }
}

/// The total give-outs on the page. The sum is taken in 128 bits, where no
/// number of 64-bit counts can overflow it.
pub fn total_give_outs(entries: &Vec<TileAnalytics>) -> (t: i128)
    ensures
        t == give_out_sum(analytics_view(entries@)),
{
    let ghost ev = analytics_view(entries@);
    let mut total: i128 = 0;
    let mut i: usize = 0;
    while i < entries.len()
        invariant
            ev == analytics_view(entries@),
            i <= entries@.len(),
            total == give_out_sum(ev.subrange(0, i as int)),
            -(i * 0x8000_0000_0000_0000) <= total <= i * 0x8000_0000_0000_0000,
        decreases entries@.len() - i,
    {
        assert(ev.subrange(0, i + 1).drop_last() =~= ev.subrange(0, i as int));
        total = total + entries[i].give_out_count as i128;
        i = i + 1;
    }
    assert(ev.subrange(0, i as int) =~= ev);
    total
}

/// The total restock requests on the page, summed in 128 bits.
pub fn total_restocks(entries: &Vec<TileAnalytics>) -> (t: i128)
    ensures
        t == restock_sum(analytics_view(entries@)),
{
    let ghost ev = analytics_view(entries@);
    let mut total: i128 = 0;
    let mut i: usize = 0;
    while i < entries.len()
        invariant
            ev == analytics_view(entries@),
            i <= entries@.len(),
            total == restock_sum(ev.subrange(0, i as int)),
            -(i * 0x8000_0000_0000_0000) <= total <= i * 0x8000_0000_0000_0000,
        decreases entries@.len() - i,
    {
        assert(ev.subrange(0, i + 1).drop_last() =~= ev.subrange(0, i as int));
        total = total + entries[i].restock_count as i128;
        i = i + 1;
    }
    assert(ev.subrange(0, i as int) =~= ev);
    total
}

/// How many distinct items have a pending restock.
pub fn distinct_pending_count(pending: &Vec<String>) -> (n: usize)
    ensures
        n == pending_items(pending@).len(),
{
    let ghost pv = pending@.map_values(|s: String| s@);
    let mut seen: Vec<String> = Vec::new();
    let mut i: usize = 0;
    while i < pending.len()
        invariant
            pv == pending@.map_values(|s: String| s@),
            i <= pending@.len(),
            seen@.map_values(|s: String| s@).no_duplicates(),
            seen@.map_values(|s: String| s@).to_set() == pv.subrange(0, i as int).to_set(),
        decreases pending@.len() - i,
    {
        let ghost sv = seen@.map_values(|s: String| s@);
        let item = pending[i].as_str();
        assert(pv.subrange(0, i + 1) =~= pv.subrange(0, i as int).push(item@));
        proof {
            pv.subrange(0, i as int).lemma_push_to_set_commute(item@);
        }
        if !pending_has(&seen, item) {
            seen.push(owned(item));
            assert(seen@.map_values(|s: String| s@) =~= sv.push(item@));
            proof {
                sv.lemma_push_to_set_commute(item@);
                assert(!sv.contains(item@));
            }
        } else {
            assert(sv.to_set().contains(item@));
            assert(sv.to_set().insert(item@) =~= sv.to_set());
        }
        i = i + 1;
    }
    assert(pv.subrange(0, i as int) =~= pv);
    proof {
        seen@.map_values(|s: String| s@).unique_seq_to_set();
    }
    seen.len()
}

/// The table rows: one per item number, most active first.
pub fn tile_analytics(
    restocks: &Vec<RestockCountRow>,
    give_outs: &Vec<GiveOutCountRow>,
    pending: &Vec<String>,
) -> (r: Vec<TileAnalytics>)
    ensures
        exists|p: Seq<usize>|
            is_count_sort(activity_keys(merged_analytics(restocks@, give_outs@, pending@)), p) && analytics_view(r@)
                == permuted(merged_analytics(restocks@, give_outs@, pending@), p),
        forall|i: int, j: int|
            0 <= i < j < r@.len() ==> #[trigger] r@[i].give_out_count + r@[i].restock_count >= #[trigger] r@[j].give_out_count
                + r@[j].restock_count,
{
    let merged = merge_tile_analytics(restocks, give_outs, pending);
    rank_by_activity(merged)
}

/// The restock count of the last restock row for item `key`, or 0 if it has none.
pub open spec fn last_restock_count(rows: Seq<RestockCountRow>, key: Seq<char>) -> i64
    decreases rows.len(),
{
    if rows.len() == 0 {
        0
    } else if rows.last().item_number@ == key {
        rows.last().restock_count
    } else {
        last_restock_count(rows.drop_last(), key)
    }
}

/// The give-out count of the last give-out row for item `key`, or 0 if it has none.
pub open spec fn last_give_out_count(rows: Seq<GiveOutCountRow>, key: Seq<char>) -> i64
    decreases rows.len(),
{
    if rows.len() == 0 {
        0
    } else if rows.last().item_number@ == key {
        rows.last().give_out_count
    } else {
        last_give_out_count(rows.drop_last(), key)
    }
}

proof fn lemma_no_restock_row(rows: Seq<RestockCountRow>, key: Seq<char>)
    requires
        forall|j: int| 0 <= j < rows.len() ==> (#[trigger] rows[j]).item_number@ != key,
    ensures
        last_restock_count(rows, key) == 0,
    decreases rows.len(),
{
    if rows.len() > 0 {
        assert(rows.last().item_number@ != key);
        lemma_no_restock_row(rows.drop_last(), key);
    }
}

/// What the restock counts alone make of the rows.
proof fn lemma_restock_fold(rows: Seq<RestockCountRow>, pend: Set<Seq<char>>)
    ensures
        items_distinct(restock_fold(rows, pend)),
        pending_faithful(restock_fold(rows, pend), pend),
        forall|j: int| 0 <= j < rows.len() ==> has_item(restock_fold(rows, pend), (#[trigger] rows[j]).item_number@),
        forall|i: int|
            0 <= i < restock_fold(rows, pend).len() ==> {
                let m = #[trigger] restock_fold(rows, pend)[i];
                &&& m.restock_count == last_restock_count(rows, m.item_number)
                &&& m.give_out_count == 0
                &&& exists|j: int| 0 <= j < rows.len() && rows[j].item_number@ == m.item_number
            },
    decreases rows.len(),
{
    if rows.len() > 0 {
        let prev_rows = rows.drop_last();
        let r = rows.last();
        let prev = restock_fold(prev_rows, pend);
        let out = restock_fold(rows, pend);
        lemma_restock_fold(prev_rows, pend);
        lemma_with_restock(prev, r, pend);
        assert(out == with_restock(prev, r, pend));
        assert forall|j: int| 0 <= j < rows.len() implies has_item(out, (#[trigger] rows[j]).item_number@) by {
            if j < prev_rows.len() {
                assert(prev_rows[j] == rows[j]);
            }
        }
        assert forall|i: int| 0 <= i < out.len() implies {
            let m = #[trigger] out[i];
            &&& m.restock_count == last_restock_count(rows, m.item_number)
            &&& m.give_out_count == 0
            &&& exists|j: int| 0 <= j < rows.len() && rows[j].item_number@ == m.item_number
        } by {
            let key = r.item_number@;
            if out[i].item_number == key {
                if has_item(prev, key) {
                    let c = item_index(prev, key);
                    if i != c {
                        assert(out[c].item_number == key);
                        if i < c {
                            assert(out[i].item_number != out[c].item_number);
                        } else {
                            assert(out[c].item_number != out[i].item_number);
                        }
                    }
                } else {
                    if i < prev.len() {
                        assert(prev[i].item_number == key);
                    }
                }
                assert(rows[rows.len() - 1] == r);
            } else {
                if has_item(prev, key) {
                    let c = item_index(prev, key);
                    assert(i != c);
                } else {
                    assert(i < prev.len());
                }
                assert(out[i] == prev[i]);
                let j = choose|j: int| 0 <= j < prev_rows.len() && prev_rows[j].item_number@ == prev[i].item_number;
                assert(rows[j] == prev_rows[j]);
            }
        }
    }
}

/// What the give-out counts make of rows `base` that the restock counts made.
proof fn lemma_give_out_fold(
    base: Seq<TileAnalyticsModel>,
    restocks: Seq<RestockCountRow>,
    rows: Seq<GiveOutCountRow>,
    pend: Set<Seq<char>>,
)
    requires
        items_distinct(base),
        pending_faithful(base, pend),
        forall|j: int| 0 <= j < restocks.len() ==> has_item(base, (#[trigger] restocks[j]).item_number@),
        forall|i: int|
            0 <= i < base.len() ==> (#[trigger] base[i]).restock_count == last_restock_count(restocks, base[i].item_number)
                && base[i].give_out_count == 0,
    ensures
        items_distinct(give_out_fold(base, rows, pend)),
        pending_faithful(give_out_fold(base, rows, pend), pend),
        forall|key: Seq<char>| has_item(base, key) ==> has_item(give_out_fold(base, rows, pend), key),
        forall|j: int| 0 <= j < rows.len() ==> has_item(give_out_fold(base, rows, pend), (#[trigger] rows[j]).item_number@),
        forall|i: int|
            0 <= i < give_out_fold(base, rows, pend).len() ==> {
                let m = #[trigger] give_out_fold(base, rows, pend)[i];
                &&& m.restock_count == last_restock_count(restocks, m.item_number)
                &&& m.give_out_count == last_give_out_count(rows, m.item_number)
                &&& (has_item(base, m.item_number) || exists|j: int|
                    0 <= j < rows.len() && rows[j].item_number@ == m.item_number)
            },
    decreases rows.len(),
{
    if rows.len() > 0 {
        let prev_rows = rows.drop_last();
        let g = rows.last();
        let prev = give_out_fold(base, prev_rows, pend);
        let out = give_out_fold(base, rows, pend);
        lemma_give_out_fold(base, restocks, prev_rows, pend);
        lemma_with_give_out(prev, g, pend);
        assert(out == with_give_out(prev, g, pend));
        assert forall|j: int| 0 <= j < rows.len() implies has_item(out, (#[trigger] rows[j]).item_number@) by {
            if j < prev_rows.len() {
                assert(prev_rows[j] == rows[j]);
            }
        }
        assert forall|i: int| 0 <= i < out.len() implies {
            let m = #[trigger] out[i];
            &&& m.restock_count == last_restock_count(restocks, m.item_number)
            &&& m.give_out_count == last_give_out_count(rows, m.item_number)
            &&& (has_item(base, m.item_number) || exists|j: int|
                0 <= j < rows.len() && rows[j].item_number@ == m.item_number)
        } by {
            let key = g.item_number@;
            assert(rows[rows.len() - 1] == g);
            if out[i].item_number == key {
                if has_item(prev, key) {
                    let c = item_index(prev, key);
                    if i != c {
                        assert(out[c].item_number == key);
                        if i < c {
                            assert(out[i].item_number != out[c].item_number);
                        } else {
                            assert(out[c].item_number != out[i].item_number);
                        }
                    }
                } else {
                    if i < prev.len() {
                        assert(prev[i].item_number == key);
                    }
                    assert forall|j: int| 0 <= j < restocks.len() implies (#[trigger] restocks[j]).item_number@ != key by {
                        if restocks[j].item_number@ == key {
                            assert(has_item(base, key));
                        }
                    }
                    lemma_no_restock_row(restocks, key);
                }
            } else {
                if has_item(prev, key) {
                    let c = item_index(prev, key);
                    assert(i != c);
                } else {
                    assert(i < prev.len());
                }
                assert(out[i] == prev[i]);
                if !has_item(base, prev[i].item_number) {
                    let j = choose|j: int| 0 <= j < prev_rows.len() && prev_rows[j].item_number@ == prev[i].item_number;
                    assert(rows[j] == prev_rows[j]);
                }
            }
        }
    } else {
        assert forall|i: int| 0 <= i < base.len() implies has_item(base, (#[trigger] base[i]).item_number) by {}
    }
}

/// The analytics table has one row per item number that has a restock or a
/// give-out count, and no other row. Each row carries its item's restock
/// count, its give-out count (0 where it had none; the last row's where an
/// item comes more than once), and whether the item has a pending restock.
pub proof fn lemma_analytics_rows(
    restocks: Seq<RestockCountRow>,
    give_outs: Seq<GiveOutCountRow>,
    pending: Seq<String>,
)
    ensures
        items_distinct(merged_analytics(restocks, give_outs, pending)),
        forall|j: int|
            0 <= j < restocks.len() ==> has_item(
                merged_analytics(restocks, give_outs, pending),
                (#[trigger] restocks[j]).item_number@,
            ),
        forall|j: int|
            0 <= j < give_outs.len() ==> has_item(
                merged_analytics(restocks, give_outs, pending),
                (#[trigger] give_outs[j]).item_number@,
            ),
        forall|i: int|
            0 <= i < merged_analytics(restocks, give_outs, pending).len() ==> {
                let m = #[trigger] merged_analytics(restocks, give_outs, pending)[i];
                &&& m.restock_count == last_restock_count(restocks, m.item_number)
                &&& m.give_out_count == last_give_out_count(give_outs, m.item_number)
                &&& m.pending_restock == pending_items(pending).contains(m.item_number)
                &&& ((exists|j: int| 0 <= j < restocks.len() && restocks[j].item_number@ == m.item_number) || (exists|
                    j: int,
                | 0 <= j < give_outs.len() && give_outs[j].item_number@ == m.item_number))
            },
{
    let pend = pending_items(pending);
    let base = restock_fold(restocks, pend);
    let m = merged_analytics(restocks, give_outs, pending);
    lemma_restock_fold(restocks, pend);
    lemma_give_out_fold(base, restocks, give_outs, pend);
    assert forall|j: int| 0 <= j < restocks.len() implies has_item(m, (#[trigger] restocks[j]).item_number@) by {
        assert(has_item(base, restocks[j].item_number@));
    }
    assert forall|i: int| 0 <= i < m.len() implies {
        let e = #[trigger] m[i];
        &&& e.restock_count == last_restock_count(restocks, e.item_number)
        &&& e.give_out_count == last_give_out_count(give_outs, e.item_number)
        &&& e.pending_restock == pend.contains(e.item_number)
        &&& ((exists|j: int| 0 <= j < restocks.len() && restocks[j].item_number@ == e.item_number) || (exists|j: int|
            0 <= j < give_outs.len() && give_outs[j].item_number@ == e.item_number))
    } by {
        if has_item(base, m[i].item_number) {
            let c = choose|c: int| 0 <= c < base.len() && #[trigger] base[c].item_number == m[i].item_number;
            assert(base[c].item_number == m[i].item_number);
        }
    }
}

/// A date filter's value: the one given when it is not empty, else `today`.
pub open spec fn date_or(param: Option<String>, today: Seq<char>) -> Seq<char> {
    match param {
        Some(s) => if s@.len() > 0 {
            s@
        } else {
            today
        },
        None => today,
    }
}

/// The given date, or `today` when it is missing or empty.
pub fn date_or_today(param: Option<String>, today: &str) -> (r: String)
    ensures
        r@ == date_or(param, today@),
{
    match param {
        Some(s) => if s.as_str().unicode_len() > 0 {
            s
        } else {
            owned(today)
        },
        None => owned(today),
    }
}

/// The period the page covers, `date_from` to `date_to`; an end that is
/// missing or empty is today (the same day for both).
pub fn analytics_period(date_from: Option<String>, date_to: Option<String>) -> (r: (String, String))
    ensures
        exists|today: Seq<char>| is_day_text(today) && r.0@ == date_or(date_from, today) && r.1@ == date_or(date_to, today),
{
    let today = utc_date_days_ago(0);
    let from = date_or_today(date_from, today.as_str());
    let to = date_or_today(date_to, today.as_str());
    (from, to)
}

/// The sum of a sequence of integers.
pub open spec fn int_sum(s: Seq<int>) -> int
    decreases s.len(),
{
    if s.len() == 0 {
        0
    } else {
        int_sum(s.drop_last()) + s.last()
    }
}

/// The give-out counts of the rows.
pub open spec fn give_out_counts(entries: Seq<TileAnalyticsModel>) -> Seq<int> {
    Seq::new(entries.len(), |i: int| entries[i].give_out_count as int)
}

/// The restock counts of the rows.
pub open spec fn restock_counts(entries: Seq<TileAnalyticsModel>) -> Seq<int> {
    Seq::new(entries.len(), |i: int| entries[i].restock_count as int)
}

proof fn lemma_sums_as_int_sums(entries: Seq<TileAnalyticsModel>)
    ensures
        give_out_sum(entries) == int_sum(give_out_counts(entries)),
        restock_sum(entries) == int_sum(restock_counts(entries)),
    decreases entries.len(),
{
    if entries.len() > 0 {
        lemma_sums_as_int_sums(entries.drop_last());
        assert(give_out_counts(entries).drop_last() =~= give_out_counts(entries.drop_last()));
        assert(restock_counts(entries).drop_last() =~= restock_counts(entries.drop_last()));
    }
}

proof fn lemma_int_sum_remove(s: Seq<int>, j: int)
    requires
        0 <= j < s.len(),
    ensures
        int_sum(s) == int_sum(s.remove(j)) + s[j],
    decreases s.len(),
{
    if j == s.len() - 1 {
        assert(s.remove(j) =~= s.drop_last());
    } else {
        lemma_int_sum_remove(s.drop_last(), j);
        assert(s.remove(j).drop_last() =~= s.drop_last().remove(j));
        assert(s.remove(j).last() == s.last());
    }
}

proof fn lemma_int_sum_permuted(xs: Seq<int>, p: Seq<usize>)
    requires
        p.len() == xs.len(),
        distinct_indices(p, xs.len()),
    ensures
        int_sum(permuted(xs, p)) == int_sum(xs),
    decreases xs.len(),
{
    if xs.len() > 0 {
        let n = xs.len() as int;
        let j = p.last() as int;
        let pp = p.drop_last();
        let xs2 = xs.remove(j);
        let p2: Seq<usize> = pp.map_values(|v: usize| if (v as int) < j { v } else { (v - 1) as usize });
        assert forall|a: int| 0 <= a < p2.len() implies #[trigger] p2[a] < xs2.len() by {
            assert(pp[a] == p[a]);
            assert(p[a] != p[n - 1]);
        }
        assert forall|a: int, b: int| 0 <= a < b < p2.len() implies p2[a] != p2[b] by {
            assert(pp[a] == p[a] && pp[b] == p[b]);
            assert(p[a] != p[n - 1] && p[b] != p[n - 1]);
            assert(p[a] != p[b]);
        }
        lemma_int_sum_permuted(xs2, p2);
        assert forall|k: int| 0 <= k < pp.len() implies #[trigger] permuted(xs2, p2)[k] == permuted(xs, pp)[k] by {
            assert(pp[k] == p[k]);
            assert(p[k] != p[n - 1]);
        }
        assert(permuted(xs2, p2) =~= permuted(xs, pp));
        assert(permuted(xs, p).drop_last() =~= permuted(xs, pp));
        lemma_int_sum_remove(xs, j);
    }
}

/// The page totals do not depend on the order of the rows: ranking them (or
/// any other rearrangement) leaves both sums as they were.
pub proof fn lemma_totals_ignore_order(entries: Seq<TileAnalyticsModel>, p: Seq<usize>)
    requires
        p.len() == entries.len(),
        distinct_indices(p, entries.len()),
    ensures
        give_out_sum(permuted(entries, p)) == give_out_sum(entries),
        restock_sum(permuted(entries, p)) == restock_sum(entries),
{
    lemma_sums_as_int_sums(entries);
    lemma_sums_as_int_sums(permuted(entries, p));
    assert(give_out_counts(permuted(entries, p)) =~= permuted(give_out_counts(entries), p));
    assert(restock_counts(permuted(entries, p)) =~= permuted(restock_counts(entries), p));
    lemma_int_sum_permuted(give_out_counts(entries), p);
    lemma_int_sum_permuted(restock_counts(entries), p);
}

} // verus!
