//! Branch-scoped real-time events and the open connections they go to.
use vstd::prelude::*;
use dashmap::DashMap;
use tokio::sync::mpsc::Sender;
use tokio::sync::mpsc::error::TrySendError;

verus! {

/// An event pushed to every open connection of a branch.
#[derive(Debug, Clone)]
pub enum WsEvent {
    ChatMessage { sender_name: String, role: String, message: String },
    InventoryUpdate { tile_id: i64, new_qty: i64 },
    RefillRequested { refill_id: i64, tile_id: i64, item_number: String },
    RefillStatusChange { refill_id: i64, status: String },
}

#[verifier::external_type_specification]
#[verifier::external_body]
#[verifier::reject_recursive_types(K)]
#[verifier::reject_recursive_types(V)]
#[verifier::reject_recursive_types(S)]
pub struct ExDashMap<K, V, S>(DashMap<K, V, S>);

#[verifier::external_type_specification]
#[verifier::external_body]
#[verifier::reject_recursive_types(T)]
pub struct ExSender<T>(Sender<T>);

/// For each branch with an entry, the ids of the connections the entry
/// holds, in their order.
pub uninterp spec fn connection_ids(m: DashMap<i64, Vec<(u64, Sender<WsEvent>)> >) -> Map<i64, Seq<u64>>;

/// The ids of a list of connections, in order.
pub open spec fn ids_of(v: Seq<(u64, Sender<WsEvent>)>) -> Seq<u64> {
    v.map_values(|c: (u64, Sender<WsEvent>)| c.0)
}

/// An empty map.
/// Trusted: `DashMap::new` starts with no entries.
#[verifier::external_body]
fn senders_new() -> (table: DashMap<i64, Vec<(u64, Sender<WsEvent>)> >)
    ensures
        connection_ids(table).dom().is_empty(),
{
    DashMap::new()
}

/// Takes a branch's entry out of the map.
/// Trusted: `DashMap::remove` returns the entry under `branch` (key and
/// value; the value is handed back) and removes it, or returns `None` when
/// there is none.
#[verifier::external_body]
fn senders_take(m: &mut DashMap<i64, Vec<(u64, Sender<WsEvent>)>>, branch: i64) -> (r: Option<Vec<(u64, Sender<WsEvent>)> >)
    ensures
        connection_ids(*final(m)) == connection_ids(*old(m)).remove(branch),
        r matches Some(v) ==> connection_ids(*old(m)).contains_key(branch) && ids_of(v@)
            == connection_ids(*old(m))[branch],
        r is None ==> !connection_ids(*old(m)).contains_key(branch),
{
    match m.remove(&branch) {
        Some((_, v)) => Some(v),
        None => None,
    }
}

/// Puts a branch's entry into the map.
/// Trusted: `DashMap::insert` stores `v` under `branch`, replacing any entry.
#[verifier::external_body]
fn senders_put(m: &mut DashMap<i64, Vec<(u64, Sender<WsEvent>)>>, branch: i64, v: Vec<(u64, Sender<WsEvent>)>)
    ensures
        connection_ids(*final(m)) == connection_ids(*old(m)).insert(branch, ids_of(v@)),
{
    m.insert(branch, v);
}

/// The number of connections under `branch`.
/// Trusted: `DashMap::get` finds the entry under `branch`, if any.
#[verifier::external_body]
fn senders_count(m: &DashMap<i64, Vec<(u64, Sender<WsEvent>)>>, branch: i64) -> (n: usize)
    ensures
        n == (if connection_ids(*m).contains_key(branch) {
            connection_ids(*m)[branch].len()
        } else {
            0
        }),
{
    match m.get(&branch) {
        Some(v) => v.len(),
        None => 0,
    }
}

/// Every entry's branch and connection count, in the map's iteration order.
/// Trusted: `DashMap::iter` visits each entry exactly once.
#[verifier::external_body]
fn senders_snapshot(m: &DashMap<i64, Vec<(u64, Sender<WsEvent>)> >) -> (r: Vec<(i64, usize)>)
    ensures
        forall|i: int, j: int| 0 <= i < j < r@.len() ==> r@[i].0 != r@[j].0,
        forall|i: int|
            0 <= i < r@.len() ==> connection_ids(*m).contains_key(#[trigger] r@[i].0)
                && connection_ids(*m)[r@[i].0].len() == r@[i].1,
        forall|b: i64|
            connection_ids(*m).contains_key(b) ==> exists|i: int| 0 <= i < r@.len() && #[trigger] r@[i].0 == b,
{
    m.iter().map(|e| (*e.key(), e.value().len())).collect()
}

/// How a connection answered an offered event.
#[derive(Debug, Clone, Copy, PartialEq, Eq, Structural)]
pub enum Delivery {
    /// The event was queued.
    Sent,
    /// The connection is alive but its queue is full; the event was dropped.
    Full,
    /// The receiving side is gone.
    Closed,
}

/// Offers `event` to one connection without waiting.
/// Trusted: `Sender::try_send`, its outcome told apart by `TrySendError`'s
/// variants. Which outcome comes depends on the receiving side (open or
/// closed, queue full or not), which nothing here observes, so nothing is
/// claimed of it, nor of what the receiver gets.
#[verifier::external_body]
fn offer(tx: &Sender<WsEvent>, event: WsEvent) -> (d: Delivery) {
    match tx.try_send(event) {
        Ok(()) => Delivery::Sent,
        Err(TrySendError::Full(_)) => Delivery::Full,
        Err(TrySendError::Closed(_)) => Delivery::Closed,
    }
}

/// The items of `s` whose outcome in `o` (at the same position) is not
/// `Closed`, in their order.
pub open spec fn still_open<T>(s: Seq<T>, o: Seq<Delivery>) -> Seq<T>
    decreases s.len(),
{
    if s.len() == 0 {
        Seq::empty()
    } else {
        let rest = still_open(s.drop_last(), o.subrange(0, s.len() - 1));
        if o[s.len() - 1] == Delivery::Closed {
            rest
        } else {
            rest.push(s.last())
        }
    }
}

/// Keeping the open connections and then taking their ids is taking the ids
/// and then keeping those of the open connections.
proof fn lemma_still_open_ids(s: Seq<(u64, Sender<WsEvent>)>, o: Seq<Delivery>)
    requires
        o.len() == s.len(),
    ensures
        ids_of(still_open(s, o)) == still_open(ids_of(s), o),
    decreases s.len(),
{
    if s.len() > 0 {
        lemma_still_open_ids(s.drop_last(), o.subrange(0, s.len() - 1));
        assert(ids_of(s).drop_last() =~= ids_of(s.drop_last()));
    }
}

/// A broadcast only ever removes connections, and only closed ones: what
/// stays is part of what was there, nothing is removed when no connection
/// was closed, and everything is removed when every one was.
pub proof fn lemma_only_closed_removed<T>(s: Seq<T>, o: Seq<Delivery>)
    requires
        o.len() == s.len(),
    ensures
        still_open(s, o).len() <= s.len(),
        forall|x: T| #[trigger] still_open(s, o).contains(x) ==> s.contains(x),
        (forall|i: int| 0 <= i < o.len() ==> #[trigger] o[i] != Delivery::Closed) ==> still_open(s, o) == s,
        (forall|i: int| 0 <= i < o.len() ==> #[trigger] o[i] == Delivery::Closed) ==> still_open(s, o).len() == 0,
    decreases s.len(),
{
    if s.len() > 0 {
        let n = s.len() - 1;
        let o2 = o.subrange(0, n);
        lemma_only_closed_removed(s.drop_last(), o2);
        let rest = still_open(s.drop_last(), o2);
        assert forall|x: T| #[trigger] still_open(s, o).contains(x) implies s.contains(x) by {
            let k = choose|k: int| 0 <= k < still_open(s, o).len() && still_open(s, o)[k] == x;
            if k < rest.len() {
                assert(rest[k] == x);
                assert(rest.contains(x));
                let j = choose|j: int| 0 <= j < s.drop_last().len() && s.drop_last()[j] == x;
                assert(s[j] == x);
            } else {
                assert(x == s.last());
                assert(s[n] == x);
            }
        }
        if forall|i: int| 0 <= i < o.len() ==> #[trigger] o[i] != Delivery::Closed {
            assert forall|i: int| 0 <= i < o2.len() implies #[trigger] o2[i] != Delivery::Closed by {
                assert(o2[i] == o[i]);
            }
            assert(still_open(s, o) =~= s);
        }
        if forall|i: int| 0 <= i < o.len() ==> #[trigger] o[i] == Delivery::Closed {
            assert forall|i: int| 0 <= i < o2.len() implies #[trigger] o2[i] == Delivery::Closed by {
                assert(o2[i] == o[i]);
            }
            assert(o[n] == Delivery::Closed);
        }
    }
}

/// Keeps the items of `list` whose connection is not closed, in order:
/// those that took the event and those that are alive but full.
pub fn keep_open<T>(list: Vec<T>, outcomes: &Vec<Delivery>) -> (r: Vec<T>)
    requires
        outcomes@.len() == list@.len(),
    ensures
        r@ == still_open(list@, outcomes@),
{
    let ghost orig = list@;
    let n: usize = list.len();
    let mut list = list;
    let mut reversed: Vec<T> = Vec::new();
    while list.len() > 0
        invariant
            list@.len() + reversed@.len() == n,
            n == orig.len(),
            list@ == orig.subrange(0, list@.len() as int),
            forall|j: int| 0 <= j < reversed@.len() ==> #[trigger] reversed@[j] == orig[n - 1 - j],
        decreases list@.len(),
    {
        let x = list.pop().unwrap();
        reversed.push(x);
        assert(list@ =~= orig.subrange(0, list@.len() as int));
    }
    let mut out: Vec<T> = Vec::new();
    let mut i: usize = 0;
    while i < n
        invariant
            i <= n,
            n == orig.len(),
            outcomes@.len() == n,
            reversed@.len() == n - i,
            forall|j: int| 0 <= j < reversed@.len() ==> #[trigger] reversed@[j] == orig[n - 1 - j],
            out@ == still_open(orig.subrange(0, i as int), outcomes@.subrange(0, i as int)),
        decreases n - i,
    {
        let x = reversed.pop().unwrap();
        assert(x == orig[i as int]);
        proof {
            let s = orig.subrange(0, i as int + 1);
            let o = outcomes@.subrange(0, i as int + 1);
            assert(s.len() == i + 1);
            assert(s.drop_last() =~= orig.subrange(0, i as int));
            assert(o.subrange(0, s.len() - 1) =~= outcomes@.subrange(0, i as int));
            assert(s.last() == orig[i as int]);
            assert(o[s.len() - 1] == outcomes@[i as int]);
        }
        if outcomes[i] != Delivery::Closed {
            out.push(x);
        }
        i = i + 1;
    }
    assert(orig.subrange(0, n as int) =~= orig);
    assert(outcomes@.subrange(0, n as int) =~= outcomes@);
    out
}

/// Offers `event` to each connection of `list`, in order, and reports how
/// each answered.
fn offer_each(list: &Vec<(u64, Sender<WsEvent>)>, event: &WsEvent) -> (r: Vec<Delivery>)
    ensures
        r@.len() == list@.len(),
{
    let mut r: Vec<Delivery> = Vec::new();
    let mut i: usize = 0;
    while i < list.len()
        invariant
            i <= list@.len(),
            r@.len() == i,
        decreases list@.len() - i,
    {
        let d = offer(&list[i].1, event.clone());
        r.push(d);
        i = i + 1;
    }
    r
}

/// The sum of the counts in `pairs`.
pub open spec fn total_of(pairs: Seq<(i64, usize)>) -> int
    decreases pairs.len(),
{
    if pairs.len() == 0 {
        0
    } else {
        total_of(pairs.drop_last()) + pairs.last().1
    }
}

/// `t`, or `usize::MAX` where `t` exceeds it.
pub open spec fn capped(t: int) -> int {
    if t > usize::MAX {
        usize::MAX as int
    } else {
        t
    }
}

/// The open connections of every branch, each under an id the manager
/// gave it when it was added.
pub struct ConnectionManager {
    connections: DashMap<i64, Vec<(u64, Sender<WsEvent>)>>,
    next_id: u64,
}

impl ConnectionManager {
    /// For each branch with an entry, the ids of its connections, oldest first.
    pub closed spec fn ids(&self) -> Map<i64, Seq<u64>> {
        connection_ids(self.connections)
    }

    /// The id the next connection added gets.
    pub closed spec fn next_id(&self) -> u64 {
        self.next_id
    }

    /// The ids of the connections of `branch`, oldest first.
    pub open spec fn ids_in(&self, branch: i64) -> Seq<u64> {
        if self.ids().contains_key(branch) {
            self.ids()[branch]
        } else {
            Seq::empty()
        }
    }

    /// The number of connections of `branch`.
    pub open spec fn count_of(&self, branch: i64) -> nat {
        self.ids_in(branch).len()
    }

    /// A manager with no connections.
    pub fn new() -> (m: ConnectionManager)
        ensures
            m.ids() == Map::<i64, Seq<u64>>::empty(),
    {
        let m = ConnectionManager { connections: senders_new(), next_id: 0 };
        assert(m.ids() =~= Map::<i64, Seq<u64>>::empty());
        m
    }

    /// Offers `event` to every connection of `branch_id`, oldest first,
    /// without waiting, and drops the connections whose receiving side is
    /// gone; a connection that is alive but full misses the event and stays.
    /// Other branches are untouched.
    pub fn broadcast(&mut self, branch_id: i64, event: WsEvent)
        ensures
            final(self).ids().remove(branch_id) == old(self).ids().remove(branch_id),
            final(self).ids().contains_key(branch_id) == old(self).ids().contains_key(branch_id),
            final(self).next_id() == old(self).next_id(),
            exists|outcomes: Seq<Delivery>|
                outcomes.len() == old(self).ids_in(branch_id).len() && #[trigger] still_open(
                    old(self).ids_in(branch_id),
                    outcomes,
                ) == final(self).ids_in(branch_id),
    {
        match senders_take(&mut self.connections, branch_id) {
            None => {
                assert(self.ids() =~= old(self).ids());
                let ghost none = Seq::<Delivery>::empty();
                assert(old(self).ids_in(branch_id) =~= Seq::<u64>::empty());
                assert(still_open(old(self).ids_in(branch_id), none) == self.ids_in(branch_id));
            },
            Some(list) => {
                let ghost before = old(self).ids();
                let outcomes = offer_each(&list, &event);
                proof {
                    lemma_still_open_ids(list@, outcomes@);
                }
                let kept = keep_open(list, &outcomes);
                senders_put(&mut self.connections, branch_id, kept);
                assert(self.ids() =~= before.remove(branch_id).insert(branch_id, ids_of(kept@)));
                assert(self.ids().remove(branch_id) =~= before.remove(branch_id));
                assert(still_open(old(self).ids_in(branch_id), outcomes@) == self.ids_in(branch_id));
            },
        }
    }

    /// Registers a connection of `branch_id` under the next id (ids count
    /// up from 0 and stop at `u64::MAX`).
    pub fn add_connection(&mut self, branch_id: i64, tx: Sender<WsEvent>)
        ensures
            final(self).ids() == old(self).ids().insert(branch_id, old(self).ids_in(branch_id).push(old(self).next_id())),
            final(self).next_id() == (if old(self).next_id() < u64::MAX {
                old(self).next_id() + 1
            } else {
                u64::MAX as int
            }),
    {
        let id: u64 = self.next_id;
        let mut list = match senders_take(&mut self.connections, branch_id) {
            Some(v) => v,
            None => Vec::new(),
        };
        proof {
            assert(ids_of(list@) == old(self).ids_in(branch_id));
        }
        list.push((id, tx));
        assert(ids_of(list@) =~= old(self).ids_in(branch_id).push(id));
        senders_put(&mut self.connections, branch_id, list);
        if self.next_id < u64::MAX {
            self.next_id = self.next_id + 1;
        }
        assert(self.ids() =~= old(self).ids().insert(branch_id, old(self).ids_in(branch_id).push(old(self).next_id())));
    }

    /// The number of connections of `branch_id`.
    pub fn connection_count(&self, branch_id: i64) -> (n: usize)
        ensures
            n == self.count_of(branch_id),
    {
        senders_count(&self.connections, branch_id)
    }

    /// The number of connections over all branches.
    pub fn total_connections(&self) -> (n: usize)
        ensures
            exists|pairs: Seq<(i64, usize)>|
                {
                    &&& forall|i: int, j: int| 0 <= i < j < pairs.len() ==> pairs[i].0 != pairs[j].0
                    &&& forall|i: int|
                        0 <= i < pairs.len() ==> #[trigger] self.ids().contains_key(pairs[i].0)
                            && self.ids()[pairs[i].0].len() == pairs[i].1
                    &&& forall|b: i64|
                        self.ids().contains_key(b) ==> exists|i: int| 0 <= i < pairs.len() && #[trigger] pairs[i].0 == b
                    &&& n == capped(total_of(pairs))
                },
    {
        let pairs = senders_snapshot(&self.connections);
        let mut total: usize = 0;
        let mut i: usize = 0;
        while i < pairs.len()
            invariant
                i <= pairs@.len(),
                total == capped(total_of(pairs@.subrange(0, i as int))),
            decreases pairs@.len() - i,
        {
            assert(pairs@.subrange(0, i + 1).drop_last() =~= pairs@.subrange(0, i as int));
            total = total.saturating_add(pairs[i].1);
            i = i + 1;
        }
        assert(pairs@.subrange(0, pairs@.len() as int) =~= pairs@);
        total
    }
}

impl Default for ConnectionManager {
    fn default() -> (m: ConnectionManager)
        ensures
            m.ids() == Map::<i64, Seq<u64>>::empty(),
    {
        ConnectionManager::new()
    }
}

} // verus!
