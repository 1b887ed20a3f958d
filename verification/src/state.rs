//! What the API serves: one snapshot per car, kept in a table with one entry per car id,
//! updated by every event and every SLAM result, and listed in id order.

use vstd::prelude::*;

use crate::ingest::{CarEvent, EventKind};

verus! {

/// Everything known about one car. `T` is the telemetry sample, `P` a 2-D point in metres,
/// `Q` a pose, `M` the map metadata and `H` a scan rate.
#[derive(Debug)]
pub struct CarSnapshot<T, P, Q, M, H> {
    /// Car id.
    pub id: String,
    /// `online` / `offline` / `unknown`.
    pub status: String,
    /// Last telemetry.
    pub telemetry: Option<T>,
    /// Last pose.
    pub pose: Option<Q>,
    /// Recent positions, oldest first.
    pub trajectory: Vec<P>,
    /// Last decimated scan in the map frame.
    pub scan: Vec<P>,
    /// Latest map metadata.
    pub map: Option<M>,
    /// Unix milliseconds of the last event.
    pub last_seen_ms: u64,
    /// Rotations received in total.
    pub scans_total: u64,
    /// Measured scan rate.
    pub scan_hz: H,
}

/// `c` is the snapshot of a car just heard of: its id, status `unknown`, nothing else known.
pub open spec fn fresh_car<T, P, Q, M, H>(c: CarSnapshot<T, P, Q, M, H>, id: Seq<char>, idle_rate: H) -> bool {
    &&& c.id@ == id
    &&& c.status@ == "unknown"@
    &&& c.telemetry is None
    &&& c.pose is None
    &&& c.trajectory@.len() == 0
    &&& c.scan@.len() == 0
    &&& c.map is None
    &&& c.last_seen_ms == 0
    &&& c.scans_total == 0
    &&& c.scan_hz == idle_rate
}

impl<T, P, Q, M, H> CarSnapshot<T, P, Q, M, H> {
    /// A car we have just heard of; `idle_rate` is the scan rate shown before any is measured.
    pub fn new(id: &str, idle_rate: H) -> (c: Self)
        ensures
            fresh_car(c, id@, idle_rate),
    {
        CarSnapshot {
            id: id.to_owned(),
            status: "unknown".to_owned(),
            telemetry: None,
            pose: None,
            trajectory: Vec::new(),
            scan: Vec::new(),
            map: None,
            last_seen_ms: 0,
            scans_total: 0,
            scan_hz: idle_rate,
        }
    }
}

/// What the pipeline does after an event has been recorded.
#[derive(Debug)]
pub enum Reaction<T, S> {
    /// Broadcast the car's new status.
    StatusChanged { car: String, status: String },
    /// Broadcast the telemetry sample.
    Telemetry { car: String, telemetry: T, at_ms: u64 },
    /// Hand the rotation to the car's SLAM worker.
    Scan { car: String, frame: S },
    /// Nothing to broadcast.
    Quiet,
}

/// The last `cap` items of `items` (all of them when there are fewer).
pub open spec fn last_items<P>(items: Seq<P>, cap: nat) -> Seq<P> {
    if items.len() > cap {
        items.subrange(items.len() - cap, items.len() as int)
    } else {
        items
    }
}

/// Keeping the last `cap` items keeps `min(len, cap)` of them, the newest, in their order:
/// after one more item a list at its cap stays at its cap and ends with that item.
pub proof fn lemma_last_items_keeps_newest<P>(items: Seq<P>, cap: nat)
    ensures
        last_items(items, cap).len() == if items.len() <= cap {
            items.len()
        } else {
            cap
        },
        forall|i: int|
            0 <= i < last_items(items, cap).len() ==> #[trigger] last_items(items, cap)[i]
                == items[items.len() - last_items(items, cap).len() + i],
        cap > 0 && items.len() > 0 ==> last_items(items, cap).last() == items.last(),
{
}

/// Appends `item` and drops the oldest items beyond `cap`.
pub fn push_capped<P>(items: &mut Vec<P>, item: P, cap: usize)
    ensures
        final(items)@ == last_items(old(items)@.push(item), cap as nat),
        final(items)@.len() == if old(items)@.len() + 1 <= cap {
            old(items)@.len() + 1
        } else {
            cap as nat
        },
        forall|i: int|
            0 <= i < final(items)@.len() ==> #[trigger] final(items)@[i] == old(items)@.push(item)[old(items)@.len()
                + 1 - final(items)@.len() + i],
{
    items.push(item);
    if items.len() > cap {
        let excess = items.len() - cap;
        let kept = items.split_off(excess);
        *items = kept;
    }
}

/// `a` comes before `b`: lexicographic order by code point, a proper prefix first
/// (the order of `String`'s `Ord`, since UTF-8 preserves code point order).
pub open spec fn id_before(a: Seq<char>, b: Seq<char>) -> bool
    decreases a.len(),
{
    if a.len() == 0 {
        b.len() > 0
    } else if b.len() == 0 {
        false
    } else if a[0] != b[0] {
        (a[0] as int) < (b[0] as int)
    } else {
        id_before(a.drop_first(), b.drop_first())
    }
}

/// Ids are ordered at their first differing character: when `a` and `b` agree on their first
/// `k` characters and differ at position `k`, `a` comes first exactly when its character there
/// has the smaller code point.
pub proof fn lemma_id_order_at_first_difference(a: Seq<char>, b: Seq<char>, k: int)
    requires
        0 <= k < a.len(),
        k < b.len(),
        a.subrange(0, k) == b.subrange(0, k),
        a[k] != b[k],
    ensures
        id_before(a, b) <==> (a[k] as int) < (b[k] as int),
    decreases k,
{
    if k > 0 {
        assert(a[0] == a.subrange(0, k)[0]);
        assert(b[0] == b.subrange(0, k)[0]);
        assert(a.drop_first().subrange(0, k - 1) =~= a.subrange(0, k).drop_first());
        assert(b.drop_first().subrange(0, k - 1) =~= b.subrange(0, k).drop_first());
        lemma_id_order_at_first_difference(a.drop_first(), b.drop_first(), k - 1);
    }
}

/// A proper prefix comes before the longer id, never after it.
pub proof fn lemma_id_order_prefix_first(a: Seq<char>, b: Seq<char>)
    requires
        a.len() < b.len(),
        a == b.subrange(0, a.len() as int),
    ensures
        id_before(a, b),
        !id_before(b, a),
    decreases a.len(),
{
    if a.len() > 0 {
        assert(a[0] == b[0]);
        assert(a.drop_first() =~= b.drop_first().subrange(0, a.len() - 1));
        lemma_id_order_prefix_first(a.drop_first(), b.drop_first());
    }
}

/// No id comes before itself.
pub proof fn lemma_id_order_irreflexive(a: Seq<char>)
    ensures
        !id_before(a, a),
    decreases a.len(),
{
    if a.len() > 0 {
        lemma_id_order_irreflexive(a.drop_first());
    }
}

/// Two different ids are ordered one way or the other, and never both.
pub proof fn lemma_id_order_total(a: Seq<char>, b: Seq<char>)
    ensures
        a != b ==> (id_before(a, b) || id_before(b, a)),
        !(id_before(a, b) && id_before(b, a)),
    decreases a.len(),
{
    if a.len() > 0 && b.len() > 0 {
        if a[0] == b[0] {
            lemma_id_order_total(a.drop_first(), b.drop_first());
            if a != b {
                assert(a.drop_first() != b.drop_first()) by {
                    if a.drop_first() == b.drop_first() {
                        assert(a =~= seq![a[0]] + a.drop_first());
                        assert(b =~= seq![b[0]] + b.drop_first());
                    }
                }
            }
        }
    } else if a.len() == 0 && b.len() == 0 {
        assert(a =~= b);
    }
}

/// The id order is transitive.
pub proof fn lemma_id_order_transitive(a: Seq<char>, b: Seq<char>, c: Seq<char>)
    requires
        id_before(a, b),
        id_before(b, c),
    ensures
        id_before(a, c),
    decreases a.len(),
{
    if a.len() > 0 && b.len() > 0 && c.len() > 0 {
        if a[0] == b[0] && b[0] == c[0] {
            lemma_id_order_transitive(a.drop_first(), b.drop_first(), c.drop_first());
        }
    }
}

/// Whether `a` comes before `b` in id order.
pub fn id_less(a: &str, b: &str) -> (r: bool)
    ensures
        r == id_before(a@, b@),
{
    let na = a.unicode_len();
    let nb = b.unicode_len();
    let mut i: usize = 0;
    assert(a@.skip(0) =~= a@);
    assert(b@.skip(0) =~= b@);
    while i < na && i < nb
        invariant
            na == a@.len(),
            nb == b@.len(),
            i <= na,
            i <= nb,
            a@.subrange(0, i as int) == b@.subrange(0, i as int),
            id_before(a@, b@) == id_before(a@.skip(i as int), b@.skip(i as int)),
        decreases na - i,
    {
        let ca = a.get_char(i);
        let cb = b.get_char(i);
        assert(a@.skip(i as int)[0] == ca);
        assert(b@.skip(i as int)[0] == cb);
        if ca != cb {
            return (ca as u32) < (cb as u32);
        }
        assert(a@.skip(i as int).drop_first() =~= a@.skip(i + 1));
        assert(b@.skip(i as int).drop_first() =~= b@.skip(i + 1));
        assert(a@.subrange(0, i + 1) =~= a@.subrange(0, i as int).push(ca));
        assert(b@.subrange(0, i + 1) =~= b@.subrange(0, i as int).push(cb));
        i = i + 1;
    }
    i == na && i < nb
}

/// Every car's id appears once.
pub open spec fn unique_ids<T, P, Q, M, H>(cars: Seq<CarSnapshot<T, P, Q, M, H>>) -> bool {
    forall|i: int, j: int| 0 <= i < j < cars.len() ==> #[trigger] cars[i].id@ != #[trigger] cars[j].id@
}

/// Whether some car has this id.
pub open spec fn has_car<T, P, Q, M, H>(cars: Seq<CarSnapshot<T, P, Q, M, H>>, id: Seq<char>) -> bool {
    exists|i: int| 0 <= i < cars.len() && #[trigger] cars[i].id@ == id
}

/// `order` lists every index below `n` exactly once, in increasing id order.
pub open spec fn sorted_by_id<T, P, Q, M, H>(
    cars: Seq<CarSnapshot<T, P, Q, M, H>>,
    order: Seq<usize>,
) -> bool {
    &&& order.len() == cars.len()
    &&& forall|i: int| 0 <= i < order.len() ==> #[trigger] order[i] < cars.len()
    &&& forall|i: int, j: int|
        0 <= i < j < order.len() ==> id_before(
            #[trigger] cars[order[i] as int].id@,
            #[trigger] cars[order[j] as int].id@,
        )
}

/// The position of the car with this id (meaningful when there is one).
pub open spec fn car_index<T, P, Q, M, H>(cars: Seq<CarSnapshot<T, P, Q, M, H>>, id: Seq<char>) -> int {
    choose|i: int| 0 <= i < cars.len() && #[trigger] cars[i].id@ == id
}

/// The status the car with this id shows: `unknown` for a car not heard of yet.
pub open spec fn status_of<T, P, Q, M, H>(cars: Seq<CarSnapshot<T, P, Q, M, H>>, id: Seq<char>) -> Seq<char> {
    if has_car(cars, id) {
        cars[car_index(cars, id)].status@
    } else {
        "unknown"@
    }
}

/// Rotations counted for the car with this id: 0 for a car not heard of yet.
pub open spec fn scans_of<T, P, Q, M, H>(cars: Seq<CarSnapshot<T, P, Q, M, H>>, id: Seq<char>) -> nat {
    if has_car(cars, id) {
        cars[car_index(cars, id)].scans_total as nat
    } else {
        0
    }
}

/// `new_cars` is `old_cars` in which the car `id` (first added as a car just heard of, at the
/// end, when there was none) went through `step`, every other car unchanged.
pub open spec fn car_updated<T, P, Q, M, H>(
    old_cars: Seq<CarSnapshot<T, P, Q, M, H>>,
    new_cars: Seq<CarSnapshot<T, P, Q, M, H>>,
    id: Seq<char>,
    idle_rate: H,
    step: spec_fn(CarSnapshot<T, P, Q, M, H>, CarSnapshot<T, P, Q, M, H>) -> bool,
) -> bool {
    if has_car(old_cars, id) {
        let i = car_index(old_cars, id);
        &&& new_cars.len() == old_cars.len()
        &&& step(old_cars[i], new_cars[i])
        &&& forall|j: int| 0 <= j < old_cars.len() && j != i ==> #[trigger] new_cars[j] == old_cars[j]
    } else {
        let i = old_cars.len() as int;
        &&& new_cars.len() == old_cars.len() + 1
        &&& forall|j: int| 0 <= j < old_cars.len() ==> #[trigger] new_cars[j] == old_cars[j]
        &&& exists|c: CarSnapshot<T, P, Q, M, H>| fresh_car(c, id, idle_rate) && #[trigger] step(c, new_cars[i])
    }
}

/// The table read by car id: each id heard of maps to that car's snapshot.
pub open spec fn cars_by_id<T, P, Q, M, H>(cars: Seq<CarSnapshot<T, P, Q, M, H>>) -> Map<
    Seq<char>,
    CarSnapshot<T, P, Q, M, H>,
> {
    Map::new(|id: Seq<char>| has_car(cars, id), |id: Seq<char>| cars[car_index(cars, id)])
}

/// Read by id, `new_table` is `old_table` in which the car `id` (a car just heard of when it
/// was unknown) went through `step`, every other car unchanged.
pub open spec fn updated_by_id<T, P, Q, M, H>(
    old_table: Map<Seq<char>, CarSnapshot<T, P, Q, M, H>>,
    new_table: Map<Seq<char>, CarSnapshot<T, P, Q, M, H>>,
    id: Seq<char>,
    idle_rate: H,
    step: spec_fn(CarSnapshot<T, P, Q, M, H>, CarSnapshot<T, P, Q, M, H>) -> bool,
) -> bool {
    &&& new_table.dom() == old_table.dom().insert(id)
    &&& forall|k: Seq<char>| k != id && #[trigger] old_table.contains_key(k) ==> new_table[k] == old_table[k]
    &&& old_table.contains_key(id) ==> step(old_table[id], new_table[id])
    &&& !old_table.contains_key(id) ==> exists|c: CarSnapshot<T, P, Q, M, H>|
        fresh_car(c, id, idle_rate) && #[trigger] step(c, new_table[id])
}

/// The fields every update keeps: the id, and whatever the update does not name.
pub open spec fn keeps_slam<T, P, Q, M, H>(b: CarSnapshot<T, P, Q, M, H>, a: CarSnapshot<T, P, Q, M, H>) -> bool {
    &&& a.id@ == b.id@
    &&& a.pose == b.pose
    &&& a.trajectory@ == b.trajectory@
    &&& a.scan@ == b.scan@
    &&& a.map == b.map
    &&& a.scan_hz == b.scan_hz
}

/// The fields the event handling keeps.
pub open spec fn keeps_event<T, P, Q, M, H>(b: CarSnapshot<T, P, Q, M, H>, a: CarSnapshot<T, P, Q, M, H>) -> bool {
    &&& a.status@ == b.status@
    &&& a.telemetry == b.telemetry
    &&& a.last_seen_ms == b.last_seen_ms
    &&& a.scans_total == b.scans_total
}

/// An event seen at `at_ms` of kind `kind`, applied to one car's snapshot.
pub open spec fn event_step<T, P, Q, M, H, S>(
    b: CarSnapshot<T, P, Q, M, H>,
    a: CarSnapshot<T, P, Q, M, H>,
    at_ms: u64,
    kind: EventKind<T, S>,
) -> bool {
    &&& keeps_slam(b, a)
    &&& a.last_seen_ms == at_ms
    &&& match kind {
        EventKind::Status(s) => a.status@ == s@ && a.telemetry == b.telemetry && a.scans_total
            == b.scans_total,
        EventKind::Telemetry(t) => a.status@ == b.status@ && a.telemetry == Some(t)
            && a.scans_total == b.scans_total,
        EventKind::Scan(_) => a.status@ == b.status@ && a.telemetry == b.telemetry
            && a.scans_total == b.scans_total + 1,
    }
}

/// The fields a SLAM result keeps.
pub open spec fn keeps_identity<T, P, Q, M, H>(b: CarSnapshot<T, P, Q, M, H>, a: CarSnapshot<T, P, Q, M, H>) -> bool {
    &&& a.id@ == b.id@
    &&& keeps_event(b, a)
}

/// A tracked scan applied to one car: new pose, the position appended to the trajectory
/// (only the last `cap` positions kept), the scan replaced.
pub open spec fn tracked_step<T, P, Q, M, H>(
    b: CarSnapshot<T, P, Q, M, H>,
    a: CarSnapshot<T, P, Q, M, H>,
    pose: Q,
    position: P,
    scan: Seq<P>,
    cap: nat,
) -> bool {
    &&& keeps_identity(b, a)
    &&& a.pose == Some(pose)
    &&& a.trajectory@ == last_items(b.trajectory@.push(position), cap)
    &&& a.scan@ == scan
    &&& a.map == b.map
    &&& a.scan_hz == b.scan_hz
}

/// A new map applied to one car.
pub open spec fn map_step<T, P, Q, M, H>(b: CarSnapshot<T, P, Q, M, H>, a: CarSnapshot<T, P, Q, M, H>, map: M) -> bool {
    &&& keeps_identity(b, a)
    &&& a.pose == b.pose
    &&& a.trajectory@ == b.trajectory@
    &&& a.scan@ == b.scan@
    &&& a.map == Some(map)
    &&& a.scan_hz == b.scan_hz
}

/// A measured scan rate applied to one car.
pub open spec fn rate_step<T, P, Q, M, H>(b: CarSnapshot<T, P, Q, M, H>, a: CarSnapshot<T, P, Q, M, H>, hz: H) -> bool {
    &&& keeps_identity(b, a)
    &&& a.pose == b.pose
    &&& a.trajectory@ == b.trajectory@
    &&& a.scan@ == b.scan@
    &&& a.map == b.map
    &&& a.scan_hz == hz
}

proof fn lemma_index_of_unique<T, P, Q, M, H>(cars: Seq<CarSnapshot<T, P, Q, M, H>>, id: Seq<char>, i: int)
    requires
        unique_ids(cars),
        0 <= i < cars.len(),
        cars[i].id@ == id,
    ensures
        has_car(cars, id),
        car_index(cars, id) == i,
{
    assert(has_car(cars, id));
    let k = car_index(cars, id);
    if k != i {
        if k < i {
            assert(cars[k].id@ != cars[i].id@);
        } else {
            assert(cars[i].id@ != cars[k].id@);
        }
    }
}

/// One car rewritten in place: `mid` is the table once the car `id` has an entry at `i`
/// (`old_cars` itself, or `old_cars` with a car just heard of appended), and `new_cars`
/// differs from `mid` only at `i`, where `step` took the snapshot, keeping its id.
proof fn lemma_one_car_rewritten<T, P, Q, M, H>(
    old_cars: Seq<CarSnapshot<T, P, Q, M, H>>,
    mid: Seq<CarSnapshot<T, P, Q, M, H>>,
    new_cars: Seq<CarSnapshot<T, P, Q, M, H>>,
    id: Seq<char>,
    idle_rate: H,
    i: int,
    step: spec_fn(CarSnapshot<T, P, Q, M, H>, CarSnapshot<T, P, Q, M, H>) -> bool,
)
    requires
        unique_ids(old_cars),
        unique_ids(mid),
        0 <= i < mid.len(),
        mid[i].id@ == id,
        has_car(old_cars, id) ==> mid == old_cars,
        !has_car(old_cars, id) ==> {
            &&& i == old_cars.len()
            &&& mid.len() == old_cars.len() + 1
            &&& mid.subrange(0, i) == old_cars
            &&& fresh_car(mid[i], id, idle_rate)
        },
        new_cars.len() == mid.len(),
        forall|j: int| 0 <= j < mid.len() && j != i ==> #[trigger] new_cars[j] == mid[j],
        new_cars[i].id@ == id,
        step(mid[i], new_cars[i]),
    ensures
        unique_ids(new_cars),
        car_updated(old_cars, new_cars, id, idle_rate, step),
        updated_by_id(cars_by_id(old_cars), cars_by_id(new_cars), id, idle_rate, step),
{
    let had = has_car(old_cars, id);
    assert forall|j: int| 0 <= j < new_cars.len() implies #[trigger] new_cars[j].id@ == mid[j].id@ by {
        if j != i {
            assert(new_cars[j] == mid[j]);
        }
    }
    assert(unique_ids(new_cars)) by {
        assert forall|a: int, b: int| 0 <= a < b < new_cars.len() implies #[trigger] new_cars[a].id@
            != #[trigger] new_cars[b].id@ by {
            assert(mid[a].id@ != mid[b].id@);
        }
    }
    assert forall|j: int| 0 <= j < old_cars.len() && j != i implies #[trigger] new_cars[j] == old_cars[j] by {
        if !had {
            assert(mid.subrange(0, i)[j] == mid[j]);
        }
    }
    lemma_index_of_unique(new_cars, id, i);
    if had {
        lemma_index_of_unique(old_cars, id, i);
    } else {
        assert(fresh_car(mid[i], id, idle_rate) && step(mid[i], new_cars[i]));
    }
    let old_table = cars_by_id(old_cars);
    let new_table = cars_by_id(new_cars);
    assert forall|k: Seq<char>| #[trigger] new_table.contains_key(k) <==> old_table.contains_key(k) || k == id by {
        if has_car(new_cars, k) {
            let j = choose|j: int| 0 <= j < new_cars.len() && #[trigger] new_cars[j].id@ == k;
            if j != i {
                if had {
                    assert(old_cars[j].id@ == k);
                } else {
                    assert(old_cars[j] == new_cars[j]);
                }
            }
        }
        if has_car(old_cars, k) {
            let j = car_index(old_cars, k);
            if k != id {
                assert(j != i);
                assert(new_cars[j] == old_cars[j]);
            }
        }
    }
    assert(new_table.dom() =~= old_table.dom().insert(id));
    assert forall|k: Seq<char>| k != id && #[trigger] old_table.contains_key(k) implies new_table[k]
        == old_table[k] by {
        let j = car_index(old_cars, k);
        assert(j != i);
        assert(new_cars[j] == old_cars[j]);
        lemma_index_of_unique(new_cars, k, j);
    }
    assert(new_table.contains_key(id) && new_table[id] == new_cars[i]);
    if had {
        assert(old_table.contains_key(id) && old_table[id] == old_cars[i]);
        assert(step(old_table[id], new_table[id]));
    } else {
        assert(!old_table.contains_key(id));
        assert(fresh_car(mid[i], id, idle_rate) && step(mid[i], new_table[id]));
    }
}

/// What a read gives back of an event: after the car's snapshot went through an event, the
/// car is known, shows the event's time as last seen, and shows the status or telemetry the
/// event carried, or one more rotation than before (the first one for a car just heard of).
pub proof fn lemma_event_is_visible<T, P, Q, M, H, S>(
    old_table: Map<Seq<char>, CarSnapshot<T, P, Q, M, H>>,
    new_table: Map<Seq<char>, CarSnapshot<T, P, Q, M, H>>,
    id: Seq<char>,
    idle_rate: H,
    at_ms: u64,
    kind: EventKind<T, S>,
)
    requires
        updated_by_id(
            old_table,
            new_table,
            id,
            idle_rate,
            |b: CarSnapshot<T, P, Q, M, H>, a: CarSnapshot<T, P, Q, M, H>| event_step(b, a, at_ms, kind),
        ),
    ensures
        new_table.contains_key(id),
        new_table[id].last_seen_ms == at_ms,
        match kind {
            EventKind::Status(s) => new_table[id].status@ == s@,
            EventKind::Telemetry(t) => new_table[id].telemetry == Some(t),
            EventKind::Scan(_) => new_table[id].scans_total == (if old_table.contains_key(id) {
                old_table[id].scans_total as int
            } else {
                0int
            }) + 1,
        },
{
    let step = |b: CarSnapshot<T, P, Q, M, H>, a: CarSnapshot<T, P, Q, M, H>| event_step(b, a, at_ms, kind);
    assert(new_table.dom().contains(id));
    if old_table.contains_key(id) {
        assert(step(old_table[id], new_table[id]));
    } else {
        let c = choose|c: CarSnapshot<T, P, Q, M, H>| fresh_car(c, id, idle_rate) && #[trigger] step(c, new_table[id]);
        assert(step(c, new_table[id]));
    }
}

/// The listing covers the table: an order sorted by id names every car exactly once.
pub proof fn lemma_listing_covers_every_car<T, P, Q, M, H>(
    cars: Seq<CarSnapshot<T, P, Q, M, H>>,
    order: Seq<usize>,
)
    requires
        sorted_by_id(cars, order),
    ensures
        order.no_duplicates(),
        forall|k: usize| k < cars.len() ==> #[trigger] order.contains(k),
{
    assert forall|i: int, j: int| 0 <= i < order.len() && 0 <= j < order.len() && i != j implies order[i]
        != order[j] by {
        if order[i] == order[j] {
            lemma_id_order_irreflexive(cars[order[i] as int].id@);
            if i < j {
                assert(id_before(cars[order[i] as int].id@, cars[order[j] as int].id@));
            } else {
                assert(id_before(cars[order[j] as int].id@, cars[order[i] as int].id@));
            }
        }
    }
    let n = cars.len() as int;
    let s = order.map_values(|u: usize| u as int);
    assert(s.no_duplicates()) by {
        assert forall|i: int, j: int| 0 <= i < s.len() && 0 <= j < s.len() && i != j implies s[i]
            != s[j] by {
            assert(order[i] != order[j]);
        }
    }
    s.unique_seq_to_set();
    vstd::set_lib::lemma_int_range(0, n);
    let range = vstd::set_lib::set_int_range(0, n);
    assert(s.to_set().subset_of(range)) by {
        assert forall|x: int| s.to_set().contains(x) implies range.contains(x) by {
            let i = choose|i: int| 0 <= i < s.len() && s[i] == x;
            assert(order[i] < cars.len());
        }
    }
    vstd::set_lib::lemma_len_subset(s.to_set(), range);
    vstd::seq_lib::seq_to_set_is_finite(s);
    vstd::set_lib::lemma_subset_equality(s.to_set(), range);
    assert forall|k: usize| k < cars.len() implies #[trigger] order.contains(k) by {
        assert(range.contains(k as int));
        assert(s.to_set().contains(k as int));
        let i = choose|i: int| 0 <= i < s.len() && s[i] == k as int;
        assert(order[i] == k);
    }
}

/// The cars the hub knows, one per id, in the order they were first heard of.
pub struct Fleet<T, P, Q, M, H> {
    cars: Vec<CarSnapshot<T, P, Q, M, H>>,
}

impl<T, P, Q, M, H> View for Fleet<T, P, Q, M, H> {
    type V = Map<Seq<char>, CarSnapshot<T, P, Q, M, H>>;

    /// The table read by car id.
    open spec fn view(&self) -> Map<Seq<char>, CarSnapshot<T, P, Q, M, H>> {
        cars_by_id(self.cars())
    }
}

impl<T, P, Q, M, H> Fleet<T, P, Q, M, H> {
    /// The snapshots, in the order the cars were first heard of.
    pub closed spec fn cars(&self) -> Seq<CarSnapshot<T, P, Q, M, H>> {
        self.cars@
    }

    /// Every car's id appears once.
    pub open spec fn wf(&self) -> bool {
        unique_ids(self.cars())
    }

    /// No car yet.
    pub fn new() -> (f: Self)
        ensures
            f.wf(),
            f.cars().len() == 0,
            f@ == Map::<Seq<char>, CarSnapshot<T, P, Q, M, H>>::empty(),
    {
        let f = Fleet { cars: Vec::new() };
        assert(f@ =~= Map::<Seq<char>, CarSnapshot<T, P, Q, M, H>>::empty());
        f
    }

    /// How many cars are known.
    pub fn len(&self) -> (n: usize)
        ensures
            n == self.cars().len(),
    {
        self.cars.len()
    }

    /// The snapshot at position `i` (in the order the cars were first heard of).
    pub fn at(&self, i: usize) -> (c: &CarSnapshot<T, P, Q, M, H>)
        requires
            i < self.cars().len(),
        ensures
            *c == self.cars()[i as int],
    {
        &self.cars[i]
    }

    /// The position of the car with this id.
    pub fn find(&self, id: &str) -> (r: Option<usize>)
        ensures
            r matches Some(i) ==> i < self.cars().len() && self.cars()[i as int].id@ == id@,
            r is None ==> !has_car(self.cars(), id@),
    {
        let key = id.to_owned();
        let n = self.cars.len();
        let mut i: usize = 0;
        while i < n
            invariant
                n == self.cars@.len(),
                key@ == id@,
                i <= n,
                forall|j: int| 0 <= j < i ==> #[trigger] self.cars@[j].id@ != id@,
            decreases n - i,
        {
            if self.cars[i].id == key {
                return Some(i);
            }
            i = i + 1;
        }
        None
    }

    /// The snapshot of the car with this id.
    pub fn get(&self, id: &str) -> (r: Option<&CarSnapshot<T, P, Q, M, H>>)
        ensures
            r is Some <==> self@.contains_key(id@),
            r matches Some(c) ==> c.id@ == id@,
            self.wf() ==> (r matches Some(c) ==> *c == self@[id@]),
    {
        match self.find(id) {
            Some(i) => {
                proof {
                    if self.wf() {
                        lemma_index_of_unique(self.cars@, id@, i as int);
                    }
                }
                Some(&self.cars[i])
            },
            None => None,
        }
    }

    /// The car with this id, added with `idle_rate` as its scan rate when it is new.
    fn entry(&mut self, id: &str, idle_rate: H) -> (i: usize)
        requires
            old(self).wf(),
        ensures
            final(self).wf(),
            i < final(self).cars().len(),
            final(self).cars()[i as int].id@ == id@,
            has_car(old(self).cars(), id@) ==> final(self).cars() == old(self).cars(),
            !has_car(old(self).cars(), id@) ==> {
                &&& i == old(self).cars().len()
                &&& final(self).cars().len() == old(self).cars().len() + 1
                &&& final(self).cars().subrange(0, i as int) == old(self).cars()
                &&& fresh_car(final(self).cars()[i as int], id@, idle_rate)
            },
    {
        match self.find(id) {
            Some(i) => i,
            None => {
                let c = CarSnapshot::new(id, idle_rate);
                let ghost before = self.cars@;
                self.cars.push(c);
                assert(self.cars@.subrange(0, before.len() as int) =~= before);
                self.cars.len() - 1
            },
        }
    }

    /// Records an event: the car's last-seen time, then its status, telemetry or scan count.
    /// A status that differs from the one shown is broadcast; telemetry is always broadcast;
    /// a rotation goes to the car's SLAM worker.
    pub fn on_event<S>(&mut self, event: CarEvent<T, S>, idle_rate: H) -> (r: Reaction<T, S>) where
        T: Copy,
        requires
            old(self).wf(),
            event.kind is Scan ==> scans_of(old(self).cars(), event.car@) < u64::MAX,
        ensures
            final(self).wf(),
            car_updated(
                old(self).cars(),
                final(self).cars(),
                event.car@,
                idle_rate,
                |b: CarSnapshot<T, P, Q, M, H>, a: CarSnapshot<T, P, Q, M, H>|
                    event_step(b, a, event.at_ms, event.kind),
            ),
            updated_by_id(
                old(self)@,
                final(self)@,
                event.car@,
                idle_rate,
                |b: CarSnapshot<T, P, Q, M, H>, a: CarSnapshot<T, P, Q, M, H>|
                    event_step(b, a, event.at_ms, event.kind),
            ),
            match event.kind {
                EventKind::Status(s) => if status_of(old(self).cars(), event.car@) != s@ {
                    r matches Reaction::StatusChanged { car, status } && car@ == event.car@
                        && status@ == s@
                } else {
                    r is Quiet
                },
                EventKind::Telemetry(t) => r matches Reaction::Telemetry { car, telemetry, at_ms }
                    && car@ == event.car@ && telemetry == t && at_ms == event.at_ms,
                EventKind::Scan(f) => r matches Reaction::Scan { car, frame } && car@ == event.car@
                    && frame == f,
            },
    {
        let CarEvent { car, at_ms, kind } = event;
        let ghost old_cars = self.cars@;
        let i = self.entry(car.as_str(), idle_rate);
        let ghost mid = self.cars@;
        proof {
            if has_car(old_cars, car@) {
                lemma_index_of_unique(old_cars, car@, i as int);
            }
        }
        self.cars[i].last_seen_ms = at_ms;
        let r = match kind {
            EventKind::Status(status) => {
                let changed = !(self.cars[i].status == status);
                if changed {
                    let shown = status.clone();
                    self.cars[i].status = status;
                    Reaction::StatusChanged { car, status: shown }
                } else {
                    self.cars[i].status = status;
                    Reaction::Quiet
                }
            },
            EventKind::Telemetry(t) => {
                self.cars[i].telemetry = Some(t);
                Reaction::Telemetry { car, telemetry: t, at_ms }
            },
            EventKind::Scan(frame) => {
                self.cars[i].scans_total = self.cars[i].scans_total + 1;
                Reaction::Scan { car, frame }
            },
        };
        proof {
            lemma_one_car_rewritten(
                old_cars,
                mid,
                self.cars@,
                event.car@,
                idle_rate,
                i as int,
                |b: CarSnapshot<T, P, Q, M, H>, a: CarSnapshot<T, P, Q, M, H>|
                    event_step(b, a, event.at_ms, event.kind),
            );
        }
        r
    }

    /// Records a tracked scan: the pose, the position at the end of the trajectory (keeping
    /// the last `trajectory_len` positions), and the scan in the map frame.
    pub fn on_tracked(
        &mut self,
        car: &str,
        pose: Q,
        position: P,
        scan: Vec<P>,
        trajectory_len: usize,
        idle_rate: H,
    )
        requires
            old(self).wf(),
        ensures
            final(self).wf(),
            car_updated(
                old(self).cars(),
                final(self).cars(),
                car@,
                idle_rate,
                |b: CarSnapshot<T, P, Q, M, H>, a: CarSnapshot<T, P, Q, M, H>|
                    tracked_step(b, a, pose, position, scan@, trajectory_len as nat),
            ),
            updated_by_id(
                old(self)@,
                final(self)@,
                car@,
                idle_rate,
                |b: CarSnapshot<T, P, Q, M, H>, a: CarSnapshot<T, P, Q, M, H>|
                    tracked_step(b, a, pose, position, scan@, trajectory_len as nat),
            ),
    {
        let ghost old_cars = self.cars@;
        let ghost scan_view = scan@;
        let i = self.entry(car, idle_rate);
        let ghost mid = self.cars@;
        self.cars[i].pose = Some(pose);
        push_capped(&mut self.cars[i].trajectory, position, trajectory_len);
        self.cars[i].scan = scan;
        proof {
            lemma_one_car_rewritten(
                old_cars,
                mid,
                self.cars@,
                car@,
                idle_rate,
                i as int,
                |b: CarSnapshot<T, P, Q, M, H>, a: CarSnapshot<T, P, Q, M, H>|
                    tracked_step(b, a, pose, position, scan_view, trajectory_len as nat),
            );
        }
    }

    /// Records the metadata of a new map.
    pub fn on_map(&mut self, car: &str, map: M, idle_rate: H)
        requires
            old(self).wf(),
        ensures
            final(self).wf(),
            car_updated(
                old(self).cars(),
                final(self).cars(),
                car@,
                idle_rate,
                |b: CarSnapshot<T, P, Q, M, H>, a: CarSnapshot<T, P, Q, M, H>| map_step(b, a, map),
            ),
            updated_by_id(
                old(self)@,
                final(self)@,
                car@,
                idle_rate,
                |b: CarSnapshot<T, P, Q, M, H>, a: CarSnapshot<T, P, Q, M, H>| map_step(b, a, map),
            ),
    {
        let ghost old_cars = self.cars@;
        let i = self.entry(car, idle_rate);
        let ghost mid = self.cars@;
        self.cars[i].map = Some(map);
        proof {
            lemma_one_car_rewritten(
                old_cars,
                mid,
                self.cars@,
                car@,
                idle_rate,
                i as int,
                |b: CarSnapshot<T, P, Q, M, H>, a: CarSnapshot<T, P, Q, M, H>| map_step(b, a, map),
            );
        }
    }

    /// Records a measured scan rate; returns the car's total rotations for the broadcast.
    pub fn on_rate(&mut self, car: &str, scan_hz: H, idle_rate: H) -> (total: u64)
        requires
            old(self).wf(),
        ensures
            final(self).wf(),
            car_updated(
                old(self).cars(),
                final(self).cars(),
                car@,
                idle_rate,
                |b: CarSnapshot<T, P, Q, M, H>, a: CarSnapshot<T, P, Q, M, H>| rate_step(b, a, scan_hz),
            ),
            updated_by_id(
                old(self)@,
                final(self)@,
                car@,
                idle_rate,
                |b: CarSnapshot<T, P, Q, M, H>, a: CarSnapshot<T, P, Q, M, H>| rate_step(b, a, scan_hz),
            ),
            total == scans_of(old(self).cars(), car@),
    {
        let ghost old_cars = self.cars@;
        let i = self.entry(car, idle_rate);
        let ghost mid = self.cars@;
        proof {
            if has_car(old_cars, car@) {
                lemma_index_of_unique(old_cars, car@, i as int);
            }
        }
        self.cars[i].scan_hz = scan_hz;
        proof {
            lemma_one_car_rewritten(
                old_cars,
                mid,
                self.cars@,
                car@,
                idle_rate,
                i as int,
                |b: CarSnapshot<T, P, Q, M, H>, a: CarSnapshot<T, P, Q, M, H>| rate_step(b, a, scan_hz),
            );
        }
        self.cars[i].scans_total
    }

    /// Rotations counted for the car with this id, 0 when it is unknown.
    pub fn scans_total(&self, car: &str) -> (n: u64)
        requires
            self.wf(),
        ensures
            n == scans_of(self.cars(), car@),
    {
        match self.find(car) {
            Some(i) => {
                proof {
                    lemma_index_of_unique(self.cars@, car@, i as int);
                }
                self.cars[i].scans_total
            },
            None => 0,
        }
    }

    /// The positions of the cars in increasing id order (how the API lists them).
    pub fn snapshot_order(&self) -> (order: Vec<usize>)
        requires
            self.wf(),
        ensures
            sorted_by_id(self.cars(), order@),
    {
        let n = self.cars.len();
        let mut order: Vec<usize> = Vec::new();
        let mut i: usize = 0;
        while i < n
            invariant
                n == self.cars@.len(),
                unique_ids(self.cars@),
                i <= n,
                order@.len() == i,
                forall|k: int| 0 <= k < order@.len() ==> #[trigger] order@[k] < i,
                forall|a: int, b: int|
                    0 <= a < b < order@.len() ==> id_before(
                        #[trigger] self.cars@[order@[a] as int].id@,
                        #[trigger] self.cars@[order@[b] as int].id@,
                    ),
            decreases n - i,
        {
            let ghost cars = self.cars@;
            let mut pos: usize = 0;
            while pos < order.len() && !id_less(self.cars[i].id.as_str(), self.cars[order[pos]].id.as_str())
                invariant
                    n == self.cars@.len(),
                    cars == self.cars@,
                    unique_ids(self.cars@),
                    i < n,
                    order@.len() == i,
                    forall|k: int| 0 <= k < order@.len() ==> #[trigger] order@[k] < i,
                    pos <= order@.len(),
                    forall|q: int| 0 <= q < pos ==> id_before(#[trigger] cars[order@[q] as int].id@, cars[i as int].id@),
                decreases order@.len() - pos,
            {
                proof {
                    let o = order@[pos as int] as int;
                    assert(o < i);
                    assert(cars[o].id@ != cars[i as int].id@);
                    lemma_id_order_total(cars[o].id@, cars[i as int].id@);
                }
                pos = pos + 1;
            }
            let ghost prev = order@;
            proof {
                if pos < prev.len() {
                    assert(id_before(cars[i as int].id@, cars[prev[pos as int] as int].id@));
                    assert forall|q: int| pos <= q < prev.len() implies id_before(cars[i as int].id@, #[trigger] cars[prev[q] as int].id@) by {
                        if q > pos {
                            lemma_id_order_transitive(cars[i as int].id@, cars[prev[pos as int] as int].id@, cars[prev[q] as int].id@);
                        }
                    }
                }
            }
            order.insert(pos, i);
            proof {
                let cur = order@;
                assert(cur.len() == prev.len() + 1);
                assert forall|k: int| 0 <= k < cur.len() implies #[trigger] cur[k] < i + 1 by {
                    if k < pos { assert(cur[k] == prev[k]); }
                    else if k > pos { assert(cur[k] == prev[k - 1]); }
                }
                assert forall|a: int, b: int|
                    0 <= a < b < cur.len() implies id_before(
                        #[trigger] cars[cur[a] as int].id@,
                        #[trigger] cars[cur[b] as int].id@,
                    ) by {
                    if a < pos {
                        assert(cur[a] == prev[a]);
                        if b < pos { assert(cur[b] == prev[b]); }
                        else if b == pos { assert(cur[b] == i); }
                        else { assert(cur[b] == prev[b - 1]); }
                    } else if a == pos {
                        assert(cur[a] == i);
                        assert(cur[b] == prev[b - 1]);
                    } else {
                        assert(cur[a] == prev[a - 1]);
                        assert(cur[b] == prev[b - 1]);
                    }
                }
            }
            i = i + 1;
        }
        order
    }
}

} // verus!
