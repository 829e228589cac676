use vstd::prelude::*;
use crate::model::{Coordinate, Monitoring, Position, Tracker, Watcher, WatcherInsert};

verus! {

/// Why a table operation was refused.
#[derive(Clone, Copy, Debug, PartialEq, Eq, Structural)]
pub enum StoreError {
    /// A row with the same primary key is already stored.
    DuplicateKey,
    /// The next row id would not fit in an `i32`.
    IdsExhausted,
}

/// A change made to the tables, as recorded in the journal so that it can
/// be replayed on durable storage.
#[derive(Clone, Copy, Debug, PartialEq, Eq, Structural)]
pub enum Change {
    WatcherAdded { id: i32 },
    TrackerAdded { id: i32 },
    MonitoringAdded { watcher_id: i32, tracker_id: i32 },
    PositionAdded { tracker_id: i32, timestamp: i64 },
    MonitoringRemoved { watcher_id: i32, tracker_id: i32 },
    TrackerStatusSet { tracker_id: i32, status: i32 },
}

/// The four tables of the server and the journal of changes made to them.
pub struct Database {
    watchers: Vec<Watcher>,
    trackers: Vec<Tracker>,
    monitorings: Vec<Monitoring>,
    positions: Vec<Position>,
    journal: Vec<Change>,
}

// ---------------------------------------------------------------------------
// Predicates over tables
// ---------------------------------------------------------------------------

pub open spec fn watcher_id_in(ws: Seq<Watcher>, id: i32) -> bool {
    exists|k: int| 0 <= k < ws.len() && ws[k].id == id
}

pub open spec fn login_in(ws: Seq<Watcher>, login: Seq<char>) -> bool {
    exists|k: int| 0 <= k < ws.len() && ws[k].login@ == login
}

pub open spec fn tracker_in(ts: Seq<Tracker>, id: i32) -> bool {
    exists|k: int| 0 <= k < ts.len() && ts[k].id == id
}

pub open spec fn monitoring_in(ms: Seq<Monitoring>, watcher_id: i32, tracker_id: i32) -> bool {
    exists|k: int|
        0 <= k < ms.len() && ms[k].watcher_id == watcher_id && ms[k].tracker_id == tracker_id
}

pub open spec fn position_key_in(ps: Seq<Position>, tracker_id: i32, timestamp: i64) -> bool {
    exists|k: int| 0 <= k < ps.len() && ps[k].tracker_id == tracker_id && ps[k].timestamp == timestamp
}

pub open spec fn unique_watcher_ids(ws: Seq<Watcher>) -> bool {
    forall|i: int, j: int| 0 <= i < ws.len() && 0 <= j < ws.len() && i != j ==> ws[i].id != ws[j].id
}

pub open spec fn unique_tracker_ids(ts: Seq<Tracker>) -> bool {
    forall|i: int, j: int| 0 <= i < ts.len() && 0 <= j < ts.len() && i != j ==> ts[i].id != ts[j].id
}

pub open spec fn unique_monitoring_keys(ms: Seq<Monitoring>) -> bool {
    forall|i: int, j: int|
        0 <= i < ms.len() && 0 <= j < ms.len() && i != j ==> !(ms[i].watcher_id == ms[j].watcher_id
            && ms[i].tracker_id == ms[j].tracker_id)
}

pub open spec fn unique_position_keys(ps: Seq<Position>) -> bool {
    forall|i: int, j: int|
        0 <= i < ps.len() && 0 <= j < ps.len() && i != j ==> !(ps[i].tracker_id == ps[j].tracker_id
            && ps[i].timestamp == ps[j].timestamp)
}

/// Largest id among the watchers (0 for no watcher).
pub open spec fn largest_watcher_id(ws: Seq<Watcher>) -> int
    decreases ws.len(),
{
    if ws.len() == 0 {
        0
    } else if ws.len() == 1 {
        ws[0].id as int
    } else {
        let m = largest_watcher_id(ws.drop_last());
        if ws.last().id > m {
            ws.last().id as int
        } else {
            m
        }
    }
}

/// Largest id among the trackers (0 for no tracker).
pub open spec fn largest_tracker_id(ts: Seq<Tracker>) -> int
    decreases ts.len(),
{
    if ts.len() == 0 {
        0
    } else if ts.len() == 1 {
        ts[0].id as int
    } else {
        let m = largest_tracker_id(ts.drop_last());
        if ts.last().id > m {
            ts.last().id as int
        } else {
            m
        }
    }
}

/// The id a new watcher row receives: one more than the largest in use, 1
/// in an empty table.
pub open spec fn next_watcher_id(ws: Seq<Watcher>) -> int {
    if ws.len() == 0 {
        1
    } else {
        largest_watcher_id(ws) + 1
    }
}

/// The id a new tracker row receives: one more than the largest in use, 1
/// in an empty table.
pub open spec fn next_tracker_id(ts: Seq<Tracker>) -> int {
    if ts.len() == 0 {
        1
    } else {
        largest_tracker_id(ts) + 1
    }
}

pub open spec fn position_of_tracker(tracker_id: i32) -> spec_fn(Position) -> bool {
    |p: Position| p.tracker_id == tracker_id
}

pub open spec fn monitoring_of_tracker(tracker_id: i32) -> spec_fn(Monitoring) -> bool {
    |m: Monitoring| m.tracker_id == tracker_id
}

/// Keeps every monitoring but the one of the given pair.
pub open spec fn monitoring_other_than(watcher_id: i32, tracker_id: i32) -> spec_fn(
    Monitoring,
) -> bool {
    |m: Monitoring| !(m.watcher_id == watcher_id && m.tracker_id == tracker_id)
}

/// A tracker is an alert for a watcher when it has left its zone (status 1)
/// and the watcher monitors it.
pub open spec fn alert_tracker_for(ms: Seq<Monitoring>, watcher_id: i32) -> spec_fn(
    Tracker,
) -> bool {
    |t: Tracker| t.status == 1 && monitoring_in(ms, watcher_id, t.id)
}

/// Sets the status of the tracker with the given id.
pub open spec fn status_set(tracker_id: i32, status: i32) -> spec_fn(Tracker) -> Tracker {
    |t: Tracker|
        if t.id == tracker_id {
            Tracker { id: t.id, status: status, latitude: t.latitude, longitude: t.longitude }
        } else {
            t
        }
}

/// `b` is a faithful copy of the watcher `a`.
pub open spec fn same_watcher(a: Watcher, b: Watcher) -> bool {
    &&& a.id == b.id
    &&& a.login@ == b.login@
    &&& a.password@ == b.password@
    &&& a.salt@ == b.salt@
}

// ---------------------------------------------------------------------------
// Lemmas
// ---------------------------------------------------------------------------

/// Filtering one more element of a prefix.
pub proof fn lemma_filter_take_step<A>(s: Seq<A>, pred: spec_fn(A) -> bool, i: int)
    requires
        0 <= i < s.len(),
    ensures
        s.take(i + 1).filter(pred) == (if pred(s[i]) {
            s.take(i).filter(pred).push(s[i])
        } else {
            s.take(i).filter(pred)
        }),
{
    reveal(Seq::filter);
    assert(s.take(i + 1).drop_last() =~= s.take(i));
}

/// Filtering monitorings keeps their keys unique.
pub proof fn lemma_filter_keeps_unique_monitoring_keys(
    ms: Seq<Monitoring>,
    pred: spec_fn(Monitoring) -> bool,
)
    requires
        unique_monitoring_keys(ms),
    ensures
        unique_monitoring_keys(ms.filter(pred)),
    decreases ms.len(),
{
    reveal(Seq::filter);
    if ms.len() > 0 {
        let d = ms.drop_last();
        assert(unique_monitoring_keys(d)) by {
            assert forall|i: int, j: int|
                0 <= i < d.len() && 0 <= j < d.len() && i != j implies !(d[i].watcher_id
                    == d[j].watcher_id && d[i].tracker_id == d[j].tracker_id) by {
                assert(d[i] == ms[i] && d[j] == ms[j]);
            }
        }
        lemma_filter_keeps_unique_monitoring_keys(d, pred);
        let fd = d.filter(pred);
        if pred(ms.last()) {
            let f = fd.push(ms.last());
            assert(ms.filter(pred) == f);
            assert forall|a: int, b: int|
                0 <= a < f.len() && 0 <= b < f.len() && a != b implies !(f[a].watcher_id
                    == f[b].watcher_id && f[a].tracker_id == f[b].tracker_id) by {
                if a < fd.len() && b < fd.len() {
                    assert(f[a] == fd[a] && f[b] == fd[b]);
                } else if a < fd.len() {
                    lemma_filter_element_from(d, pred, a);
                    let j = choose|j: int| 0 <= j < d.len() && d[j] == fd[a];
                    assert(ms[j] == d[j]);
                    assert(f[a] == ms[j]);
                    assert(f[b] == ms[ms.len() - 1]);
                } else {
                    lemma_filter_element_from(d, pred, b);
                    let j = choose|j: int| 0 <= j < d.len() && d[j] == fd[b];
                    assert(ms[j] == d[j]);
                    assert(f[b] == ms[j]);
                    assert(f[a] == ms[ms.len() - 1]);
                }
            }
        } else {
            assert(ms.filter(pred) == fd);
        }
    }
}

/// Every element of a filtered sequence is an element of the sequence.
pub proof fn lemma_filter_element_from<A>(s: Seq<A>, pred: spec_fn(A) -> bool, a: int)
    requires
        0 <= a < s.filter(pred).len(),
    ensures
        exists|j: int| 0 <= j < s.len() && s[j] == s.filter(pred)[a],
    decreases s.len(),
{
    reveal(Seq::filter);
    if s.len() > 0 {
        let d = s.drop_last();
        let fd = d.filter(pred);
        if pred(s.last()) && a == fd.len() {
            assert(s[s.len() - 1] == s.filter(pred)[a]);
        } else {
            assert(s.filter(pred)[a] == fd[a]);
            lemma_filter_element_from(d, pred, a);
            let j = choose|j: int| 0 <= j < d.len() && d[j] == fd[a];
            assert(s[j] == d[j]);
        }
    }
}

proof fn lemma_largest_watcher_id(ws: Seq<Watcher>)
    requires
        ws.len() > 0,
    ensures
        forall|k: int| 0 <= k < ws.len() ==> ws[k].id <= largest_watcher_id(ws),
        exists|k: int| 0 <= k < ws.len() && ws[k].id == largest_watcher_id(ws),
    decreases ws.len(),
{
    if ws.len() > 1 {
        let d = ws.drop_last();
        lemma_largest_watcher_id(d);
        assert forall|k: int| 0 <= k < ws.len() implies ws[k].id <= largest_watcher_id(ws) by {
            if k < ws.len() - 1 {
                assert(ws[k] == d[k]);
            }
        }
        let k0 = choose|k: int| 0 <= k < d.len() && d[k].id == largest_watcher_id(d);
        assert(ws[k0] == d[k0]);
        if ws.last().id > largest_watcher_id(d) {
            assert(ws[ws.len() - 1].id == largest_watcher_id(ws));
        } else {
            assert(ws[k0].id == largest_watcher_id(ws));
        }
    } else {
        assert(ws[0].id == largest_watcher_id(ws));
    }
}

proof fn lemma_largest_tracker_id(ts: Seq<Tracker>)
    requires
        ts.len() > 0,
    ensures
        forall|k: int| 0 <= k < ts.len() ==> ts[k].id <= largest_tracker_id(ts),
        exists|k: int| 0 <= k < ts.len() && ts[k].id == largest_tracker_id(ts),
    decreases ts.len(),
{
    if ts.len() > 1 {
        let d = ts.drop_last();
        lemma_largest_tracker_id(d);
        assert forall|k: int| 0 <= k < ts.len() implies ts[k].id <= largest_tracker_id(ts) by {
            if k < ts.len() - 1 {
                assert(ts[k] == d[k]);
            }
        }
        let k0 = choose|k: int| 0 <= k < d.len() && d[k].id == largest_tracker_id(d);
        assert(ts[k0] == d[k0]);
        if ts.last().id > largest_tracker_id(d) {
            assert(ts[ts.len() - 1].id == largest_tracker_id(ts));
        } else {
            assert(ts[k0].id == largest_tracker_id(ts));
        }
    } else {
        assert(ts[0].id == largest_tracker_id(ts));
    }
}

/// No stored watcher has the id that the next insertion hands out.
pub proof fn lemma_next_watcher_id_fresh(ws: Seq<Watcher>)
    ensures
        forall|k: int| 0 <= k < ws.len() ==> ws[k].id < next_watcher_id(ws),
{
    if ws.len() > 0 {
        lemma_largest_watcher_id(ws);
    }
}

/// No stored tracker has the id that the next insertion hands out.
pub proof fn lemma_next_tracker_id_fresh(ts: Seq<Tracker>)
    ensures
        forall|k: int| 0 <= k < ts.len() ==> ts[k].id < next_tracker_id(ts),
{
    if ts.len() > 0 {
        lemma_largest_tracker_id(ts);
    }
}

// ---------------------------------------------------------------------------
// The database
// ---------------------------------------------------------------------------

impl Database {
    pub closed spec fn watcher_table(self) -> Seq<Watcher> {
        self.watchers@
    }

    pub closed spec fn tracker_table(self) -> Seq<Tracker> {
        self.trackers@
    }

    pub closed spec fn monitoring_table(self) -> Seq<Monitoring> {
        self.monitorings@
    }

    pub closed spec fn position_table(self) -> Seq<Position> {
        self.positions@
    }

    pub closed spec fn journal_entries(self) -> Seq<Change> {
        self.journal@
    }

    /// Primary keys are unique: the ids of watchers and of trackers, the
    /// (watcher, tracker) pairs of monitorings and the (tracker, timestamp)
    /// pairs of positions.
    pub open spec fn wf(self) -> bool {
        &&& unique_watcher_ids(self.watcher_table())
        &&& unique_tracker_ids(self.tracker_table())
        &&& unique_monitoring_keys(self.monitoring_table())
        &&& unique_position_keys(self.position_table())
    }

    /// Empty tables and an empty journal.
    pub fn new() -> (db: Database)
        ensures
            db.wf(),
            db.watcher_table() == Seq::<Watcher>::empty(),
            db.tracker_table() == Seq::<Tracker>::empty(),
            db.monitoring_table() == Seq::<Monitoring>::empty(),
            db.position_table() == Seq::<Position>::empty(),
            db.journal_entries() == Seq::<Change>::empty(),
    {
        Database {
            watchers: Vec::new(),
            trackers: Vec::new(),
            monitorings: Vec::new(),
            positions: Vec::new(),
            journal: Vec::new(),
        }
    }

    /// The stored watchers, in insertion order.
    pub fn watchers(&self) -> (r: &Vec<Watcher>)
        ensures
            r@ == self.watcher_table(),
    {
        &self.watchers
    }

    /// The stored trackers, in insertion order.
    pub fn trackers(&self) -> (r: &Vec<Tracker>)
        ensures
            r@ == self.tracker_table(),
    {
        &self.trackers
    }

    /// The stored monitorings, in insertion order.
    pub fn monitorings(&self) -> (r: &Vec<Monitoring>)
        ensures
            r@ == self.monitoring_table(),
    {
        &self.monitorings
    }

    /// The stored positions, in insertion order.
    pub fn positions(&self) -> (r: &Vec<Position>)
        ensures
            r@ == self.position_table(),
    {
        &self.positions
    }

    /// Hands out the changes recorded since the last call and empties the
    /// journal; the tables are left as they are.
    pub fn take_journal(&mut self) -> (changes: Vec<Change>)
        ensures
            changes@ == old(self).journal_entries(),
            final(self).journal_entries() == Seq::<Change>::empty(),
            final(self).watcher_table() == old(self).watcher_table(),
            final(self).tracker_table() == old(self).tracker_table(),
            final(self).monitoring_table() == old(self).monitoring_table(),
            final(self).position_table() == old(self).position_table(),
    {
        let mut changes = Vec::new();
        std::mem::swap(&mut changes, &mut self.journal);
        changes
    }
}

// ---------------------------------------------------------------------------
// Id allocation
// ---------------------------------------------------------------------------

fn next_id_of_watchers(ws: &Vec<Watcher>) -> (r: Option<i32>)
    ensures
        r is Some <==> next_watcher_id(ws@) <= i32::MAX,
        r matches Some(id) ==> id == next_watcher_id(ws@),
{
    if ws.len() == 0 {
        return Some(1);
    }
    let mut m: i32 = ws[0].id;
    let mut i: usize = 1;
    assert(ws@.take(1).len() == 1);
    while i < ws.len()
        invariant
            1 <= i <= ws.len(),
            m == largest_watcher_id(ws@.take(i as int)),
        decreases ws.len() - i,
    {
        assert(ws@.take(i + 1).drop_last() =~= ws@.take(i as int));
        if ws[i].id > m {
            m = ws[i].id;
        }
        i += 1;
    }
    assert(ws@.take(ws.len() as int) =~= ws@);
    if m == i32::MAX {
        None
    } else {
        Some(m + 1)
    }
}

fn next_id_of_trackers(ts: &Vec<Tracker>) -> (r: Option<i32>)
    ensures
        r is Some <==> next_tracker_id(ts@) <= i32::MAX,
        r matches Some(id) ==> id == next_tracker_id(ts@),
{
    if ts.len() == 0 {
        return Some(1);
    }
    let mut m: i32 = ts[0].id;
    let mut i: usize = 1;
    assert(ts@.take(1).len() == 1);
    while i < ts.len()
        invariant
            1 <= i <= ts.len(),
            m == largest_tracker_id(ts@.take(i as int)),
        decreases ts.len() - i,
    {
        assert(ts@.take(i + 1).drop_last() =~= ts@.take(i as int));
        if ts[i].id > m {
            m = ts[i].id;
        }
        i += 1;
    }
    assert(ts@.take(ts.len() as int) =~= ts@);
    if m == i32::MAX {
        None
    } else {
        Some(m + 1)
    }
}

// ---------------------------------------------------------------------------
// Table operations
// ---------------------------------------------------------------------------

/// Adds a watcher under the next free id.
pub fn insert_watcher(db: &mut Database, watcher1: WatcherInsert) -> (r: Result<(), StoreError>)
    requires
        old(db).wf(),
    ensures
        final(db).wf(),
        r is Ok <==> next_watcher_id(old(db).watcher_table()) <= i32::MAX,
        r is Err ==> r == Err::<(), StoreError>(StoreError::IdsExhausted) && *final(db) == *old(db),
        r is Ok ==> {
            let id = next_watcher_id(old(db).watcher_table()) as i32;
            &&& final(db).watcher_table() == old(db).watcher_table().push(
                Watcher {
                    id: id,
                    login: watcher1.login,
                    password: watcher1.password,
                    salt: watcher1.salt,
                },
            )
            &&& final(db).journal_entries() == old(db).journal_entries().push(
                Change::WatcherAdded { id },
            )
            &&& final(db).tracker_table() == old(db).tracker_table()
            &&& final(db).monitoring_table() == old(db).monitoring_table()
            &&& final(db).position_table() == old(db).position_table()
        },
{
    match next_id_of_watchers(&db.watchers) {
        None => Err(StoreError::IdsExhausted),
        Some(id) => {
            proof {
                lemma_next_watcher_id_fresh(db.watchers@);
            }
            db.watchers.push(
                Watcher {
                    id: id,
                    login: watcher1.login,
                    password: watcher1.password,
                    salt: watcher1.salt,
                },
            );
            db.journal.push(Change::WatcherAdded { id });
            Ok(())
        },
    }
}

/// Adds a tracker, in status 0, under the next free id, and returns it.
pub fn insert_tracker(db: &mut Database, latitude: Coordinate, longitude: Coordinate) -> (r: Result<
    Tracker,
    StoreError,
>)
    requires
        old(db).wf(),
    ensures
        final(db).wf(),
        r is Ok <==> next_tracker_id(old(db).tracker_table()) <= i32::MAX,
        r is Err ==> r == Err::<Tracker, StoreError>(StoreError::IdsExhausted) && *final(db)
            == *old(db),
        r matches Ok(t) ==> {
            &&& t == Tracker {
                id: next_tracker_id(old(db).tracker_table()) as i32,
                status: 0,
                latitude,
                longitude,
            }
            &&& final(db).tracker_table() == old(db).tracker_table().push(t)
            &&& final(db).journal_entries() == old(db).journal_entries().push(
                Change::TrackerAdded { id: t.id },
            )
            &&& final(db).watcher_table() == old(db).watcher_table()
            &&& final(db).monitoring_table() == old(db).monitoring_table()
            &&& final(db).position_table() == old(db).position_table()
        },
{
    match next_id_of_trackers(&db.trackers) {
        None => Err(StoreError::IdsExhausted),
        Some(id) => {
            proof {
                lemma_next_tracker_id_fresh(db.trackers@);
            }
            let t = Tracker { id: id, status: 0, latitude, longitude };
            db.trackers.push(t);
            db.journal.push(Change::TrackerAdded { id });
            Ok(t)
        },
    }
}

/// Records that a watcher follows a tracker under a name; refused when the
/// pair is already recorded.
pub fn insert_monitoring(db: &mut Database, id_watcher: i32, id_tracker: i32, name: String) -> (r:
    Result<(), StoreError>)
    requires
        old(db).wf(),
    ensures
        final(db).wf(),
        r is Err <==> monitoring_in(old(db).monitoring_table(), id_watcher, id_tracker),
        r is Err ==> r == Err::<(), StoreError>(StoreError::DuplicateKey) && *final(db) == *old(db),
        r is Ok ==> {
            &&& final(db).monitoring_table() == old(db).monitoring_table().push(
                Monitoring { watcher_id: id_watcher, tracker_id: id_tracker, tracker_name: name },
            )
            &&& final(db).journal_entries() == old(db).journal_entries().push(
                Change::MonitoringAdded { watcher_id: id_watcher, tracker_id: id_tracker },
            )
            &&& final(db).watcher_table() == old(db).watcher_table()
            &&& final(db).tracker_table() == old(db).tracker_table()
            &&& final(db).position_table() == old(db).position_table()
        },
{
    if monitoring_exists(db, id_watcher, id_tracker) {
        return Err(StoreError::DuplicateKey);
    }
    db.monitorings.push(
        Monitoring { watcher_id: id_watcher, tracker_id: id_tracker, tracker_name: name },
    );
    db.journal.push(Change::MonitoringAdded { watcher_id: id_watcher, tracker_id: id_tracker });
    Ok(())
}

/// Records a position of a tracker at a time; refused when the tracker
/// already has a position at that time.
pub fn insert_position(
    db: &mut Database,
    latitude: Coordinate,
    longitude: Coordinate,
    id_tracker: i32,
    timestamp: i64,
) -> (r: Result<(), StoreError>)
    requires
        old(db).wf(),
    ensures
        final(db).wf(),
        r is Err <==> position_key_in(old(db).position_table(), id_tracker, timestamp),
        r is Err ==> r == Err::<(), StoreError>(StoreError::DuplicateKey) && *final(db) == *old(db),
        r is Ok ==> {
            &&& final(db).position_table() == old(db).position_table().push(
                Position { latitude, longitude, tracker_id: id_tracker, timestamp },
            )
            &&& final(db).journal_entries() == old(db).journal_entries().push(
                Change::PositionAdded { tracker_id: id_tracker, timestamp },
            )
            &&& final(db).watcher_table() == old(db).watcher_table()
            &&& final(db).tracker_table() == old(db).tracker_table()
            &&& final(db).monitoring_table() == old(db).monitoring_table()
        },
{
    let mut i: usize = 0;
    while i < db.positions.len()
        invariant
            i <= db.positions.len(),
            *db == *old(db),
            old(db).wf(),
            forall|k: int|
                0 <= k < i ==> !(db.positions@[k].tracker_id == id_tracker
                    && db.positions@[k].timestamp == timestamp),
        decreases db.positions.len() - i,
    {
        if db.positions[i].tracker_id == id_tracker && db.positions[i].timestamp == timestamp {
            return Err(StoreError::DuplicateKey);
        }
        i += 1;
    }
    db.positions.push(Position { latitude, longitude, tracker_id: id_tracker, timestamp });
    db.journal.push(Change::PositionAdded { tracker_id: id_tracker, timestamp });
    Ok(())
}

/// The positions of a tracker, in insertion order.
pub fn get_position(db: &Database, id_tracker: i32) -> (r: Vec<Position>)
    ensures
        r@ == db.position_table().filter(position_of_tracker(id_tracker)),
{
    let mut r: Vec<Position> = Vec::new();
    let mut i: usize = 0;
    while i < db.positions.len()
        invariant
            i <= db.positions.len(),
            r@ == db.positions@.take(i as int).filter(position_of_tracker(id_tracker)),
        decreases db.positions.len() - i,
    {
        proof {
            lemma_filter_take_step(db.positions@, position_of_tracker(id_tracker), i as int);
        }
        if db.positions[i].tracker_id == id_tracker {
            r.push(db.positions[i]);
        }
        i += 1;
    }
    assert(db.positions@.take(db.positions.len() as int) =~= db.positions@);
    r
}

/// Whether the watcher follows the tracker.
pub fn monitoring_exists(db: &Database, id_watcher: i32, id_tracker: i32) -> (r: bool)
    ensures
        r == monitoring_in(db.monitoring_table(), id_watcher, id_tracker),
{
    let mut i: usize = 0;
    while i < db.monitorings.len()
        invariant
            i <= db.monitorings.len(),
            forall|k: int|
                0 <= k < i ==> !(db.monitorings@[k].watcher_id == id_watcher
                    && db.monitorings@[k].tracker_id == id_tracker),
        decreases db.monitorings.len() - i,
    {
        if db.monitorings[i].watcher_id == id_watcher && db.monitorings[i].tracker_id == id_tracker {
            return true;
        }
        i += 1;
    }
    false
}

/// Whether a watcher has the given login.
pub fn watcher_exists(db: &Database, new_login: String) -> (r: bool)
    ensures
        r == login_in(db.watcher_table(), new_login@),
{
    let mut i: usize = 0;
    while i < db.watchers.len()
        invariant
            i <= db.watchers.len(),
            forall|k: int| 0 <= k < i ==> db.watchers@[k].login@ != new_login@,
        decreases db.watchers.len() - i,
    {
        if db.watchers[i].login == new_login {
            return true;
        }
        i += 1;
    }
    false
}

/// Whether a tracker has the given id.
pub fn tracker_exists(db: &Database, id_tracker: i32) -> (r: bool)
    ensures
        r == tracker_in(db.tracker_table(), id_tracker),
{
    let mut i: usize = 0;
    while i < db.trackers.len()
        invariant
            i <= db.trackers.len(),
            forall|k: int| 0 <= k < i ==> db.trackers@[k].id != id_tracker,
        decreases db.trackers.len() - i,
    {
        if db.trackers[i].id == id_tracker {
            return true;
        }
        i += 1;
    }
    false
}

/// The trackers followed by the watcher that have left their zone.
pub fn get_alert_trackers(db: &Database, id_watcher: i32) -> (r: Vec<Tracker>)
    ensures
        r@ == db.tracker_table().filter(alert_tracker_for(db.monitoring_table(), id_watcher)),
{
    let ghost pred = alert_tracker_for(db.monitorings@, id_watcher);
    let mut r: Vec<Tracker> = Vec::new();
    let mut i: usize = 0;
    while i < db.trackers.len()
        invariant
            i <= db.trackers.len(),
            pred == alert_tracker_for(db.monitorings@, id_watcher),
            r@ == db.trackers@.take(i as int).filter(pred),
        decreases db.trackers.len() - i,
    {
        proof {
            lemma_filter_take_step(db.trackers@, pred, i as int);
        }
        let t = db.trackers[i];
        if t.status == 1 && monitoring_exists(db, id_watcher, t.id) {
            r.push(t);
        }
        i += 1;
    }
    assert(db.trackers@.take(db.trackers.len() as int) =~= db.trackers@);
    r
}

/// Removes the monitoring of the pair, if any.
pub fn delete_monitoring(db: &mut Database, id_watcher: i32, id_tracker: i32)
    requires
        old(db).wf(),
    ensures
        final(db).wf(),
        final(db).monitoring_table() == old(db).monitoring_table().filter(
            monitoring_other_than(id_watcher, id_tracker),
        ),
        final(db).journal_entries() == old(db).journal_entries().push(
            Change::MonitoringRemoved { watcher_id: id_watcher, tracker_id: id_tracker },
        ),
        final(db).watcher_table() == old(db).watcher_table(),
        final(db).tracker_table() == old(db).tracker_table(),
        final(db).position_table() == old(db).position_table(),
{
    let ghost pred = monitoring_other_than(id_watcher, id_tracker);
    let ghost before = db.monitorings@;
    let mut kept: Vec<Monitoring> = Vec::new();
    let mut i: usize = 0;
    while i < db.monitorings.len()
        invariant
            i <= db.monitorings.len(),
            db.monitorings@ == before,
            pred == monitoring_other_than(id_watcher, id_tracker),
            kept@ == before.take(i as int).filter(pred),
        decreases db.monitorings.len() - i,
    {
        proof {
            lemma_filter_take_step(before, pred, i as int);
        }
        if !(db.monitorings[i].watcher_id == id_watcher && db.monitorings[i].tracker_id
            == id_tracker) {
            kept.push(db.monitorings[i].duplicate());
        }
        i += 1;
    }
    assert(before.take(before.len() as int) =~= before);
    proof {
        lemma_filter_keeps_unique_monitoring_keys(before, pred);
    }
    db.monitorings = kept;
    db.journal.push(Change::MonitoringRemoved { watcher_id: id_watcher, tracker_id: id_tracker });
}

/// Sets the status of the tracker with the given id.
pub fn update_tracker_status(db: &mut Database, id_tracker: i32, new_status: i32)
    requires
        old(db).wf(),
    ensures
        final(db).wf(),
        final(db).tracker_table() == old(db).tracker_table().map_values(
            status_set(id_tracker, new_status),
        ),
        final(db).journal_entries() == old(db).journal_entries().push(
            Change::TrackerStatusSet { tracker_id: id_tracker, status: new_status },
        ),
        final(db).watcher_table() == old(db).watcher_table(),
        final(db).monitoring_table() == old(db).monitoring_table(),
        final(db).position_table() == old(db).position_table(),
{
    let ghost before = db.trackers@;
    let ghost f = status_set(id_tracker, new_status);
    let mut i: usize = 0;
    while i < db.trackers.len()
        invariant
            i <= db.trackers.len(),
            db.trackers@.len() == before.len(),
            f == status_set(id_tracker, new_status),
            forall|k: int| 0 <= k < i ==> db.trackers@[k] == f(before[k]),
            forall|k: int| i <= k < before.len() ==> db.trackers@[k] == before[k],
            db.watchers@ == old(db).watchers@,
            db.monitorings@ == old(db).monitorings@,
            db.positions@ == old(db).positions@,
            db.journal@ == old(db).journal@,
            before == old(db).trackers@,
        decreases db.trackers.len() - i,
    {
        let t = db.trackers[i];
        if t.id == id_tracker {
            db.trackers.set(
                i,
                Tracker {
                    id: t.id,
                    status: new_status,
                    latitude: t.latitude,
                    longitude: t.longitude,
                },
            );
        }
        i += 1;
    }
    assert(db.trackers@ =~= before.map_values(f));
    db.journal.push(Change::TrackerStatusSet { tracker_id: id_tracker, status: new_status });
}

/// The watcher with the given id, if any.
pub fn get_watcher(db: &Database, id_watcher: i32) -> (r: Option<Watcher>)
    requires
        db.wf(),
    ensures
        r is Some <==> watcher_id_in(db.watcher_table(), id_watcher),
        r matches Some(w) ==> exists|k: int|
            0 <= k < db.watcher_table().len() && db.watcher_table()[k].id == id_watcher
                && same_watcher(db.watcher_table()[k], w),
{
    let mut i: usize = 0;
    while i < db.watchers.len()
        invariant
            i <= db.watchers.len(),
            forall|k: int| 0 <= k < i ==> db.watchers@[k].id != id_watcher,
        decreases db.watchers.len() - i,
    {
        if db.watchers[i].id == id_watcher {
            let w = db.watchers[i].duplicate();
            assert(same_watcher(db.watchers@[i as int], w));
            return Some(w);
        }
        i += 1;
    }
    None
}

/// The monitorings of a tracker, in insertion order.
pub fn get_monitorings(db: &Database, id_tracker: i32) -> (r: Vec<Monitoring>)
    ensures
        r@ == db.monitoring_table().filter(monitoring_of_tracker(id_tracker)),
{
    let mut r: Vec<Monitoring> = Vec::new();
    let mut i: usize = 0;
    while i < db.monitorings.len()
        invariant
            i <= db.monitorings.len(),
            r@ == db.monitorings@.take(i as int).filter(monitoring_of_tracker(id_tracker)),
        decreases db.monitorings.len() - i,
    {
        proof {
            lemma_filter_take_step(db.monitorings@, monitoring_of_tracker(id_tracker), i as int);
        }
        if db.monitorings[i].tracker_id == id_tracker {
            r.push(db.monitorings[i].duplicate());
        }
        i += 1;
    }
    assert(db.monitorings@.take(db.monitorings.len() as int) =~= db.monitorings@);
    r
}

// ---------------------------------------------------------------------------
// Loading stored rows
// ---------------------------------------------------------------------------

fn watcher_ids_are_unique(ws: &Vec<Watcher>) -> (r: bool)
    ensures
        r == unique_watcher_ids(ws@),
{
    let mut i: usize = 0;
    while i < ws.len()
        invariant
            i <= ws.len(),
            forall|a: int, b: int| 0 <= a < i && 0 <= b < i && a != b ==> ws@[a].id != ws@[b].id,
        decreases ws.len() - i,
    {
        let mut j: usize = 0;
        while j < i
            invariant
                j <= i < ws.len(),
                forall|b: int| 0 <= b < j ==> ws@[b].id != ws@[i as int].id,
            decreases i - j,
        {
            if ws[j].id == ws[i].id {
                assert(ws@[j as int].id == ws@[i as int].id);
                return false;
            }
            j += 1;
        }
        i += 1;
    }
    true
}

fn tracker_ids_are_unique(ts: &Vec<Tracker>) -> (r: bool)
    ensures
        r == unique_tracker_ids(ts@),
{
    let mut i: usize = 0;
    while i < ts.len()
        invariant
            i <= ts.len(),
            forall|a: int, b: int| 0 <= a < i && 0 <= b < i && a != b ==> ts@[a].id != ts@[b].id,
        decreases ts.len() - i,
    {
        let mut j: usize = 0;
        while j < i
            invariant
                j <= i < ts.len(),
                forall|b: int| 0 <= b < j ==> ts@[b].id != ts@[i as int].id,
            decreases i - j,
        {
            if ts[j].id == ts[i].id {
                assert(ts@[j as int].id == ts@[i as int].id);
                return false;
            }
            j += 1;
        }
        i += 1;
    }
    true
}

fn monitoring_keys_are_unique(ms: &Vec<Monitoring>) -> (r: bool)
    ensures
        r == unique_monitoring_keys(ms@),
{
    let mut i: usize = 0;
    while i < ms.len()
        invariant
            i <= ms.len(),
            forall|a: int, b: int|
                0 <= a < i && 0 <= b < i && a != b ==> !(ms@[a].watcher_id == ms@[b].watcher_id
                    && ms@[a].tracker_id == ms@[b].tracker_id),
        decreases ms.len() - i,
    {
        let mut j: usize = 0;
        while j < i
            invariant
                j <= i < ms.len(),
                forall|b: int|
                    0 <= b < j ==> !(ms@[b].watcher_id == ms@[i as int].watcher_id
                        && ms@[b].tracker_id == ms@[i as int].tracker_id),
            decreases i - j,
        {
            if ms[j].watcher_id == ms[i].watcher_id && ms[j].tracker_id == ms[i].tracker_id {
                assert(ms@[j as int].watcher_id == ms@[i as int].watcher_id);
                return false;
            }
            j += 1;
        }
        i += 1;
    }
    true
}

fn position_keys_are_unique(ps: &Vec<Position>) -> (r: bool)
    ensures
        r == unique_position_keys(ps@),
{
    let mut i: usize = 0;
    while i < ps.len()
        invariant
            i <= ps.len(),
            forall|a: int, b: int|
                0 <= a < i && 0 <= b < i && a != b ==> !(ps@[a].tracker_id == ps@[b].tracker_id
                    && ps@[a].timestamp == ps@[b].timestamp),
        decreases ps.len() - i,
    {
        let mut j: usize = 0;
        while j < i
            invariant
                j <= i < ps.len(),
                forall|b: int|
                    0 <= b < j ==> !(ps@[b].tracker_id == ps@[i as int].tracker_id
                        && ps@[b].timestamp == ps@[i as int].timestamp),
            decreases i - j,
        {
            if ps[j].tracker_id == ps[i].tracker_id && ps[j].timestamp == ps[i].timestamp {
                assert(ps@[j as int].tracker_id == ps@[i as int].tracker_id);
                return false;
            }
            j += 1;
        }
        i += 1;
    }
    true
}

impl Database {
    /// Builds the tables from stored rows, with an empty journal; refused
    /// when a primary key occurs twice.
    pub fn from_rows(
        watchers: Vec<Watcher>,
        trackers: Vec<Tracker>,
        monitorings: Vec<Monitoring>,
        positions: Vec<Position>,
    ) -> (r: Option<Database>)
        ensures
            r is Some <==> {
                &&& unique_watcher_ids(watchers@)
                &&& unique_tracker_ids(trackers@)
                &&& unique_monitoring_keys(monitorings@)
                &&& unique_position_keys(positions@)
            },
            r matches Some(db) ==> {
                &&& db.wf()
                &&& db.watcher_table() == watchers@
                &&& db.tracker_table() == trackers@
                &&& db.monitoring_table() == monitorings@
                &&& db.position_table() == positions@
                &&& db.journal_entries() == Seq::<Change>::empty()
            },
    {
        if watcher_ids_are_unique(&watchers) && tracker_ids_are_unique(&trackers)
            && monitoring_keys_are_unique(&monitorings) && position_keys_are_unique(&positions) {
            Some(Database { watchers, trackers, monitorings, positions, journal: Vec::new() })
        } else {
            None
        }
    }
}

} // verus!
