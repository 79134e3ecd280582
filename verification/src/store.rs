//! Sensor store semantics.
//!
//! `MemoryStore` is an executable model of the persistent store: a pair
//! of append-only tables. Registration is idempotent (the first label
//! wins), entry insertion rejects a duplicate entry identifier, and
//! history is returned sorted by creation time. The SQL-backed store at
//! the process edge mirrors these transitions.

use vstd::prelude::*;
use vstd::seq_lib::*;
use crate::domain::{Sensor, SensorEntry, valid_label, spec_is_finite};
use crate::errors::DbError;

verus! {

/// First sensor with the given id, scanning from the front.
pub open spec fn spec_find_sensor(ss: Seq<Sensor>, id: u128) -> Option<Sensor>
    decreases ss.len(),
{
    if ss.len() == 0 {
        None
    } else if ss[0].id == id {
        Some(ss[0])
    } else {
        spec_find_sensor(ss.drop_first(), id)
    }
}

/// Some entry already carries this id.
pub open spec fn has_entry_id(es: Seq<SensorEntry>, id: u128) -> bool {
    exists|i: int| 0 <= i < es.len() && es[i].id == id
}

/// All entries that belong to one sensor, in table order.
pub open spec fn entries_for(es: Seq<SensorEntry>, sensor_id: u128) -> Seq<SensorEntry> {
    es.filter(|e: SensorEntry| e.sensor_id == sensor_id)
}

/// The sequence is sorted by creation time, ascending.
pub open spec fn sorted_by_time(es: Seq<SensorEntry>) -> bool {
    forall|i: int, j: int| 0 <= i < j < es.len() ==> es[i].created_at <= es[j].created_at
}

/// Entry identifiers strictly increase in table order.
pub open spec fn entry_ids_increasing(es: Seq<SensorEntry>) -> bool {
    forall|i: int, j: int| 0 <= i < j < es.len() ==> es[i].id < es[j].id
}

/// Sensor identifiers are unique.
pub open spec fn unique_sensor_ids(ss: Seq<Sensor>) -> bool {
    forall|i: int, j: int| 0 <= i < j < ss.len() ==> ss[i].id != ss[j].id
}

/// The registration transition: an existing row wins, otherwise the
/// candidate row is appended and returned.
pub open spec fn spec_register(ss: Seq<Sensor>, cand: Sensor) -> (Seq<Sensor>, Sensor) {
    match spec_find_sensor(ss, cand.id) {
        Some(s) => (ss, s),
        None => (ss.push(cand), cand),
    }
}

/// The entry-insertion transition: a duplicate id leaves the table
/// unchanged, otherwise the entry is appended.
pub open spec fn spec_save(es: Seq<SensorEntry>, e: SensorEntry) -> Seq<SensorEntry> {
    if has_entry_id(es, e.id) {
        es
    } else {
        es.push(e)
    }
}

/// Appending one row moves `spec_find_sensor` in the obvious way: an
/// earlier match still wins, and the new row matches only its own id.
pub proof fn lemma_find_sensor_push(ss: Seq<Sensor>, id: u128, x: Sensor)
    ensures
        spec_find_sensor(ss.push(x), id) == (match spec_find_sensor(ss, id) {
            Some(s) => Some(s),
            None => if x.id == id { Some(x) } else { None::<Sensor> },
        }),
    decreases ss.len(),
{
    if ss.len() == 0 {
        assert(ss.push(x)[0] == x);
        if x.id != id {
            assert(ss.push(x).drop_first() =~= Seq::<Sensor>::empty());
        }
    } else {
        assert(ss.push(x)[0] == ss[0]);
        assert(ss.push(x).drop_first() =~= ss.drop_first().push(x));
        lemma_find_sensor_push(ss.drop_first(), id, x);
    }
}

/// `spec_find_sensor` returns a row exactly when one carries the id,
/// and that row is an element of the table with the id asked for.
pub proof fn lemma_find_sensor_characterizes(ss: Seq<Sensor>, id: u128)
    ensures
        spec_find_sensor(ss, id) is Some <==> exists|i: int| 0 <= i < ss.len() && ss[i].id == id,
        spec_find_sensor(ss, id) matches Some(s) ==> s.id == id && ss.contains(s),
    decreases ss.len(),
{
    if ss.len() > 0 {
        lemma_find_sensor_characterizes(ss.drop_first(), id);
        if ss[0].id != id {
            if exists|i: int| 0 <= i < ss.len() && ss[i].id == id {
                let i = choose|i: int| 0 <= i < ss.len() && ss[i].id == id;
                assert(ss.drop_first()[i - 1] == ss[i]);
            }
            if spec_find_sensor(ss.drop_first(), id) is Some {
                let s = spec_find_sensor(ss.drop_first(), id)->Some_0;
                assert(ss.drop_first().contains(s));
                let j = choose|j: int| 0 <= j < ss.drop_first().len() && ss.drop_first()[j] == s;
                assert(ss[j + 1] == s);
            }
        }
    }
}

/// The in-memory store: two append-only tables.
pub struct MemoryStore {
    pub sensors: Vec<Sensor>,
    pub entries: Vec<SensorEntry>,
}

impl MemoryStore {
    /// Both tables well formed: unique sensor ids.
    pub open spec fn wf(&self) -> bool {
        unique_sensor_ids(self.sensors@)
    }

    pub fn new() -> (r: MemoryStore)
        ensures
            r.wf(),
            r.sensors@ == Seq::<Sensor>::empty(),
            r.entries@ == Seq::<SensorEntry>::empty(),
    {
        MemoryStore { sensors: Vec::new(), entries: Vec::new() }
    }

    /// Index of the first sensor row with this id, if any.
    fn find_sensor_index(&self, id: u128) -> (r: Option<usize>)
        ensures
            match r {
                Some(i) => i < self.sensors@.len() && self.sensors@[i as int].id == id
                    && spec_find_sensor(self.sensors@, id) == Some(self.sensors@[i as int]),
                None => spec_find_sensor(self.sensors@, id) is None,
            },
    {
        let ghost ss = self.sensors@;
        let n = self.sensors.len();
        let mut i: usize = 0;
        while i < n
            invariant
                n == ss.len(),
                i <= n,
                ss == self.sensors@,
                spec_find_sensor(ss.subrange(0, i as int), id) is None,
            decreases n - i,
        {
            proof {
                lemma_find_sensor_push(ss.subrange(0, i as int), id, ss[i as int]);
                assert(ss.subrange(0, i as int).push(ss[i as int]) =~= ss.subrange(
                    0,
                    i as int + 1,
                ));
            }
            if self.sensors[i].id == id {
                proof {
                    lemma_find_prefix_extends(ss, id, i as int + 1);
                }
                return Some(i);
            }
            i += 1;
        }
        proof {
            assert(ss.subrange(0, n as int) =~= ss);
        }
        None
    }

    /// Idempotent registration: the row already there wins and nothing
    /// changes; otherwise the new row is inserted with the given
    /// creation time.
    pub fn register_sensor(&mut self, id: u128, label: String, now: i64) -> (r: Result<
        Sensor,
        DbError,
    >)
        requires
            old(self).wf(),
            valid_label(label@),
        ensures
            final(self).wf(),
            final(self).entries@ == old(self).entries@,
            final(self).sensors@ == spec_register(
                old(self).sensors@,
                Sensor { id, label, created_at: now },
            ).0,
            r matches Ok(s) && s == spec_register(
                old(self).sensors@,
                Sensor { id, label, created_at: now },
            ).1,
    {
        match self.find_sensor_index(id) {
            Some(i) => {
                let found = self.sensors[i].duplicate();
                Ok(found)
            },
            None => {
                let row = Sensor { id, label, created_at: now };
                let out = row.duplicate();
                proof {
                    lemma_find_sensor_characterizes(self.sensors@, id);
                }
                self.sensors.push(row);
                proof {
                    let ss2 = self.sensors@;
                    assert forall|a: int, b: int| 0 <= a < b < ss2.len() implies ss2[a].id
                        != ss2[b].id by {
                        if b == ss2.len() - 1 {
                            assert(ss2[a] == old(self).sensors@[a]);
                        }
                    }
                }
                Ok(out)
            },
        }
    }

    /// Insert one reading. A duplicate entry id is refused and leaves
    /// the table unchanged; otherwise the materialized row is appended
    /// and returned. Fresh, increasing ids keep the id order strict.
    pub fn save_entry(&mut self, sensor_id: u128, value_bits: u64, entry_id: u128, now: i64) -> (r:
        Result<SensorEntry, DbError>)
        requires
            old(self).wf(),
            spec_is_finite(value_bits),
        ensures
            final(self).wf(),
            final(self).sensors@ == old(self).sensors@,
            final(self).entries@ == spec_save(
                old(self).entries@,
                SensorEntry { id: entry_id, sensor_id, value_bits, created_at: now },
            ),
            if has_entry_id(old(self).entries@, entry_id) {
                r matches Err(e) && e is NotInserted
            } else {
                r matches Ok(e) && e == (SensorEntry {
                    id: entry_id,
                    sensor_id,
                    value_bits,
                    created_at: now,
                })
            },
            entry_ids_increasing(old(self).entries@) && (forall|i: int|
                0 <= i < old(self).entries@.len() ==> old(self).entries@[i].id < entry_id)
                ==> entry_ids_increasing(final(self).entries@),
    {
        let n = self.entries.len();
        let mut i: usize = 0;
        while i < n
            invariant
                self.sensors@ == old(self).sensors@,
                self.entries@ == old(self).entries@,
                old(self).wf(),
                n == self.entries@.len(),
                i <= n,
                forall|j: int| 0 <= j < i ==> self.entries@[j].id != entry_id,
            decreases n - i,
        {
            if self.entries[i].id == entry_id {
                return Err(DbError::NotInserted);
            }
            i += 1;
        }
        let e = SensorEntry { id: entry_id, sensor_id, value_bits, created_at: now };
        self.entries.push(e);
        Ok(e)
    }

    /// One sensor, or `NotFound`.
    pub fn fetch_one(&self, id: u128) -> (r: Result<Sensor, DbError>)
        ensures
            match spec_find_sensor(self.sensors@, id) {
                Some(s) => r matches Ok(out) && out == s,
                None => r matches Err(e) && e is NotFound,
            },
    {
        match self.find_sensor_index(id) {
            Some(i) => Ok(self.sensors[i].duplicate()),
            None => Err(DbError::NotFound),
        }
    }

    /// Every sensor, in table order.
    pub fn fetch_all(&self) -> (r: Result<Vec<Sensor>, DbError>)
        ensures
            r matches Ok(v) && v@ =~= self.sensors@,
    {
        let n = self.sensors.len();
        let mut out: Vec<Sensor> = Vec::new();
        let mut i: usize = 0;
        while i < n
            invariant
                n == self.sensors@.len(),
                i <= n,
                out@ =~= self.sensors@.subrange(0, i as int),
            decreases n - i,
        {
            out.push(self.sensors[i].duplicate());
            proof {
                assert(out@ =~= self.sensors@.subrange(0, i as int + 1));
            }
            i += 1;
        }
        Ok(out)
    }

    /// All readings of one sensor, sorted by creation time ascending;
    /// as a multiset they are exactly the sensor's rows of the table.
    pub fn fetch_history(&self, sensor_id: u128) -> (r: Result<Vec<SensorEntry>, DbError>)
        ensures
            r matches Ok(v) && sorted_by_time(v@) && v@.to_multiset() == entries_for(
                self.entries@,
                sensor_id,
            ).to_multiset(),
    {
        let ghost es = self.entries@;
        let ghost pred = |e: SensorEntry| e.sensor_id == sensor_id;
        let n = self.entries.len();
        let mut out: Vec<SensorEntry> = Vec::new();
        proof {
            reveal(Seq::filter);
            assert(es.subrange(0, 0) =~= Seq::<SensorEntry>::empty());
            assert(Seq::<SensorEntry>::empty().filter(pred) =~= Seq::<SensorEntry>::empty());
        }
        let mut i: usize = 0;
        while i < n
            invariant
                n == es.len(),
                i <= n,
                es == self.entries@,
                pred == (|e: SensorEntry| e.sensor_id == sensor_id),
                sorted_by_time(out@),
                out@.to_multiset() == es.subrange(0, i as int).filter(pred).to_multiset(),
            decreases n - i,
        {
            let e = self.entries[i];
            proof {
                lemma_filter_step(es, pred, i as int);
                broadcast use vstd::seq_lib::group_to_multiset_ensures;
            }
            if e.sensor_id == sensor_id {
                insert_sorted(&mut out, e);
            }
            i += 1;
        }
        proof {
            assert(es.subrange(0, n as int) =~= es);
        }
        Ok(out)
    }
}

/// Extending the scanned prefix does not change an already-found
/// result: once the first `k` rows decide, the whole table agrees.
proof fn lemma_find_prefix_extends(ss: Seq<Sensor>, id: u128, k: int)
    requires
        0 <= k <= ss.len(),
        spec_find_sensor(ss.subrange(0, k), id) is Some,
    ensures
        spec_find_sensor(ss, id) == spec_find_sensor(ss.subrange(0, k), id),
    decreases ss.len() - k,
{
    if k < ss.len() {
        lemma_find_sensor_push(ss.subrange(0, k), id, ss[k]);
        assert(ss.subrange(0, k).push(ss[k]) =~= ss.subrange(0, k + 1));
        lemma_find_prefix_extends(ss, id, k + 1);
    } else {
        assert(ss.subrange(0, k) =~= ss);
    }
}

/// One filtering step: the filtered prefix grows by the row exactly
/// when the row satisfies the predicate.
proof fn lemma_filter_step(es: Seq<SensorEntry>, pred: spec_fn(SensorEntry) -> bool, i: int)
    requires
        0 <= i < es.len(),
    ensures
        es.subrange(0, i + 1).filter(pred) == if pred(es[i]) {
            es.subrange(0, i).filter(pred).push(es[i])
        } else {
            es.subrange(0, i).filter(pred)
        },
{
    reveal(Seq::filter);
    let s1 = es.subrange(0, i + 1);
    assert(s1.drop_last() =~= es.subrange(0, i));
    assert(s1.last() == es[i]);
    if pred(es[i]) {
        assert(s1.filter(pred) =~= es.subrange(0, i).filter(pred).push(es[i]));
    }
}

/// Inserting anywhere adds the element to the multiset.
proof fn lemma_to_multiset_insert(s: Seq<SensorEntry>, i: int, x: SensorEntry)
    requires
        0 <= i <= s.len(),
    ensures
        s.insert(i, x).to_multiset() == s.to_multiset().insert(x),
{
    broadcast use vstd::seq_lib::group_to_multiset_ensures;
    let a = s.subrange(0, i);
    let b = s.subrange(i, s.len() as int);
    assert(s =~= a + b);
    assert(s.insert(i, x) =~= a.push(x) + b);
    lemma_multiset_commutative(a, b);
    lemma_multiset_commutative(a.push(x), b);
    assert(a.push(x).to_multiset() == a.to_multiset().insert(x));
    assert(s.insert(i, x).to_multiset() =~= s.to_multiset().insert(x));
}

/// Insert one reading into a time-sorted vector, keeping it sorted;
/// equal times place the new reading after the existing ones.
fn insert_sorted(out: &mut Vec<SensorEntry>, e: SensorEntry)
    requires
        sorted_by_time(old(out)@),
    ensures
        sorted_by_time(final(out)@),
        final(out)@.to_multiset() == old(out)@.to_multiset().insert(e),
{
    let n = out.len();
    let mut k: usize = 0;
    while k < n && out[k].created_at <= e.created_at
        invariant
            n == out@.len(),
            k <= n,
            out@ == old(out)@,
            forall|j: int| 0 <= j < k ==> out@[j].created_at <= e.created_at,
        decreases n - k,
    {
        k += 1;
    }
    proof {
        lemma_to_multiset_insert(out@, k as int, e);
    }
    out.insert(k, e);
    proof {
        let s = old(out)@;
        let t = final(out)@;
        assert(t =~= s.subrange(0, k as int).push(e) + s.subrange(k as int, s.len() as int));
        assert forall|p: int, q: int| 0 <= p < q < t.len() implies t[p].created_at
            <= t[q].created_at by {
            assert(forall|j: int| 0 <= j < k ==> t[j] == s[j]);
            assert(forall|j: int| k < j < t.len() ==> t[j] == s[j - 1]);
            assert(t[k as int] == e);
        }
    }
}

/// Appending readings that all belong to one sensor adds exactly those
/// readings to that sensor's history; no other reading joins it and
/// none is lost.
pub proof fn lemma_history_accumulates(es: Seq<SensorEntry>, extra: Seq<SensorEntry>, sid: u128)
    requires
        forall|i: int| 0 <= i < extra.len() ==> extra[i].sensor_id == sid,
    ensures
        entries_for(es + extra, sid).to_multiset() == entries_for(es, sid).to_multiset().add(
            extra.to_multiset(),
        ),
{
    let pred = |e: SensorEntry| e.sensor_id == sid;
    Seq::filter_distributes_over_add(es, extra, pred);
    lemma_filter_all(extra, pred);
    lemma_multiset_commutative(es.filter(pred), extra.filter(pred));
}

/// Filtering keeps a sequence whose members all satisfy the predicate.
proof fn lemma_filter_all(s: Seq<SensorEntry>, pred: spec_fn(SensorEntry) -> bool)
    requires
        forall|i: int| 0 <= i < s.len() ==> pred(s[i]),
    ensures
        s.filter(pred) == s,
    decreases s.len(),
{
    reveal(Seq::filter);
    if s.len() > 0 {
        lemma_filter_all(s.drop_last(), pred);
    }
}

/// Registering the same id twice returns the first row both times,
/// with the first label, and the second call changes nothing.
pub proof fn lemma_register_idempotent(ss: Seq<Sensor>, first: Sensor, second: Sensor)
    requires
        first.id == second.id,
        spec_find_sensor(ss, first.id) is None,
    ensures
        ({
            let (ss1, s1) = spec_register(ss, first);
            let (ss2, s2) = spec_register(ss1, second);
            s1 == first && s2 == first && ss2 == ss1 && ss1 == ss.push(first)
        }),
{
    lemma_find_sensor_push(ss, second.id, first);
}

} // verus!
