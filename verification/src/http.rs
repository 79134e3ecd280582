//! HTTP read surface: status mapping and response bodies.
//!
//! The routing, the listener socket, and the stream transport live at
//! the process edge; what each endpoint returns for each store state
//! is decided and serialized here.

use vstd::prelude::*;
use crate::domain::{Sensor, SensorEntry};
use crate::errors::DbError;
use crate::json::{entry_json, json_array, sensor_json, spec_csv, spec_entry_json, spec_sensor_json};
use crate::store::{spec_find_sensor, MemoryStore};

verus! {

/// Domain errors on the read surface: absence is 404, everything else
/// is a server-side failure.
pub fn status_for_error(e: &DbError) -> (r: u16)
    ensures
        r == (match *e {
            DbError::NotFound => 404u16,
            _ => 500u16,
        }),
{
    match e {
        DbError::NotFound => 404,
        _ => 500,
    }
}

/// The liveness probe body.
pub fn ping_body() -> (r: String)
    ensures
        r@ == "pong"@,
{
    proof {
        reveal_strlit("pong");
    }
    "pong".to_owned()
}

/// Body of the sensor list endpoint: every sensor, in table order.
pub fn list_sensors_body(store: &MemoryStore) -> (r: String)
    ensures
        r@ == seq!['['] + spec_csv(store.sensors@.map_values(|s: Sensor| spec_sensor_json(s)))
            + seq![']'],
{
    let ghost views = store.sensors@.map_values(|s: Sensor| spec_sensor_json(s));
    let n = store.sensors.len();
    let mut parts: Vec<String> = Vec::new();
    let mut i: usize = 0;
    while i < n
        invariant
            n == store.sensors@.len(),
            i <= n,
            views == store.sensors@.map_values(|s: Sensor| spec_sensor_json(s)),
            parts@.len() == i,
            forall|j: int| 0 <= j < i ==> parts@[j]@ == views[j],
        decreases n - i,
    {
        parts.push(sensor_json(&store.sensors[i]));
        i += 1;
    }
    let r = json_array(&parts);
    proof {
        assert(parts@.map_values(|p: String| p@) =~= views);
    }
    r
}

/// Status and body of the sensor detail endpoint: the row as JSON, or
/// 404 with an empty body.
pub fn sensor_detail_response(store: &MemoryStore, id: u128) -> (r: (u16, String))
    ensures
        match spec_find_sensor(store.sensors@, id) {
            Some(s) => r.0 == 200 && r.1@ == spec_sensor_json(s),
            None => r.0 == 404 && r.1@.len() == 0,
        },
{
    match store.fetch_one(id) {
        Ok(s) => (200, sensor_json(&s)),
        Err(_) => (404, String::new()),
    }
}

/// Body of the history endpoint: the given entries in their given
/// order, each around its own value text (the float formatter at the
/// edge supplies one text per entry).
pub fn history_body(entries: &Vec<SensorEntry>, value_texts: &Vec<String>) -> (r: String)
    requires
        entries@.len() == value_texts@.len(),
    ensures
        r@ == seq!['['] + spec_csv(
            Seq::new(entries@.len(), |i: int| spec_entry_json(entries@[i], value_texts@[i]@)),
        ) + seq![']'],
{
    let ghost views = Seq::new(
        entries@.len(),
        |i: int| spec_entry_json(entries@[i], value_texts@[i]@),
    );
    let n = entries.len();
    let mut parts: Vec<String> = Vec::new();
    let mut i: usize = 0;
    while i < n
        invariant
            n == entries@.len(),
            entries@.len() == value_texts@.len(),
            i <= n,
            views == Seq::new(
                entries@.len(),
                |i: int| spec_entry_json(entries@[i], value_texts@[i]@),
            ),
            parts@.len() == i,
            forall|j: int| 0 <= j < i ==> parts@[j]@ == views[j],
        decreases n - i,
    {
        parts.push(entry_json(&entries[i], value_texts[i].as_str()));
        i += 1;
    }
    let r = json_array(&parts);
    proof {
        assert(parts@.map_values(|p: String| p@) =~= views);
    }
    r
}

} // verus!
