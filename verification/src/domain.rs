//! Domain model: sensors and their gas readings.
//!
//! Identifiers are 128-bit values (the wire format writes them as UUID
//! text). A reading's parts-per-million value is carried as the bit
//! pattern of a 64-bit IEEE 754 number; the store and the bus accept a
//! reading only when that pattern encodes a finite number.

use vstd::prelude::*;

verus! {

/// Upper bound on the length of a sensor label, in characters.
pub const LABEL_MAX: usize = 64;

/// A registered device: identifier, human-readable label, and the Unix
/// epoch second at which it was first registered.
#[derive(Debug)]
pub struct Sensor {
    pub id: u128,
    pub label: String,
    pub created_at: i64,
}

/// A single gas-concentration reading. `value_bits` is the IEEE 754 bit
/// pattern of the parts-per-million value; `created_at` is the Unix
/// epoch second at which the reading was persisted.
#[derive(Clone, Copy, Debug, PartialEq, Eq, Structural)]
pub struct SensorEntry {
    pub id: u128,
    pub sensor_id: u128,
    pub value_bits: u64,
    pub created_at: i64,
}

impl Sensor {
    /// Structural copy; `Sensor` holds a `String`, so it is not `Copy`.
    pub fn duplicate(&self) -> (r: Sensor)
        ensures
            r == *self,
    {
        Sensor { id: self.id, label: self.label.clone(), created_at: self.created_at }
    }
}

/// A 64-bit IEEE 754 pattern encodes a finite number exactly when its
/// exponent field is not all ones (all ones means NaN or an infinity).
pub open spec fn spec_is_finite(bits: u64) -> bool {
    (bits >> 52) & 0x7ff != 0x7ff
}

/// Runtime check matching `spec_is_finite`.
pub fn is_finite_value(bits: u64) -> (b: bool)
    ensures
        b == spec_is_finite(bits),
{
    (bits >> 52) & 0x7ff != 0x7ff
}

/// A label the store accepts: non-empty and bounded.
pub open spec fn valid_label(label: Seq<char>) -> bool {
    0 < label.len() <= LABEL_MAX
}

} // verus!
