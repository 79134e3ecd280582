//! JSON bodies, built and specified character by character.
//!
//! Objects follow field order of the domain types. String content is
//! escaped exactly as the common serializers do: quote, backslash,
//! and control characters (with the short forms for backspace, tab,
//! newline, form feed, carriage return; `\u00XX` otherwise). The text
//! of a reading's numeric value is handed in by the edge that owns
//! the float formatter; everything around it is specified exactly.

use vstd::prelude::*;
use crate::domain::{Sensor, SensorEntry};
use crate::uuid_text::{format_uuid, hex_char_s, spec_uuid_text};

verus! {

/// How one character is written inside a JSON string.
pub open spec fn json_escape_char(c: char) -> Seq<char> {
    let u = c as u32;
    if c == '"' {
        seq!['\\', '"']
    } else if c == '\\' {
        seq!['\\', '\\']
    } else if u == 8 {
        seq!['\\', 'b']
    } else if u == 9 {
        seq!['\\', 't']
    } else if u == 10 {
        seq!['\\', 'n']
    } else if u == 12 {
        seq!['\\', 'f']
    } else if u == 13 {
        seq!['\\', 'r']
    } else if u < 32 {
        seq!['\\', 'u', '0', '0', hex_char_s(u as int / 16), hex_char_s(u as int % 16)]
    } else {
        seq![c]
    }
}

/// A whole string body, escaped.
pub open spec fn spec_json_escape(s: Seq<char>) -> Seq<char>
    decreases s.len(),
{
    if s.len() == 0 {
        Seq::<char>::empty()
    } else {
        spec_json_escape(s.drop_last()) + json_escape_char(s.last())
    }
}

/// Escape one string's content for inclusion in a JSON string.
pub fn json_escape(s: &str) -> (r: String)
    ensures
        r@ == spec_json_escape(s@),
{
    let n = s.unicode_len();
    let mut r = String::new();
    let mut i: usize = 0;
    proof {
        assert(s@.subrange(0, 0) =~= Seq::<char>::empty());
    }
    while i < n
        invariant
            n == s@.len(),
            i <= n,
            r@ == spec_json_escape(s@.subrange(0, i as int)),
        decreases n - i,
    {
        let c = s.get_char(i);
        proof {
            reveal_strlit("\\\"");
            reveal_strlit("\\\\");
            reveal_strlit("\\b");
            reveal_strlit("\\t");
            reveal_strlit("\\n");
            reveal_strlit("\\f");
            reveal_strlit("\\r");
            reveal_strlit("\\u00");
            assert(s@.subrange(0, i as int + 1).drop_last() =~= s@.subrange(0, i as int));
            assert(s@.subrange(0, i as int + 1).last() == s@[i as int]);
        }
        let u = c as u32;
        if c == '"' {
            r.append("\\\"");
        } else if c == '\\' {
            r.append("\\\\");
        } else if u == 8 {
            r.append("\\b");
        } else if u == 9 {
            r.append("\\t");
        } else if u == 10 {
            r.append("\\n");
        } else if u == 12 {
            r.append("\\f");
        } else if u == 13 {
            r.append("\\r");
        } else if u < 32 {
            r.append("\\u00");
            r.append(crate::uuid_text::hex_str((u / 16) as u8));
            r.append(crate::uuid_text::hex_str((u % 16) as u8));
        } else {
            r.append(s.substring_char(i, i + 1));
            proof {
                assert(s@.subrange(i as int, i as int + 1) =~= seq![s@[i as int]]);
            }
        }
        proof {
            assert(r@ =~= spec_json_escape(s@.subrange(0, i as int + 1)));
        }
        i += 1;
    }
    proof {
        assert(s@.subrange(0, n as int) =~= s@);
    }
    r
}

/// Decimal text of a non-negative value.
pub open spec fn spec_u64_dec(n: int) -> Seq<char>
    recommends
        n >= 0,
    decreases n,
{
    if n < 10 {
        seq![hex_char_s(n)]
    } else {
        spec_u64_dec(n / 10) + seq![hex_char_s(n % 10)]
    }
}

/// Decimal text of a signed value.
pub open spec fn spec_i64_dec(v: int) -> Seq<char> {
    if v < 0 {
        seq!['-'] + spec_u64_dec(-v)
    } else {
        spec_u64_dec(v)
    }
}

fn u64_dec(n: u64) -> (r: String)
    ensures
        r@ == spec_u64_dec(n as int),
    decreases n,
{
    if n < 10 {
        let r = crate::uuid_text::hex_str(n as u8).to_owned();
        proof {
            assert(r@ =~= spec_u64_dec(n as int));
        }
        r
    } else {
        let mut t = u64_dec(n / 10);
        t.append(crate::uuid_text::hex_str((n % 10) as u8));
        proof {
            assert(t@ =~= spec_u64_dec(n as int));
        }
        t
    }
}

/// Decimal text of a timestamp.
pub fn i64_dec(v: i64) -> (r: String)
    ensures
        r@ == spec_i64_dec(v as int),
{
    if v >= 0 {
        u64_dec(v as u64)
    } else {
        let mag: u64 = if v == i64::MIN {
            9223372036854775808u64
        } else {
            (-v) as u64
        };
        let mut t = String::new();
        t.append("-");
        t.append(u64_dec(mag).as_str());
        proof {
            reveal_strlit("-");
            assert(t@ =~= spec_i64_dec(v as int));
        }
        t
    }
}

/// The JSON object of one sensor.
pub open spec fn spec_sensor_json(s: Sensor) -> Seq<char> {
    "{\"id\":\""@ + spec_uuid_text(s.id) + "\",\"label\":\""@ + spec_json_escape(s.label@)
        + "\",\"created_at\":"@ + spec_i64_dec(s.created_at as int) + "}"@
}

/// Serialize one sensor.
pub fn sensor_json(s: &Sensor) -> (r: String)
    ensures
        r@ == spec_sensor_json(*s),
{
    let mut r = String::new();
    r.append("{\"id\":\"");
    r.append(format_uuid(s.id).as_str());
    r.append("\",\"label\":\"");
    r.append(json_escape(s.label.as_str()).as_str());
    r.append("\",\"created_at\":");
    r.append(i64_dec(s.created_at).as_str());
    r.append("}");
    proof {
        assert(r@ =~= spec_sensor_json(*s));
    }
    r
}

/// The JSON object of one reading, around the given value text.
pub open spec fn spec_entry_json(e: SensorEntry, value_text: Seq<char>) -> Seq<char> {
    "{\"id\":\""@ + spec_uuid_text(e.id) + "\",\"sensor_id\":\""@ + spec_uuid_text(e.sensor_id)
        + "\",\"value\":"@ + value_text + ",\"created_at\":"@ + spec_i64_dec(e.created_at as int)
        + "}"@
}

/// Serialize one reading. `value_text` is the JSON number text of the
/// reading's value, produced by the edge that owns the float
/// formatter; it is spliced, never altered.
pub fn entry_json(e: &SensorEntry, value_text: &str) -> (r: String)
    ensures
        r@ == spec_entry_json(*e, value_text@),
{
    let mut r = String::new();
    r.append("{\"id\":\"");
    r.append(format_uuid(e.id).as_str());
    r.append("\",\"sensor_id\":\"");
    r.append(format_uuid(e.sensor_id).as_str());
    r.append("\",\"value\":");
    r.append(value_text);
    r.append(",\"created_at\":");
    r.append(i64_dec(e.created_at).as_str());
    r.append("}");
    proof {
        assert(r@ =~= spec_entry_json(*e, value_text@));
    }
    r
}

/// Comma-separated concatenation.
pub open spec fn spec_csv(items: Seq<Seq<char>>) -> Seq<char>
    decreases items.len(),
{
    if items.len() == 0 {
        Seq::<char>::empty()
    } else if items.len() == 1 {
        items[0]
    } else {
        spec_csv(items.drop_last()) + seq![','] + items.last()
    }
}

/// A JSON array of already-serialized members.
pub fn json_array(parts: &Vec<String>) -> (r: String)
    ensures
        r@ == seq!['['] + spec_csv(parts@.map_values(|p: String| p@)) + seq![']'],
{
    let ghost views = parts@.map_values(|p: String| p@);
    let mut r = String::new();
    r.append("[");
    proof {
        reveal_strlit("[");
        reveal_strlit("]");
        reveal_strlit(",");
    }
    let n = parts.len();
    let mut i: usize = 0;
    while i < n
        invariant
            n == parts@.len(),
            i <= n,
            views == parts@.map_values(|p: String| p@),
            r@ == seq!['['] + spec_csv(views.subrange(0, i as int)),
        decreases n - i,
    {
        if i > 0 {
            r.append(",");
        }
        r.append(parts[i].as_str());
        proof {
            reveal_strlit(",");
            assert(views.subrange(0, i as int + 1).drop_last() =~= views.subrange(0, i as int));
            assert(views.subrange(0, i as int + 1).last() == views[i as int]);
            assert(views[i as int] == parts@[i as int]@);
            assert(r@ =~= seq!['['] + spec_csv(views.subrange(0, i as int + 1)));
        }
        i += 1;
    }
    r.append("]");
    proof {
        assert(views.subrange(0, n as int) =~= views);
        assert(r@ =~= seq!['['] + spec_csv(views) + seq![']']);
    }
    r
}

} // verus!
