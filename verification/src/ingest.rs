//! Broker-side ingestion: payload grammar and the listener decisions.
//!
//! A payload is UTF-8 text `<head>|<rest>`, split at the first `|`.
//! On the gas topic the head must be UUID text and the rest names the
//! reading; on the register topic the rest is the label. Every
//! malformed message maps to a `Drop` decision — never to a store or
//! a broadcast action — and no decision ever stops the listener loop
//! except the transport's own disconnect.

use vstd::prelude::*;
use crate::domain::{LABEL_MAX, spec_is_finite, valid_label};
use crate::uuid_text::{parse_uuid, spec_parse_uuid};

verus! {

/// Index of the first `|`, or -1.
pub open spec fn first_bar_idx(s: Seq<char>) -> int
    decreases s.len(),
{
    if s.len() == 0 {
        -1
    } else if s[0] == '|' {
        0
    } else {
        let r = first_bar_idx(s.drop_first());
        if r < 0 {
            -1
        } else {
            r + 1
        }
    }
}

/// What `first_bar_idx` finds: the least `|` position, if any.
pub proof fn lemma_first_bar_charac(s: Seq<char>)
    ensures
        first_bar_idx(s) == -1 ==> forall|j: int| 0 <= j < s.len() ==> s[j] != '|',
        first_bar_idx(s) >= 0 ==> first_bar_idx(s) < s.len() && s[first_bar_idx(s)] == '|'
            && forall|j: int| 0 <= j < first_bar_idx(s) ==> s[j] != '|',
    decreases s.len(),
{
    if s.len() > 0 && s[0] != '|' {
        lemma_first_bar_charac(s.drop_first());
        let d = s.drop_first();
        let r = first_bar_idx(d);
        if r < 0 {
            assert forall|j: int| 0 <= j < s.len() implies s[j] != '|' by {
                if j > 0 {
                    assert(d[j - 1] == s[j]);
                }
            }
        } else {
            assert(first_bar_idx(s) == r + 1);
            assert(d[r] == s[r + 1]);
            assert forall|j: int| 0 <= j < r + 1 implies s[j] != '|' by {
                if j > 0 {
                    assert(d[j - 1] == s[j]);
                }
            }
        }
    }
}

/// Head and rest around the first `|`, if any.
pub open spec fn spec_split(s: Seq<char>) -> Option<(Seq<char>, Seq<char>)> {
    let i = first_bar_idx(s);
    if i < 0 {
        None
    } else {
        Some((s.subrange(0, i), s.subrange(i + 1, s.len() as int)))
    }
}

/// Split a payload at its first `|`.
pub fn split_payload(s: &str) -> (r: Option<(String, String)>)
    ensures
        match r {
            Some((a, b)) => spec_split(s@) == Some((a@, b@)),
            None => spec_split(s@) is None,
        },
{
    let n = s.unicode_len();
    let mut i: usize = 0;
    while i < n
        invariant
            n == s@.len(),
            i <= n,
            forall|j: int| 0 <= j < i ==> s@[j] != '|',
        decreases n - i,
    {
        if s.get_char(i) == '|' {
            let a = s.substring_char(0, i).to_owned();
            let b = s.substring_char(i + 1, n).to_owned();
            proof {
                lemma_first_bar_charac(s@);
                assert(first_bar_idx(s@) == i as int);
            }
            return Some((a, b));
        }
        i += 1;
    }
    proof {
        lemma_first_bar_charac(s@);
    }
    None
}

/// Character-wise string equality.
pub fn str_eq(a: &str, b: &str) -> (r: bool)
    ensures
        r == (a@ == b@),
{
    let n = a.unicode_len();
    let m = b.unicode_len();
    if n != m {
        return false;
    }
    let mut i: usize = 0;
    while i < n
        invariant
            n == a@.len(),
            n == b@.len(),
            i <= n,
            forall|j: int| 0 <= j < i ==> a@[j] == b@[j],
        decreases n - i,
    {
        if a.get_char(i) != b.get_char(i) {
            return false;
        }
        i += 1;
    }
    proof {
        assert(a@ =~= b@);
    }
    true
}

/// Why a message was dropped.
#[derive(Clone, Copy, Debug, PartialEq, Eq, Structural)]
pub enum DropReason {
    /// The topic is neither ingestion topic.
    UnknownTopic,
    /// The payload has no `|` separator.
    MissingSeparator,
    /// The head is not UUID text.
    BadSensorId,
    /// The label is empty or over the bound.
    BadLabel,
    /// The reading is not numeric text.
    BadPpm,
    /// The reading is NaN or an infinity.
    NonFinitePpm,
}

/// The decision taken for one broker message.
pub enum IngestAction {
    /// Persist a gas reading, then broadcast it. `ppm_text` still has
    /// to pass the numeric gate before the store is called.
    SaveGas { sensor_id: u128, ppm_text: String },
    /// Register a sensor. No broadcast.
    Register { sensor_id: u128, label: String },
    /// Log and drop; no row, no broadcast.
    Drop(DropReason),
}

/// Ghost image of an `IngestAction`.
pub enum SpecIngest {
    Gas(u128, Seq<char>),
    Reg(u128, Seq<char>),
    Drop(DropReason),
}

/// The exec decision carries exactly the ghost decision.
pub open spec fn action_matches(a: IngestAction, s: SpecIngest) -> bool {
    match a {
        IngestAction::SaveGas { sensor_id, ppm_text } => s == SpecIngest::Gas(
            sensor_id,
            ppm_text@,
        ),
        IngestAction::Register { sensor_id, label } => s == SpecIngest::Reg(sensor_id, label@),
        IngestAction::Drop(why) => s == SpecIngest::Drop(why),
    }
}

pub open spec fn gas_topic() -> Seq<char> {
    "iot/sensor/gas"@
}

pub open spec fn register_topic() -> Seq<char> {
    "iot/sensor/register"@
}

/// The whole message decision: topic gate, separator, identifier, and
/// label bound. Anything malformed is dropped with its reason.
pub open spec fn spec_dispatch(topic: Seq<char>, payload: Seq<char>) -> SpecIngest {
    if topic == gas_topic() {
        match spec_split(payload) {
            None => SpecIngest::Drop(DropReason::MissingSeparator),
            Some((head, rest)) => match spec_parse_uuid(head) {
                None => SpecIngest::Drop(DropReason::BadSensorId),
                Some(u) => SpecIngest::Gas(u, rest),
            },
        }
    } else if topic == register_topic() {
        match spec_split(payload) {
            None => SpecIngest::Drop(DropReason::MissingSeparator),
            Some((head, rest)) => match spec_parse_uuid(head) {
                None => SpecIngest::Drop(DropReason::BadSensorId),
                Some(u) => if valid_label(rest) {
                    SpecIngest::Reg(u, rest)
                } else {
                    SpecIngest::Drop(DropReason::BadLabel)
                },
            },
        }
    } else {
        SpecIngest::Drop(DropReason::UnknownTopic)
    }
}

/// Decide what to do with one broker message.
pub fn dispatch(topic: &str, payload: &str) -> (r: IngestAction)
    ensures
        action_matches(r, spec_dispatch(topic@, payload@)),
{
    if str_eq(topic, "iot/sensor/gas") {
        match split_payload(payload) {
            None => IngestAction::Drop(DropReason::MissingSeparator),
            Some((head, rest)) => match parse_uuid(head.as_str()) {
                None => IngestAction::Drop(DropReason::BadSensorId),
                Some(u) => IngestAction::SaveGas { sensor_id: u, ppm_text: rest },
            },
        }
    } else if str_eq(topic, "iot/sensor/register") {
        match split_payload(payload) {
            None => IngestAction::Drop(DropReason::MissingSeparator),
            Some((head, rest)) => match parse_uuid(head.as_str()) {
                None => IngestAction::Drop(DropReason::BadSensorId),
                Some(u) => {
                    let len = rest.as_str().unicode_len();
                    if 0 < len && len <= LABEL_MAX {
                        IngestAction::Register { sensor_id: u, label: rest }
                    } else {
                        IngestAction::Drop(DropReason::BadLabel)
                    }
                },
            },
        }
    } else {
        IngestAction::Drop(DropReason::UnknownTopic)
    }
}

/// What the numeric gate decides: only a finite, parsed value passes.
pub open spec fn spec_accept_ppm(parsed_bits: Option<u64>) -> Result<u64, DropReason> {
    match parsed_bits {
        None => Err(DropReason::BadPpm),
        Some(b) => if spec_is_finite(b) {
            Ok(b)
        } else {
            Err(DropReason::NonFinitePpm)
        },
    }
}

/// The numeric gate for a gas reading: the edge hands in the bit
/// pattern its float parser produced, or nothing if the text did not
/// parse; only a finite value passes.
pub fn accept_ppm(parsed_bits: Option<u64>) -> (r: Result<u64, DropReason>)
    ensures
        r == spec_accept_ppm(parsed_bits),
{
    match parsed_bits {
        None => Err(DropReason::BadPpm),
        Some(b) => {
            if crate::domain::is_finite_value(b) {
                Ok(b)
            } else {
                Err(DropReason::NonFinitePpm)
            }
        },
    }
}

/// What the transport reported to the listener loop.
pub enum BrokerEvent {
    /// A message arrived.
    Message { topic: String, payload: String },
    /// A read failed for any reason other than disconnect.
    ReadError,
    /// The transport is gone.
    Disconnected,
}

/// What the listener loop does next.
pub enum ListenerStep {
    /// Handle this decision, then read again.
    Act(IngestAction),
    /// Read again; errors other than disconnect never stop the loop.
    Continue,
    /// Clean exit on disconnect.
    Exit,
}

/// One turn of the listener loop: disconnect exits, any other read
/// error is ignored, and a message is decided by `dispatch`.
pub fn listener_step(ev: BrokerEvent) -> (r: ListenerStep)
    ensures
        match ev {
            BrokerEvent::Message { topic, payload } => r matches ListenerStep::Act(a)
                && action_matches(a, spec_dispatch(topic@, payload@)),
            BrokerEvent::ReadError => r is Continue,
            BrokerEvent::Disconnected => r is Exit,
        },
{
    match ev {
        BrokerEvent::Message { topic, payload } => ListenerStep::Act(
            dispatch(topic.as_str(), payload.as_str()),
        ),
        BrokerEvent::ReadError => ListenerStep::Continue,
        BrokerEvent::Disconnected => ListenerStep::Exit,
    }
}

/// No malformed gas message reaches the store or the bus: without a
/// separator, with a bad identifier, or (past the numeric gate) with a
/// non-numeric or non-finite reading, the decision is a `Drop` or an
/// `Err` — never a store or broadcast action.
pub proof fn lemma_malformed_is_dropped(topic: Seq<char>, payload: Seq<char>, bits: Option<u64>)
    ensures
        first_bar_idx(payload) < 0 && (topic == gas_topic() || topic == register_topic())
            ==> spec_dispatch(topic, payload) == SpecIngest::Drop(DropReason::MissingSeparator),
        (spec_dispatch(topic, payload) matches SpecIngest::Gas(u, rest) ==> spec_parse_uuid(
            spec_split(payload)->Some_0.0,
        ) == Some(u)),
        bits is None || !spec_is_finite(bits->Some_0) ==> !(spec_accept_ppm(bits) is Ok),
{
}

} // verus!
