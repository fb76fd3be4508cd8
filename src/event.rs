use vstd::prelude::*;
use crate::amount::{Amount, parse_amount, is_amount_text, amount_milli};

verus! {

/// What an audience interaction was.
#[derive(Debug, Clone, Copy, PartialEq, Eq, Structural)]
pub enum EventKind {
    Donation,
    Follow,
    Subscription,
    Bits,
    Unknown,
}

/// One entry of a pushed event's message list, as the transport sent it.
#[derive(Debug, Clone)]
pub struct RawMessage {
    pub name: String,
    pub amount: Option<String>,
}

/// The fields of a pushed event payload, before validation.
#[derive(Debug, Clone)]
pub struct RawEvent {
    pub event_id: String,
    pub event_type: String,
    pub event_for: Option<String>,
    pub messages: Vec<RawMessage>,
}

/// A validated audience event. `amount` is present exactly for donations
/// and bits.
#[derive(Debug, Clone)]
pub struct Event {
    pub kind: EventKind,
    pub source: String,
    pub amount: Option<Amount>,
    pub raw_id: String,
}

/// Why a payload could not be turned into an event.
#[derive(Debug, Clone)]
pub enum DecodeError {
    /// The payload lacks its type, or a donation or bits event lacks its amount.
    Malformed,
    /// The amount text, as sent, is no non-negative decimal number.
    InvalidAmount(String),
}

/// The sub-source that follows, subscriptions and bits must come from.
pub open spec fn stream_source() -> Seq<char> {
    "twitch_account"@
}

/// The kind that a `(type, for)` pair of the transport stands for.
pub open spec fn kind_of(event_type: Seq<char>, event_for: Option<Seq<char>>) -> EventKind {
    if event_type == "donation"@ && event_for is None {
        EventKind::Donation
    } else if event_for == Some(stream_source()) && event_type == "follow"@ {
        EventKind::Follow
    } else if event_for == Some(stream_source()) && event_type == "subscription"@ {
        EventKind::Subscription
    } else if event_for == Some(stream_source()) && event_type == "bits"@ {
        EventKind::Bits
    } else {
        EventKind::Unknown
    }
}

pub open spec fn for_view(event_for: Option<String>) -> Option<Seq<char>> {
    match event_for {
        Some(s) => Some(s@),
        None => None,
    }
}

pub open spec fn raw_kind(raw: RawEvent) -> EventKind {
    kind_of(raw.event_type@, for_view(raw.event_for))
}

pub open spec fn needs_amount(k: EventKind) -> bool {
    k is Donation || k is Bits
}

/// The amount text of the first message, if there is one.
pub open spec fn first_amount(raw: RawEvent) -> Option<Seq<char>> {
    if raw.messages@.len() > 0 {
        match raw.messages@[0].amount {
            Some(a) => Some(a@),
            None => None,
        }
    } else {
        None
    }
}

/// The sender named in the first message, or the empty text.
pub open spec fn source_of(raw: RawEvent) -> Seq<char> {
    if raw.messages@.len() > 0 {
        raw.messages@[0].name@
    } else {
        Seq::empty()
    }
}

pub open spec fn amount_ok(s: Seq<char>) -> bool {
    is_amount_text(s) && amount_milli(s) <= u64::MAX
}

/// A payload without a type, or a donation or bits payload without an amount.
pub open spec fn is_malformed(raw: RawEvent) -> bool {
    raw.event_type@.len() == 0 || (needs_amount(raw_kind(raw)) && first_amount(raw) is None)
}

/// A well-formed donation or bits payload whose amount text is no amount.
pub open spec fn has_bad_amount(raw: RawEvent) -> bool {
    &&& !is_malformed(raw)
    &&& needs_amount(raw_kind(raw))
    &&& !amount_ok(first_amount(raw)->0)
}

/// The amount a decoded event carries.
pub open spec fn decoded_amount(raw: RawEvent) -> Option<Amount> {
    if needs_amount(raw_kind(raw)) {
        Some(Amount { milli: amount_milli(first_amount(raw)->0) as u64 })
    } else {
        None
    }
}

/// `e` is the event that a well-formed payload stands for.
pub open spec fn decodes_to(raw: RawEvent, e: Event) -> bool {
    &&& e.kind == raw_kind(raw)
    &&& e.source@ == source_of(raw)
    &&& e.raw_id@ == raw.event_id@
    &&& e.amount == decoded_amount(raw)
}

/// Character-by-character equality of two texts.
pub fn same_text(a: &str, b: &str) -> (r: bool)
    ensures
        r == (a@ == b@),
{
    let n = a.unicode_len();
    if n != b.unicode_len() {
        return false;
    }
    let mut i: usize = 0;
    while i < n
        invariant
            i <= n,
            n == a@.len(),
            n == b@.len(),
            forall|j: int| 0 <= j < i ==> a@[j] == b@[j],
        decreases n - i,
    {
        if a.get_char(i) != b.get_char(i) {
            return false;
        }
        i += 1;
    }
    assert(a@ =~= b@);
    true
}

/// Classifies a `(type, for)` pair of the transport.
pub fn classify(event_type: &str, event_for: Option<&str>) -> (k: EventKind)
    ensures
        k == kind_of(
            event_type@,
            match event_for {
                Some(s) => Some(s@),
                None => None,
            },
        ),
{
    match event_for {
        None => {
            if same_text(event_type, "donation") {
                EventKind::Donation
            } else {
                EventKind::Unknown
            }
        },
        Some(f) => {
            if !same_text(f, "twitch_account") {
                EventKind::Unknown
            } else if same_text(event_type, "follow") {
                EventKind::Follow
            } else if same_text(event_type, "subscription") {
                EventKind::Subscription
            } else if same_text(event_type, "bits") {
                EventKind::Bits
            } else {
                EventKind::Unknown
            }
        },
    }
}

/// Validates a payload's fields into an event. Unrecognized `(type, for)`
/// pairs give an event of kind `Unknown`, which is no error.
pub fn decode(raw: &RawEvent) -> (r: Result<Event, DecodeError>)
    ensures
        r is Err <==> is_malformed(*raw) || has_bad_amount(*raw),
        is_malformed(*raw) ==> r matches Err(DecodeError::Malformed),
        has_bad_amount(*raw) ==> (r matches Err(DecodeError::InvalidAmount(t)) && t@
            == first_amount(*raw)->0),
        r matches Ok(e) ==> decodes_to(*raw, e),
{
    if raw.event_type.as_str().unicode_len() == 0 {
        return Err(DecodeError::Malformed);
    }
    let kind = match &raw.event_for {
        Some(f) => classify(raw.event_type.as_str(), Some(f.as_str())),
        None => classify(raw.event_type.as_str(), None),
    };
    let source = if raw.messages.len() > 0 {
        raw.messages[0].name.clone()
    } else {
        String::new()
    };
    let amount = match kind {
        EventKind::Donation | EventKind::Bits => {
            if raw.messages.len() == 0 {
                return Err(DecodeError::Malformed);
            }
            match &raw.messages[0].amount {
                None => {
                    return Err(DecodeError::Malformed);
                },
                Some(text) => match parse_amount(text.as_str()) {
                    None => {
                        return Err(DecodeError::InvalidAmount(text.clone()));
                    },
                    Some(a) => Some(a),
                },
            }
        },
        _ => None,
    };
    Ok(Event { kind, source, amount, raw_id: raw.event_id.clone() })
}

} // verus!
