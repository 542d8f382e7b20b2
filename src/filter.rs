//! Classification of events and the subscription filter.

use vstd::prelude::*;
use vstd::string::StringExecFns;
use vstd::utf8::encode_utf8;
use crate::json::JsonValue;
use crate::text::suffix_eq;
use crate::types::{DbEvent, EventType, Subscription};

verus! {

/// Where the segment starts that splitting `b` on `::`, left to right,
/// yields last; the scan is at `i` and the current segment began at `start`.
pub open spec fn segment_start_from(b: Seq<u8>, i: int, start: int) -> int
    decreases b.len() - i,
{
    if i + 1 >= b.len() {
        start
    } else if b[i] == 58 && b[i + 1] == 58 {
        segment_start_from(b, i + 2, i + 2)
    } else {
        segment_start_from(b, i + 1, start)
    }
}

/// The last of the pieces that splitting `b` on `::` gives.
pub open spec fn last_segment(b: Seq<u8>) -> Seq<u8> {
    b.subrange(segment_start_from(b, 0, 0), b.len() as int)
}

/// The kind whose name, in UTF-8, is `seg`.
pub open spec fn kind_named(seg: Seq<u8>) -> Option<EventType> {
    if seg == encode_utf8(EventType::Chat.spec_name()) {
        Some(EventType::Chat)
    } else if seg == encode_utf8(EventType::Swap.spec_name()) {
        Some(EventType::Swap)
    } else if seg == encode_utf8(EventType::Liquidity.spec_name()) {
        Some(EventType::Liquidity)
    } else if seg == encode_utf8(EventType::State.spec_name()) {
        Some(EventType::State)
    } else if seg == encode_utf8(EventType::GlobalState.spec_name()) {
        Some(EventType::GlobalState)
    } else if seg == encode_utf8(EventType::PeriodicState.spec_name()) {
        Some(EventType::PeriodicState)
    } else if seg == encode_utf8(EventType::MarketRegistration.spec_name()) {
        Some(EventType::MarketRegistration)
    } else {
        None
    }
}

/// The kind of an event: the one named by the last `::` segment of its
/// indexed type, if any is.
pub open spec fn event_kind(e: DbEvent) -> Option<EventType> {
    kind_named(last_segment(encode_utf8(e.indexed_type@)))
}

/// The market an event of kind `k` with payload `data` belongs to.
pub open spec fn market_of(data: JsonValue, k: EventType) -> Option<u64> {
    match k {
        EventType::Swap | EventType::Liquidity => match data.spec_get("market_id"@) {
            Some(v) => v.spec_as_id(),
            None => None,
        },
        EventType::GlobalState => None,
        _ => match data.spec_get("market_metadata"@) {
            Some(m) => match m.spec_get("market_id"@) {
                Some(v) => v.spec_as_id(),
                None => None,
            },
            None => None,
        },
    }
}

/// Whether a client with subscription `s` is to receive `e`.
pub open spec fn matches(s: Subscription, e: DbEvent) -> bool {
    if s.markets@.len() == 0 && s.event_types@.len() == 0 {
        true
    } else {
        match event_kind(e) {
            None => false,
            Some(k) => if s.event_types@.len() > 0 && !s.event_types@.contains(k) {
                false
            } else if s.markets@.len() == 0 {
                true
            } else if k == EventType::GlobalState {
                true
            } else {
                match market_of(e.data, k) {
                    Some(id) => s.markets@.contains(id),
                    None => false,
                }
            },
        }
    }
}

fn last_segment_start(b: &[u8]) -> (r: usize)
    ensures
        r as int == segment_start_from(b@, 0, 0),
        r <= b@.len(),
{
    let mut i: usize = 0;
    let mut start: usize = 0;
    while i < b.len()
        invariant
            0 <= start <= i <= b@.len(),
            segment_start_from(b@, i as int, start as int) == segment_start_from(b@, 0, 0),
        decreases b@.len() - i,
    {
        if i + 1 < b.len() && b[i] == 58u8 && b[i + 1] == 58u8 {
            i = i + 2;
            start = i;
        } else {
            i = i + 1;
        }
    }
    start
}

fn segment_names(b: &[u8], start: usize, k: EventType) -> (r: bool)
    requires
        start <= b@.len(),
    ensures
        r == (b@.subrange(start as int, b@.len() as int) == encode_utf8(k.spec_name())),
{
    suffix_eq(b, start, k.name().as_bytes())
}

/// The kind of an event, or a message saying why it has none.
pub fn get_event_type(event: &DbEvent) -> (r: Result<EventType, String>)
    ensures
        match r {
            Ok(k) => event_kind(*event) == Some(k),
            Err(msg) => event_kind(*event) is None && msg@ == "Got unknown event type: "@
                + event.indexed_type@,
        },
{
    let b = event.indexed_type.as_str().as_bytes();
    let start = last_segment_start(b);
    if segment_names(b, start, EventType::Chat) {
        Ok(EventType::Chat)
    } else if segment_names(b, start, EventType::Swap) {
        Ok(EventType::Swap)
    } else if segment_names(b, start, EventType::Liquidity) {
        Ok(EventType::Liquidity)
    } else if segment_names(b, start, EventType::State) {
        Ok(EventType::State)
    } else if segment_names(b, start, EventType::GlobalState) {
        Ok(EventType::GlobalState)
    } else if segment_names(b, start, EventType::PeriodicState) {
        Ok(EventType::PeriodicState)
    } else if segment_names(b, start, EventType::MarketRegistration) {
        Ok(EventType::MarketRegistration)
    } else {
        Err("Got unknown event type: ".to_owned().concat(event.indexed_type.as_str()))
    }
}

fn market_message(event_type: EventType, tail: &str) -> (r: String) {
    "Got event ".to_owned().concat(event_type.name()).concat(tail)
}

fn id_in(value: Option<&JsonValue>, event_type: EventType) -> (r: Result<u64, String>)
    ensures
        match value {
            Some(v) => match r {
                Ok(id) => v.spec_as_id() == Some(id),
                Err(_) => v.spec_as_id() is None,
            },
            None => r is Err,
        },
{
    match value {
        Some(v) => match v.as_id() {
            Some(id) => Ok(id),
            None => Err(market_message(event_type, " but market_id is not a number")),
        },
        None => Err(market_message(event_type, " with unknown format")),
    }
}

/// The market of an event taken as being of kind `event_type`, or a message
/// saying why it has none.
pub fn get_market_id(event: &DbEvent, event_type: EventType) -> (r: Result<u64, String>)
    ensures
        match r {
            Ok(id) => market_of(event.data, event_type) == Some(id),
            Err(_) => market_of(event.data, event_type) is None,
        },
{
    match event_type {
        EventType::Swap | EventType::Liquidity => id_in(event.data.get("market_id"), event_type),
        EventType::GlobalState => Err(
            market_message(event_type, " which does not have a market ID"),
        ),
        _ => match event.data.get("market_metadata") {
            Some(m) => id_in(m.get("market_id"), event_type),
            None => Err(market_message(event_type, " with unknown format")),
        },
    }
}

fn has_market(v: &Vec<u64>, x: u64) -> (r: bool)
    ensures
        r == v@.contains(x),
{
    let mut i: usize = 0;
    while i < v.len()
        invariant
            0 <= i <= v@.len(),
            forall|j: int| 0 <= j < i ==> v@[j] != x,
        decreases v@.len() - i,
    {
        if v[i] == x {
            return true;
        }
        i = i + 1;
    }
    false
}

fn has_kind(v: &Vec<EventType>, x: EventType) -> (r: bool)
    ensures
        r == v@.contains(x),
{
    let mut i: usize = 0;
    while i < v.len()
        invariant
            0 <= i <= v@.len(),
            forall|j: int| 0 <= j < i ==> v@[j] != x,
        decreases v@.len() - i,
    {
        if v[i] == x {
            return true;
        }
        i = i + 1;
    }
    false
}

/// Whether the client holding `subscription` is to receive `event`.
pub fn is_match(subscription: &Subscription, event: &DbEvent) -> (r: bool)
    ensures
        r == matches(*subscription, *event),
{
    if subscription.markets.len() == 0 && subscription.event_types.len() == 0 {
        return true;
    }
    let event_type = match get_event_type(event) {
        Ok(k) => k,
        Err(_) => {
            return false;
        },
    };
    if subscription.event_types.len() > 0 && !has_kind(&subscription.event_types, event_type) {
        return false;
    }
    if subscription.markets.len() == 0 {
        return true;
    }
    if event_type == EventType::GlobalState {
        return true;
    }
    match get_market_id(event, event_type) {
        Ok(id) => has_market(&subscription.markets, id),
        Err(_) => false,
    }
}

/// A subscription with no markets and no kinds receives every event.
pub proof fn lemma_wildcard_matches_all(s: Subscription, e: DbEvent)
    requires
        s.markets@.len() == 0,
        s.event_types@.len() == 0,
    ensures
        matches(s, e),
{
}

/// With no market restriction, a subscription to exactly one kind receives an
/// event of that kind and no event of another kind.
pub proof fn lemma_kind_filter(s: Subscription, e: DbEvent, k: EventType, wanted: EventType)
    requires
        event_kind(e) == Some(k),
        s.markets@.len() == 0,
        forall|x: EventType| s.event_types@.contains(x) <==> x == wanted,
    ensures
        matches(s, e) == (k == wanted),
{
    assert(s.event_types@.contains(wanted));
}

/// An event of kind `GlobalState` reaches every subscription that does not
/// leave that kind out, whatever markets it names.
pub proof fn lemma_global_state_bypasses_markets(s: Subscription, e: DbEvent)
    requires
        event_kind(e) == Some(EventType::GlobalState),
        s.event_types@.len() == 0 || s.event_types@.contains(EventType::GlobalState),
    ensures
        matches(s, e),
{
}

/// A `Swap` event whose payload gives market `m` reaches a subscription to
/// exactly one market, with no kind restriction, just when that market is `m`.
pub proof fn lemma_market_filter(s: Subscription, e: DbEvent, m: u64, wanted: u64)
    requires
        event_kind(e) == Some(EventType::Swap),
        market_of(e.data, EventType::Swap) == Some(m),
        s.event_types@.len() == 0,
        forall|x: u64| s.markets@.contains(x) <==> x == wanted,
    ensures
        matches(s, e) == (m == wanted),
{
    assert(s.markets@.contains(wanted));
}

} // verus!
