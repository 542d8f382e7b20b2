use publisher::filter::{get_event_type, get_market_id, is_match};
use publisher::json::{JsonNumber, JsonValue};
use publisher::text::parse_u64;
use publisher::types::{DbEvent, EventType, Subscription};

fn obj(entries: Vec<(&str, JsonValue)>) -> JsonValue {
    JsonValue::Object(entries.into_iter().map(|(k, v)| (k.to_string(), v)).collect())
}

fn num(n: u64) -> JsonValue {
    JsonValue::Number(JsonNumber::PosInt(n))
}

fn event(indexed_type: &str, data: JsonValue) -> DbEvent {
    DbEvent {
        sequence_number: 0,
        creation_number: 1,
        account_address: "0xabc".to_string(),
        transaction_version: 10,
        transaction_block_height: 5,
        type_: indexed_type.to_string(),
        data,
        event_index: 0,
        indexed_type: indexed_type.to_string(),
    }
}

fn swap_on(market: JsonValue) -> DbEvent {
    event("0x1::emojicoin::Swap", obj(vec![("market_id", market)]))
}

fn chat_on(market: u64) -> DbEvent {
    event(
        "0x1::emojicoin::Chat",
        obj(vec![("market_metadata", obj(vec![("market_id", num(market))]))]),
    )
}

fn sub(markets: Vec<u64>, event_types: Vec<EventType>) -> Subscription {
    Subscription { markets, event_types }
}

#[test]
fn wildcard_subscription_matches_everything() {
    let s = Subscription::default();
    assert!(is_match(&s, &swap_on(num(3))));
    assert!(is_match(&s, &event("0x1::m::Unknown", JsonValue::Null)));
    assert!(is_match(&s, &event("", JsonValue::Null)));
}

#[test]
fn kind_filter_selects_kind() {
    let e = swap_on(num(3));
    assert!(is_match(&sub(vec![], vec![EventType::Swap]), &e));
    assert!(!is_match(&sub(vec![], vec![EventType::Chat]), &e));
    assert!(is_match(&sub(vec![], vec![EventType::Chat, EventType::Swap]), &e));
}

#[test]
fn unclassifiable_event_only_reaches_wildcard() {
    let e = event("0x1::m::Unknown", obj(vec![("market_id", num(1))]));
    assert!(!is_match(&sub(vec![1], vec![]), &e));
    assert!(!is_match(&sub(vec![], vec![EventType::Swap]), &e));
}

#[test]
fn global_state_bypasses_market_filter() {
    let e = event("0x1::emojicoin::GlobalState", JsonValue::Null);
    assert!(is_match(&sub(vec![42], vec![]), &e));
    assert!(is_match(&sub(vec![42], vec![EventType::GlobalState]), &e));
    assert!(!is_match(&sub(vec![42], vec![EventType::Swap]), &e));
}

#[test]
fn market_filter_selects_market() {
    let e = swap_on(num(7));
    assert!(is_match(&sub(vec![7], vec![]), &e));
    assert!(!is_match(&sub(vec![8], vec![]), &e));
    assert!(is_match(&sub(vec![8, 7], vec![EventType::Swap]), &e));
}

#[test]
fn market_id_as_numeric_string() {
    let e = swap_on(JsonValue::Str("7".to_string()));
    assert_eq!(get_market_id(&e, EventType::Swap), Ok(7));
    assert!(is_match(&sub(vec![7], vec![]), &e));
    assert!(!is_match(&sub(vec![8], vec![]), &e));
}

#[test]
fn market_id_from_metadata() {
    let e = chat_on(2);
    assert_eq!(get_market_id(&e, EventType::Chat), Ok(2));
    assert_eq!(get_market_id(&e, EventType::State), Ok(2));
    assert!(get_market_id(&e, EventType::Swap).is_err());
}

#[test]
fn market_id_failures() {
    let e = swap_on(JsonValue::Str("seven".to_string()));
    assert_eq!(
        get_market_id(&e, EventType::Swap),
        Err("Got event Swap but market_id is not a number".to_string())
    );
    assert!(!is_match(&sub(vec![7], vec![]), &e));
    let missing = event("0x1::emojicoin::Liquidity", obj(vec![]));
    assert_eq!(
        get_market_id(&missing, EventType::Liquidity),
        Err("Got event Liquidity with unknown format".to_string())
    );
    assert_eq!(
        get_market_id(&missing, EventType::GlobalState),
        Err("Got event GlobalState which does not have a market ID".to_string())
    );
    let negative = swap_on(JsonValue::Number(JsonNumber::NegInt(-1)));
    assert!(get_market_id(&negative, EventType::Swap).is_err());
}

#[test]
fn event_type_from_last_segment() {
    let k = |t: &str| get_event_type(&event(t, JsonValue::Null));
    assert_eq!(k("0x1::emojicoin::Chat"), Ok(EventType::Chat));
    assert_eq!(k("PeriodicState"), Ok(EventType::PeriodicState));
    assert_eq!(k("a::b::MarketRegistration"), Ok(EventType::MarketRegistration));
    assert_eq!(k("a::Liquidity"), Ok(EventType::Liquidity));
    assert_eq!(k("a:::Chat"), Err("Got unknown event type: a:::Chat".to_string()));
    assert_eq!(k("a::chat"), Err("Got unknown event type: a::chat".to_string()));
    assert_eq!(k("a::Chat::"), Err("Got unknown event type: a::Chat::".to_string()));
}

#[test]
fn event_type_names() {
    assert_eq!(EventType::GlobalState.name(), "GlobalState");
    assert_eq!(EventType::Swap.name(), "Swap");
}

#[test]
fn parse_decimal_ids() {
    assert_eq!(parse_u64("0"), Some(0));
    assert_eq!(parse_u64("+12"), Some(12));
    assert_eq!(parse_u64("18446744073709551615"), Some(u64::MAX));
    assert_eq!(parse_u64("18446744073709551616"), None);
    assert_eq!(parse_u64(""), None);
    assert_eq!(parse_u64("+"), None);
    assert_eq!(parse_u64("-1"), None);
    assert_eq!(parse_u64(" 1"), None);
    assert_eq!(parse_u64("1a"), None);
}

#[test]
fn object_lookup_takes_first_entry() {
    let v = obj(vec![("a", num(1)), ("b", num(2)), ("a", num(3))]);
    assert_eq!(v.get("a"), Some(&num(1)));
    assert_eq!(v.get("b"), Some(&num(2)));
    assert_eq!(v.get("c"), None);
    assert_eq!(num(1).get("a"), None);
}
