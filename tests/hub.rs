use publisher::filter::is_match;
use publisher::hub::{Hub, RecvError, DEFAULT_CAPACITY};
use publisher::json::{JsonNumber, JsonValue};
use publisher::types::{DbEvent, EventType, Subscription};

#[test]
fn send_without_receivers_keeps_nothing() {
    let mut hub: Hub<u32> = Hub::new(4);
    assert_eq!(hub.send(1), Err(1));
    assert_eq!(hub.published(), 0);
    let mut rx = hub.subscribe();
    assert_eq!(hub.try_recv(&mut rx), Err(RecvError::Empty));
}

#[test]
fn receiver_starts_at_now() {
    let mut hub: Hub<u32> = Hub::new(4);
    let mut a = hub.subscribe();
    assert_eq!(hub.send(1), Ok(1));
    let mut b = hub.subscribe();
    assert_eq!(hub.send(2), Ok(2));
    assert_eq!(hub.try_recv(&mut a), Ok(&1));
    assert_eq!(hub.try_recv(&mut a), Ok(&2));
    assert_eq!(hub.try_recv(&mut a), Err(RecvError::Empty));
    assert_eq!(hub.try_recv(&mut b), Ok(&2));
    assert_eq!(hub.try_recv(&mut b), Err(RecvError::Empty));
}

#[test]
fn lagging_receiver_skips_to_oldest() {
    let mut hub: Hub<u32> = Hub::new(2);
    let mut rx = hub.subscribe();
    for v in 0..5 {
        assert_eq!(hub.send(v), Ok(1));
    }
    assert_eq!(hub.try_recv(&mut rx), Err(RecvError::Lagged(3)));
    assert_eq!(rx.next_position(), 3);
    assert_eq!(hub.try_recv(&mut rx), Ok(&3));
    assert_eq!(hub.try_recv(&mut rx), Ok(&4));
    assert_eq!(hub.try_recv(&mut rx), Err(RecvError::Empty));
}

#[test]
fn send_does_not_wait_for_slow_receivers() {
    let mut hub: Hub<u64> = Hub::new(DEFAULT_CAPACITY);
    let mut slow = Vec::new();
    for _ in 0..16 {
        slow.push(hub.subscribe());
    }
    for v in 0..(3 * DEFAULT_CAPACITY as u64) {
        assert_eq!(hub.send(v), Ok(16));
    }
    assert_eq!(hub.published(), 3 * DEFAULT_CAPACITY as u64);
    assert_eq!(hub.held_len(), DEFAULT_CAPACITY);
    let rx = &mut slow[0];
    assert_eq!(hub.try_recv(rx), Err(RecvError::Lagged(2 * DEFAULT_CAPACITY as u64)));
    assert_eq!(hub.try_recv(rx), Ok(&(2 * DEFAULT_CAPACITY as u64)));
}

#[test]
fn unsubscribe_counts_down() {
    let mut hub: Hub<u8> = Hub::new(1);
    let rx = hub.subscribe();
    assert_eq!(hub.receiver_count(), 1);
    hub.unsubscribe(rx);
    assert_eq!(hub.receiver_count(), 0);
    assert_eq!(hub.send(9), Err(9));
}

fn market_event(kind: &str, market: u64) -> DbEvent {
    let id = ("market_id".to_string(), JsonValue::Number(JsonNumber::PosInt(market)));
    let data = if kind == "Swap" {
        JsonValue::Object(vec![id])
    } else {
        JsonValue::Object(vec![("market_metadata".to_string(), JsonValue::Object(vec![id]))])
    };
    DbEvent {
        sequence_number: market as i64,
        creation_number: 0,
        account_address: "0x1".to_string(),
        transaction_version: 1,
        transaction_block_height: 1,
        type_: format!("0x1::emojicoin::{kind}"),
        data,
        event_index: 0,
        indexed_type: format!("0x1::emojicoin::{kind}"),
    }
}

#[test]
fn streaming_client_receives_only_matching_event() {
    let mut hub: Hub<DbEvent> = Hub::new(DEFAULT_CAPACITY);
    let subscription = Subscription { markets: vec![1], event_types: vec![EventType::Chat] };
    let mut rx = hub.subscribe();
    hub.send(market_event("Swap", 1)).unwrap();
    hub.send(market_event("Chat", 2)).unwrap();
    hub.send(market_event("Chat", 1)).unwrap();
    let mut delivered = Vec::new();
    while let Ok(e) = hub.try_recv(&mut rx) {
        if is_match(&subscription, e) {
            delivered.push(e);
        }
    }
    assert_eq!(delivered, vec![&market_event("Chat", 1)]);
}
