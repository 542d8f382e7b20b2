//! The canonical event record, its kinds, and a client's subscription.

use vstd::prelude::*;
use crate::json::JsonValue;

verus! {

/// The kinds of event that a subscription can ask for.
#[derive(Clone, Copy, Debug, PartialEq, Eq, Structural, Hash)]
pub enum EventType {
    Chat,
    Swap,
    Liquidity,
    State,
    GlobalState,
    PeriodicState,
    MarketRegistration,
}

impl EventType {
    /// The kind's name, as it ends a qualified type name.
    pub open spec fn spec_name(self) -> Seq<char> {
        match self {
            EventType::Chat => "Chat"@,
            EventType::Swap => "Swap"@,
            EventType::Liquidity => "Liquidity"@,
            EventType::State => "State"@,
            EventType::GlobalState => "GlobalState"@,
            EventType::PeriodicState => "PeriodicState"@,
            EventType::MarketRegistration => "MarketRegistration"@,
        }
    }

    pub fn name(&self) -> (r: &'static str)
        ensures
            r@ == self.spec_name(),
    {
        match self {
            EventType::Chat => "Chat",
            EventType::Swap => "Swap",
            EventType::Liquidity => "Liquidity",
            EventType::State => "State",
            EventType::GlobalState => "GlobalState",
            EventType::PeriodicState => "PeriodicState",
            EventType::MarketRegistration => "MarketRegistration",
        }
    }
}

/// What one client asks to receive. An empty list puts no restriction on
/// its dimension; with both empty every event is delivered.
#[derive(Debug, PartialEq)]
pub struct Subscription {
    pub markets: Vec<u64>,
    pub event_types: Vec<EventType>,
}

impl Default for Subscription {
    fn default() -> (r: Self)
        ensures
            r.markets@.len() == 0,
            r.event_types@.len() == 0,
    {
        Subscription { markets: Vec::new(), event_types: Vec::new() }
    }
}

/// One event as it comes from the processor. It is never changed once made.
#[derive(Debug, PartialEq)]
pub struct DbEvent {
    pub sequence_number: i64,
    pub creation_number: i64,
    pub account_address: String,
    pub transaction_version: i64,
    pub transaction_block_height: i64,
    pub type_: String,
    pub data: JsonValue,
    pub event_index: i64,
    pub indexed_type: String,
}

} // verus!
