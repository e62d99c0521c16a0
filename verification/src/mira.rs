//! Event tags of the AMM data feed.

use vstd::prelude::*;

use crate::error::WsError;

verus! {

/// A pool event's kind.
#[derive(Clone, Copy, Debug, PartialEq, Eq, Structural)]
pub enum EventType {
    Mint,
    Burn,
    Swap,
}

pub open spec fn event_type_str(e: EventType) -> Seq<char> {
    match e {
        EventType::Mint => "Mint"@,
        EventType::Burn => "Burn"@,
        EventType::Swap => "Swap"@,
    }
}

impl EventType {
    pub fn as_str(&self) -> (r: &'static str)
        ensures
            r@ == event_type_str(*self),
    {
        match self {
            EventType::Mint => "Mint",
            EventType::Burn => "Burn",
            EventType::Swap => "Swap",
        }
    }

    /// The event a numeric tag denotes; tags outside the set are
    /// rejected.
    pub fn try_from(v: i32) -> (r: Result<EventType, WsError>)
        ensures
            match r {
                Ok(e) => (v == 0 && e == EventType::Mint) || (v == 1 && e == EventType::Burn) || (
                v == 2 && e == EventType::Swap),
                Err(err) => !(0 <= v <= 2) && (err matches WsError::UnknownEventType(w) && w == v),
            },
    {
        match v {
            0 => Ok(EventType::Mint),
            1 => Ok(EventType::Burn),
            2 => Ok(EventType::Swap),
            _ => Err(WsError::UnknownEventType(v)),
        }
    }
}

/// Which side of the book an order stands on.
#[derive(Clone, Copy, Debug, PartialEq, Eq, Structural)]
pub enum Side {
    Buy,
    Sell,
}

pub open spec fn side_str(s: Side) -> Seq<char> {
    match s {
        Side::Buy => "Buy"@,
        Side::Sell => "Sell"@,
    }
}

impl Side {
    pub fn as_str(&self) -> (r: &'static str)
        ensures
            r@ == side_str(*self),
    {
        match self {
            Side::Buy => "Buy",
            Side::Sell => "Sell",
        }
    }

    /// The side a numeric tag denotes; tags outside the set are
    /// rejected.
    pub fn try_from(v: i32) -> (r: Result<Side, WsError>)
        ensures
            match r {
                Ok(s) => (v == 0 && s == Side::Buy) || (v == 1 && s == Side::Sell),
                Err(err) => !(0 <= v <= 1) && (err matches WsError::UnknownSide(w) && w == v),
            },
    {
        match v {
            0 => Ok(Side::Buy),
            1 => Ok(Side::Sell),
            _ => Err(WsError::UnknownSide(v)),
        }
    }
}

} // verus!
