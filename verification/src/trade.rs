use vstd::prelude::*;
use crate::number::{parse_i64, parsed_i64};
use crate::price::{format_price, price_text};

verus! {

/// Direction of an order.
#[derive(Debug, Clone, Copy, PartialEq, Eq, Structural)]
pub enum TradeSide {
    Sell,
    Buy,
}

/// Kind of an order.
#[derive(Debug, Clone, Copy, PartialEq, Eq, Structural)]
pub enum OrderType {
    Market,
    Limit,
    StopLoss,
}

/// The wire code of a side: 0 for buy, 1 for sell.
pub open spec fn side_code(side: TradeSide) -> u8 {
    match side {
        TradeSide::Buy => 0,
        TradeSide::Sell => 1,
    }
}

/// The wire code of an order type: 0 market, 1 limit, 2 stop-loss.
pub open spec fn order_type_code(order_type: OrderType) -> u8 {
    match order_type {
        OrderType::Market => 0,
        OrderType::Limit => 1,
        OrderType::StopLoss => 2,
    }
}

/// The side that closes a position opened on `side`.
pub open spec fn opposite_side(side: TradeSide) -> TradeSide {
    match side {
        TradeSide::Buy => TradeSide::Sell,
        TradeSide::Sell => TradeSide::Buy,
    }
}

impl TradeSide {
    /// The wire code of this side.
    pub fn code(self) -> (c: u8)
        ensures
            c == side_code(self),
    {
        match self {
            TradeSide::Buy => 0,
            TradeSide::Sell => 1,
        }
    }

    /// The side that closes a position opened on this side.
    pub fn opposite(self) -> (s: TradeSide)
        ensures
            s == opposite_side(self),
    {
        match self {
            TradeSide::Buy => TradeSide::Sell,
            TradeSide::Sell => TradeSide::Buy,
        }
    }
}

impl OrderType {
    /// The wire code of this order type.
    pub fn code(self) -> (c: u8)
        ensures
            c == order_type_code(self),
    {
        match self {
            OrderType::Market => 0,
            OrderType::Limit => 1,
            OrderType::StopLoss => 2,
        }
    }
}

/// Body of an order placement request.
#[derive(Debug)]
pub struct TradeRequest {
    pub market_type_id: u8,
    pub trade_type: u8,
    pub trade_type_x: u8,
    pub trade_rate: Option<String>,
    pub trade_qty: u32,
    pub trade_lot: u8,
    pub check_script_name: String,
    pub user_id: String,
    pub device_type: u8,
    pub script_id: Option<String>,
    pub script_expiry_id: Option<String>,
}

/// `r` is the request `TradeRequest::new` makes from these arguments.
pub open spec fn fresh_request(
    r: TradeRequest,
    product: Seq<char>,
    price: Option<u128>,
    side: TradeSide,
    order_type: OrderType,
    trade_qty: u32,
    market_type_id: u8,
) -> bool {
    &&& r.market_type_id == market_type_id
    &&& r.trade_type == side_code(side)
    &&& r.trade_type_x == order_type_code(order_type)
    &&& price is None ==> r.trade_rate is None
    &&& price matches Some(p) ==> (r.trade_rate matches Some(t) && t@ == price_text(p as nat))
    &&& r.trade_qty == trade_qty
    &&& r.trade_lot == 1
    &&& r.check_script_name@ == product
    &&& r.device_type == 0
}

impl TradeRequest {
    /// A request for `trade_qty` of `product`; `price` is in paise and is
    /// sent as its rupee text. One lot, no user, no script ids yet.
    pub fn new(
        product: &str,
        price: Option<u128>,
        side: TradeSide,
        order_type: OrderType,
        trade_qty: u32,
        market_type_id: u8,
    ) -> (r: Self)
        ensures
            fresh_request(r, product@, price, side, order_type, trade_qty, market_type_id),
            r.user_id@ == Seq::<char>::empty(),
            r.script_id is None,
            r.script_expiry_id is None,
    {
        let trade_rate = match price {
            Some(p) => Some(format_price(p)),
            None => None,
        };
        TradeRequest {
            market_type_id,
            trade_type: side.code(),
            trade_type_x: order_type.code(),
            trade_rate,
            trade_qty,
            trade_lot: 1,
            check_script_name: String::from_str(product),
            user_id: String::new(),
            device_type: 0,
            script_id: None,
            script_expiry_id: None,
        }
    }
}

/// A JSON scalar as the response tables carry it: a non-negative integer,
/// a negative integer, a string, or anything else (float, bool, null, ...).
#[derive(Debug, Clone, PartialEq, Eq)]
pub enum JsonScalar {
    Unsigned(u64),
    Negative(i64),
    Text(String),
    Other,
}

/// The text of a string cell.
pub open spec fn scalar_text(v: JsonScalar) -> Option<Seq<char>> {
    match v {
        JsonScalar::Text(s) => Some(s@),
        _ => None,
    }
}

/// The text of a string cell, if it is one.
pub fn scalar_string(v: &JsonScalar) -> (r: Option<String>)
    ensures
        r is None <==> scalar_text(*v) is None,
        r matches Some(s) ==> scalar_text(*v) == Some(s@),
{
    match v {
        JsonScalar::Text(s) => Some(s.clone()),
        _ => None,
    }
}

/// Magnitude of a signed integer.
pub open spec fn abs_of(i: int) -> nat {
    if i < 0 {
        (-i) as nat
    } else {
        i as nat
    }
}

/// What a cell means as a count: the integer itself, the magnitude of a
/// negative integer or of an integer written as text, otherwise 0.
pub open spec fn scalar_to_u64(v: JsonScalar) -> u64 {
    match v {
        JsonScalar::Unsigned(u) => u,
        JsonScalar::Negative(i) => abs_of(i as int) as u64,
        JsonScalar::Text(s) => match parsed_i64(s@) {
            Some(i) => abs_of(i as int) as u64,
            None => 0,
        },
        JsonScalar::Other => 0,
    }
}

/// Magnitude of `i`, as `i64::unsigned_abs`.
fn unsigned_abs(i: i64) -> (r: u64)
    ensures
        r == abs_of(i as int),
{
    if i < 0 {
        if i == i64::MIN {
            9223372036854775808u64
        } else {
            (-i) as u64
        }
    } else {
        i as u64
    }
}

/// Reads a cell as a count: see `scalar_to_u64`.
pub fn value_to_u64(v: &JsonScalar) -> (r: u64)
    ensures
        r == scalar_to_u64(*v),
{
    match v {
        JsonScalar::Unsigned(u) => *u,
        JsonScalar::Negative(i) => unsigned_abs(*i),
        JsonScalar::Text(s) => match parse_i64(s.as_str()) {
            Some(i) => unsigned_abs(i),
            None => 0,
        },
        JsonScalar::Other => 0,
    }
}

} // verus!
