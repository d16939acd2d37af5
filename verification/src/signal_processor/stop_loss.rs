//! The trailing stop-loss that protects an open position.
//!
//! The worker places a stop order just beyond the market, then keeps
//! watching quotes; whenever the market has moved far enough in the
//! position's favour it deletes the old stop and places a new, tighter one.
//! Stops only ever move in the position's favour.
use vstd::prelude::*;
use crate::gmglobal_watcher::Quote;
use crate::number::{format_i64, signed_decimal};
use crate::price::{round_div, round_to_5_paisa};
use crate::text::{contains_seq, contains_text, lowercase, to_lowercase};
use crate::trade::{opposite_side, OrderType, TradeSide};

verus! {

/// Attempts at each placement or deletion, and failed rounds tolerated in a row.
pub const MAX_ATTEMPTS: u32 = 10;

/// Pause before retrying the first stop, in milliseconds.
pub const FIRST_RETRY_MILLIS: u64 = 2000;

/// Pause before retrying a deletion or a trailing placement, in milliseconds.
pub const RETRY_MILLIS: u64 = 1000;

/// Pause between two looks at the market, in milliseconds.
pub const REST_MILLIS: u64 = 6000;

/// The price a stop is measured from: the lower of bid and last trade for a
/// long position, the higher of ask and last trade for a short one.
pub open spec fn stop_base(entry: TradeSide, q: Quote) -> nat {
    match entry {
        TradeSide::Buy => if q.bid <= q.ltp {
            q.bid as nat
        } else {
            q.ltp as nat
        },
        TradeSide::Sell => if q.ask >= q.ltp {
            q.ask as nat
        } else {
            q.ltp as nat
        },
    }
}

/// The stop for a quote, in 5-paise ticks: 0.1% below the base for a long
/// position, 0.1% above it for a short one, rounded to the nearest tick.
pub open spec fn stop_ticks(entry: TradeSide, q: Quote) -> nat {
    match entry {
        TradeSide::Buy => round_div(stop_base(entry, q) * 999, 5000),
        TradeSide::Sell => round_div(stop_base(entry, q) * 1001, 5000),
    }
}

/// Computes `stop_ticks`.
pub fn stop_price_ticks(entry: TradeSide, q: &Quote) -> (t: u64)
    ensures
        t == stop_ticks(entry, *q),
{
    match entry {
        TradeSide::Buy => {
            let base: u64 = if q.bid <= q.ltp { q.bid } else { q.ltp };
            let r = round_to_5_paisa((base as u128) * 999, 1000);
            assert(r <= (base as u128)) by (nonlinear_arith)
                requires r == (2 * ((base as u128) * 999) + 5000) / 10000;
            r as u64
        },
        TradeSide::Sell => {
            let base: u64 = if q.ask >= q.ltp { q.ask } else { q.ltp };
            let r = round_to_5_paisa((base as u128) * 1001, 1000);
            assert(r <= (base as u128)) by (nonlinear_arith)
                requires r == (2 * ((base as u128) * 1001) + 5000) / 10000;
            r as u64
        },
    }
}

/// Whether a new stop of `new` ticks improves on the current one: at least a
/// tick higher for a long position, at least a tick lower for a short one.
pub open spec fn improves(entry: TradeSide, new: nat, current: nat) -> bool {
    match entry {
        TradeSide::Buy => new >= current + 1,
        TradeSide::Sell => new + 1 <= current,
    }
}

/// The id an accepted order reports, as the broker's `trade.trade_id` field holds it.
#[derive(Debug, Clone, PartialEq, Eq)]
pub enum TradeId {
    Number(i64),
    Text(String),
    Missing,
}

/// The text of a reported id: the decimal of a number, the text itself.
pub open spec fn trade_id_text(id: TradeId) -> Option<Seq<char>> {
    match id {
        TradeId::Number(n) => Some(signed_decimal(n as int)),
        TradeId::Text(s) => Some(s@),
        TradeId::Missing => None,
    }
}

/// The text of a reported id, if there is one.
pub fn trade_id_string(id: &TradeId) -> (r: Option<String>)
    ensures
        r is None <==> trade_id_text(*id) is None,
        r matches Some(s) ==> trade_id_text(*id) == Some(s@),
{
    match id {
        TradeId::Number(n) => Some(format_i64(*n)),
        TradeId::Text(s) => Some(s.clone()),
        TradeId::Missing => None,
    }
}

/// A deletion error that says the order is already gone: its lowercase text
/// mentions "already", "not found" or "executed".
pub open spec fn order_gone(msg: Seq<char>) -> bool {
    gone_text(lowercase(msg))
}

/// An already lowercased deletion error that mentions "already", "not found"
/// or "executed".
pub open spec fn gone_text(m: Seq<char>) -> bool {
    ||| contains_seq(m, seq!['a', 'l', 'r', 'e', 'a', 'd', 'y'])
    ||| contains_seq(m, seq!['n', 'o', 't', ' ', 'f', 'o', 'u', 'n', 'd'])
    ||| contains_seq(m, seq!['e', 'x', 'e', 'c', 'u', 't', 'e', 'd'])
}

/// Whether an already lowercased deletion error says the order is gone.
pub fn says_gone(lowered: &str) -> (r: bool)
    ensures
        r == gone_text(lowered@),
{
    proof {
        reveal_strlit("already");
        reveal_strlit("not found");
        reveal_strlit("executed");
    }
    assert("already"@ =~= seq!['a', 'l', 'r', 'e', 'a', 'd', 'y']);
    assert("not found"@ =~= seq!['n', 'o', 't', ' ', 'f', 'o', 'u', 'n', 'd']);
    assert("executed"@ =~= seq!['e', 'x', 'e', 'c', 'u', 't', 'e', 'd']);
    contains_text(lowered, "already") || contains_text(lowered, "not found") || contains_text(
        lowered,
        "executed",
    )
}

/// Whether a deletion error says the order is already gone.
pub fn is_order_gone(msg: &str) -> (r: bool)
    ensures
        r == order_gone(msg@),
{
    let m = to_lowercase(msg);
    says_gone(m.as_str())
}

/// Where the worker stands. `attempts` counts the failures of the current
/// placement or deletion so far.
#[derive(Debug, Clone, Copy, PartialEq, Eq, Structural)]
pub enum StopPhase {
    /// The first quote was asked for.
    AwaitFirstQuote,
    /// The first stop, at `ticks`, was sent.
    PlacingFirst { ticks: u64, attempts: u32 },
    /// Waiting to send the first stop again.
    RetryFirst { ticks: u64, attempts: u32 },
    /// A quote was asked for.
    AwaitQuote,
    /// Deletion of the old stop was sent; it is to be replaced at `ticks`.
    Deleting { ticks: u64, attempts: u32 },
    /// Waiting to send the deletion again.
    RetryDelete { ticks: u64, attempts: u32 },
    /// A new stop at `ticks` was sent.
    Placing { ticks: u64, attempts: u32 },
    /// Waiting to send the new stop again.
    RetryPlace { ticks: u64, attempts: u32 },
    /// Pausing before the next look at the market.
    Resting,
    /// The worker has stopped.
    Finished,
}

/// What the driver reports back.
pub enum StopEvent {
    Quote(Quote),
    /// A stop order was accepted, reporting this id.
    Placed(TradeId),
    PlaceFailed,
    Deleted,
    /// A deletion was refused with this message.
    DeleteFailed(String),
    Slept,
}

/// The order the worker protects: what every stop order it sends carries.
#[derive(Debug, Clone, PartialEq, Eq)]
pub struct StopOrderParams {
    pub product: String,
    pub qty: u32,
    pub market_type_id: u8,
    pub script_id: Option<String>,
    pub script_expiry_id: Option<String>,
}

/// The abstract view of the protected order.
pub struct StopParams {
    pub product: Seq<char>,
    pub qty: u32,
    pub market_type_id: u8,
    pub script_id: Option<Seq<char>>,
    pub script_expiry_id: Option<Seq<char>>,
}

/// The view of an optional text.
pub open spec fn opt_text(o: Option<String>) -> Option<Seq<char>> {
    match o {
        Some(t) => Some(t@),
        None => None,
    }
}

impl View for StopOrderParams {
    type V = StopParams;

    open spec fn view(&self) -> StopParams {
        StopParams {
            product: self.product@,
            qty: self.qty,
            market_type_id: self.market_type_id,
            script_id: opt_text(self.script_id),
            script_expiry_id: opt_text(self.script_expiry_id),
        }
    }
}

/// What the driver is asked to do next.
#[derive(Debug, Clone, PartialEq, Eq)]
pub enum StopAction {
    /// Ask for a quote of `product`.
    FetchQuote { product: String },
    /// Send a stop-loss order at `ticks` 5-paise ticks.
    PlaceStop {
        product: String,
        side: TradeSide,
        order_type: OrderType,
        ticks: u64,
        qty: u32,
        market_type_id: u8,
        script_id: Option<String>,
        script_expiry_id: Option<String>,
    },
    DeleteOrder { order_id: String },
    Sleep { millis: u64 },
    Exit,
}

/// The abstract state of a worker.
pub struct StopState {
    pub entry: TradeSide,
    pub params: StopParams,
    pub sl_id: Option<Seq<char>>,
    pub old_id: Option<Seq<char>>,
    pub sl_ticks: Option<u64>,
    pub failures: u32,
    pub phase: StopPhase,
}

/// The trailing stop-loss worker for one position.
pub struct StopLossWorker {
    entry: TradeSide,
    /// The order being protected.
    params: StopOrderParams,
    /// The live stop order, if one is known.
    sl_id: Option<String>,
    /// The stop order being deleted.
    old_id: Option<String>,
    /// The price of the last stop placed, in ticks.
    sl_ticks: Option<u64>,
    /// Failed rounds in a row.
    failures: u32,
    phase: StopPhase,
}

impl View for StopLossWorker {
    type V = StopState;

    closed spec fn view(&self) -> StopState {
        StopState {
            entry: self.entry,
            params: self.params@,
            sl_id: match self.sl_id {
                Some(s) => Some(s@),
                None => None,
            },
            old_id: match self.old_id {
                Some(s) => Some(s@),
                None => None,
            },
            sl_ticks: self.sl_ticks,
            failures: self.failures,
            phase: self.phase,
        }
    }
}

/// The abstract view of a request.
pub enum StopRequest {
    FetchQuote { product: Seq<char> },
    PlaceStop {
        product: Seq<char>,
        side: TradeSide,
        order_type: OrderType,
        ticks: u64,
        qty: u32,
        market_type_id: u8,
        script_id: Option<Seq<char>>,
        script_expiry_id: Option<Seq<char>>,
    },
    DeleteOrder { order_id: Seq<char> },
    Sleep { millis: u64 },
    Exit,
}

impl View for StopAction {
    type V = StopRequest;

    open spec fn view(&self) -> StopRequest {
        match self {
            StopAction::FetchQuote { product } => StopRequest::FetchQuote { product: product@ },
            StopAction::PlaceStop {
                product,
                side,
                order_type,
                ticks,
                qty,
                market_type_id,
                script_id,
                script_expiry_id,
            } => StopRequest::PlaceStop {
                product: product@,
                side: *side,
                order_type: *order_type,
                ticks: *ticks,
                qty: *qty,
                market_type_id: *market_type_id,
                script_id: opt_text(*script_id),
                script_expiry_id: opt_text(*script_expiry_id),
            },
            StopAction::DeleteOrder { order_id } => StopRequest::DeleteOrder { order_id: order_id@ },
            StopAction::Sleep { millis } => StopRequest::Sleep { millis: *millis },
            StopAction::Exit => StopRequest::Exit,
        }
    }
}

/// The worker's invariant. Attempt counters stay within the limit and
/// failures below it; while a stop is being replaced no live stop is held,
/// the old one is known exactly while it is being deleted, and the new price
/// improves on the last stop placed.
pub open spec fn stop_wf(s: StopState) -> bool {
    let trailing = |t: u64| s.sl_ticks matches Some(c) && improves(s.entry, t as nat, c as nat);
    &&& s.failures <= MAX_ATTEMPTS
    &&& s.phase != StopPhase::Finished ==> s.failures < MAX_ATTEMPTS
    &&& match s.phase {
        StopPhase::AwaitFirstQuote => s.sl_id is None && s.old_id is None && s.sl_ticks is None,
        StopPhase::PlacingFirst { ticks, attempts } => attempts < MAX_ATTEMPTS && s.sl_id is None
            && s.old_id is None && s.sl_ticks is None,
        StopPhase::RetryFirst { ticks, attempts } => 0 < attempts < MAX_ATTEMPTS && s.sl_id is None
            && s.old_id is None && s.sl_ticks is None,
        StopPhase::AwaitQuote => s.old_id is None && s.sl_ticks is Some,
        StopPhase::Deleting { ticks, attempts } => attempts < MAX_ATTEMPTS && s.sl_id is None
            && s.old_id is Some && trailing(ticks),
        StopPhase::RetryDelete { ticks, attempts } => 0 < attempts <= MAX_ATTEMPTS && s.sl_id is None
            && s.old_id is Some && trailing(ticks),
        StopPhase::Placing { ticks, attempts } => attempts < MAX_ATTEMPTS && s.sl_id is None
            && s.old_id is None && trailing(ticks),
        StopPhase::RetryPlace { ticks, attempts } => 0 < attempts <= MAX_ATTEMPTS && s.sl_id is None
            && s.old_id is None && trailing(ticks),
        StopPhase::Resting => s.old_id is None && s.sl_ticks is Some,
        StopPhase::Finished => true,
    }
}

/// The request for a quote of the protected product.
pub open spec fn fetch(s: StopState) -> StopRequest {
    StopRequest::FetchQuote { product: s.params.product }
}

/// The stop order at `ticks`: the protected product, quantity, market type
/// and script ids, on the side that closes the position.
pub open spec fn place(s: StopState, ticks: u64) -> StopRequest {
    StopRequest::PlaceStop {
        product: s.params.product,
        side: opposite_side(s.entry),
        order_type: OrderType::StopLoss,
        ticks,
        qty: s.params.qty,
        market_type_id: s.params.market_type_id,
        script_id: s.params.script_id,
        script_expiry_id: s.params.script_expiry_id,
    }
}

/// The state with a new phase.
pub open spec fn with_phase(s: StopState, p: StopPhase) -> StopState {
    StopState { phase: p, ..s }
}

/// The worker stops for good.
pub open spec fn finish(s: StopState) -> (StopState, StopRequest) {
    (with_phase(s, StopPhase::Finished), StopRequest::Exit)
}

/// A failed round: one more failure in a row; the tenth ends the worker,
/// otherwise it looks at the market again at once. A stop that could not be
/// deleted is forgotten.
pub open spec fn failed_round(s: StopState) -> (StopState, StopRequest) {
    let f = (s.failures + 1) as u32;
    if f >= MAX_ATTEMPTS {
        (StopState { failures: f, old_id: None, phase: StopPhase::Finished, ..s }, StopRequest::Exit)
    } else {
        (
            StopState { failures: f, old_id: None, phase: StopPhase::AwaitQuote, ..s },
            fetch(s),
        )
    }
}

/// The stop order being deleted, as its text.
pub open spec fn old_order(s: StopState) -> Seq<char> {
    match s.old_id {
        Some(o) => o,
        None => Seq::empty(),
    }
}

/// One step of the worker: the next state and the request it makes.
pub open spec fn stop_next(s: StopState, e: StopEvent) -> (StopState, StopRequest) {
    match (s.phase, e) {
        (StopPhase::Finished, _) => finish(s),
        (StopPhase::AwaitFirstQuote, StopEvent::Quote(q)) => {
            let t = stop_ticks(s.entry, q) as u64;
            (
                with_phase(s, StopPhase::PlacingFirst { ticks: t, attempts: 0 }),
                place(s, t),
            )
        },
        (StopPhase::PlacingFirst { ticks, attempts }, StopEvent::Placed(id)) => {
            let text = match trade_id_text(id) {
                Some(t) => t,
                None => seq!['0'],
            };
            (
                StopState {
                    sl_id: Some(text),
                    sl_ticks: Some(ticks),
                    failures: 0,
                    phase: StopPhase::AwaitQuote,
                    ..s
                },
                fetch(s),
            )
        },
        (StopPhase::PlacingFirst { ticks, attempts }, StopEvent::PlaceFailed) => {
            if attempts + 1 >= MAX_ATTEMPTS {
                finish(s)
            } else {
                (
                    with_phase(s, StopPhase::RetryFirst { ticks, attempts: (attempts + 1) as u32 }),
                    StopRequest::Sleep { millis: FIRST_RETRY_MILLIS },
                )
            }
        },
        (StopPhase::RetryFirst { ticks, attempts }, StopEvent::Slept) => (
            with_phase(s, StopPhase::PlacingFirst { ticks, attempts }),
            place(s, ticks),
        ),
        (StopPhase::AwaitQuote, StopEvent::Quote(q)) => {
            let t = stop_ticks(s.entry, q);
            let update = match s.sl_ticks {
                None => true,
                Some(c) => improves(s.entry, t, c as nat),
            };
            if !update {
                (with_phase(s, StopPhase::Resting), StopRequest::Sleep { millis: REST_MILLIS })
            } else {
                match s.sl_id {
                    Some(old) => (
                        StopState {
                            sl_id: None,
                            old_id: Some(old),
                            phase: StopPhase::Deleting { ticks: t as u64, attempts: 0 },
                            ..s
                        },
                        StopRequest::DeleteOrder { order_id: old },
                    ),
                    None => (
                        with_phase(s, StopPhase::Placing { ticks: t as u64, attempts: 0 }),
                        place(s, t as u64),
                    ),
                }
            }
        },
        (StopPhase::Deleting { ticks, attempts }, StopEvent::Deleted) => (
            StopState {
                failures: 0,
                old_id: None,
                phase: StopPhase::Placing { ticks, attempts: 0 },
                ..s
            },
            place(s, ticks),
        ),
        (StopPhase::Deleting { ticks, attempts }, StopEvent::DeleteFailed(msg)) => {
            if order_gone(msg@) {
                finish(s)
            } else {
                (
                    with_phase(s, StopPhase::RetryDelete { ticks, attempts: (attempts + 1) as u32 }),
                    StopRequest::Sleep { millis: RETRY_MILLIS },
                )
            }
        },
        (StopPhase::RetryDelete { ticks, attempts }, StopEvent::Slept) => {
            if attempts < MAX_ATTEMPTS {
                (
                    with_phase(s, StopPhase::Deleting { ticks, attempts }),
                    StopRequest::DeleteOrder { order_id: old_order(s) },
                )
            } else {
                failed_round(s)
            }
        },
        (StopPhase::Placing { ticks, attempts }, StopEvent::Placed(id)) => match trade_id_text(id) {
            Some(text) => (
                StopState {
                    sl_id: Some(text),
                    sl_ticks: Some(ticks),
                    failures: 0,
                    phase: StopPhase::Resting,
                    ..s
                },
                StopRequest::Sleep { millis: REST_MILLIS },
            ),
            None => (with_phase(s, StopPhase::Resting), StopRequest::Sleep { millis: REST_MILLIS }),
        },
        (StopPhase::Placing { ticks, attempts }, StopEvent::PlaceFailed) => (
            with_phase(s, StopPhase::RetryPlace { ticks, attempts: (attempts + 1) as u32 }),
            StopRequest::Sleep { millis: RETRY_MILLIS },
        ),
        (StopPhase::RetryPlace { ticks, attempts }, StopEvent::Slept) => {
            if attempts < MAX_ATTEMPTS {
                (
                    with_phase(s, StopPhase::Placing { ticks, attempts }),
                    place(s, ticks),
                )
            } else {
                failed_round(s)
            }
        },
        (StopPhase::Resting, StopEvent::Slept) => (
            with_phase(s, StopPhase::AwaitQuote),
            fetch(s),
        ),
        _ => finish(s),
    }
}

/// A stop never exceeds its base, so it fits the price type.
pub proof fn lemma_stop_ticks_fit(entry: TradeSide, q: Quote)
    ensures
        stop_ticks(entry, q) <= stop_base(entry, q) <= u64::MAX,
{
    let b = stop_base(entry, q);
    let t = stop_ticks(entry, q);
    if entry == TradeSide::Buy {
        assert(t <= b) by (nonlinear_arith)
            requires t == (2 * (b * 999) + 5000) / 10000;
    } else {
        assert(t <= b) by (nonlinear_arith)
            requires t == (2 * (b * 1001) + 5000) / 10000;
    }
}

/// Every step keeps the worker's invariant.
pub proof fn law_stop_invariant_kept(s: StopState, e: StopEvent)
    requires
        stop_wf(s),
    ensures
        stop_wf(stop_next(s, e).0),
{
    if let StopEvent::Quote(q) = e {
        lemma_stop_ticks_fit(s.entry, q);
    }
}

/// Every stop order carries the protected product, quantity, market type and
/// script ids, is a stop-loss, and goes out on the side that closes the
/// position; every quote asked for is of the protected product. No step
/// changes the position's side or the protected order.
pub proof fn law_stop_order_arguments(s: StopState, e: StopEvent)
    ensures
        stop_next(s, e).0.entry == s.entry,
        stop_next(s, e).0.params == s.params,
        stop_next(s, e).1 matches StopRequest::PlaceStop {
            product,
            side,
            order_type,
            qty,
            market_type_id,
            script_id,
            script_expiry_id,
            ..
        } ==> {
            &&& product == s.params.product
            &&& side == opposite_side(s.entry)
            &&& order_type == OrderType::StopLoss
            &&& qty == s.params.qty
            &&& market_type_id == s.params.market_type_id
            &&& script_id == s.params.script_id
            &&& script_expiry_id == s.params.script_expiry_id
        },
        stop_next(s, e).1 matches StopRequest::FetchQuote { product } ==> product == s.params.product,
{
}

/// The recorded stop only ever moves in the position's favour: up for a
/// long position, down for a short one, and by at least a tick when it moves.
pub proof fn law_stop_only_tightens(s: StopState, e: StopEvent)
    requires
        stop_wf(s),
    ensures
        s.sl_ticks matches Some(c) ==> {
            let n = stop_next(s, e).0;
            n.sl_ticks matches Some(c2) && (c2 == c || improves(s.entry, c2 as nat, c as nat))
        },
{
}

/// The state after a run of events.
pub open spec fn stop_run(s: StopState, es: Seq<StopEvent>) -> StopState
    decreases es.len(),
{
    if es.len() == 0 {
        s
    } else {
        stop_next(stop_run(s, es.drop_last()), es.last()).0
    }
}

/// `a` is at least as tight a stop as `b`: no lower for a long position,
/// no higher for a short one.
pub open spec fn as_tight(entry: TradeSide, a: nat, b: nat) -> bool {
    match entry {
        TradeSide::Buy => a >= b,
        TradeSide::Sell => a <= b,
    }
}

/// Over any run of events the invariant holds and the recorded stop never
/// loosens: whatever happens, a stop once recorded is only replaced by a
/// tighter one.
pub proof fn law_stop_never_loosens(s: StopState, es: Seq<StopEvent>)
    requires
        stop_wf(s),
    ensures
        stop_wf(stop_run(s, es)),
        stop_run(s, es).entry == s.entry,
        stop_run(s, es).params == s.params,
        s.sl_ticks matches Some(c) ==> stop_run(s, es).sl_ticks matches Some(c2) && as_tight(
            s.entry,
            c2 as nat,
            c as nat,
        ),
    decreases es.len(),
{
    if es.len() > 0 {
        let mid = stop_run(s, es.drop_last());
        law_stop_never_loosens(s, es.drop_last());
        law_stop_invariant_kept(mid, es.last());
        law_stop_only_tightens(mid, es.last());
        law_stop_order_arguments(mid, es.last());
    }
}

/// A trailing stop is only sent at a price that improves on the last one.
pub proof fn law_trailing_stop_improves(s: StopState, e: StopEvent)
    requires
        stop_wf(s),
        s.phase != StopPhase::AwaitFirstQuote,
        !(s.phase is PlacingFirst),
        !(s.phase is RetryFirst),
    ensures
        stop_next(s, e).1 matches StopRequest::PlaceStop { ticks, .. } ==> s.sl_ticks matches Some(
            c,
        ) && improves(s.entry, ticks as nat, c as nat),
{
    if let StopEvent::Quote(q) = e {
        lemma_stop_ticks_fit(s.entry, q);
    }
}

/// No stop is sent while the worker knows of a live one: a replacement goes
/// out only after the old stop's deletion was confirmed, or when the worker
/// knows of none (also after it gave up deleting one, which it then forgets),
/// and a deletion is only asked for the stop it knows.
pub proof fn law_one_known_stop(s: StopState, e: StopEvent)
    requires
        stop_wf(s),
    ensures
        stop_next(s, e).1 is PlaceStop ==> s.sl_id is None && stop_next(s, e).0.sl_id is None,
        (s.phase is Deleting && stop_next(s, e).1 is PlaceStop) ==> e is Deleted,
        stop_next(s, e).1 matches StopRequest::DeleteOrder { order_id } ==> (s.sl_id == Some(order_id)
            || s.old_id == Some(order_id)),
{
}

/// The worker ends exactly when it says so, and once ended stays ended. It
/// ends when a deletion reports the order already gone, after the tenth
/// failed first placement, and after the tenth failed round in a row.
pub proof fn law_stop_exit(s: StopState, e: StopEvent)
    requires
        stop_wf(s),
    ensures
        (stop_next(s, e).0.phase == StopPhase::Finished) <==> (stop_next(s, e).1 is Exit),
        s.phase == StopPhase::Finished ==> stop_next(s, e).0.phase == StopPhase::Finished,
        s.phase is Deleting ==> (e matches StopEvent::DeleteFailed(m) && order_gone(m@))
            ==> stop_next(s, e).1 is Exit,
        (s.phase matches StopPhase::PlacingFirst { ticks, attempts } && attempts + 1
            == MAX_ATTEMPTS && e is PlaceFailed) ==> stop_next(s, e).1 is Exit,
        (s.failures + 1 == MAX_ATTEMPTS && e is Slept) ==> (s.phase matches StopPhase::RetryPlace {
            ticks,
            attempts,
        } && attempts == MAX_ATTEMPTS) ==> stop_next(s, e).1 is Exit,
{
}

/// For a base of at least 25 rupees the stop lies beyond the market: at or
/// below the base for a long position, at or above it for a short one.
pub proof fn law_stop_beyond_base(entry: TradeSide, q: Quote)
    requires
        stop_base(entry, q) >= 2500,
    ensures
        entry == TradeSide::Buy ==> 5 * stop_ticks(entry, q) <= stop_base(entry, q),
        entry == TradeSide::Sell ==> 5 * stop_ticks(entry, q) >= stop_base(entry, q),
{
    let b = stop_base(entry, q);
    if entry == TradeSide::Buy {
        let t = stop_ticks(entry, q);
        assert(t == (2 * (b * 999) + 5000) / 10000);
        assert(5 * t <= b) by (nonlinear_arith)
            requires t == (2 * (b * 999) + 5000) / 10000, b >= 2500;
    } else {
        let t = stop_ticks(entry, q);
        assert(t == (2 * (b * 1001) + 5000) / 10000);
        assert(5 * t >= b) by (nonlinear_arith)
            requires t == (2 * (b * 1001) + 5000) / 10000, b >= 2500;
    }
}

impl StopLossWorker {
    #[verifier::type_invariant]
    closed spec fn well_formed(self) -> bool {
        stop_wf(self@)
    }

    /// The side of the position this worker protects.
    pub fn entry_side(&self) -> (s: TradeSide)
        ensures
            s == self@.entry,
    {
        self.entry
    }

    /// Whether the worker has stopped.
    pub fn is_finished(&self) -> (r: bool)
        ensures
            r == (self@.phase == StopPhase::Finished),
    {
        self.phase == StopPhase::Finished
    }

    /// The price of the last stop placed, in ticks.
    pub fn stop_ticks(&self) -> (t: Option<u64>)
        ensures
            t == self@.sl_ticks,
    {
        self.sl_ticks
    }

    /// A worker protecting the order `params` of a position entered on
    /// `entry`; its first request is a quote of the product.
    pub fn start(entry: TradeSide, params: StopOrderParams) -> (r: (StopLossWorker, StopAction))
        ensures
            r.0@ == (StopState {
                entry,
                params: params@,
                sl_id: None,
                old_id: None,
                sl_ticks: None,
                failures: 0,
                phase: StopPhase::AwaitFirstQuote,
            }),
            r.1@ == fetch(r.0@),
    {
        let product = params.product.clone();
        let w = StopLossWorker {
            entry,
            params,
            sl_id: None,
            old_id: None,
            sl_ticks: None,
            failures: 0,
            phase: StopPhase::AwaitFirstQuote,
        };
        (w, StopAction::FetchQuote { product })
    }

    /// The side of the stop orders: the one that closes the position.
    pub fn stop_side(&self) -> (s: TradeSide)
        ensures
            s == opposite_side(self@.entry),
    {
        self.entry.opposite()
    }

    /// The request for a quote of the protected product.
    fn fetch_action(&self) -> (a: StopAction)
        ensures
            a@ == fetch(self@),
    {
        StopAction::FetchQuote { product: self.params.product.clone() }
    }

    /// The stop order at `ticks`.
    fn place_action(&self, ticks: u64) -> (a: StopAction)
        ensures
            a@ == place(self@, ticks),
    {
        let script_id = match &self.params.script_id {
            Some(t) => Some(t.clone()),
            None => None,
        };
        let script_expiry_id = match &self.params.script_expiry_id {
            Some(t) => Some(t.clone()),
            None => None,
        };
        StopAction::PlaceStop {
            product: self.params.product.clone(),
            side: self.entry.opposite(),
            order_type: OrderType::StopLoss,
            ticks,
            qty: self.params.qty,
            market_type_id: self.params.market_type_id,
            script_id,
            script_expiry_id,
        }
    }

    /// Advances the worker by one reported event.
    pub fn step(self, e: StopEvent) -> (r: (StopLossWorker, StopAction))
        ensures
            (r.0@, r.1@) == stop_next(self@, e),
    {
        proof { use_type_invariant(&self); }
        let finished = |w: StopLossWorker| -> (r: (StopLossWorker, StopAction))
            requires stop_wf(w@),
            ensures (r.0@, r.1@) == finish(w@),
        {
            (StopLossWorker { phase: StopPhase::Finished, ..w }, StopAction::Exit)
        };
        match (self.phase, e) {
            (StopPhase::Finished, _) => finished(self),
            (StopPhase::AwaitFirstQuote, StopEvent::Quote(q)) => {
                let t = stop_price_ticks(self.entry, &q);
                let a = self.place_action(t);
                (StopLossWorker { phase: StopPhase::PlacingFirst { ticks: t, attempts: 0 }, ..self }, a)
            },
            (StopPhase::PlacingFirst { ticks, attempts }, StopEvent::Placed(id)) => {
                let text = match trade_id_string(&id) {
                    Some(t) => t,
                    None => {
                        proof { reveal_strlit("0"); }
                        let z = String::from_str("0");
                        assert(z@ =~= seq!['0']);
                        z
                    },
                };
                let a = self.fetch_action();
                (
                    StopLossWorker {
                        sl_id: Some(text),
                        sl_ticks: Some(ticks),
                        failures: 0,
                        phase: StopPhase::AwaitQuote,
                        ..self
                    },
                    a,
                )
            },
            (StopPhase::PlacingFirst { ticks, attempts }, StopEvent::PlaceFailed) => {
                if attempts + 1 >= MAX_ATTEMPTS {
                    finished(self)
                } else {
                    (
                        StopLossWorker {
                            phase: StopPhase::RetryFirst { ticks, attempts: attempts + 1 },
                            ..self
                        },
                        StopAction::Sleep { millis: FIRST_RETRY_MILLIS },
                    )
                }
            },
            (StopPhase::RetryFirst { ticks, attempts }, StopEvent::Slept) => {
                let a = self.place_action(ticks);
                (StopLossWorker { phase: StopPhase::PlacingFirst { ticks, attempts }, ..self }, a)
            },
            (StopPhase::AwaitQuote, StopEvent::Quote(q)) => {
                let t = stop_price_ticks(self.entry, &q);
                let update = match self.sl_ticks {
                    None => true,
                    Some(c) => match self.entry {
                        TradeSide::Buy => (t as u128) >= (c as u128) + 1,
                        TradeSide::Sell => (t as u128) + 1 <= (c as u128),
                    },
                };
                if !update {
                    (
                        StopLossWorker { phase: StopPhase::Resting, ..self },
                        StopAction::Sleep { millis: REST_MILLIS },
                    )
                } else {
                    let place = self.place_action(t);
                    let StopLossWorker { entry, params, sl_id, old_id, sl_ticks, failures, phase } = self;
                    match sl_id {
                        Some(old) => {
                            let order_id = old.clone();
                            (
                                StopLossWorker {
                                    entry,
                                    params,
                                    sl_id: None,
                                    old_id: Some(old),
                                    sl_ticks,
                                    failures,
                                    phase: StopPhase::Deleting { ticks: t, attempts: 0 },
                                },
                                StopAction::DeleteOrder { order_id },
                            )
                        },
                        None => (
                            StopLossWorker {
                                entry,
                                params,
                                sl_id: None,
                                old_id,
                                sl_ticks,
                                failures,
                                phase: StopPhase::Placing { ticks: t, attempts: 0 },
                            },
                            place,
                        ),
                    }
                }
            },
            (StopPhase::Deleting { ticks, attempts }, StopEvent::Deleted) => {
                let a = self.place_action(ticks);
                (
                    StopLossWorker {
                        failures: 0,
                        old_id: None,
                        phase: StopPhase::Placing { ticks, attempts: 0 },
                        ..self
                    },
                    a,
                )
            },
            (StopPhase::Deleting { ticks, attempts }, StopEvent::DeleteFailed(msg)) => {
                if is_order_gone(msg.as_str()) {
                    finished(self)
                } else {
                    (
                        StopLossWorker {
                            phase: StopPhase::RetryDelete { ticks, attempts: attempts + 1 },
                            ..self
                        },
                        StopAction::Sleep { millis: RETRY_MILLIS },
                    )
                }
            },
            (StopPhase::RetryDelete { ticks, attempts }, StopEvent::Slept) => {
                if attempts < MAX_ATTEMPTS {
                    let order_id = match &self.old_id {
                        Some(o) => o.clone(),
                        None => String::new(),
                    };
                    (
                        StopLossWorker { phase: StopPhase::Deleting { ticks, attempts }, ..self },
                        StopAction::DeleteOrder { order_id },
                    )
                } else {
                    self.failed_round()
                }
            },
            (StopPhase::Placing { ticks, attempts }, StopEvent::Placed(id)) => {
                match trade_id_string(&id) {
                    Some(text) => (
                        StopLossWorker {
                            sl_id: Some(text),
                            sl_ticks: Some(ticks),
                            failures: 0,
                            phase: StopPhase::Resting,
                            ..self
                        },
                        StopAction::Sleep { millis: REST_MILLIS },
                    ),
                    None => (
                        StopLossWorker { phase: StopPhase::Resting, ..self },
                        StopAction::Sleep { millis: REST_MILLIS },
                    ),
                }
            },
            (StopPhase::Placing { ticks, attempts }, StopEvent::PlaceFailed) => (
                StopLossWorker {
                    phase: StopPhase::RetryPlace { ticks, attempts: attempts + 1 },
                    ..self
                },
                StopAction::Sleep { millis: RETRY_MILLIS },
            ),
            (StopPhase::RetryPlace { ticks, attempts }, StopEvent::Slept) => {
                if attempts < MAX_ATTEMPTS {
                    let a = self.place_action(ticks);
                    (StopLossWorker { phase: StopPhase::Placing { ticks, attempts }, ..self }, a)
                } else {
                    self.failed_round()
                }
            },
            (StopPhase::Resting, StopEvent::Slept) => {
                let a = self.fetch_action();
                (StopLossWorker { phase: StopPhase::AwaitQuote, ..self }, a)
            },
            _ => finished(self),
        }
    }

    /// Counts a failed round (see `failed_round`).
    fn failed_round(self) -> (r: (StopLossWorker, StopAction))
        requires
            self@.phase is RetryDelete || self@.phase is RetryPlace,
        ensures
            (r.0@, r.1@) == failed_round(self@),
    {
        proof { use_type_invariant(&self); }
        let failures = self.failures + 1;
        if failures >= MAX_ATTEMPTS {
            (
                StopLossWorker { failures, old_id: None, phase: StopPhase::Finished, ..self },
                StopAction::Exit,
            )
        } else {
            let a = self.fetch_action();
            (StopLossWorker { failures, old_id: None, phase: StopPhase::AwaitQuote, ..self }, a)
        }
    }
}


/// The stop for a quote is 0.1% beyond the market, rounded to the nearest
/// tick: for a long position 0.999 times the lower of bid and last trade,
/// for a short one 1.001 times the higher of ask and last trade. In ticks,
/// a long stop is no higher than the rounding of either price and equals the
/// rounding of one of them; a short stop is no lower than either and equals
/// one.
pub proof fn law_stop_price_from_quote(entry: TradeSide, q: Quote)
    ensures
        entry == TradeSide::Buy ==> {
            let t = stop_ticks(entry, q);
            &&& 10000 * t <= 1998 * q.bid + 5000
            &&& 10000 * t <= 1998 * q.ltp + 5000
            &&& (1998 * q.bid + 5000 < 10000 * t + 10000 || 1998 * q.ltp + 5000 < 10000 * t + 10000)
        },
        entry == TradeSide::Sell ==> {
            let t = stop_ticks(entry, q);
            &&& 2002 * q.ask + 5000 < 10000 * t + 10000
            &&& 2002 * q.ltp + 5000 < 10000 * t + 10000
            &&& (10000 * t <= 2002 * q.ask + 5000 || 10000 * t <= 2002 * q.ltp + 5000)
        },
{
    let b = stop_base(entry, q);
    let t = stop_ticks(entry, q);
    if entry == TradeSide::Buy {
        assert(t == (2 * (b * 999) + 5000) / 10000);
        assert(10000 * t <= 1998 * b + 5000 < 10000 * t + 10000) by (nonlinear_arith)
            requires t == (2 * (b * 999) + 5000) / 10000;
        assert(b <= q.bid && b <= q.ltp && (b == q.bid || b == q.ltp));
        assert(1998 * b <= 1998 * q.bid) by (nonlinear_arith) requires b <= q.bid;
        assert(1998 * b <= 1998 * q.ltp) by (nonlinear_arith) requires b <= q.ltp;
    } else {
        assert(t == (2 * (b * 1001) + 5000) / 10000);
        assert(10000 * t <= 2002 * b + 5000 < 10000 * t + 10000) by (nonlinear_arith)
            requires t == (2 * (b * 1001) + 5000) / 10000;
        assert(b >= q.ask && b >= q.ltp && (b == q.ask || b == q.ltp));
        assert(2002 * b >= 2002 * q.ask) by (nonlinear_arith) requires b >= q.ask;
        assert(2002 * b >= 2002 * q.ltp) by (nonlinear_arith) requires b >= q.ltp;
    }
}

/// On a quote, a worker holding a stop at `c` ticks moves it exactly when
/// the new stop is at least a tick tighter (higher for a long position,
/// lower for a short one): it then deletes the stop it knows, or, knowing
/// none, places the new one; otherwise it rests and keeps its stop.
pub proof fn law_trailing_moves_exactly_when_tighter(s: StopState, q: Quote, c: u64)
    requires
        stop_wf(s),
        s.phase == StopPhase::AwaitQuote,
        s.sl_ticks == Some(c),
    ensures
        ({
            let t = stop_ticks(s.entry, q);
            let tighter = if s.entry == TradeSide::Buy {
                t > c
            } else {
                t < c
            };
            let (n, r) = stop_next(s, StopEvent::Quote(q));
            &&& !tighter ==> r == StopRequest::Sleep { millis: REST_MILLIS } && n.sl_ticks == Some(c)
                && n.sl_id == s.sl_id
            &&& tighter ==> (s.sl_id matches Some(old) ==> r == StopRequest::DeleteOrder { order_id: old })
            &&& tighter ==> (s.sl_id is None ==> (r matches StopRequest::PlaceStop { ticks, .. } && ticks == t))
        }),
{
    lemma_stop_ticks_fit(s.entry, q);
}

/// The state after the first `k` events of a run.
pub open spec fn stop_after(s: StopState, es: Seq<StopEvent>, k: nat) -> StopState
    decreases k,
{
    if k == 0 {
        s
    } else {
        stop_next(stop_after(s, es, (k - 1) as nat), es[k - 1]).0
    }
}

/// The request made at step `k` of a run.
pub open spec fn stop_request_at(s: StopState, es: Seq<StopEvent>, k: nat) -> StopRequest {
    stop_next(stop_after(s, es, k), es[k as int]).1
}

/// The state a worker starts in.
pub open spec fn fresh_worker(s: StopState) -> bool {
    &&& s.phase == StopPhase::AwaitFirstQuote
    &&& s.sl_id is None
    &&& s.old_id is None
    &&& s.sl_ticks is None
    &&& s.failures == 0
}

/// Along a run from a fresh worker the invariant holds, and a recorded stop
/// is only ever replaced by one at least as tight.
proof fn lemma_run_tightens(s: StopState, es: Seq<StopEvent>, m: nat, k: nat)
    requires
        fresh_worker(s),
        m <= k <= es.len(),
    ensures
        stop_wf(stop_after(s, es, k)),
        stop_after(s, es, k).entry == s.entry,
        stop_after(s, es, m).sl_ticks matches Some(c) ==> stop_after(s, es, k).sl_ticks matches Some(
            c2,
        ) && as_tight(s.entry, c2 as nat, c as nat),
    decreases k,
{
    if k > 0 {
        let j = (k - 1) as nat;
        if m <= j {
            lemma_run_tightens(s, es, m, j);
        } else {
            lemma_run_tightens(s, es, j, j);
        }
        let prev = stop_after(s, es, j);
        law_stop_invariant_kept(prev, es[j as int]);
        law_stop_only_tightens(prev, es[j as int]);
        law_stop_order_arguments(prev, es[j as int]);
    }
}

/// A stop request goes out from the phase that waits for its answer, at the
/// same price.
proof fn lemma_place_awaits_answer(s: StopState, e: StopEvent, t: u64)
    requires
        stop_wf(s),
        stop_next(s, e).1 matches StopRequest::PlaceStop { ticks, .. } && ticks == t,
    ensures
        (stop_next(s, e).0.phase matches StopPhase::Placing { ticks, .. } && ticks == t)
            || (stop_next(s, e).0.phase matches StopPhase::PlacingFirst { ticks, .. } && ticks == t),
{
}

/// Once the broker has accepted a stop order at `t` ticks and given it an
/// id, the worker's stop is `t`, and every stop order it sends afterwards is
/// strictly tighter than `t`: higher for a long position, lower for a short
/// one. A trailing stop never loosens a stop that is in place.
pub proof fn law_stops_tighten_after_acceptance(s: StopState, es: Seq<StopEvent>, i: nat, t: u64, j: nat)
    requires
        fresh_worker(s),
        i + 1 < j < es.len(),
        stop_request_at(s, es, i) matches StopRequest::PlaceStop { ticks, .. } && ticks == t,
        es[i + 1 as int] matches StopEvent::Placed(id) && !(id is Missing),
    ensures
        stop_after(s, es, i + 2).sl_ticks == Some(t),
        stop_request_at(s, es, j) matches StopRequest::PlaceStop { ticks, .. } ==> {
            &&& s.entry == TradeSide::Buy ==> ticks > t
            &&& s.entry == TradeSide::Sell ==> ticks < t
        },
{
    lemma_run_tightens(s, es, i, i);
    let si = stop_after(s, es, i);
    lemma_place_awaits_answer(si, es[i as int], t);
    law_stop_invariant_kept(si, es[i as int]);
    let s1 = stop_after(s, es, i + 1);
    assert(s1 == stop_next(si, es[i as int]).0);
    assert(stop_after(s, es, i + 2) == stop_next(s1, es[i + 1 as int]).0);
    assert(stop_after(s, es, i + 2).sl_ticks == Some(t));
    lemma_run_tightens(s, es, i + 2, j);
    let sj = stop_after(s, es, j);
    if let StopRequest::PlaceStop { ticks, .. } = stop_request_at(s, es, j) {
        let c = sj.sl_ticks->0;
        law_trailing_stop_improves(sj, es[j as int]);
        assert(improves(s.entry, ticks as nat, c as nat));
    }
}

} // verus!
