//! Entry on a signal: watch quotes until the price comes within the
//! tolerance of the signal price, then place one market order.
use vstd::prelude::*;
use crate::gmglobal_watcher::Quote;
use crate::price::{calculate_delta, delta_of};
use crate::signal_receiver::{Signal, SignalSide};
use crate::signal_processor::stop_loss::{opt_text, StopOrderParams, StopParams};
use crate::trade::{OrderType, TradeSide};

verus! {

/// The order side that enters on a signal side.
pub open spec fn entry_side_of(side: SignalSide) -> TradeSide {
    match side {
        SignalSide::Buy => TradeSide::Buy,
        SignalSide::Sell => TradeSide::Sell,
    }
}

/// Whether a quote reaches a signal at `price` with tolerance `threshold`
/// (paise): a buy when the ask is at most price + threshold, a sell when the
/// bid is at least price - threshold.
pub open spec fn entry_hit(side: SignalSide, price: nat, threshold: nat, q: Quote) -> bool {
    match side {
        SignalSide::Buy => q.ask <= price + threshold,
        SignalSide::Sell => q.bid + threshold >= price,
    }
}

/// The price an entry order is sent at: the ask for a buy, the bid for a sell.
pub open spec fn entry_price(side: SignalSide, q: Quote) -> u64 {
    match side {
        SignalSide::Buy => q.ask,
        SignalSide::Sell => q.bid,
    }
}

/// Where an entry watch stands.
#[derive(Debug, Clone, Copy, PartialEq, Eq, Structural)]
pub enum EntryPhase {
    /// A quote was asked for.
    AwaitQuote,
    /// The entry order was sent.
    AwaitPlacement,
    /// Pausing before the next quote.
    Pausing,
    /// Nothing more to do.
    Done,
}

/// What the driver reports back.
pub enum EntryEvent {
    Quote(Quote),
    /// The entry order was accepted (`true`) or refused (`false`).
    Placed(bool),
    Paused,
}

/// The market type of entry orders and of their stop-losses.
pub const ENTRY_MARKET_TYPE: u8 = 1;

/// What the driver is asked to do next.
#[derive(Debug, Clone, PartialEq, Eq)]
pub enum EntryAction {
    /// Ask for a quote of `product`.
    FetchQuote { product: String },
    /// Send the entry order: a market order of the signal quantity at
    /// `price` paise, with the script ids left to the script table.
    PlaceEntry {
        product: String,
        side: TradeSide,
        order_type: OrderType,
        price: u64,
        qty: u32,
        market_type_id: u8,
        script_id: Option<String>,
        script_expiry_id: Option<String>,
    },
    Pause { millis: u64 },
    /// The entry is filled: start a stop-loss worker for the position
    /// entered on `side`, protecting the order `params`.
    StartStopLoss { side: TradeSide, signal_price: u64, params: StopOrderParams },
    Stop,
}

/// The abstract view of a request of the entry watch.
pub enum EntryRequest {
    FetchQuote { product: Seq<char> },
    PlaceEntry {
        product: Seq<char>,
        side: TradeSide,
        order_type: OrderType,
        price: u64,
        qty: u32,
        market_type_id: u8,
        script_id: Option<Seq<char>>,
        script_expiry_id: Option<Seq<char>>,
    },
    Pause { millis: u64 },
    StartStopLoss { side: TradeSide, signal_price: u64, params: StopParams },
    Stop,
}

impl View for EntryAction {
    type V = EntryRequest;

    open spec fn view(&self) -> EntryRequest {
        match self {
            EntryAction::FetchQuote { product } => EntryRequest::FetchQuote { product: product@ },
            EntryAction::PlaceEntry {
                product,
                side,
                order_type,
                price,
                qty,
                market_type_id,
                script_id,
                script_expiry_id,
            } => EntryRequest::PlaceEntry {
                product: product@,
                side: *side,
                order_type: *order_type,
                price: *price,
                qty: *qty,
                market_type_id: *market_type_id,
                script_id: opt_text(*script_id),
                script_expiry_id: opt_text(*script_expiry_id),
            },
            EntryAction::Pause { millis } => EntryRequest::Pause { millis: *millis },
            EntryAction::StartStopLoss { side, signal_price, params } => EntryRequest::StartStopLoss {
                side: *side,
                signal_price: *signal_price,
                params: params@,
            },
            EntryAction::Stop => EntryRequest::Stop,
        }
    }
}

/// Watches quotes for one signal until it enters or fails.
pub struct EntryWatch {
    pub product: String,
    pub side: SignalSide,
    pub price: u64,
    pub qty: u32,
    pub threshold: u64,
    pub phase: EntryPhase,
}

/// The entry order for a quote that reaches the signal: a market order for
/// the signal's product and quantity on the signal's side, at the quote's
/// ask (buy) or bid (sell), market type 1, with no script ids.
pub open spec fn entry_order(w: EntryWatch, q: Quote) -> EntryRequest {
    EntryRequest::PlaceEntry {
        product: w.product@,
        side: entry_side_of(w.side),
        order_type: OrderType::Market,
        price: entry_price(w.side, q),
        qty: w.qty,
        market_type_id: ENTRY_MARKET_TYPE,
        script_id: None,
        script_expiry_id: None,
    }
}

/// The stop-loss started after a fill: it protects the signal's product and
/// quantity at market type 1, with no script ids.
pub open spec fn entry_stop_loss(w: EntryWatch) -> EntryRequest {
    EntryRequest::StartStopLoss {
        side: entry_side_of(w.side),
        signal_price: w.price,
        params: StopParams {
            product: w.product@,
            qty: w.qty,
            market_type_id: ENTRY_MARKET_TYPE,
            script_id: None,
            script_expiry_id: None,
        },
    }
}

/// One step of the entry watch: the next phase and the request it makes.
pub open spec fn entry_next(w: EntryWatch, e: EntryEvent) -> (EntryPhase, EntryRequest) {
    match (w.phase, e) {
        (EntryPhase::AwaitQuote, EntryEvent::Quote(q)) => if entry_hit(
            w.side,
            w.price as nat,
            w.threshold as nat,
            q,
        ) {
            (EntryPhase::AwaitPlacement, entry_order(w, q))
        } else {
            (EntryPhase::Pausing, EntryRequest::Pause { millis: 50 })
        },
        (EntryPhase::AwaitPlacement, EntryEvent::Placed(ok)) => if ok {
            (EntryPhase::Done, entry_stop_loss(w))
        } else {
            (EntryPhase::Done, EntryRequest::Stop)
        },
        (EntryPhase::Pausing, EntryEvent::Paused) => (
            EntryPhase::AwaitQuote,
            EntryRequest::FetchQuote { product: w.product@ },
        ),
        _ => (EntryPhase::Done, EntryRequest::Stop),
    }
}

impl EntryWatch {
    /// Starts watching for `signal`: the tolerance comes from its price, and
    /// the first request is a quote of its product.
    pub fn start(signal: &Signal) -> (r: (EntryWatch, EntryAction))
        ensures
            r.0.product@ == signal.product@,
            r.0.side == signal.side,
            r.0.price == signal.price,
            r.0.qty == signal.trade_qty,
            r.0.threshold == delta_of(signal.price as nat),
            r.0.phase == EntryPhase::AwaitQuote,
            r.1@ == (EntryRequest::FetchQuote { product: signal.product@ }),
    {
        let w = EntryWatch {
            product: signal.product.clone(),
            side: signal.side,
            price: signal.price,
            qty: signal.trade_qty,
            threshold: calculate_delta(signal.price),
            phase: EntryPhase::AwaitQuote,
        };
        (w, EntryAction::FetchQuote { product: signal.product.clone() })
    }

    /// Advances the watch by one reported event.
    pub fn step(&mut self, e: EntryEvent) -> (a: EntryAction)
        ensures
            (final(self).phase, a@) == entry_next(*old(self), e),
            final(self).product == old(self).product,
            final(self).side == old(self).side,
            final(self).price == old(self).price,
            final(self).qty == old(self).qty,
            final(self).threshold == old(self).threshold,
    {
        match e {
            EntryEvent::Quote(q) => {
                if self.phase != EntryPhase::AwaitQuote {
                    self.phase = EntryPhase::Done;
                    return EntryAction::Stop;
                }
                let hit = match self.side {
                    SignalSide::Buy => (q.ask as u128) <= (self.price as u128) + (self.threshold as u128),
                    SignalSide::Sell => (q.bid as u128) + (self.threshold as u128) >= (self.price as u128),
                };
                if hit {
                    self.phase = EntryPhase::AwaitPlacement;
                    let (side, price) = match self.side {
                        SignalSide::Buy => (TradeSide::Buy, q.ask),
                        SignalSide::Sell => (TradeSide::Sell, q.bid),
                    };
                    EntryAction::PlaceEntry {
                        product: self.product.clone(),
                        side,
                        order_type: OrderType::Market,
                        price,
                        qty: self.qty,
                        market_type_id: ENTRY_MARKET_TYPE,
                        script_id: None,
                        script_expiry_id: None,
                    }
                } else {
                    self.phase = EntryPhase::Pausing;
                    EntryAction::Pause { millis: 50 }
                }
            },
            EntryEvent::Placed(ok) => {
                if self.phase != EntryPhase::AwaitPlacement {
                    self.phase = EntryPhase::Done;
                    return EntryAction::Stop;
                }
                self.phase = EntryPhase::Done;
                if ok {
                    let side = match self.side {
                        SignalSide::Buy => TradeSide::Buy,
                        SignalSide::Sell => TradeSide::Sell,
                    };
                    EntryAction::StartStopLoss {
                        side,
                        signal_price: self.price,
                        params: StopOrderParams {
                            product: self.product.clone(),
                            qty: self.qty,
                            market_type_id: ENTRY_MARKET_TYPE,
                            script_id: None,
                            script_expiry_id: None,
                        },
                    }
                } else {
                    EntryAction::Stop
                }
            },
            EntryEvent::Paused => {
                if self.phase != EntryPhase::Pausing {
                    self.phase = EntryPhase::Done;
                    return EntryAction::Stop;
                }
                self.phase = EntryPhase::AwaitQuote;
                EntryAction::FetchQuote { product: self.product.clone() }
            },
        }
    }
}

/// An entry order goes out only on a quote that reaches the signal, at the
/// ask (buy) or bid (sell) of that quote, which then lies within the
/// tolerance. It is a market order for the signal's product and quantity on
/// the signal's side, at market type 1 with no script ids; every quote asked
/// for is of the signal's product.
pub proof fn law_entry_only_within_tolerance(w: EntryWatch, e: EntryEvent)
    ensures
        entry_next(w, e).1 matches EntryRequest::PlaceEntry {
            product,
            side,
            order_type,
            price,
            qty,
            market_type_id,
            script_id,
            script_expiry_id,
        } ==> {
            &&& w.phase == EntryPhase::AwaitQuote
            &&& e matches EntryEvent::Quote(q) && entry_hit(w.side, w.price as nat, w.threshold as nat, q)
                && price == entry_price(w.side, q)
            &&& side == entry_side_of(w.side)
            &&& w.side == SignalSide::Buy ==> price <= w.price + w.threshold
            &&& w.side == SignalSide::Sell ==> price + w.threshold >= w.price
            &&& product == w.product@
            &&& order_type == OrderType::Market
            &&& qty == w.qty
            &&& market_type_id == 1
            &&& script_id is None
            &&& script_expiry_id is None
        },
        entry_next(w, e).1 matches EntryRequest::FetchQuote { product } ==> product == w.product@,
{
}

/// A watch waiting for a quote enters on every quote that reaches the
/// signal and on no other: a buy exactly when the ask is at most the signal
/// price plus the tolerance, at that ask; a sell exactly when the bid is at
/// least the signal price minus the tolerance, at that bid. On any other
/// quote it pauses 50 ms and keeps waiting.
pub proof fn law_entry_exactly_on_reaching_quote(w: EntryWatch, q: Quote)
    requires
        w.phase == EntryPhase::AwaitQuote,
    ensures
        w.side == SignalSide::Buy ==> ((entry_next(w, EntryEvent::Quote(q)).1 is PlaceEntry) <==> q.ask
            <= w.price + w.threshold),
        w.side == SignalSide::Sell ==> ((entry_next(w, EntryEvent::Quote(q)).1 is PlaceEntry) <==> q.bid
            + w.threshold >= w.price),
        entry_next(w, EntryEvent::Quote(q)).1 matches EntryRequest::PlaceEntry { side, price, .. } ==> {
            &&& w.side == SignalSide::Buy ==> side == TradeSide::Buy && price == q.ask
            &&& w.side == SignalSide::Sell ==> side == TradeSide::Sell && price == q.bid
            &&& entry_next(w, EntryEvent::Quote(q)).0 == EntryPhase::AwaitPlacement
        },
        !(entry_next(w, EntryEvent::Quote(q)).1 is PlaceEntry) ==> entry_next(w, EntryEvent::Quote(q))
            == (EntryPhase::Pausing, EntryRequest::Pause { millis: 50 }),
{
}

/// A stop-loss is started exactly when the entry order was accepted, on the
/// entry's side, protecting the signal's product and quantity at market
/// type 1 with no script ids.
pub proof fn law_stop_loss_follows_fill(w: EntryWatch, e: EntryEvent)
    ensures
        (entry_next(w, e).1 is StartStopLoss) <==> (w.phase == EntryPhase::AwaitPlacement && e
            == EntryEvent::Placed(true)),
        entry_next(w, e).1 matches EntryRequest::StartStopLoss { side, signal_price, params } ==> {
            &&& side == entry_side_of(w.side)
            &&& signal_price == w.price
            &&& params.product == w.product@
            &&& params.qty == w.qty
            &&& params.market_type_id == 1
            &&& params.script_id is None
            &&& params.script_expiry_id is None
        },
{
}

/// Once done, a watch stays done and asks for nothing more; every step either
/// asks for something further or ends the watch.
pub proof fn law_entry_done_is_final(w: EntryWatch, e: EntryEvent)
    ensures
        w.phase == EntryPhase::Done ==> entry_next(w, e) == (EntryPhase::Done, EntryRequest::Stop),
        (entry_next(w, e).0 == EntryPhase::Done) <==> (entry_next(w, e).1 is Stop
            || entry_next(w, e).1 is StartStopLoss),
{
}

/// The watch after the first `n` events of a run.
pub open spec fn entry_after(w: EntryWatch, es: Seq<EntryEvent>, n: nat) -> EntryWatch
    decreases n,
{
    if n == 0 {
        w
    } else {
        let prev = entry_after(w, es, (n - 1) as nat);
        EntryWatch { phase: entry_next(prev, es[n - 1]).0, ..prev }
    }
}

/// The request made at step `i` of a run.
pub open spec fn entry_request(w: EntryWatch, es: Seq<EntryEvent>, i: nat) -> EntryRequest {
    entry_next(entry_after(w, es, i), es[i as int]).1
}

/// Once an entry order has gone out the watch only waits for its answer or
/// is done.
proof fn lemma_after_entry(w: EntryWatch, es: Seq<EntryEvent>, i: nat, k: nat)
    requires
        i < k <= es.len(),
        entry_request(w, es, i) is PlaceEntry,
    ensures
        entry_after(w, es, k).phase == EntryPhase::AwaitPlacement || entry_after(w, es, k).phase
            == EntryPhase::Done,
    decreases k,
{
    if k > i + 1 {
        lemma_after_entry(w, es, i, (k - 1) as nat);
    }
}

/// A run places at most one entry order: after an entry order, no later
/// step places another.
pub proof fn law_single_entry(w: EntryWatch, es: Seq<EntryEvent>, i: nat, j: nat)
    requires
        i < j < es.len(),
        entry_request(w, es, i) is PlaceEntry,
    ensures
        !(entry_request(w, es, j) is PlaceEntry),
{
    lemma_after_entry(w, es, i, j);
}

/// The kind of event a phase waits for; a finished watch takes any.
pub open spec fn entry_accepts(phase: EntryPhase, e: EntryEvent) -> bool {
    match phase {
        EntryPhase::AwaitQuote => e is Quote,
        EntryPhase::AwaitPlacement => e is Placed,
        EntryPhase::Pausing => e is Paused,
        EntryPhase::Done => true,
    }
}

/// In the first `n` steps of a run, every event is of the kind the watch
/// was waiting for, as a driver that performs each request reports it.
pub open spec fn run_accepted(w: EntryWatch, es: Seq<EntryEvent>, n: nat) -> bool {
    forall|i: nat| i < n ==> #[trigger] entry_accepts(entry_after(w, es, i).phase, es[i as int])
}

/// Once the watch waits for its order's answer or is done, an entry order
/// was sent at some earlier step.
proof fn lemma_sent_before(w: EntryWatch, es: Seq<EntryEvent>, k: nat)
    requires
        w.phase == EntryPhase::AwaitQuote || w.phase == EntryPhase::Pausing,
        k <= es.len(),
        run_accepted(w, es, k),
    ensures
        (entry_after(w, es, k).phase == EntryPhase::AwaitPlacement || entry_after(w, es, k).phase
            == EntryPhase::Done) ==> exists|i: nat| i < k && (#[trigger] entry_request(w, es, i)) is PlaceEntry,
    decreases k,
{
    if k > 0 {
        let j = (k - 1) as nat;
        assert(entry_accepts(entry_after(w, es, j).phase, es[j as int]));
        assert(run_accepted(w, es, j));
        lemma_sent_before(w, es, j);
        let prev = entry_after(w, es, j);
        if prev.phase == EntryPhase::AwaitQuote && entry_request(w, es, j) is PlaceEntry {
            assert(entry_request(w, es, j) is PlaceEntry);
        }
    }
}

/// A watch that ends after a run whose events were the ones it asked for
/// sent exactly one entry order, whatever the broker answered: an entry is
/// never skipped, retried or sent twice.
pub proof fn law_exactly_one_entry(w: EntryWatch, es: Seq<EntryEvent>, n: nat)
    requires
        w.phase == EntryPhase::AwaitQuote,
        n <= es.len(),
        run_accepted(w, es, n),
        entry_after(w, es, n).phase == EntryPhase::Done,
    ensures
        exists|i: nat| i < n && (#[trigger] entry_request(w, es, i)) is PlaceEntry,
        forall|i: nat, j: nat|
            i < n && j < n && (#[trigger] entry_request(w, es, i)) is PlaceEntry && (#[trigger] entry_request(w, es, j)) is PlaceEntry
                ==> i == j,
{
    lemma_sent_before(w, es, n);
    assert forall|i: nat, j: nat|
        i < n && j < n && (#[trigger] entry_request(w, es, i)) is PlaceEntry && (#[trigger] entry_request(w, es, j)) is PlaceEntry
        implies i == j by {
        if i < j {
            law_single_entry(w, es, i, j);
        } else if j < i {
            law_single_entry(w, es, j, i);
        }
    }
}

} // verus!
