use trading_engine::signal_processor::entry::{EntryAction, EntryEvent, EntryWatch};
use trading_engine::mock_market_data::MockMarketData;
use trading_engine::gmglobal_watcher::Quote;
use trading_engine::signal_receiver::{Signal, SignalSide};
use trading_engine::signal_processor::stop_loss::{StopAction, StopEvent, StopLossWorker, StopOrderParams, TradeId};
use trading_engine::trade::{OrderType, TradeSide};

fn quote(product: &str, bid: u64, ask: u64, ltp: u64, ts: &str) -> Quote {
    Quote { product: product.to_string(), bid, ask, ltp, timestamp: ts.to_string() }
}

fn entry_fetch(product: &str) -> EntryAction {
    EntryAction::FetchQuote { product: product.to_string() }
}

fn entry_order(product: &str, side: TradeSide, price: u64, qty: u32) -> EntryAction {
    EntryAction::PlaceEntry {
        product: product.to_string(),
        side,
        order_type: OrderType::Market,
        price,
        qty,
        market_type_id: 1,
        script_id: None,
        script_expiry_id: None,
    }
}

fn entry_stop_loss(product: &str, side: TradeSide, signal_price: u64, qty: u32) -> EntryAction {
    EntryAction::StartStopLoss {
        side,
        signal_price,
        params: StopOrderParams {
            product: product.to_string(),
            qty,
            market_type_id: 1,
            script_id: None,
            script_expiry_id: None,
        },
    }
}

#[test]
fn test_buy_signal_reaches_target() {
    let mut market = MockMarketData::new();
    market.add_quotes(
        "KALYANKJIL-I",
        vec![
            quote("KALYANKJIL-I", 9900, 10000, 10000, "t1"),
            quote("KALYANKJIL-I", 10100, 10200, 10200, "t2"),
        ],
    );
    let signal = Signal {
        product: "KALYANKJIL-I".into(),
        price: 10000,
        target: 10500,
        side: SignalSide::Buy,
        trade_qty: 1,
    };
    let (mut watch, action) = EntryWatch::start(&signal);
    assert_eq!(action, entry_fetch("KALYANKJIL-I"));
    assert!(market.has_quote("KALYANKJIL-I"));
    let q = market.get_quote("KALYANKJIL-I");
    assert_eq!(q.timestamp, "t1");
    let action = watch.step(EntryEvent::Quote(q));
    assert_eq!(action, entry_order("KALYANKJIL-I", TradeSide::Buy, 10000, 1));
    let action = watch.step(EntryEvent::Placed(true));
    assert_eq!(action, entry_stop_loss("KALYANKJIL-I", TradeSide::Buy, 10000, 1));
    let q = market.get_quote("KALYANKJIL-I");
    assert_eq!(q.timestamp, "t2");
    assert!(!market.has_quote("KALYANKJIL-I"));
}

#[test]
fn test_process_signal_execution() {
    let signal = Signal {
        product: "TEST-I".into(),
        price: 10000,
        target: 10500,
        side: SignalSide::Buy,
        trade_qty: 1,
    };
    let (mut watch, action) = EntryWatch::start(&signal);
    assert_eq!(action, entry_fetch("TEST-I"));
    assert_eq!(watch.threshold, 5);
    let a = watch.step(EntryEvent::Quote(quote("TEST-I", 10400, 10500, 10450, "t1")));
    assert_eq!(a, EntryAction::Pause { millis: 50 });
    let a = watch.step(EntryEvent::Paused);
    assert_eq!(a, entry_fetch("TEST-I"));
    let a = watch.step(EntryEvent::Quote(quote("TEST-I", 9900, 10000, 9950, "t2")));
    assert_eq!(a, entry_order("TEST-I", TradeSide::Buy, 10000, 1));
    let a = watch.step(EntryEvent::Placed(true));
    assert_eq!(a, entry_stop_loss("TEST-I", TradeSide::Buy, 10000, 1));
    let a = watch.step(EntryEvent::Paused);
    assert_eq!(a, EntryAction::Stop);
}

#[test]
fn test_sell_signal_execution() {
    let signal = Signal {
        product: "SELL-I".into(),
        price: 15000,
        target: 14500,
        side: SignalSide::Sell,
        trade_qty: 2,
    };
    let (mut watch, action) = EntryWatch::start(&signal);
    assert_eq!(action, entry_fetch("SELL-I"));
    let a = watch.step(EntryEvent::Quote(quote("SELL-I", 14500, 14600, 14550, "t1")));
    assert_eq!(a, EntryAction::Pause { millis: 50 });
    assert_eq!(watch.step(EntryEvent::Paused), entry_fetch("SELL-I"));
    let a = watch.step(EntryEvent::Quote(quote("SELL-I", 15100, 15200, 15150, "t2")));
    assert_eq!(a, entry_order("SELL-I", TradeSide::Sell, 15100, 2));
    let a = watch.step(EntryEvent::Placed(true));
    assert_eq!(a, entry_stop_loss("SELL-I", TradeSide::Sell, 15000, 2));
}

#[test]
fn entry_refused_ends_without_stop_loss() {
    let signal = Signal { product: "X-I".into(), price: 5000, target: 5100, side: SignalSide::Buy, trade_qty: 1 };
    let (mut watch, _) = EntryWatch::start(&signal);
    assert_eq!(watch.threshold, 2);
    let a = watch.step(EntryEvent::Quote(quote("X-I", 4990, 5002, 5000, "t")));
    assert_eq!(a, entry_order("X-I", TradeSide::Buy, 5002, 1));
    assert_eq!(watch.step(EntryEvent::Placed(false)), EntryAction::Stop);
}

fn params(product: &str, qty: u32) -> StopOrderParams {
    StopOrderParams {
        product: product.to_string(),
        qty,
        market_type_id: 1,
        script_id: None,
        script_expiry_id: None,
    }
}

fn fetch(product: &str) -> StopAction {
    StopAction::FetchQuote { product: product.to_string() }
}

fn place(product: &str, side: TradeSide, ticks: u64, qty: u32) -> StopAction {
    StopAction::PlaceStop {
        product: product.to_string(),
        side,
        order_type: OrderType::StopLoss,
        ticks,
        qty,
        market_type_id: 1,
        script_id: None,
        script_expiry_id: None,
    }
}

#[test]
fn test_sl_worker_trailing() {
    let (w, a) = StopLossWorker::start(TradeSide::Buy, params("TRAIL-I", 1));
    assert_eq!(a, fetch("TRAIL-I"));
    assert_eq!(w.stop_side(), TradeSide::Sell);
    let (w, a) = w.step(StopEvent::Quote(quote("TRAIL-I", 10000, 10100, 10050, "t1")));
    assert_eq!(a, place("TRAIL-I", TradeSide::Sell, 1998, 1));
    let (w, a) = w.step(StopEvent::Placed(TradeId::Text("sl_1".to_string())));
    assert_eq!(a, fetch("TRAIL-I"));
    assert_eq!(w.stop_ticks(), Some(1998));
    let (w, a) = w.step(StopEvent::Quote(quote("TRAIL-I", 10500, 10600, 10550, "t2")));
    assert_eq!(a, StopAction::DeleteOrder { order_id: "sl_1".to_string() });
    let (w, a) = w.step(StopEvent::Deleted);
    assert_eq!(a, place("TRAIL-I", TradeSide::Sell, 2098, 1));
    let (w, a) = w.step(StopEvent::Placed(TradeId::Text("sl_2".to_string())));
    assert_eq!(a, StopAction::Sleep { millis: 6000 });
    let (w, a) = w.step(StopEvent::Slept);
    assert_eq!(a, fetch("TRAIL-I"));
    let (w, a) = w.step(StopEvent::Quote(quote("TRAIL-I", 11000, 11100, 11050, "t3")));
    assert_eq!(a, StopAction::DeleteOrder { order_id: "sl_2".to_string() });
    let (w, a) = w.step(StopEvent::DeleteFailed("Trade Already Deleted".to_string()));
    assert_eq!(a, StopAction::Exit);
    assert!(w.is_finished());
}

#[test]
fn test_failed_initial_sl_placement() {
    let (w, _) = StopLossWorker::start(TradeSide::Buy, params("FAIL-I", 1));
    let (mut w, mut a) = w.step(StopEvent::Quote(quote("FAIL-I", 10000, 10100, 10050, "t1")));
    let mut placements = 0;
    loop {
        match a {
            StopAction::PlaceStop { .. } => {
                assert_eq!(a, place("FAIL-I", TradeSide::Sell, 1998, 1));
                placements += 1;
                let r = w.step(StopEvent::PlaceFailed);
                w = r.0;
                a = r.1;
            }
            StopAction::Sleep { millis } => {
                assert_eq!(millis, 2000);
                let r = w.step(StopEvent::Slept);
                w = r.0;
                a = r.1;
            }
            StopAction::Exit => break,
            other => panic!("unexpected {:?}", other),
        }
    }
    assert_eq!(placements, 10);
    assert!(w.is_finished());
}

#[test]
fn sell_stop_trails_downward_only() {
    let (w, _) = StopLossWorker::start(TradeSide::Sell, params("S-I", 3));
    assert_eq!(w.stop_side(), TradeSide::Buy);
    let (w, a) = w.step(StopEvent::Quote(quote("S-I", 20000, 20000, 20000, "t1")));
    // 200 rupees * 1.001 = 200.2 rupees = 4004 ticks
    assert_eq!(a, place("S-I", TradeSide::Buy, 4004, 3));
    let (w, a) = w.step(StopEvent::Placed(TradeId::Number(77)));
    assert_eq!(a, fetch("S-I"));
    // market rises: no move
    let (w, a) = w.step(StopEvent::Quote(quote("S-I", 20100, 20100, 20100, "t2")));
    assert_eq!(a, StopAction::Sleep { millis: 6000 });
    let (w, _) = w.step(StopEvent::Slept);
    // market falls: replace
    let (w, a) = w.step(StopEvent::Quote(quote("S-I", 19000, 19000, 19000, "t3")));
    assert_eq!(a, StopAction::DeleteOrder { order_id: "77".to_string() });
    let (w, a) = w.step(StopEvent::DeleteFailed("timeout".to_string()));
    assert_eq!(a, StopAction::Sleep { millis: 1000 });
    let (w, a) = w.step(StopEvent::Slept);
    assert_eq!(a, StopAction::DeleteOrder { order_id: "77".to_string() });
    let (w, a) = w.step(StopEvent::Deleted);
    assert_eq!(a, place("S-I", TradeSide::Buy, 3804, 3));
    let (w, a) = w.step(StopEvent::Placed(TradeId::Missing));
    assert_eq!(a, StopAction::Sleep { millis: 6000 });
    assert_eq!(w.stop_ticks(), Some(4004));
}

#[test]
fn first_stop_without_id_is_recorded_as_zero() {
    let (w, _) = StopLossWorker::start(TradeSide::Buy, params("Z-I", 1));
    let (w, _) = w.step(StopEvent::Quote(quote("Z-I", 10000, 10000, 10000, "t")));
    let (w, _) = w.step(StopEvent::Placed(TradeId::Missing));
    let (_, a) = w.step(StopEvent::Quote(quote("Z-I", 20000, 20000, 20000, "t")));
    assert_eq!(a, StopAction::DeleteOrder { order_id: "0".to_string() });
}

#[test]
fn stop_orders_carry_the_protected_order() {
    let p = StopOrderParams {
        product: "IRCTC-I".to_string(),
        qty: 4,
        market_type_id: 2,
        script_id: Some("s7".to_string()),
        script_expiry_id: Some("e7".to_string()),
    };
    let (w, a) = StopLossWorker::start(TradeSide::Buy, p);
    assert_eq!(a, fetch("IRCTC-I"));
    let (_, a) = w.step(StopEvent::Quote(quote("IRCTC-I", 10000, 10000, 10000, "t")));
    assert_eq!(
        a,
        StopAction::PlaceStop {
            product: "IRCTC-I".to_string(),
            side: TradeSide::Sell,
            order_type: OrderType::StopLoss,
            ticks: 1998,
            qty: 4,
            market_type_id: 2,
            script_id: Some("s7".to_string()),
            script_expiry_id: Some("e7".to_string()),
        }
    );
}
