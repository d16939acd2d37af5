use trading_engine::config::GMGlobalConfig;
use trading_engine::number::{format_i64, format_u64, parse_i64};
use trading_engine::price::{calculate_delta, format_price, round_to_5_paisa};
use trading_engine::signal_receiver::{map_symbol, signal_from_message, signal_from_parts, signal_json, SignalMessage, SignalSide};
use trading_engine::signal_processor::stop_loss::{is_order_gone, says_gone, stop_price_ticks, trade_id_string, TradeId};
use trading_engine::gmglobal_watcher::Quote;
use trading_engine::text::{contains_text, ends_with_text, starts_with_text};
use trading_engine::trade::{value_to_u64, JsonScalar, OrderType, TradeRequest, TradeSide};

#[test]
fn config_defaults() {
    let c = GMGlobalConfig::new();
    assert_eq!(c.username, "592812");
    assert_eq!(c.login_url, "https://www.gmglobal.org/ajaxfiles/logincheck.php");
    assert_eq!(c.socket_base, "https://thedatamining.org:4003/socket.io/");
    let c = GMGlobalConfig::with_credentials("u".into(), "p".into());
    assert_eq!(c.username, "u");
    assert_eq!(c.password, "p");
    assert_eq!(c.login_url, "https://www.gmglobal.org/ajaxfiles/logincheck.php");
}

#[test]
fn map_symbol_examples() {
    assert_eq!(map_symbol("IRCTC26JANFUT"), Some("IRCTC-I".to_string()));
    assert_eq!(map_symbol("NIFTY24DECFUT"), Some("NIFTY-I".to_string()));
    assert_eq!(map_symbol("AB1C2FUT"), Some("AB1C-I".to_string()));
    assert_eq!(map_symbol("M&M26JANFUT"), Some("M&M-I".to_string()));
    assert_eq!(map_symbol("RELIANCE"), None);
    assert_eq!(map_symbol("FUT"), None);
    assert_eq!(map_symbol("26JANFUT"), None);
    assert_eq!(map_symbol("XFUTFUT"), None);
    assert_eq!(map_symbol("irctcfut"), None);
}

#[test]
fn signal_json_cuts_object() {
    assert_eq!(signal_json("42[\"s\",{\"a\":{\"b\":1}}]"), Some("{\"a\":{\"b\":1}}".to_string()));
    assert_eq!(signal_json("no json"), None);
    assert_eq!(signal_json("} before {"), None);
    assert_eq!(signal_json("é{x}é"), Some("{x}".to_string()));
}

fn message(event: &str, symbol: &str, kind: &str) -> SignalMessage {
    SignalMessage {
        event_type: event.into(),
        symbol: symbol.into(),
        signal_type: kind.into(),
        price_at_signal: 72550,
        ltp_at_signal: 72600,
        lot_size: 875,
    }
}

#[test]
fn signal_from_message_checks() {
    let s = signal_from_message(message("signal", "IRCTC26JANFUT", "buy")).unwrap();
    assert_eq!(s.product, "IRCTC-I");
    assert_eq!(s.side, SignalSide::Buy);
    assert_eq!(s.price, 72550);
    assert_eq!(s.target, 72600);
    assert_eq!(s.trade_qty, 875);
    let s = signal_from_message(message("signal", "IRCTC26JANFUT", "Sell")).unwrap();
    assert_eq!(s.side, SignalSide::Sell);
    assert!(signal_from_message(message("heartbeat", "IRCTC26JANFUT", "BUY")).is_none());
    assert!(signal_from_message(message("signal", "IRCTC", "BUY")).is_none());
    assert!(signal_from_message(message("signal", "IRCTC26JANFUT", "HOLD")).is_none());
}

#[test]
fn signal_from_uppercased_type() {
    let s = signal_from_parts(message("signal", "IRCTC26JANFUT", "sell"), "SELL").unwrap();
    assert_eq!(s.side, SignalSide::Sell);
    assert_eq!(s.product, "IRCTC-I");
    assert!(signal_from_parts(message("signal", "IRCTC26JANFUT", "buy"), "buy").is_none());
}

#[test]
fn padding_around_signal_is_ignored() {
    let core = "{\"a\":{\"b\":1}}";
    let padded = format!("data: {}\n\r", core);
    assert_eq!(signal_json(&padded), signal_json(core));
    assert_eq!(signal_json(core), Some(core.to_string()));
}

#[test]
fn parse_i64_grammar() {
    assert_eq!(parse_i64("123"), Some(123));
    assert_eq!(parse_i64("-45"), Some(-45));
    assert_eq!(parse_i64("+7"), Some(7));
    assert_eq!(parse_i64("007"), Some(7));
    assert_eq!(parse_i64(""), None);
    assert_eq!(parse_i64("-"), None);
    assert_eq!(parse_i64("+"), None);
    assert_eq!(parse_i64("12a"), None);
    assert_eq!(parse_i64(" 1"), None);
    assert_eq!(parse_i64("9223372036854775807"), Some(i64::MAX));
    assert_eq!(parse_i64("9223372036854775808"), None);
    assert_eq!(parse_i64("-9223372036854775808"), Some(i64::MIN));
    assert_eq!(parse_i64("-9223372036854775809"), None);
    assert_eq!(parse_i64("99999999999999999999999999999999999999999"), None);
    for s in ["0", "-1", "+12", "x", "", "18446744073709551615"] {
        assert_eq!(parse_i64(s), s.parse::<i64>().ok());
    }
}

#[test]
fn formatting_matches_std() {
    for n in [0i64, 7, -7, 10, 1234567890, i64::MAX, i64::MIN] {
        assert_eq!(format_i64(n), n.to_string());
        assert_eq!(parse_i64(&format_i64(n)), Some(n));
    }
    for n in [0u64, 9, 10, 99, 100, u64::MAX] {
        assert_eq!(format_u64(n), n.to_string());
    }
}

#[test]
fn prices_format_like_floats() {
    assert_eq!(format_price(9990), "99.9");
    assert_eq!(format_price(10490), "104.9");
    assert_eq!(format_price(300000), "3000");
    assert_eq!(format_price(10005), "100.05");
    assert_eq!(format_price(5), "0.05");
    assert_eq!(format_price(0), "0");
    for p in [9990u128, 10490, 300000, 10005, 5, 12345, 100] {
        assert_eq!(format_price(p), (p as f64 / 100.0).to_string());
    }
}

#[test]
fn delta_and_rounding() {
    assert_eq!(calculate_delta(9999), 2);
    assert_eq!(calculate_delta(10000), 5);
    assert_eq!(calculate_delta(100000), 20);
    assert_eq!(calculate_delta(1000000), 200);
    assert_eq!(calculate_delta(62500), 15);
    assert_eq!(round_to_5_paisa(25, 10), 1);
    assert_eq!(round_to_5_paisa(24, 10), 0);
    assert_eq!(round_to_5_paisa(9990000, 1000), 1998);
    assert_eq!(round_to_5_paisa(5, 1), 1);
    assert_eq!(round_to_5_paisa(7, 1), 1);
    assert_eq!(round_to_5_paisa(8, 1), 2);
    let big = u128::MAX / 8;
    assert_eq!(round_to_5_paisa(big / 2, big), 0);
    let mid = u128::MAX / 16;
    assert_eq!(round_to_5_paisa(mid, mid), 0);
    assert_eq!(round_to_5_paisa(5 * mid, mid), 1);
}

#[test]
fn rounding_is_within_half_a_tick_and_idempotent() {
    for numer in 0u128..2000 {
        for denom in 1u128..40 {
            let t = round_to_5_paisa(numer, denom);
            let diff = 10 * t as i128 * denom as i128 - 2 * numer as i128;
            assert!(diff.abs() <= 5 * denom as i128);
            assert_eq!(round_to_5_paisa(5 * t, 1), t);
        }
    }
}

#[test]
fn stop_prices() {
    let q = Quote { product: "P".into(), bid: 10500, ask: 10600, ltp: 10550, timestamp: "t".into() };
    assert_eq!(stop_price_ticks(TradeSide::Buy, &q), 2098);
    assert_eq!(stop_price_ticks(TradeSide::Sell, &q), 2122);
}

#[test]
fn order_gone_messages() {
    assert!(is_order_gone("Trade Already Deleted"));
    assert!(is_order_gone("Order NOT FOUND"));
    assert!(is_order_gone("order executed"));
    assert!(!is_order_gone("Internal Server Error"));
    assert!(says_gone("trade already deleted"));
    assert!(says_gone("order not found"));
    assert!(!says_gone("Trade Already Deleted"));
}

#[test]
fn trade_ids() {
    assert_eq!(trade_id_string(&TradeId::Number(123)), Some("123".to_string()));
    assert_eq!(trade_id_string(&TradeId::Text("sl_1".into())), Some("sl_1".to_string()));
    assert_eq!(trade_id_string(&TradeId::Missing), None);
}

#[test]
fn text_helpers() {
    assert!(contains_text("abcdef", "cde"));
    assert!(contains_text("abc", ""));
    assert!(!contains_text("abc", "abcd"));
    assert!(starts_with_text("42[x]", "42"));
    assert!(ends_with_text("XFUT", "FUT"));
    assert!(!ends_with_text("UT", "FUT"));
}

#[test]
fn cells_as_counts() {
    assert_eq!(value_to_u64(&JsonScalar::Unsigned(42)), 42);
    assert_eq!(value_to_u64(&JsonScalar::Negative(-42)), 42);
    assert_eq!(value_to_u64(&JsonScalar::Text("-17".into())), 17);
    assert_eq!(value_to_u64(&JsonScalar::Text("abc".into())), 0);
    assert_eq!(value_to_u64(&JsonScalar::Other), 0);
    assert_eq!(value_to_u64(&JsonScalar::Negative(i64::MIN)), 9223372036854775808);
}

#[test]
fn trade_request_fields() {
    let r = TradeRequest::new("ASIANPAINT-I", Some(300000), TradeSide::Buy, OrderType::Market, 1, 1);
    assert_eq!(r.trade_rate.as_deref(), Some("3000"));
    assert_eq!(r.trade_type, 0);
    assert_eq!(r.trade_type_x, 0);
    assert_eq!(r.trade_lot, 1);
    assert_eq!(r.check_script_name, "ASIANPAINT-I");
    assert_eq!(r.user_id, "");
    assert!(r.script_id.is_none());
    let r = TradeRequest::new("X-I", None, TradeSide::Sell, OrderType::StopLoss, 3, 2);
    assert_eq!(r.trade_rate, None);
    assert_eq!(r.trade_type, 1);
    assert_eq!(r.trade_type_x, 2);
    assert_eq!(r.market_type_id, 2);
}
