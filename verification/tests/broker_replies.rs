use trading_engine::gmglobal_watcher::{
    after_pending_check, body_outcome, decide_placement, deletion_request_body, relogin_failed,
    table_parse_error, BrokerCall, PendingCheck, TableRequest, deletion_outcome, event_array, feed_event, frame_kind, handshake_json,
    handshake_sid, is_pending, is_session_error, open_positions, parse_order_id, pending_id_from,
    pending_order_ids, placement_outcome, prepare_trade, read_deletion_reply, read_placement_reply,
    reuse_session, script_table, startup_from_lowered, startup_stop_loss, subscribe_message, ArrayPart,
    BodyOutcome, DeleteOutcome, FeedEvent, FrameKind, HandshakeError, ReplyOutcome, ScriptRecord,
    Subscriptions,
};
use trading_engine::trade::{JsonScalar, OrderType, TradeSide};

fn some(s: &str) -> Option<String> {
    Some(s.to_string())
}

#[test]
fn session_errors() {
    assert!(is_session_error("Error: Invalid Login"));
    assert!(is_session_error("Invalid Server Time!"));
    assert!(!is_session_error("invalid login"));
    assert_eq!(body_outcome("{\"scripts\":[]}", 0, TableRequest::Scripts), BodyOutcome::Proceed);
    assert_eq!(body_outcome("Invalid Login", 1, TableRequest::Scripts), BodyOutcome::Relogin);
    assert_eq!(
        body_outcome("Invalid Login", 2, TableRequest::Scripts),
        BodyOutcome::GiveUp("Failed to load scripts even after re-login".to_string())
    );
    assert_eq!(
        body_outcome("x Invalid Server Time x", 2, TableRequest::PendingOrders),
        BodyOutcome::GiveUp("Failed after re-login".to_string())
    );
    assert_eq!(
        body_outcome("Invalid Login", 2, TableRequest::OpenPositions),
        BodyOutcome::GiveUp("Failed after re-login".to_string())
    );
}

#[test]
fn placement_replies() {
    assert_eq!(placement_outcome(&some("success"), &None, 0), ReplyOutcome::Accepted);
    assert_eq!(placement_outcome(&some("SUCCESS"), &None, 0), ReplyOutcome::Accepted);
    assert_eq!(placement_outcome(&None, &some("Order Placed Successfully"), 0), ReplyOutcome::Accepted);
    assert_eq!(placement_outcome(&some("error"), &some("Invalid Login"), 1), ReplyOutcome::Relogin);
    assert_eq!(
        placement_outcome(&some("error"), &some("Invalid Login"), 2),
        ReplyOutcome::Rejected("Invalid Login".to_string())
    );
    assert_eq!(placement_outcome(&None, &None, 0), ReplyOutcome::Rejected(String::new()));
}

#[test]
fn deletion_replies() {
    assert_eq!(deletion_outcome(&some("success"), &None, true, 0), DeleteOutcome::Accepted);
    assert_eq!(deletion_outcome(&None, &None, true, 0), DeleteOutcome::Accepted);
    assert_eq!(
        deletion_outcome(&some("fail"), &None, true, 0),
        DeleteOutcome::Rejected("Trade Delete Failed".to_string())
    );
    assert_eq!(deletion_outcome(&some("error"), &some("Invalid Server Time"), true, 0), DeleteOutcome::CheckPending);
    assert_eq!(
        deletion_outcome(&some("error"), &some("Invalid Server Time"), false, 0),
        DeleteOutcome::Rejected("Invalid Server Time".to_string())
    );
    assert!(is_pending(&vec!["1".to_string(), "22".to_string()], "22"));
    assert!(!is_pending(&vec!["1".to_string()], "2"));
    assert_eq!(parse_order_id("123"), Ok(123));
    assert_eq!(parse_order_id("sl_1"), Err("Invalid order_id format".to_string()));
}

#[test]
fn session_reuse() {
    assert!(reuse_session(false, Some(0), 4_999_999_999));
    assert!(!reuse_session(false, Some(0), 5_000_000_000));
    assert!(!reuse_session(true, Some(0), 1));
    assert!(!reuse_session(false, None, 1));
}

#[test]
fn handshake_object() {
    assert_eq!(
        handshake_json("97:0{\"sid\":\"abc\",\"x\":{\"y\":1}}2:40"),
        Ok("{\"sid\":\"abc\",\"x\":{\"y\":1}}".to_string())
    );
    assert_eq!(handshake_json("no object"), Err(HandshakeError::NoStart));
    assert_eq!(handshake_json("{\"a\":{}"), Err(HandshakeError::NoEnd));
}

#[test]
fn frames() {
    assert_eq!(frame_kind("2"), FrameKind::Ping);
    assert_eq!(frame_kind("3"), FrameKind::Pong);
    assert_eq!(frame_kind("42[\"marketWatch\",{}]"), FrameKind::Event);
    assert_eq!(frame_kind("40"), FrameKind::Other);
    match event_array("42[\"marketWatch\",{\"data\":{}}]") {
        ArrayPart::Part(p) => assert_eq!(p, "[\"marketWatch\",{\"data\":{}}]"),
        _ => panic!("expected an array"),
    }
    assert!(matches!(event_array("42{}"), ArrayPart::Missing));
    match event_array("42][") {
        ArrayPart::Part(p) => assert_eq!(p, ""),
        _ => panic!("expected an empty span"),
    }
    assert!(matches!(event_array("42]x["), ArrayPart::Inverted));
    assert_eq!(subscribe_message("IRCTC-I"), "42[\"addMarketWatch\",{\"product\":\"IRCTC-I\"}]");
}

#[test]
fn subscriptions_are_a_set() {
    let mut s = Subscriptions::new();
    assert!(s.add("A-I".into()));
    assert!(s.add("B-I".into()));
    assert!(!s.add("A-I".into()));
    let mut p = s.products();
    p.sort();
    assert_eq!(p, vec!["A-I".to_string(), "B-I".to_string()]);
}

fn record(id: &str, name: &str, expiry_id: &str, expiry_type: &str) -> ScriptRecord {
    ScriptRecord {
        script_id: id.into(),
        script_name: name.into(),
        script_expiry_id: expiry_id.into(),
        script_expiry_type: expiry_type.into(),
    }
}

#[test]
fn scripts_and_trades() {
    let table = script_table(&vec![
        record("1", "IRCTC", "10", "I"),
        record("2", "NIFTY", "20", "I"),
        record("3", "IRCTC", "30", "I"),
    ]);
    assert_eq!(table.len(), 2);
    let info = table.get(&"IRCTC-I".to_string()).unwrap();
    assert_eq!(info.script_id, "3");
    assert_eq!(info.script_expiry_id, "30");
    let t = prepare_trade("NIFTY-I", Some(2345005), TradeSide::Sell, OrderType::Market, 2, 1, None, None, &table, "u9")
        .unwrap();
    assert_eq!(t.script_id.as_deref(), Some("2"));
    assert_eq!(t.script_expiry_id.as_deref(), Some("20"));
    assert_eq!(t.user_id, "u9");
    assert_eq!(t.trade_rate.as_deref(), Some("23450.05"));
    let t = prepare_trade("ZZZ-I", None, TradeSide::Buy, OrderType::StopLoss, 1, 1, some("a"), some("b"), &table, "")
        .unwrap();
    assert_eq!(t.script_id.as_deref(), Some("a"));
    let e = prepare_trade("ZZZ-I", None, TradeSide::Buy, OrderType::StopLoss, 1, 1, some("a"), None, &table, "");
    assert_eq!(e.err(), Some("Script not found: ZZZ-I".to_string()));
}

fn row(cells: Vec<(usize, JsonScalar)>, len: usize) -> Vec<JsonScalar> {
    let mut r = vec![JsonScalar::Other; len];
    for (i, c) in cells {
        r[i] = c;
    }
    r
}

#[test]
fn order_book_pending_ids() {
    let rows = vec![
        row(vec![(9, JsonScalar::Text("Pending".into())), (13, JsonScalar::Unsigned(501))], 14),
        row(vec![(9, JsonScalar::Text("Executed".into())), (13, JsonScalar::Unsigned(502))], 14),
        row(vec![(9, JsonScalar::Text("PENDING".into())), (13, JsonScalar::Text("503".into()))], 14),
        row(vec![(9, JsonScalar::Text("pending".into()))], 13),
        row(vec![(9, JsonScalar::Unsigned(1)), (13, JsonScalar::Unsigned(504))], 14),
    ];
    assert_eq!(pending_order_ids(&rows), vec!["501".to_string(), "503".to_string()]);
}

#[test]
fn position_book_rows() {
    let rows = vec![
        row(
            vec![
                (0, JsonScalar::Text("IRCTC-I".into())),
                (4, JsonScalar::Text("2 Lot".into())),
                (22, JsonScalar::Text("-2".into())),
                (23, JsonScalar::Text("e1".into())),
                (24, JsonScalar::Text("s1".into())),
            ],
            25,
        ),
        row(vec![(0, JsonScalar::Text("ZERO-I".into())), (22, JsonScalar::Unsigned(0))], 25),
        row(vec![(21, JsonScalar::Unsigned(3))], 22),
        row(vec![(22, JsonScalar::Unsigned(3))], 23),
    ];
    let p = open_positions(&rows);
    assert_eq!(p.len(), 2);
    assert_eq!(p[0].row, 0);
    assert_eq!(p[0].product, "IRCTC-I");
    assert_eq!(p[0].quantity, 2);
    assert_eq!(p[0].buy_qty_text, "2 Lot");
    assert_eq!(p[0].sell_qty_text, "0");
    assert_eq!(p[0].script_expiry_id.as_deref(), Some("e1"));
    assert_eq!(p[0].script_id.as_deref(), Some("s1"));
    assert_eq!(p[1].row, 3);
    assert_eq!(p[1].product, "");
    assert_eq!(p[1].script_id, None);
}

#[test]
fn startup_positions() {
    assert_eq!(startup_stop_loss(&some("buy"), Some(3)), Some((TradeSide::Buy, 3)));
    assert_eq!(startup_stop_loss(&some("SELL"), Some(2)), Some((TradeSide::Sell, 2)));
    assert_eq!(startup_stop_loss(&some("hold"), Some(2)), None);
    assert_eq!(startup_stop_loss(&some("buy"), Some(0)), None);
    assert_eq!(startup_stop_loss(&some("buy"), None), None);
    assert_eq!(startup_stop_loss(&some("buy"), Some(1 << 32)), None);
    assert_eq!(startup_stop_loss(&some("buy"), Some((1 << 32) + 5)), Some((TradeSide::Buy, 5)));
    assert_eq!(startup_stop_loss(&None, Some(5)), None);
}

#[test]
fn startup_on_lowered_side() {
    assert_eq!(startup_from_lowered("buy", Some(3)), Some((TradeSide::Buy, 3)));
    assert_eq!(startup_from_lowered("sell", Some(1)), Some((TradeSide::Sell, 1)));
    assert_eq!(startup_from_lowered("BUY", Some(3)), None);
    assert_eq!(startup_from_lowered("buy", Some(0)), None);
}

#[test]
fn placement_on_lowered_status() {
    assert_eq!(decide_placement(&some("Success!"), &None, "success!", 0), ReplyOutcome::Accepted);
    assert_eq!(
        decide_placement(&some("Success!"), &some("x"), "other", 0),
        ReplyOutcome::Rejected("x".to_string())
    );
    assert_eq!(decide_placement(&some("error"), &some("Invalid Login"), "error", 0), ReplyOutcome::Relogin);
}

#[test]
fn pending_on_lowered_status() {
    let r = row(vec![(9, JsonScalar::Text("Pending".into())), (13, JsonScalar::Unsigned(77))], 14);
    assert_eq!(pending_id_from(&r, "pending"), Some("77".to_string()));
    assert_eq!(pending_id_from(&r, "Pending"), None);
    let short = row(vec![(9, JsonScalar::Text("pending".into()))], 13);
    assert_eq!(pending_id_from(&short, "pending"), None);
}

#[test]
fn raw_placement_replies() {
    assert_eq!(read_placement_reply("{\"status\":\"success\"}", 0), Ok(ReplyOutcome::Accepted));
    assert_eq!(
        read_placement_reply("{\"status\":\"error\",\"message\":\"Invalid Login\"}", 0),
        Ok(ReplyOutcome::Relogin)
    );
    assert_eq!(
        read_placement_reply("{\"status\":\"error\",\"message\":\"Margin short\"}", 0),
        Ok(ReplyOutcome::Rejected("Margin short".to_string()))
    );
    assert_eq!(read_placement_reply("{\"status\":1}", 0), Ok(ReplyOutcome::Rejected(String::new())));
    assert!(read_placement_reply("not json", 0).is_err());
}

#[test]
fn raw_deletion_replies() {
    assert_eq!(read_deletion_reply("{\"status\":\"success\"}", true, 0), Ok(DeleteOutcome::Accepted));
    assert_eq!(
        read_deletion_reply("{\"status\":\"fail\"}", true, 0),
        Ok(DeleteOutcome::Rejected("Trade Delete Failed".to_string()))
    );
    assert_eq!(
        read_deletion_reply("{\"status\":\"error\",\"message\":\"Invalid Server Time\"}", true, 0),
        Ok(DeleteOutcome::CheckPending)
    );
    assert!(read_deletion_reply("<html>", true, 0).is_err());
}

#[test]
fn handshake_session_id() {
    assert_eq!(
        handshake_sid("96:0{\"sid\":\"abc\",\"upgrades\":[\"websocket\"],\"pingInterval\":25000}2:40"),
        Ok("abc".to_string())
    );
    assert_eq!(handshake_sid("no object"), Err("No JSON start".to_string()));
    assert_eq!(handshake_sid("0{\"sid\":\"a\""), Err("No JSON end".to_string()));
    assert_eq!(handshake_sid("0{\"upgrades\":[]}"), Err("SID missing in handshake".to_string()));
    assert_eq!(handshake_sid("0{\"sid\":5}"), Err("SID missing in handshake".to_string()));
    let e = handshake_sid("0{sid}").unwrap_err();
    assert!(e.starts_with("Handshake JSON parse failed: "));
    assert!(e.len() > "Handshake JSON parse failed: ".len());
}

#[test]
fn feed_frames() {
    assert!(matches!(feed_event("2"), FeedEvent::Ping));
    assert!(matches!(feed_event("3"), FeedEvent::Skip));
    assert!(matches!(feed_event("40"), FeedEvent::Skip));
    assert!(matches!(feed_event("42]["), FeedEvent::Skip));
    assert!(matches!(feed_event("42]x["), FeedEvent::Malformed));
    assert!(matches!(feed_event("42[not json]"), FeedEvent::Skip));
    assert!(matches!(feed_event("42[\"other\",{\"data\":{\"InstrumentIdentifier\":\"A-I\"}}]"), FeedEvent::Skip));
    assert!(matches!(feed_event("42[\"marketWatch\",{\"data\":{}}]"), FeedEvent::Skip));
    let frame = "42[\"marketWatch\",{\"data\":{\"InstrumentIdentifier\":\"IRCTC-I\",\"BuyPrice\":725.5}}]";
    match feed_event(frame) {
        FeedEvent::MarketWatch { instrument, array } => {
            assert_eq!(instrument, "IRCTC-I");
            assert_eq!(array, &frame[2..]);
        }
        _ => panic!("expected a quote update"),
    }
}

#[test]
fn session_failure_messages() {
    assert_eq!(relogin_failed(BrokerCall::PlaceTrade, "timeout"), "Re-login failed during place_trade: timeout");
    assert_eq!(relogin_failed(BrokerCall::DeleteOrder, "timeout"), "Re-login failed during delete_order: timeout");
    assert_eq!(
        relogin_failed(BrokerCall::Table(TableRequest::Scripts), "e"),
        "Re-login failed during load_scripts: e"
    );
    assert_eq!(relogin_failed(BrokerCall::Table(TableRequest::PendingOrders), "e"), "Re-login failed: e");
    assert_eq!(relogin_failed(BrokerCall::Table(TableRequest::OpenPositions), "e"), "Re-login failed: e");
    assert_eq!(table_parse_error(TableRequest::PendingOrders, "bad", "body"), "Parse error: bad");
    assert_eq!(table_parse_error(TableRequest::OpenPositions, "bad", "body"), "Parse error: bad");
    assert_eq!(
        table_parse_error(TableRequest::Scripts, "bad", "body"),
        "Failed to parse script list: bad | body"
    );
}

#[test]
fn deletion_request_bodies() {
    for n in [0i64, 123, -45, i64::MAX, i64::MIN] {
        let mut m = serde_json::Map::new();
        m.insert("trade_id".to_string(), serde_json::Value::from(n));
        m.insert("password".to_string(), serde_json::Value::from(""));
        let expected = serde_json::to_string(&serde_json::Value::Object(m)).unwrap();
        assert_eq!(deletion_request_body(n), expected);
    }
    assert_eq!(deletion_request_body(77), "{\"password\":\"\",\"trade_id\":77}");
}

#[test]
fn deletion_after_pending_lookup() {
    let ids = vec!["501".to_string(), "503".to_string()];
    assert_eq!(after_pending_check(&Ok(ids.clone()), "503"), PendingCheck::Renew);
    assert_eq!(after_pending_check(&Err("Failed after re-login".to_string()), "9"), PendingCheck::Renew);
    match after_pending_check(&Ok(ids), "502") {
        PendingCheck::AlreadyDone(reply) => {
            let v: serde_json::Value = serde_json::from_str(&reply).unwrap();
            let mut m = serde_json::Map::new();
            m.insert("status".to_string(), serde_json::Value::from("success"));
            m.insert("message".to_string(), serde_json::Value::from("Order already processed"));
            m.insert("note".to_string(), serde_json::Value::from("Order not found in pending orders"));
            assert_eq!(v, serde_json::Value::Object(m));
        }
        PendingCheck::Renew => panic!("an order missing from the book is already done"),
    }
    assert!(matches!(after_pending_check(&Ok(vec![]), "1"), PendingCheck::AlreadyDone(_)));
}

#[test]
fn subscribing_twice_is_refused() {
    let mut s = Subscriptions::new();
    assert!(s.add("X-I".into()));
    assert!(!s.add("X-I".into()));
    assert_eq!(s.products(), vec!["X-I".to_string()]);
}
