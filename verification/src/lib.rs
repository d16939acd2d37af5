//! Decision logic of a signal-driven trading engine: symbol mapping,
//! entry and trailing stop-loss state machines, broker reply handling
//! and the small parsers and formatters they rest on.

pub mod config;
pub mod text;
pub mod number;
pub mod price;
pub mod trade;
pub mod text_map;
pub mod gmglobal_watcher;
pub mod mock_market_data;
pub mod signal_receiver;
pub mod signal_processor;
