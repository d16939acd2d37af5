//! Acting on a signal: entering the trade, then trailing its stop-loss.

pub mod entry;
pub mod stop_loss;
