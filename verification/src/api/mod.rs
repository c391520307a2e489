//! Exchange-specific request signing, symbol classification, URL rules, order
//! vocabularies and ledger reading.

pub mod binance;
pub mod bullish;
pub mod bybit;
pub mod coincall;
pub mod deribit;
pub mod hyperliquid;
pub mod mexc;
pub mod okx;
pub mod uniswap;
