//! Verified core of a Uniswap pair monitor: the text formatting of the
//! Discord notification, the decoding of `PairCreated` logs, the choice of the
//! pool side that holds WETH, and the steps of sending one notification.

pub mod address;
pub mod pair;
pub mod prettify;
pub mod text;
pub mod webhook;
