//! Qingjian input-method logic: mode prefixes, configuration values, the cloud
//! reply assembly, candidate-window frames, the server's session router and the
//! text-service mode decisions, each stated with a contract and proved.

pub mod text;
pub mod zhuyin;
pub mod mode_keys;
pub mod prompt;
pub mod config;
pub mod frame;
pub mod palette;
pub mod status;
pub mod router;
pub mod dictionaries;
pub mod tsf;
pub mod placement;
pub mod candidates;
pub mod hits;
pub mod reload;
pub mod guide;
