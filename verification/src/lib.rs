//! Bootloader memory layout for oracle price data and the oracle price
//! update transaction of the state keeper.
pub mod primitives;
pub mod bootloader;
pub mod oracle_tx;
pub mod operator_key;
