//! Verified core of a small chat application: input validation, the
//! configuration record, the command executor's decisions, the network
//! message handling and the state changes of the user interface.

pub mod text;
pub mod validators;
pub mod configuration_manager;
pub mod core_executor;
pub mod ui_manager;
pub mod network;
