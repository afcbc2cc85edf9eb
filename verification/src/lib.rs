//! A personal credential manager: records keyed by sortable identifiers, a
//! tag index kept consistent with the records, and the decision logic of a
//! two-peer synchronisation protocol.

pub mod cmd_args;
pub mod command;
pub mod database;
pub mod order;
pub mod pattern;
pub mod text;
