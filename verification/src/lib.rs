//! A per-chat dictionary of "trigger -> reply" associations, with the reply
//! gate that decides which matched messages are actually answered, the
//! snapshot layout of the dictionary and the commands that change it.
//!
//! Every executable item carries a contract over the mathematical model of
//! the data (sequences of characters, sequences of keyed entries) and is
//! proved against it. The few items that call into the standard library's
//! Unicode tables or into the JSON parser are not proved; each says so where
//! it stands.

pub mod admins;
pub mod chat;
pub mod codec;
pub mod command;
pub mod keyed;
pub mod laws;
pub mod manager;
pub mod models;
pub mod roast;
pub mod snapshot;
pub mod store;
pub mod text;
pub mod wellformed;
