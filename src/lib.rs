//! Local service layer of an arcade cabinet: the save-data cache, the line
//! protocol and its dispatcher, the game lifecycle rules, the socket binding
//! and task supervision policies, and badge associations.
//!
//! Everything here is computation on plain values; reading and writing
//! files, sockets and processes is left to the caller, which hands the results
//! back in.
pub mod assoc;
pub mod catalog;
pub mod dispatch;
pub mod env;
pub mod lifecycle;
pub mod listener;
pub mod nfc;
pub mod persistence;
pub mod protocol;
pub mod schema;
pub mod supervisor;
pub mod text;
