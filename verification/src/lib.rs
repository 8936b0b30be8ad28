//! A turn-based card table: the deck, the seats, the lobby, the bet intake,
//! the mailboxes and the coordinator that moves a round from phase to phase.
//!
//! The library never waits and does no input or output. A server around it
//! holds each shared structure behind a lock of its own, calls
//! [`session::Session::step`] in a loop, delivers what each move announces
//! through [`hub::MessageHub::dispatch`], and pauses when a move says that
//! the table is idle.
//!
//! The logic is verified with Verus against the contracts that stand on each
//! function. The calls into `rand` and `tokio` are the only trusted items;
//! each says in its comment what is taken on trust.

pub mod bets;
pub mod card;
pub mod connection;
pub mod deck;
pub mod hub;
pub mod lobby;
pub mod notice;
pub mod player;
pub mod session;
pub mod text;
pub mod wager;
