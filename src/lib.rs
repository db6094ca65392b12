//! Server-authoritative core of a two-player chess service: board model,
//! move generation and validation, game snapshots, compact serialization
//! and the per-game session rules.
pub mod api;
pub mod apply;
pub mod bitboards;
pub mod board;
pub mod check;
pub mod codec;
pub mod compact;
pub mod engine;
pub mod fen;
pub mod game;
pub mod movegen;
pub mod piece;
pub mod session;
pub mod setup;
