//! A Chinese Chess (Xiangqi) core library: board model, per-piece move
//! legality, FEN-style position codec, Chinese move notation, and the
//! decision logic of a UCI-like engine-protocol session.

pub mod command;
pub mod fen;
pub mod fen_laws;
pub mod manager;
pub mod notation;
pub mod protocol;
pub mod rules;
pub mod state;
pub mod text;
