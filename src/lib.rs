//! Kingdom Kards: a turn-based card game that several clients play against
//! one host, over a line-based text protocol.
//!
//! - `protocol`: requests and responses, and their wire format
//! - `stream`: the checks of a strict request/response exchange
//! - `session`: joining a game
//! - `game_state`: the host's registry of players
//! - `turn`: how actions change the registry
//! - `player`, `card`: a player's hand and deck
//! - `text`: fields and decimal numbers

pub mod card;
pub mod game_state;
pub mod player;
pub mod protocol;
mod random;
pub mod session;
pub mod stream;
pub mod text;
pub mod turn;
