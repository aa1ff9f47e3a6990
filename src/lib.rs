//! A game of SKATE: a parser for trick names, the odds of landing a trick,
//! and the bookkeeping of a match between two players.
pub mod chance;
pub mod game;
pub mod laws;
pub mod text;
pub mod trick;
