//! Spoken-Tamil flashcards: the deck of cards built from daily lessons,
//! the study session that walks through it, and the links and labels shown
//! beside each card.

pub mod text;
pub mod number;
pub mod url;
pub mod deck;
pub mod session;
