//! Text as sequences of characters: the vocabulary in which the contracts of the
//! library speak about strings, and the verified functions that compute it.

pub mod chars;
pub mod hex;
pub mod number;
pub mod search;
