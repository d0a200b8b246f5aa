//! The logic of a chat bot that answers a request with one drink: which
//! message text asks for a drink, and what the reply says for whatever
//! the recipe source returned.

pub mod format;
pub mod record;
pub mod text;
pub mod trigger;
