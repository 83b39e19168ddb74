//! Creation of movie reviews in program-derived storage slots.
//!
//! A review lives in a slot whose address the program computes from the user's key
//! and the movie title. The library validates a request, checks the slot
//! address, and writes the record into the slot at most once.

pub mod address;
pub mod error;
pub mod state;
pub mod processor;
