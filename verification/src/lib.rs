//! Session-authenticated card moderation and game-session backend.
//!
//! The crate models the persisted state of a small flashcard application
//! (users, login sessions, moderated cards) as an in-memory [`store::Store`]
//! with a well-formedness invariant, and verifies the services that operate
//! on it: registration and login ([`auth`]), card submission and moderation
//! ([`cards`]), profile maintenance ([`profile`]) and shuffled-deck game
//! runs ([`game`]). Password and token cryptography, randomness and the
//! clock come from outside crates through the trusted items in [`security`],
//! [`text`] and [`clock`].

pub mod auth;
pub mod cards;
pub mod clock;
pub mod domain;
pub mod dto;
pub mod errors;
pub mod game;
pub mod profile;
pub mod security;
pub mod store;
pub mod text;
