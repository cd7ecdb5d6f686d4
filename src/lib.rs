//! A directory-backed store of individually encrypted secrets.
//!
//! The library decides; the caller acts. Every store operation is split into
//! pure, verified steps: the caller reports what it observed on disk (whether a
//! file exists, what the recipient record holds, what the encryption engine
//! returned) and receives back the exact effect to carry out.

pub mod error;
pub mod secret;
pub mod layout;
pub mod generator;
pub mod prompt;
pub mod store;
pub mod model;
