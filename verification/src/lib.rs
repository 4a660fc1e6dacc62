//! A visitor counter served as digit images: request routing, visitor
//! filtering, unique-visit tracking and the single-instance start-up protocol.

pub mod address;
pub mod clock;
pub mod config;
pub mod counter;
pub mod decimal;
pub mod digits;
pub mod filter;
pub mod guard;
pub mod laws;
pub mod request;
pub mod response;
pub mod store;
pub mod text;
pub mod tracker;
