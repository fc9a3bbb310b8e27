//! Client-side protocol logic for a shared LED matrix service.
//!
//! The service hands out one exclusive lock at a time and accepts a colour
//! assignment for ten LEDs from whoever holds it. This crate holds the parts
//! of a client that decide something: how a lock response is interpreted, and
//! how a colour assignment is written on the wire and put into a request.
//! Sending the requests is left to the caller.

pub mod colour;
pub mod decode;
pub mod encode;
pub mod format;
pub mod json;
pub mod lock;
pub mod query;
pub mod submit;
