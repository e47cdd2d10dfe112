//! Decoding of order events emitted in a program's log stream, and their
//! fan-out to live subscribers.

pub mod registry;
pub mod decode;
pub mod extract;
pub mod normalize;
pub mod broadcast;
pub mod pipeline;
pub mod session;
