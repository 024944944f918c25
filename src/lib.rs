//! Relays the chunk stream of a PNG container to a new container, injecting
//! one synthesised chunk right after the signature.
pub mod bytes;
pub mod crc;
pub mod chunk;
pub mod report;
pub mod lemmas;
