//! A remote artifact cache: fetches a file named by a URL, keeps it on disk
//! under a key derived from the URL, revalidates it with the server's entity
//! tag, and keeps the cache under a byte budget by evicting the least recently
//! used entries.
//!
//! Everything here is pure decision logic; the program around it performs the
//! file-system and network work that the decisions ask for.
pub mod text;
pub mod config;
pub mod error;
pub mod key;
pub mod index;
pub mod evict;
pub mod resolve;
pub mod guard;
pub mod engine;
