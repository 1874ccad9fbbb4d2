//! Core logic of a chat-platform bot: an ephemeral interaction-correlation
//! cache with time-to-live and consume-on-read semantics, and a document
//! repository for support tickets with uniform query, bounded-result and
//! bulk-delete semantics over a shared error taxonomy.

pub mod cache;
pub mod collection;
pub mod errors;
pub mod kiss;
pub mod kv;
pub mod object_id;
pub mod repository;
pub mod text;
pub mod ticket;
