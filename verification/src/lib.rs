//! The rules of a family of caches: what is kept, for how long, what makes room, and what each
//! request to a memory, a file, a server or a directory of images comes to.

pub mod clock;
mod concurrent;
pub mod config;
pub mod digest;
pub mod entry;
pub mod error;
pub mod handler;
pub mod json;
pub mod keyed;
pub mod memory;
pub mod memory_laws;
pub mod memory_view;
pub mod module_cache;
pub mod noop;
pub mod og_cache;
pub mod og_laws;
pub mod recency;
pub mod redb_handler;
pub mod redb_laws;
pub mod redb_run;
pub mod redis_handler;
pub mod redis_laws;
pub mod registry;
pub mod reply;
pub mod test_handler;
pub mod text;
