//! Verified core of a small JavaScript runtime: string views, timers,
//! stream bookkeeping, argument coercion, hashing and path helpers.

pub mod unicode;
pub mod rs_string;
pub mod duration;
pub mod duration_arg;
pub mod string_arg;
pub mod timers;
pub mod streams;
pub mod convert;
pub mod coerce;
pub mod codec;
pub mod hash;
pub mod error;
pub mod fs;
pub mod date;
pub mod path;
pub mod typescript;
pub mod json;
pub mod bundler;
pub mod resolver;
pub mod loader;
pub mod walk;
pub mod byte_buffer;
pub mod abort;
pub mod closable;
