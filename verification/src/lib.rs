//! Pluggable persistence for a four-part wallet aggregate.
//!
//! A wallet is made of four independently serialized parts (descriptor,
//! data, cache, and an optional layer-2 extension). Each part has a fixed
//! codec and a fixed file-name suffix, so that any backend that follows the
//! naming rule can read what another backend wrote. Backends are modelled
//! over an abstract [`connector::Connector`]: a keyed byte store whose reads
//! and writes may fail transiently. The remote backend wraps every connector
//! call in a bounded retry loop that masks transient failures.

pub mod bytes;
pub mod connector;
pub mod errors;
pub mod hexnum;
pub mod naming;
pub mod parts;
pub mod provider;
pub mod retry;
pub mod wallet;
