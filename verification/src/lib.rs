//! Verified core of a social follow-graph visualiser.
//!
//! The crate crawls the "follows" relation of one root account outward by a
//! single hop, derives which discovered accounts share follow edges, and
//! keeps a force-directed layout of the resulting graph in step with the
//! crawl.  Everything stateful — the deduplicating graph store, the paginated
//! crawl with bounded retries, and the layout controller with its rebuild and
//! pause rules — lives here with contracts.  Network transport and the
//! floating-point force solver are driven from outside against these
//! contracts.

pub mod compat;
pub mod crawler;
pub mod identity;
pub mod layout;
pub mod request;
pub mod session;
pub mod store;
