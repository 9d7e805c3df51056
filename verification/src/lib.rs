//! A verified interpreter for parser traces.
//!
//! A recursive-descent parser built from a parsing-expression grammar can
//! emit a linear log while it attempts, matches, or fails grammar rules
//! against an input text. This library turns such a log into a navigable
//! call tree and renders that tree as static hierarchical markup:
//!
//! - [`tracer`] recognizes one log line as a typed event;
//! - [`builder`] replays the event stream through a stack machine,
//!   reconstructing one rooted tree per trace session together with the
//!   captured source text;
//! - [`backfill`] infers each rule's end location from its next sibling's
//!   start;
//! - [`classify`] marks the branches that represent real forward progress
//!   through the source;
//! - [`location`] carries the two addressing schemes (line:column
//!   character positions and token indices) and projects them onto the
//!   captured text;
//! - [`filter`] and [`render`] walk the finished tree, flattening or
//!   hiding chosen rule names, and produce nested disclosure markup.
//!
//! Every executable function carries a contract relating it to a
//! mathematical model of the trace, and the stated laws — balanced
//! attempts and completions, order-preserving tree shape, idempotent
//! backfill, upward-propagating partial matches, pure filters — are
//! proved, not tested alone.

#![verifier::loop_isolation(false)]

pub mod backfill;
pub mod builder;
pub mod classify;
pub mod filter;
pub mod location;
pub mod render;
pub mod text;
pub mod tracer;
pub mod tree;

pub use location::CharLocation;
pub use location::Location;
pub use location::TokenIndex;
pub use tree::Node;
pub use tree::Rule;
pub use tree::State;
