//! A value bridge between a garbage-collected host runtime and native code.
//!
//! The core is a tagged-value representation (`value`), a model of the host
//! heap with allocation, explicit roots and a mark-and-sweep collection
//! (`heap`, `gc`), finalized blocks owning native resources (`finalize`),
//! bidirectional conversion contracts (`convert`), a synchronous call
//! mechanism that unwraps host-side exceptions (`invoke`), deep cloning of
//! value graphs (`clone_graph`), and named global lookup (`names`). On top
//! of it all sits the windowing run-loop bridge (`bridge`) with its closed
//! event contract (`events`, `keycode`).

pub mod bridge;
pub mod clone_graph;
pub mod convert;
pub mod events;
pub mod finalize;
pub mod gc;
pub mod heap;
pub mod invoke;
pub mod keycode;
pub mod names;
pub mod tag;
pub mod value;
