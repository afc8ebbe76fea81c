//! Hierarchical layout export and transform engine.
//!
//! The crate holds two independent pipelines.
//!
//! The export pipeline turns a layout model ([`layout`]: cells, shapes,
//! instances, nets) into a GDS library ([`gds`]). Shapes become boundary and
//! path elements ([`convert`]); instances become structure references whose
//! origin and orientation are worked out from the bounding box of the cell
//! they place ([`transform`]); [`export`] puts the structures together, and
//! [`hierarchy`] states what holds of every library it gives.
//!
//! The walker pipeline works on a GDS library that already exists. For the
//! part of the hierarchy that a name prefix, a set of name patterns and a
//! depth select ([`walk`], [`names`]), it snaps coordinates to a grid
//! ([`snap`]), rewrites the names that structure references point to
//! ([`replace`]), or lists the placements ([`extract`]).
//!
//! Every function is verified with Verus against the contract it carries.
//! The three functions in [`names`] that call into `std` and `regex` are
//! believed: their contracts say what those calls are taken to do.
pub mod convert;
pub mod error;
pub mod export;
pub mod extract;
pub mod gds;
pub mod geometry;
pub mod hierarchy;
pub mod layout;
pub mod names;
pub mod replace;
pub mod snap;
pub mod transform;
pub mod walk;
