//! Safety and marshalling layer over a native, C-ABI physics engine.
//!
//! The native engine hands out opaque handles and flat, index-addressed
//! arrays. This crate holds the part of the wrapper that can be stated and
//! proved: the in-memory virtual file table, the error-buffer codec, the
//! array marshaller, and the typed per-entity snapshots (bodies, geoms,
//! meshes) with their bounds and name-table invariants. The raw calls into
//! the engine live in a thin shell around this crate and exchange only
//! plain values with it.

pub mod body;
pub mod geom;
pub mod helpers;
pub mod mesh;
pub mod model;
pub mod sim;
pub mod state;
pub mod vfs;

pub use body::Body;
pub use geom::Geom;
pub use geom::GeomType;
pub use geom::geom_type_from;
pub use mesh::Mesh;
pub use model::Model;
pub use sim::Simulation;
pub use state::State;
