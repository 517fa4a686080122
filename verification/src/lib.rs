//! A directed multi-parent graph index over caller-chosen integer identities,
//! with a read-only view that binds the topology to content.

pub mod graph;
pub mod index;
pub mod laws;
pub mod store;
pub mod vertex;
pub mod view;

pub use graph::{Graph, GraphError};
pub use index::{ImageVectorIndex, InternalVectorIndex};
pub use vertex::Vertex;
pub use view::{GraphView, ItemView, VertexView};
