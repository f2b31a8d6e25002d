pub mod agents;
pub mod cliff_walk;
pub mod dimensions;
pub mod domains;
pub mod experiment;
pub mod rng;
pub mod spaces;
pub mod span;
pub mod tile_coding;
pub mod uniform_grid;

pub use span::Span;
