//! Decoders for a legacy game-archive container and the model and texture
//! formats stored inside it: an archive reader with its stream cipher and
//! sector-wise decompression, a model decoder that assembles sub-mesh
//! geometry and material descriptors, and a block-compressed texture decoder.

pub mod blp;
pub mod bytes;
pub mod collection;
pub mod compress;
pub mod crypt;
pub mod errors;
pub mod facade;
pub mod m2;
pub mod md20;
pub mod model;
pub mod mpq;
pub mod skin;
pub mod utils;
