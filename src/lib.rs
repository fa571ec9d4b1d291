//! Sparse voxel volume storage: the voxel encoding and its level-of-detail vote,
//! the byte layouts of chunks and materials, the texture repository and the
//! decoding of palette-indexed block sections.

pub mod bytes;
pub mod chunk;
pub mod material;
pub mod packed;
pub mod texture_repo;
pub mod voxel;
pub mod world;
