//! Codecs for the binary asset containers of ROSE Online: the primitive
//! little-endian layer, the model container, the index of the virtual file
//! system, the lightmap table and the heightmap tile.
//!
//! Every codec works on an in-memory byte stream and states, over the bytes of
//! that stream, exactly which record it decodes or which bytes it emits.

pub mod errors;
pub mod files;
pub mod him;
pub mod io;
pub mod lightmap;
pub mod lightmap_laws;
pub mod utils;
pub mod vfs;
pub mod vfs_laws;
pub mod vfs_layout;
