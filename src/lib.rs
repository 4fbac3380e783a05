//! Hexagonal tile grids: cube coordinates and hexagonal regions, a tile
//! store with an order-independent content hash, the packing of tiles into
//! instanced GPU buffers, the render cache that decides once per frame
//! whether those buffers are rebuilt, and the camera choice shared by
//! rendering and picking. Also the game's pawn and resource kinds.
pub mod cube;
pub mod tile;
pub mod tile_store;
pub mod region;
pub mod atlas;
pub mod render_cache;
pub mod frame;
pub mod camera;
pub mod pawn;
pub mod resource;
