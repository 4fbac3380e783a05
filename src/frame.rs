use vstd::prelude::*;
use crate::atlas::{MAX_LOOKUP_WIDTH, TilePacking, pack_tiles};
use crate::render_cache::{FrameAction, RenderCache, frame_action};
use crate::tile_store::{TileStore, spec_content_hash};

verus! {

/// The work of one frame for one tile map.
pub enum FrameWork {
    /// Draw nothing this frame.
    Skip,
    /// Upload new GPU resources built from `packing` (none when the tiles
    /// cannot be packed), record them under `hash`, then draw.
    Upload { hash: u64, packing: Option<TilePacking> },
    /// Draw with the cached resources.
    Draw,
}

impl<R> RenderCache<R> {
    /// Reads the store once: computes its content hash, decides the frame's
    /// action and, when the cache is stale, packs the tiles for upload.
    pub fn prepare_frame(&self, store: &TileStore, camera_found: bool, atlas_loaded: bool) -> (r: FrameWork)
        ensures
            frame_action(self.cached_hash(), camera_found, atlas_loaded, spec_content_hash(store@))
                == FrameAction::Skip <==> r is Skip,
            frame_action(self.cached_hash(), camera_found, atlas_loaded, spec_content_hash(store@))
                == FrameAction::Reuse <==> r is Draw,
            r matches FrameWork::Upload { hash, packing } ==> {
                &&& hash == spec_content_hash(store@)
                &&& (packing is Some <==> store@.len() <= MAX_LOOKUP_WIDTH)
                &&& (packing is Some ==> packing->0.packs(store@))
            },
    {
        if !camera_found || !atlas_loaded {
            return FrameWork::Skip;
        }
        let hash = store.content_hash();
        match self.plan_frame(camera_found, atlas_loaded, hash) {
            FrameAction::Skip => FrameWork::Skip,
            FrameAction::Reuse => FrameWork::Draw,
            FrameAction::Rebuild => FrameWork::Upload { hash, packing: pack_tiles(store) },
        }
    }
}

} // verus!
