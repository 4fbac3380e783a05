use vstd::prelude::*;

verus! {

/// What the render pass does with a tile map this frame.
#[derive(Clone, Copy, Debug, PartialEq, Eq, Structural)]
pub enum FrameAction {
    /// Draw nothing: there is no camera, or the sprite atlas is not loaded.
    Skip,
    /// The GPU resources are missing or stale: build them, then draw.
    Rebuild,
    /// Draw with the GPU resources already built.
    Reuse,
}

/// The GPU resources last built for a tile map, and the content hash of the
/// tiles they were built from. `resources` is `None` when building them
/// failed; they are then not tried again until the content changes.
pub struct CachedBuild<R> {
    pub hash: u64,
    pub instance_count: usize,
    pub resources: Option<R>,
}

/// The render pass's cache of GPU resources: empty at first, then holding
/// the last build.
pub struct RenderCache<R> {
    built: Option<CachedBuild<R>>,
}

/// Whether a cache that was built from `cached` must be rebuilt for tiles
/// whose content hash is `hash`.
pub open spec fn needs_rebuild(cached: Option<u64>, hash: u64) -> bool {
    cached != Some(hash)
}

/// The decision for one frame.
pub open spec fn frame_action(
    cached: Option<u64>,
    camera_found: bool,
    atlas_loaded: bool,
    hash: u64,
) -> FrameAction {
    if !camera_found || !atlas_loaded {
        FrameAction::Skip
    } else if needs_rebuild(cached, hash) {
        FrameAction::Rebuild
    } else {
        FrameAction::Reuse
    }
}

/// How many rebuilds a cache that starts from `cached` performs over frames
/// that are drawn with the given content hashes, one per frame.
pub open spec fn rebuild_count(cached: Option<u64>, hashes: Seq<u64>) -> nat
    decreases hashes.len(),
{
    if hashes.len() == 0 {
        0
    } else {
        let h = hashes[0];
        (if needs_rebuild(cached, h) { 1nat } else { 0nat }) + rebuild_count(Some(h), hashes.drop_first())
    }
}

/// How many frames see a content hash that differs from the previous
/// frame's; the first frame always counts.
pub open spec fn hash_changes(hashes: Seq<u64>) -> nat
    decreases hashes.len(),
{
    if hashes.len() == 0 {
        0
    } else {
        let rest = hashes.drop_last();
        hash_changes(rest) + (if rest.len() == 0 || rest.last() != hashes.last() { 1nat } else { 0nat })
    }
}

impl<R> RenderCache<R> {
    /// The content hash of the last build, if any.
    pub closed spec fn cached_hash(&self) -> Option<u64> {
        match self.built {
            Some(b) => Some(b.hash),
            None => None,
        }
    }

    /// The instance count of the last build (zero before any).
    pub closed spec fn spec_instance_count(&self) -> usize {
        match self.built {
            Some(b) => b.instance_count,
            None => 0,
        }
    }

    /// The resources of the last build, if it produced any.
    pub closed spec fn spec_resources(&self) -> Option<R> {
        match self.built {
            Some(b) => b.resources,
            None => None,
        }
    }

    /// An empty cache.
    pub fn new() -> (r: RenderCache<R>)
        ensures
            r.cached_hash() is None,
            r.spec_resources() is None,
            r.spec_instance_count() == 0,
    {
        RenderCache { built: None }
    }

    /// The content hash the cache was last built from.
    pub fn last_hash(&self) -> (r: Option<u64>)
        ensures
            r == self.cached_hash(),
    {
        match &self.built {
            Some(b) => Some(b.hash),
            None => None,
        }
    }

    /// Decides this frame's work from whether a camera was found, whether
    /// the atlas texture is loaded, and the tiles' current content hash.
    pub fn plan_frame(&self, camera_found: bool, atlas_loaded: bool, hash: u64) -> (r: FrameAction)
        ensures
            r == frame_action(self.cached_hash(), camera_found, atlas_loaded, hash),
    {
        if !camera_found || !atlas_loaded {
            return FrameAction::Skip;
        }
        match &self.built {
            Some(b) => {
                if b.hash == hash {
                    FrameAction::Reuse
                } else {
                    FrameAction::Rebuild
                }
            },
            None => FrameAction::Rebuild,
        }
    }

    /// Records a build made from tiles with content hash `hash`; `resources`
    /// is `None` when the GPU allocation failed.
    pub fn record_build(&mut self, hash: u64, instance_count: usize, resources: Option<R>)
        ensures
            final(self).cached_hash() == Some(hash),
            final(self).spec_instance_count() == instance_count,
            final(self).spec_resources() == resources,
    {
        self.built = Some(CachedBuild { hash, instance_count, resources });
    }

    /// The number of instances to draw with the cached resources.
    pub fn instance_count(&self) -> (r: usize)
        ensures
            r == self.spec_instance_count(),
    {
        match &self.built {
            Some(b) => b.instance_count,
            None => 0,
        }
    }

    /// The cached GPU resources, when the last build produced them.
    pub fn resources(&self) -> (r: Option<&R>)
        ensures
            r matches Some(x) ==> self.spec_resources() == Some(*x),
            r is None <==> self.spec_resources() is None,
    {
        match &self.built {
            Some(b) => b.resources.as_ref(),
            None => None,
        }
    }
}

/// A frame decision depends only on the cached hash: once a build for `hash`
/// is recorded, frames with the same content reuse it, and frames with other
/// content rebuild.
pub proof fn lemma_frame_after_build(hash: u64, next: u64)
    ensures
        frame_action(Some(hash), true, true, next) == (if next == hash {
            FrameAction::Reuse
        } else {
            FrameAction::Rebuild
        }),
        frame_action(None, true, true, next) == FrameAction::Rebuild,
{
}

/// Starting empty, the cache is rebuilt exactly once for each frame whose
/// content hash differs from the previous frame's (and for the first frame).
pub proof fn lemma_rebuilds_follow_hash_changes(hashes: Seq<u64>)
    ensures
        rebuild_count(None, hashes) == hash_changes(hashes),
    decreases hashes.len(),
{
    if hashes.len() > 0 {
        lemma_rebuild_count_from(hashes);
    }
}

/// Frames whose content hash equals the cached one are never rebuilt.
pub proof fn lemma_unchanged_content_never_rebuilds(hash: u64, hashes: Seq<u64>)
    requires
        forall|i: int| 0 <= i < hashes.len() ==> hashes[i] == hash,
    ensures
        rebuild_count(Some(hash), hashes) == 0,
    decreases hashes.len(),
{
    if hashes.len() > 0 {
        let rest = hashes.drop_first();
        assert forall|i: int| 0 <= i < rest.len() implies rest[i] == hash by {
            assert(rest[i] == hashes[i + 1]);
        }
        lemma_unchanged_content_never_rebuilds(hash, rest);
    }
}

/// For a non-empty run: starting empty counts the same as starting from a
/// cache already built for the first frame, plus that first build; and the
/// count splits off the last frame.
proof fn lemma_rebuild_count_from(hashes: Seq<u64>)
    requires
        hashes.len() > 0,
    ensures
        rebuild_count(None, hashes) == hash_changes(hashes),
        rebuild_count(None, hashes) == 1 + rebuild_count(Some(hashes[0]), hashes.drop_first()),
    decreases hashes.len(),
{
    if hashes.len() == 1 {
        assert(hashes.drop_last().len() == 0);
        assert(hash_changes(hashes.drop_last()) == 0);
        assert(hashes.drop_first().len() == 0);
        assert(rebuild_count(Some(hashes[0]), hashes.drop_first()) == 0);
    } else {
        let init = hashes.drop_last();
        lemma_rebuild_count_from(init);
        lemma_rebuild_count_snoc(Some(hashes[0]), init.drop_first(), hashes.last());
        assert(init.drop_first().push(hashes.last()) == hashes.drop_first());
        assert(init[0] == hashes[0]);
        if init.drop_first().len() > 0 {
            assert(init.drop_first().last() == init.last());
        } else {
            assert(init.last() == hashes[0]);
        }
        assert(hashes.drop_last() == init);
        assert(rebuild_count(None, hashes) == 1 + rebuild_count(Some(hashes[0]), hashes.drop_first()));
        assert(hash_changes(hashes) == hash_changes(init) + (if init.last() != hashes.last() {
            1nat
        } else {
            0nat
        }));
    }
}

/// Appending one frame adds one rebuild when its hash differs from the hash
/// in the cache after the earlier frames.
proof fn lemma_rebuild_count_snoc(cached: Option<u64>, hashes: Seq<u64>, h: u64)
    ensures
        rebuild_count(cached, hashes.push(h)) == rebuild_count(cached, hashes) + (if needs_rebuild(
            if hashes.len() == 0 { cached } else { Some(hashes.last()) },
            h,
        ) {
            1nat
        } else {
            0nat
        }),
    decreases hashes.len(),
{
    if hashes.len() > 0 {
        let rest = hashes.drop_first();
        assert(hashes.push(h).drop_first() == rest.push(h));
        assert(hashes.push(h)[0] == hashes[0]);
        lemma_rebuild_count_snoc(Some(hashes[0]), rest, h);
        if rest.len() > 0 {
            assert(rest.last() == hashes.last());
        } else {
            assert(hashes.last() == hashes[0]);
        }
        assert(rebuild_count(cached, hashes.push(h)) == (if needs_rebuild(cached, hashes[0]) {
            1nat
        } else {
            0nat
        }) + rebuild_count(Some(hashes[0]), rest.push(h)));
    } else {
        assert(hashes.push(h).drop_first().len() == 0);
        assert(rebuild_count(Some(h), hashes.push(h).drop_first()) == 0);
        assert(rebuild_count(cached, hashes) == 0);
    }
}

} // verus!
