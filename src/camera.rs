use vstd::prelude::*;

verus! {

/// Chooses the camera to render and pick with.
///
/// `cameras` lists, in iteration order, the ids of the entities that carry
/// both a camera and a world transform; `active` is the entity marked as the
/// active camera, if any. The marked entity is chosen when it is among the
/// candidates; otherwise the first candidate; with no candidate, none. The
/// result is an index into `cameras`.
pub fn get_camera(active: Option<u32>, cameras: &Vec<u32>) -> (r: Option<usize>)
    ensures
        cameras@.len() == 0 ==> r is None,
        active is Some && cameras@.contains(active->0) ==> {
            &&& r is Some
            &&& r->0 < cameras@.len()
            &&& cameras@[r->0 as int] == active->0
            &&& forall|k: int| 0 <= k < r->0 ==> cameras@[k] != active->0
        },
        !(active is Some && cameras@.contains(active->0)) && cameras@.len() > 0 ==> r == Some(0usize),
{
    if let Some(a) = active {
        let mut i: usize = 0;
        while i < cameras.len()
            invariant
                active == Some(a),
                i <= cameras@.len(),
                forall|k: int| 0 <= k < i ==> cameras@[k] != a,
            decreases cameras@.len() - i,
        {
            if cameras[i] == a {
                assert(cameras@[i as int] == a);
                return Some(i);
            }
            i = i + 1;
        }
        assert(!cameras@.contains(a));
    }
    if cameras.len() == 0 {
        None
    } else {
        Some(0)
    }
}

} // verus!
