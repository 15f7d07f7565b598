//! Choosing the world camera that screen-space overlays project through.

use vstd::prelude::*;

verus! {

/// Render order of the main world camera.
pub const WORLD_CAMERA_ORDER: isize = 0;

/// Render order of the debug viewport camera drawn over the world.
pub const WORLD_DEBUG_VIEWPORT_CAMERA_ORDER: isize = 1;

/// What the choice reads of a camera.
#[derive(Clone, Copy, Debug, PartialEq, Eq, Structural)]
pub struct CameraInfo {
    pub order: isize,
    pub is_active: bool,
}

/// The camera chosen among `cameras`: of those with the world order, the
/// one with the greatest activity (active above inactive), the later one
/// on a tie, as `Iterator::max_by_key` picks.
pub open spec fn spec_primary_world_camera(cameras: Seq<CameraInfo>) -> Option<int>
    decreases cameras.len(),
{
    if cameras.len() == 0 {
        None
    } else {
        let i = cameras.len() - 1;
        let rest = spec_primary_world_camera(cameras.drop_last());
        if cameras[i].order != WORLD_CAMERA_ORDER {
            rest
        } else {
            match rest {
                None => Some(i),
                Some(j) => if cameras[i].is_active || !cameras[j].is_active {
                    Some(i)
                } else {
                    Some(j)
                },
            }
        }
    }
}

/// The index of the world camera to project through, if there is one.
pub fn primary_world_camera(cameras: &[CameraInfo]) -> (chosen: Option<usize>)
    ensures
        match chosen {
            Some(i) => spec_primary_world_camera(cameras@) == Some(i as int),
            None => spec_primary_world_camera(cameras@) is None,
        },
{
    let mut chosen: Option<usize> = None;
    let mut i: usize = 0;
    while i < cameras.len()
        invariant
            i <= cameras@.len(),
            match chosen {
                Some(j) => j < i && spec_primary_world_camera(cameras@.subrange(0, i as int)) == Some(
                    j as int,
                ),
                None => spec_primary_world_camera(cameras@.subrange(0, i as int)) is None,
            },
        decreases cameras@.len() - i,
    {
        let ghost prefix = cameras@.subrange(0, i + 1);
        assert(prefix.drop_last() =~= cameras@.subrange(0, i as int));
        if cameras[i].order == WORLD_CAMERA_ORDER {
            chosen = match chosen {
                None => Some(i),
                Some(j) => if cameras[i].is_active || !cameras[j].is_active {
                    Some(i)
                } else {
                    Some(j)
                },
            };
        }
        i = i + 1;
    }
    assert(cameras@.subrange(0, i as int) =~= cameras@);
    chosen
}

/// The chosen camera has the world order; every world camera after it is
/// inactive while it is active; it is inactive only when no world camera
/// is active, so it is the last active world camera if there is one and
/// the last world camera otherwise; with no world camera nothing is chosen.
pub proof fn lemma_primary_world_camera_choice(cameras: Seq<CameraInfo>)
    ensures
        match spec_primary_world_camera(cameras) {
            Some(i) => {
                &&& 0 <= i < cameras.len()
                &&& cameras[i].order == WORLD_CAMERA_ORDER
                &&& forall|k: int|
                    i < k < cameras.len() && cameras[k].order == WORLD_CAMERA_ORDER ==> cameras[i].is_active
                        && !cameras[k].is_active
                &&& cameras[i].is_active || forall|k: int|
                    0 <= k < cameras.len() && cameras[k].order == WORLD_CAMERA_ORDER
                        ==> !#[trigger] cameras[k].is_active
            },
            None => forall|k: int| 0 <= k < cameras.len() ==> #[trigger] cameras[k].order != WORLD_CAMERA_ORDER,
        },
    decreases cameras.len(),
{
    if cameras.len() > 0 {
        let prefix = cameras.drop_last();
        lemma_primary_world_camera_choice(prefix);
        assert forall|k: int| 0 <= k < prefix.len() implies prefix[k] == cameras[k] by {}
    }
}

} // verus!
