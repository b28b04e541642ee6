//! Which mesh entities a frame's camera can see.
//!
//! Whether a box lies outside the camera's frustum is geometry, decided where
//! the numbers are; this module keeps the entities that passed, with the
//! placement each of them is drawn with.

use vstd::prelude::*;

verus! {

/// A mesh entity as the frustum test left it.
#[derive(Clone, Copy, Debug)]
pub struct Candidate<E, I> {
    /// The entity the mesh belongs to.
    pub entity: E,
    /// The placement and tint the entity would be drawn with.
    pub instance: I,
    /// Whether the mesh lies entirely outside the frustum.
    pub culled: bool,
}

/// A mesh that passed culling, with its placement already resolved.
#[derive(Clone, Copy, Debug, PartialEq, Eq)]
pub struct VisibleMesh<E, I> {
    /// The entity the mesh belongs to.
    pub entity: E,
    /// The placement and tint the draw will use.
    pub instance: I,
}

/// The meshes that passed, in the order they were seen.
pub open spec fn survivors<E, I>(candidates: Seq<Candidate<E, I>>) -> Seq<VisibleMesh<E, I>> {
    candidates.filter(|candidate: Candidate<E, I>| !candidate.culled).map_values(
        |candidate: Candidate<E, I>|
            VisibleMesh { entity: candidate.entity, instance: candidate.instance },
    )
}

/// Collect every mesh entity the frustum can see into `out`, replacing its
/// contents.
pub fn collect_visible<E: Copy, I: Copy>(
    candidates: &Vec<Candidate<E, I>>,
    out: &mut Vec<VisibleMesh<E, I>>,
)
    ensures
        final(out)@ == survivors(candidates@),
{
    out.clear();
    let mut i: usize = 0;
    let ghost keep = |candidate: Candidate<E, I>| !candidate.culled;
    let ghost seen = |candidate: Candidate<E, I>|
        VisibleMesh { entity: candidate.entity, instance: candidate.instance };
    proof {
        reveal_with_fuel(Seq::filter, 2);
        assert(candidates@.take(0) =~= Seq::empty());
        assert(out@ =~= candidates@.take(0).filter(keep).map_values(seen));
    }
    while i < candidates.len()
        invariant
            i <= candidates.len(),
            keep == (|candidate: Candidate<E, I>| !candidate.culled),
            seen == (|candidate: Candidate<E, I>|
                VisibleMesh { entity: candidate.entity, instance: candidate.instance }),
            out@ == candidates@.take(i as int).filter(keep).map_values(seen),
        decreases candidates.len() - i,
    {
        let candidate = candidates[i];
        let ghost before = candidates@.take(i as int).filter(keep);
        proof {
            let next = candidates@.take(i + 1);
            assert(next.drop_last() =~= candidates@.take(i as int));
            assert(next.last() == candidate);
            reveal_with_fuel(Seq::filter, 2);
        }
        if !candidate.culled {
            out.push(VisibleMesh { entity: candidate.entity, instance: candidate.instance });
            assert(out@ =~= before.push(candidate).map_values(seen));
        }
        i = i + 1;
    }
    assert(candidates@.take(i as int) =~= candidates@);
}

/// A mesh is visible exactly when the frustum did not cull it, and is seen with
/// its own entity and placement.
pub proof fn law_what_is_not_culled_is_visible<E, I>(
    candidates: Seq<Candidate<E, I>>,
    candidate: Candidate<E, I>,
)
    ensures
        survivors(candidates.push(candidate)) == if candidate.culled {
            survivors(candidates)
        } else {
            survivors(candidates).push(
                VisibleMesh { entity: candidate.entity, instance: candidate.instance },
            )
        },
        survivors(Seq::<Candidate<E, I>>::empty()).len() == 0,
{
    let keep = |candidate: Candidate<E, I>| !candidate.culled;
    let seen = |candidate: Candidate<E, I>|
        VisibleMesh { entity: candidate.entity, instance: candidate.instance };
    reveal_with_fuel(Seq::filter, 2);
    let all = candidates.push(candidate);
    assert(all.drop_last() =~= candidates);
    assert(survivors(all) =~= if candidate.culled {
        survivors(candidates)
    } else {
        survivors(candidates).push(seen(candidate))
    });
}

} // verus!
