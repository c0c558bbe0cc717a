//! The envelope-synthesis engine: a randomized multi-edge boundary search
//! that, given a reference index and a target cardinality, produces an
//! envelope whose query count equals the target exactly.
//!
//! Each iteration classifies the current envelope as too small or too big,
//! picks one eligible edge uniformly at random, moves it by a uniformly
//! drawn step (outward when too small, inward when too big), and re-queries
//! the index. The search succeeds the moment the count matches; an explicit
//! iteration ceiling turns a non-convergent search into an error instead of
//! a hang.

use vstd::prelude::*;

use crate::envelope::Envelope;
use crate::index::PointIndex;
use crate::index::{lemma_count_in_all, lemma_count_in_two_witnesses};
use crate::rng::{rand_index, rand_range_i64};

verus! {

/// One of the four edges of an envelope.
#[derive(Clone, Copy, Debug, PartialEq, Eq, Structural)]
pub enum EdgeKind {
    MinX,
    MaxX,
    MinY,
    MaxY,
}

/// Why a synthesis run stopped without an envelope.
#[derive(Clone, Copy, Debug, PartialEq, Eq, Structural)]
pub enum SynthError {
    /// No edge could be moved: every edge of a too-small envelope already
    /// touches the global region, or both axes of a too-big envelope have
    /// collapsed. This indicates a setup defect (for example, more
    /// duplicates of one position than the target).
    NoEligibleEdge,
    /// The iteration ceiling was reached before the count matched.
    NonConvergent,
}

/// Whether `edge` may be moved in the current search direction: a growing
/// envelope must not pass the global region, and a collapsed axis of a
/// shrinking envelope cannot shrink further.
pub open spec fn edge_eligible(
    env: Envelope,
    region: Envelope,
    too_small: bool,
    edge: EdgeKind,
) -> bool {
    if too_small {
        match edge {
            EdgeKind::MinX => env.minx > region.minx,
            EdgeKind::MaxX => env.maxx < region.maxx,
            EdgeKind::MinY => env.miny > region.miny,
            EdgeKind::MaxY => env.maxy < region.maxy,
        }
    } else {
        match edge {
            EdgeKind::MinX => env.minx < env.maxx,
            EdgeKind::MaxX => env.minx < env.maxx,
            EdgeKind::MinY => env.miny < env.maxy,
            EdgeKind::MaxY => env.miny < env.maxy,
        }
    }
}

/// Runtime check matching [`edge_eligible`].
fn is_eligible(env: &Envelope, region: &Envelope, too_small: bool, edge: EdgeKind) -> (r: bool)
    ensures
        r == edge_eligible(*env, *region, too_small, edge),
{
    if too_small {
        match edge {
            EdgeKind::MinX => env.minx > region.minx,
            EdgeKind::MaxX => env.maxx < region.maxx,
            EdgeKind::MinY => env.miny > region.miny,
            EdgeKind::MaxY => env.maxy < region.maxy,
        }
    } else {
        match edge {
            EdgeKind::MinX => env.minx < env.maxx,
            EdgeKind::MaxX => env.minx < env.maxx,
            EdgeKind::MinY => env.miny < env.maxy,
            EdgeKind::MaxY => env.miny < env.maxy,
        }
    }
}

/// The set of eligible edges, as a vector holding exactly the edges for
/// which [`edge_eligible`] holds.
pub fn eligible_edges(env: &Envelope, region: &Envelope, too_small: bool) -> (r: Vec<EdgeKind>)
    ensures
        forall|i: int| 0 <= i < r@.len() ==> edge_eligible(
            *env,
            *region,
            too_small,
            #[trigger] r@[i],
        ),
        forall|edge: EdgeKind| edge_eligible(*env, *region, too_small, edge) ==> r@.contains(edge),
        r@.len() <= 4,
{
    let mut r: Vec<EdgeKind> = Vec::new();
    let ghost mut pos_minx: int = 0;
    let ghost mut pos_maxx: int = 0;
    let ghost mut pos_miny: int = 0;
    let ghost mut pos_maxy: int = 0;
    let e_minx = is_eligible(env, region, too_small, EdgeKind::MinX);
    let e_maxx = is_eligible(env, region, too_small, EdgeKind::MaxX);
    let e_miny = is_eligible(env, region, too_small, EdgeKind::MinY);
    let e_maxy = is_eligible(env, region, too_small, EdgeKind::MaxY);
    if e_minx {
        proof {
            pos_minx = r@.len() as int;
        }
        r.push(EdgeKind::MinX);
    }
    if e_maxx {
        proof {
            pos_maxx = r@.len() as int;
        }
        r.push(EdgeKind::MaxX);
    }
    if e_miny {
        proof {
            pos_miny = r@.len() as int;
        }
        r.push(EdgeKind::MinY);
    }
    if e_maxy {
        proof {
            pos_maxy = r@.len() as int;
        }
        r.push(EdgeKind::MaxY);
    }
    proof {
        if e_minx {
            assert(r@[pos_minx] == EdgeKind::MinX);
            assert(r@.contains(EdgeKind::MinX));
        }
        if e_maxx {
            assert(r@[pos_maxx] == EdgeKind::MaxX);
            assert(r@.contains(EdgeKind::MaxX));
        }
        if e_miny {
            assert(r@[pos_miny] == EdgeKind::MinY);
            assert(r@.contains(EdgeKind::MinY));
        }
        if e_maxy {
            assert(r@[pos_maxy] == EdgeKind::MaxY);
            assert(r@.contains(EdgeKind::MaxY));
        }
    }
    r
}

/// A uniformly drawn perturbation step, at least one coordinate unit and at
/// most `m`; the upper endpoint collapses to the smallest step when the
/// range would otherwise be empty, and is only attained in that case.
fn draw_step(rng: &mut rand::rngs::ThreadRng, m: i64) -> (s: i64)
    requires
        m >= 1,
    ensures
        1 <= s <= m,
        m > 1 ==> s < m,
{
    if m <= 1 {
        1
    } else {
        rand_range_i64(rng, 1, m)
    }
}

/// Searches for an envelope within `region` that contains exactly `target`
/// elements of `index`.
///
/// Whenever the search returns an envelope, that envelope is well formed,
/// lies within the global region, and its query count equals the target
/// exactly. Whether the randomized walk converges within `max_iters`
/// iterations is empirical; a run that does not is reported as
/// [`SynthError::NonConvergent`] rather than being allowed to hang.
pub fn synthesize_envelope<P>(
    index: &PointIndex<P>,
    target: usize,
    region: &Envelope,
    max_iters: u64,
    rng: &mut rand::rngs::ThreadRng,
) -> (r: Result<Envelope, SynthError>)
    requires
        region.wf(),
        index.within(*region),
        target <= index@.len(),
    ensures
        match r {
            Ok(env) => env.wf() && region.spec_contains_env(env) && index.spec_count_in(env)
                == target,
            Err(_) => true,
        },
{
    if index.count() == 0 {
        // The only admissible target for an empty index is zero, which a
        // degenerate envelope at the region corner satisfies.
        let env = Envelope {
            minx: region.minx,
            maxx: region.minx,
            miny: region.miny,
            maxy: region.miny,
        };
        return Ok(env);
    }
    let mut env = index.extent();
    proof {
        assert(region.spec_contains_env(env)) by {
            let i = choose|i: int|
                0 <= i < index@.len() && #[trigger] index@[i].pos.x == env.minx;
            let j = choose|j: int|
                0 <= j < index@.len() && #[trigger] index@[j].pos.x == env.maxx;
            let k = choose|k: int|
                0 <= k < index@.len() && #[trigger] index@[k].pos.y == env.miny;
            let l = choose|l: int|
                0 <= l < index@.len() && #[trigger] index@[l].pos.y == env.maxy;
            assert(region.spec_contains(index@[i].pos));
            assert(region.spec_contains(index@[j].pos));
            assert(region.spec_contains(index@[k].pos));
            assert(region.spec_contains(index@[l].pos));
        }
    }
    let mut too_small = index.query_count(&env) < target;
    let mut iter: u64 = 0;
    while iter < max_iters
        invariant
            region.wf(),
            index.within(*region),
            target <= index@.len(),
            region.spec_contains_env(env),
            env.minx <= env.maxx,
            env.miny <= env.maxy,
            too_small == (index.spec_count_in(env) < target),
            iter <= max_iters,
        decreases max_iters - iter,
    {
        let eligible = eligible_edges(&env, region, too_small);
        if eligible.len() == 0 {
            // A growing envelope always has an eligible edge; only a
            // shrinking one can get stuck, on a collapsed single-point box
            // that still holds more elements than the target.
            proof {
                if too_small {
                    lemma_too_small_has_eligible_edge(*index, env, *region, target);
                    let witness = choose|edge: EdgeKind|
                        edge_eligible(env, *region, true, edge);
                    assert(eligible@.contains(witness));
                }
            }
            return Err(SynthError::NoEligibleEdge);
        }
        let pick = rand_index(rng, eligible.len());
        let edge = eligible[pick];
        // Move the picked edge: outward toward the region bound when the
        // envelope is too small, inward toward the opposite edge when it is
        // too big. The step never passes the move's own bound.
        match edge {
            EdgeKind::MinX => {
                let m = if too_small {
                    env.minx - region.minx
                } else {
                    env.maxx - env.minx
                };
                let s = draw_step(rng, m);
                if too_small {
                    env.minx = env.minx - s;
                } else {
                    env.minx = env.minx + s;
                }
            },
            EdgeKind::MaxX => {
                let m = if too_small {
                    region.maxx - env.maxx
                } else {
                    env.maxx - env.minx
                };
                let s = draw_step(rng, m);
                if too_small {
                    env.maxx = env.maxx + s;
                } else {
                    env.maxx = env.maxx - s;
                }
            },
            EdgeKind::MinY => {
                let m = if too_small {
                    env.miny - region.miny
                } else {
                    env.maxy - env.miny
                };
                let s = draw_step(rng, m);
                if too_small {
                    env.miny = env.miny - s;
                } else {
                    env.miny = env.miny + s;
                }
            },
            EdgeKind::MaxY => {
                let m = if too_small {
                    region.maxy - env.maxy
                } else {
                    env.maxy - env.miny
                };
                let s = draw_step(rng, m);
                if too_small {
                    env.maxy = env.maxy + s;
                } else {
                    env.maxy = env.maxy - s;
                }
            },
        }
        let count = index.query_count(&env);
        if count == target {
            return Ok(env);
        }
        too_small = count < target;
        iter = iter + 1;
    }
    Err(SynthError::NonConvergent)
}

/// When the envelope is too small, some edge is always eligible: were all
/// four edges pinned to the region, the envelope would cover the region and
/// with it every indexed element, contradicting a count below the target.
pub proof fn lemma_too_small_has_eligible_edge<P>(
    index: PointIndex<P>,
    env: Envelope,
    region: Envelope,
    target: usize,
)
    requires
        index.within(region),
        region.spec_contains_env(env),
        target <= index@.len(),
        index.spec_count_in(env) < target,
    ensures
        exists|edge: EdgeKind| edge_eligible(env, region, true, edge),
{
    if !(exists|edge: EdgeKind| edge_eligible(env, region, true, edge)) {
        assert(!edge_eligible(env, region, true, EdgeKind::MinX));
        assert(!edge_eligible(env, region, true, EdgeKind::MaxX));
        assert(!edge_eligible(env, region, true, EdgeKind::MinY));
        assert(!edge_eligible(env, region, true, EdgeKind::MaxY));
        assert(forall|i: int| 0 <= i < index@.len() ==> env.spec_contains(
            #[trigger] index@[i].pos,
        ));
        lemma_count_in_all(index@, env);
    }
}

/// When the envelope is too big and positions are pairwise distinct, some
/// edge is always eligible: both axes can only collapse onto a single
/// position, which holds at most one element — fewer than any count above
/// the smallest admissible target.
pub proof fn lemma_too_big_has_eligible_edge<P>(
    index: PointIndex<P>,
    env: Envelope,
    region: Envelope,
    target: usize,
)
    requires
        env.minx <= env.maxx,
        env.miny <= env.maxy,
        forall|i: int, j: int|
            0 <= i < j < index@.len() ==> (#[trigger] index@[i].pos) != (#[trigger] index@[j].pos),
        index.spec_count_in(env) > target,
        target >= 1,
    ensures
        exists|edge: EdgeKind| edge_eligible(env, region, false, edge),
{
    if !(exists|edge: EdgeKind| edge_eligible(env, region, false, edge)) {
        assert(!edge_eligible(env, region, false, EdgeKind::MinX));
        assert(!edge_eligible(env, region, false, EdgeKind::MinY));
        assert(env.minx == env.maxx && env.miny == env.maxy);
        lemma_count_in_two_witnesses(index@, env);
        let (i, j) = choose|i: int, j: int|
            0 <= i < j < index@.len() && env.spec_contains(#[trigger] index@[i].pos)
                && env.spec_contains(#[trigger] index@[j].pos);
        assert(index@[i].pos.x == env.minx && index@[i].pos.y == env.miny);
        assert(index@[j].pos.x == env.minx && index@[j].pos.y == env.miny);
        assert(index@[i].pos == index@[j].pos);
    }
}

} // verus!
