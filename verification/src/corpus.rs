//! Envelope-corpus generation: for each target-cardinality tier, a fixed
//! number of envelopes is synthesized against a reference index. Tier files
//! already persisted are reused untouched, which makes regeneration
//! idempotent; the caller reports which tiers exist and performs the file
//! I/O itself.

use vstd::prelude::*;

use crate::envelope::Envelope;
use crate::index::PointIndex;
use crate::synth::{synthesize_envelope, SynthError};

verus! {

/// Number of envelopes synthesized per tier.
pub const ENV_COUNT: usize = 16;

/// The fixed target cardinalities of the envelope corpus.
pub fn tier_sizes() -> (r: Vec<usize>)
    ensures
        r@ =~= seq![16usize, 64usize, 256usize, 1024usize, 4096usize],
{
    let mut r: Vec<usize> = Vec::new();
    r.push(16);
    r.push(64);
    r.push(256);
    r.push(1024);
    r.push(4096);
    r
}

/// A set of synthesized envelopes is good for a tier when it has exactly
/// `per_set` members and each one is well formed, lies in the global
/// region, and matches the tier's target cardinality exactly.
pub open spec fn good_set<P>(
    v: Seq<Envelope>,
    index: PointIndex<P>,
    region: Envelope,
    target: usize,
    per_set: usize,
) -> bool {
    &&& v.len() == per_set
    &&& forall|j: int| 0 <= j < v.len() ==> (#[trigger] v[j]).wf()
    &&& forall|j: int| 0 <= j < v.len() ==> region.spec_contains_env(#[trigger] v[j])
    &&& forall|j: int| 0 <= j < v.len() ==> index.spec_count_in(#[trigger] v[j]) == target
}

/// Synthesizes `per_set` envelopes that each contain exactly `target`
/// elements of `index`.
pub fn gen_envelope_set<P>(
    index: &PointIndex<P>,
    target: usize,
    region: &Envelope,
    per_set: usize,
    max_iters: u64,
    rng: &mut rand::rngs::ThreadRng,
) -> (r: Result<Vec<Envelope>, SynthError>)
    requires
        region.wf(),
        index.within(*region),
        target <= index@.len(),
    ensures
        match r {
            Ok(v) => good_set(v@, *index, *region, target, per_set),
            Err(_) => true,
        },
{
    let mut out: Vec<Envelope> = Vec::new();
    let mut i: usize = 0;
    while i < per_set
        invariant
            region.wf(),
            index.within(*region),
            target <= index@.len(),
            i <= per_set,
            out@.len() == i,
            forall|j: int| 0 <= j < out@.len() ==> (#[trigger] out@[j]).wf(),
            forall|j: int| 0 <= j < out@.len() ==> region.spec_contains_env(#[trigger] out@[j]),
            forall|j: int| 0 <= j < out@.len() ==> index.spec_count_in(#[trigger] out@[j])
                == target,
        decreases per_set - i,
    {
        match synthesize_envelope(index, target, region, max_iters, rng) {
            Ok(env) => {
                out.push(env);
            },
            Err(e) => {
                return Err(e);
            },
        }
        i = i + 1;
    }
    Ok(out)
}

/// What a tier output must look like given whether its file already
/// existed: a preexisting tier is left untouched (`None`), a missing one
/// gets a freshly synthesized good set.
pub open spec fn tier_output_ok<P>(
    o: Option<Vec<Envelope>>,
    preexists: bool,
    index: PointIndex<P>,
    region: Envelope,
    target: usize,
    per_set: usize,
) -> bool {
    match o {
        Option::None => preexists,
        Option::Some(v) => !preexists && good_set(v@, index, region, target, per_set),
    }
}

/// Generates the envelope corpus for one dataset: one entry per tier, in
/// tier order. A tier whose file already exists is skipped (`None`), so a
/// second run over the same tier files changes nothing.
pub fn gen_corpus<P>(
    index: &PointIndex<P>,
    region: &Envelope,
    tiers: &Vec<usize>,
    preexists: &Vec<bool>,
    per_set: usize,
    max_iters: u64,
    rng: &mut rand::rngs::ThreadRng,
) -> (r: Result<Vec<Option<Vec<Envelope>>>, SynthError>)
    requires
        region.wf(),
        index.within(*region),
        preexists@.len() == tiers@.len(),
        forall|i: int| 0 <= i < tiers@.len() ==> #[trigger] tiers@[i] <= index@.len(),
    ensures
        match r {
            Ok(out) => out@.len() == tiers@.len() && forall|i: int|
                0 <= i < out@.len() ==> tier_output_ok(
                    #[trigger] out@[i],
                    preexists@[i],
                    *index,
                    *region,
                    tiers@[i],
                    per_set,
                ),
            Err(_) => true,
        },
{
    let mut out: Vec<Option<Vec<Envelope>>> = Vec::new();
    let mut i: usize = 0;
    while i < tiers.len()
        invariant
            region.wf(),
            index.within(*region),
            preexists@.len() == tiers@.len(),
            forall|k: int| 0 <= k < tiers@.len() ==> #[trigger] tiers@[k] <= index@.len(),
            i <= tiers@.len(),
            out@.len() == i,
            forall|k: int| 0 <= k < out@.len() ==> tier_output_ok(
                #[trigger] out@[k],
                preexists@[k],
                *index,
                *region,
                tiers@[k],
                per_set,
            ),
        decreases tiers@.len() - i,
    {
        if preexists[i] {
            out.push(Option::None);
        } else {
            match gen_envelope_set(index, tiers[i], region, per_set, max_iters, rng) {
                Ok(set) => {
                    out.push(Option::Some(set));
                },
                Err(e) => {
                    return Err(e);
                },
            }
        }
        i = i + 1;
    }
    Ok(out)
}

} // verus!
