//! Analysis strategy: scene updates, salience estimation, predictions, and
//! candidate evaluation.  The semantic content of these signals is a
//! pluggable concern; this strategy is the shipped placeholder, and its
//! contracts pin down exactly what it computes.

use vstd::prelude::*;
use crate::interfaces::Outbound;
use crate::model::{Candidate, CtxView, Event, Hypothesis, Scene, SceneDelta, Uncertainty,
    WorkingContext};

verus! {

/// The scene hash after folding one event into `h`: a 31-ary mix of the
/// event's identifying fields, truncated to 64 bits.
pub open spec fn scene_mix(h: u64, e: Event) -> u64 {
    (((h as int) * 31 + e.seq_no + e.src + e.payload_crc) % 0x1_0000_0000_0000_0000) as u64
}

/// The scene hash after folding a sequence of events into `h`, in order.
pub open spec fn scene_fold(h: u64, evs: Seq<Event>) -> u64
    decreases evs.len(),
{
    if evs.len() == 0 {
        h
    } else {
        scene_fold(scene_mix(h, evs[0]), evs.drop_first())
    }
}

/// Folding one more event at the end mixes it into the folded hash.
pub proof fn lemma_scene_fold_push(h: u64, evs: Seq<Event>, e: Event)
    ensures
        scene_fold(h, evs.push(e)) == scene_mix(scene_fold(h, evs), e),
    decreases evs.len(),
{
    if evs.len() == 0 {
        assert(evs.push(e)[0] == e);
        assert(evs.push(e).drop_first() =~= Seq::<Event>::empty());
        assert(scene_fold(h, evs.push(e)) == scene_fold(scene_mix(h, e), Seq::<Event>::empty()));
        assert(scene_fold(h, evs) == h);
    } else {
        assert(evs.push(e)[0] == evs[0]);
        assert(evs.push(e).drop_first() =~= evs.drop_first().push(e));
        assert(scene_fold(h, evs.push(e)) == scene_fold(
            scene_mix(h, evs[0]),
            evs.drop_first().push(e),
        ));
        lemma_scene_fold_push(scene_mix(h, evs[0]), evs.drop_first(), e);
        assert(scene_fold(h, evs) == scene_fold(scene_mix(h, evs[0]), evs.drop_first()));
    }
}

/// Folds a batch of events into the scene summary; mode, goals, and salience
/// are untouched.  Reports whether the summary changed.
pub fn update_scene(ctx: &mut WorkingContext, events: &Vec<Event>) -> (d: SceneDelta)
    ensures
        final(ctx).scene.hash == scene_fold(old(ctx).scene.hash, events@),
        final(ctx).mode == old(ctx).mode,
        final(ctx).goals@ == old(ctx).goals@,
        final(ctx).salience == old(ctx).salience,
        d.changed == (final(ctx).scene.hash != old(ctx).scene.hash),
{
    let h0 = ctx.scene.hash;
    let mut h = h0;
    let n = events.len();
    let mut i: usize = 0;
    proof {
        assert(events@.take(0) =~= Seq::<Event>::empty());
    }
    while i < n
        invariant
            n == events@.len(),
            0 <= i <= n,
            h == scene_fold(h0, events@.take(i as int)),
        decreases n - i,
    {
        let e = events[i];
        proof {
            assert(events@.take(i as int + 1) =~= events@.take(i as int).push(events@[i as int]));
            lemma_scene_fold_push(h0, events@.take(i as int), events@[i as int]);
        }
        let wide: u128 = (h as u128) * 31 + (e.seq_no as u128) + (e.src as u128) + (
        e.payload_crc as u128);
        h = (wide % 0x1_0000_0000_0000_0000) as u64;
        i = i + 1;
    }
    proof {
        assert(events@.take(n as int) =~= events@);
    }
    ctx.scene = Scene { hash: h };
    SceneDelta { changed: h != h0 }
}

/// The salience this strategy assigns to a context: the placeholder strategy
/// reports a quiescent signal.
pub open spec fn spec_salience(c: CtxView) -> u32 {
    0
}

/// Estimates salience from the current working context.
pub fn estimate_salience(ctx: &WorkingContext) -> (s: u32)
    ensures
        s == spec_salience(ctx@),
{
    0
}

/// Predictions over the given horizon; the placeholder strategy has none.
pub fn predict(_ctx: &WorkingContext, _horizon_ms: u64) -> (r: Vec<Hypothesis>)
    ensures
        r@ == Seq::<Hypothesis>::empty(),
{
    let r: Vec<Hypothesis> = Vec::new();
    proof {
        assert(r@ =~= Seq::<Hypothesis>::empty());
    }
    r
}

/// Candidate actions for an event; the placeholder strategy proposes none.
pub fn evaluate(_ctx: &WorkingContext, _ev: &Event) -> (r: Vec<Candidate>)
    ensures
        r@ == Seq::<Candidate>::empty(),
{
    let r: Vec<Candidate> = Vec::new();
    proof {
        assert(r@ =~= Seq::<Candidate>::empty());
    }
    r
}

/// Selects the action to emit for a set of candidates; the placeholder
/// strategy always emits the no-op sentinel.
pub fn select_action(_cands: &Vec<Candidate>) -> (r: Outbound)
    ensures
        r is Nop,
{
    Outbound::Nop
}

/// Uncertainty of the current context; the placeholder strategy reports none.
pub fn compute_uncertainty(_ctx: &WorkingContext) -> (u: Uncertainty)
    ensures
        u == (Uncertainty { sensor: 0, model: 0, memory: 0 }),
{
    Uncertainty { sensor: 0, model: 0, memory: 0 }
}

} // verus!
