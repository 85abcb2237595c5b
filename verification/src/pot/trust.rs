//! Trust parameters and per-validator trust state.
use vstd::prelude::*;
use crate::qmath::{Q, ONE_Q, q_scale, spec_qmul, spec_qadd, spec_qclamp01, qmul, qadd, qclamp01};
use crate::ordmap::OrdMap;

verus! {

/// A 32-byte validator identifier.
pub type NodeId = [u8; 32];

/// Trust dynamics: multiplicative decay `alpha`, additive reward `beta`,
/// and the initial trust of a newcomer `init`.
#[derive(Clone, Copy, Debug)]
pub struct TrustParams {
    pub alpha_q: Q,
    pub beta_q: Q,
    pub init_q: Q,
}

/// One decay step: `t * alpha`.
pub open spec fn spec_decay(p: TrustParams, t: int) -> int {
    spec_qmul(t, p.alpha_q as int)
}

/// One reward step: `min(t + beta, 1.0)`.
pub open spec fn spec_reward(p: TrustParams, t: int) -> int {
    spec_qclamp01(spec_qadd(t, p.beta_q as int))
}

/// Decay followed by reward.
pub open spec fn spec_step(p: TrustParams, t: int) -> int {
    spec_reward(p, spec_decay(p, t))
}

impl TrustParams {
    /// Validated constructor: every parameter must be at most 1.0.
    pub fn new(alpha_q: Q, beta_q: Q, init_q: Q) -> (r: Result<Self, &'static str>)
        ensures
            r.is_ok() <==> alpha_q <= ONE_Q && beta_q <= ONE_Q && init_q <= ONE_Q,
            r.is_ok() ==> r.unwrap() == (TrustParams { alpha_q, beta_q, init_q }),
    {
        if alpha_q > ONE_Q || beta_q > ONE_Q || init_q > ONE_Q {
            return Err("trust parameters must be <= 1.0");
        }
        Ok(Self { alpha_q, beta_q, init_q })
    }

    /// Multiplicative decay `t * alpha`.
    pub fn decay(&self, t: Q) -> (r: Q)
        ensures
            r == spec_decay(*self, t as int),
    {
        qmul(t, self.alpha_q)
    }

    /// Additive reward `min(t + beta, 1.0)`.
    pub fn reward(&self, t: Q) -> (r: Q)
        ensures
            r == spec_reward(*self, t as int),
    {
        qclamp01(qadd(t, self.beta_q))
    }

    /// Decay then reward.
    pub fn step(&self, t: Q) -> (r: Q)
        ensures
            r == spec_step(*self, t as int),
            r <= ONE_Q,
    {
        self.reward(self.decay(t))
    }
}

/// Trust after one step never exceeds 1.0.
pub proof fn lemma_step_bounded(p: TrustParams, t: Q)
    ensures
        spec_step(p, t as int) <= ONE_Q,
{
}

/// With `alpha <= 1.0`, decay never increases trust.
pub proof fn lemma_decay_non_increasing(p: TrustParams, t: Q)
    requires
        p.alpha_q <= ONE_Q,
    ensures
        spec_decay(p, t as int) <= t,
{
    assert((t as int) * (p.alpha_q as int) <= (t as int) * q_scale()) by (nonlinear_arith)
        requires p.alpha_q <= q_scale(), t >= 0;
    assert(((t as int) * q_scale()) / q_scale() == t) by (nonlinear_arith);
    assert(((t as int) * (p.alpha_q as int)) / q_scale() <= ((t as int) * q_scale()) / q_scale()) by (nonlinear_arith)
        requires (t as int) * (p.alpha_q as int) <= (t as int) * q_scale();
}

/// One step is monotone in the trust it starts from.
pub proof fn lemma_step_monotone(p: TrustParams, t1: Q, t2: Q)
    requires
        t1 <= t2,
    ensures
        spec_step(p, t1 as int) <= spec_step(p, t2 as int),
{
    assert((t1 as int) * (p.alpha_q as int) <= (t2 as int) * (p.alpha_q as int)) by (nonlinear_arith)
        requires t1 <= t2, p.alpha_q >= 0;
    assert(((t1 as int) * (p.alpha_q as int)) / q_scale() <= ((t2 as int) * (p.alpha_q as int)) / q_scale()) by (nonlinear_arith)
        requires (t1 as int) * (p.alpha_q as int) <= (t2 as int) * (p.alpha_q as int);
}

/// Per-validator trust, Q32.32.
pub struct TrustState {
    map: OrdMap<NodeId, Q>,
}

impl TrustState {
    /// The stored trust values.
    pub closed spec fn view(&self) -> Map<NodeId, Q> {
        self.map.view()
    }

    /// Internal consistency.
    pub closed spec fn wf(&self) -> bool {
        self.map.wf()
    }

    /// Trust of `id`, or `init` when none is stored.
    pub open spec fn trust_of(&self, id: NodeId, init: Q) -> Q {
        if self.view().contains_key(id) { self.view()[id] } else { init }
    }

    /// Empty trust state.
    pub fn new() -> (s: Self)
        ensures
            s.wf(),
            s.view() == Map::<NodeId, Q>::empty(),
    {
        TrustState { map: OrdMap::new() }
    }

    /// Trust of `id`, or `init` when none is stored.
    pub fn get(&self, id: &NodeId, init: Q) -> (r: Q)
        requires
            self.wf(),
        ensures
            r == self.trust_of(*id, init),
    {
        match self.map.get(id) {
            Some(v) => *v,
            None => init,
        }
    }

    /// Stores trust `val` for `id`.
    pub fn set(&mut self, id: NodeId, val: Q)
        requires
            old(self).wf(),
        ensures
            final(self).wf(),
            final(self).view() == old(self).view().insert(id, val),
    {
        self.map.insert(id, val);
    }

    /// Applies one trust step (decay then reward) to `who`.
    pub fn apply_block_reward(&mut self, who: &NodeId, p: TrustParams)
        requires
            old(self).wf(),
        ensures
            final(self).wf(),
            final(self).view() == old(self).view().insert(
                *who,
                spec_step(p, old(self).trust_of(*who, p.init_q) as int) as Q,
            ),
    {
        let t = self.get(who, p.init_q);
        self.set(*who, p.step(t));
    }
}

impl Default for TrustState {
    fn default() -> (s: Self)
        ensures
            s.wf(),
            s.view() == Map::<NodeId, Q>::empty(),
    {
        TrustState::new()
    }
}

} // verus!
