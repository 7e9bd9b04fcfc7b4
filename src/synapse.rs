use vstd::prelude::*;
use crate::fixed::{UNIT, MAX_LEVEL, rise, fall, rise_toward, fall_toward_zero};

verus! {

/// Excitatory synapses raise their target's charge, inhibitory ones lower it.
#[derive(Clone, Copy, Debug, PartialEq, Eq, Structural)]
pub enum SynapticType {
    Excitatory,
    Inhibitory,
}

impl SynapticType {
    /// +1 for excitatory, -1 for inhibitory.
    pub open spec fn sign(self) -> int {
        match self {
            SynapticType::Excitatory => 1,
            SynapticType::Inhibitory => -1,
        }
    }

    /// The factor by which a synapse's strength is multiplied to give the
    /// impulse it delivers.
    pub fn get_synapse_modifier(&self) -> (r: i8)
        ensures
            r as int == self.sign(),
    {
        match self {
            SynapticType::Excitatory => 1,
            SynapticType::Inhibitory => -1,
        }
    }
}

/// Logistic step up: with `s = M * sigmoid(x)` and `ratio = UNIT * e^(-dx)`,
/// the strength at `x + dx`, rounded down.
pub open spec fn sigmoid_up(s: int, m: int, ratio: int) -> int {
    let d = s * UNIT + (m - s) * ratio;
    if d == 0 { s } else { (m * s * UNIT) / d }
}

/// Logistic step down: the strength at `x - dx`, rounded down.
pub open spec fn sigmoid_down(s: int, m: int, ratio: int) -> int {
    let d = s * ratio + (m - s) * UNIT;
    if d == 0 { s } else { (m * s * ratio) / d }
}

proof fn lemma_sigmoid_up_bounds(s: int, m: int, ratio: int)
    requires
        0 <= s <= m,
        0 < ratio <= UNIT,
    ensures
        s <= sigmoid_up(s, m, ratio) <= m,
{
    let d = s * UNIT + (m - s) * ratio;
    if d != 0 {
        let n = m * s * UNIT;
        assert(0 < d <= m * UNIT) by (nonlinear_arith)
            requires 0 <= s <= m, 0 < ratio <= UNIT, d == s * UNIT + (m - s) * ratio, d != 0;
        assert(s * d <= n) by (nonlinear_arith)
            requires 0 <= s, d <= m * UNIT, n == m * s * UNIT;
        assert(n <= m * d) by (nonlinear_arith)
            requires 0 <= s <= m, 0 < ratio, d == s * UNIT + (m - s) * ratio, n == m * s * UNIT;
        assert(s <= n / d <= m) by (nonlinear_arith)
            requires 0 < d, s * d <= n, n <= m * d;
    }
}

proof fn lemma_sigmoid_down_bounds(s: int, m: int, ratio: int)
    requires
        0 <= s <= m,
        0 < ratio <= UNIT,
    ensures
        0 <= sigmoid_down(s, m, ratio) <= s,
{
    let d = s * ratio + (m - s) * UNIT;
    if d != 0 {
        let n = m * s * ratio;
        assert(0 < d <= m * UNIT) by (nonlinear_arith)
            requires 0 <= s <= m, 0 < ratio <= UNIT, d == s * ratio + (m - s) * UNIT, d != 0;
        assert(n <= s * d) by (nonlinear_arith)
            requires 0 <= s <= m, 0 < ratio <= UNIT, d == s * ratio + (m - s) * UNIT, n == m * s * ratio;
        assert(0 <= n) by (nonlinear_arith)
            requires 0 <= s <= m, 0 < ratio, n == m * s * ratio;
        assert(0 <= n / d <= s) by (nonlinear_arith)
            requires 0 < d, 0 <= n, n <= s * d, 0 <= s;
    }
}

/// A strength that follows a sigmoid curve `M * sigmoid(x)`: strengthening
/// moves `x` right by a fixed step and weakening moves it left by the same
/// step. The step enters as `step_ratio = UNIT * e^(-step)`.
#[derive(Clone, Copy, Debug)]
pub struct SigmoidStrength {
    pub strength: u64,
    pub max_value: u64,
    pub weakness_threshold: u64,
    pub step_ratio: u64,
}

impl SigmoidStrength {
    pub open spec fn wf(self) -> bool {
        &&& self.strength <= self.max_value <= MAX_LEVEL
        &&& 0 < self.step_ratio <= UNIT
    }

    /// A sigmoid strength at `x = 0`, that is at half its maximum.
    pub fn new(max_value: u64, weakness_threshold: u64, step_ratio: u64) -> (r: SigmoidStrength)
        requires
            max_value <= MAX_LEVEL,
            0 < step_ratio <= UNIT,
        ensures
            r.wf(),
            r.strength == max_value / 2,
            r.max_value == max_value,
            r.weakness_threshold == weakness_threshold,
            r.step_ratio == step_ratio,
    {
        SigmoidStrength { strength: max_value / 2, max_value, weakness_threshold, step_ratio }
    }

    /// A sigmoid strength that starts at a chosen point of its curve, given
    /// by the strength there.
    pub fn new_custom_x(max_value: u64, weakness_threshold: u64, step_ratio: u64, strength: u64) -> (r: SigmoidStrength)
        requires
            strength <= max_value <= MAX_LEVEL,
            0 < step_ratio <= UNIT,
        ensures
            r.wf(),
            r == (SigmoidStrength { strength, max_value, weakness_threshold, step_ratio }),
    {
        SigmoidStrength { strength, max_value, weakness_threshold, step_ratio }
    }

    fn strengthen(&mut self)
        requires
            old(self).wf(),
        ensures
            *final(self) == (SigmoidStrength {
                strength: sigmoid_up(old(self).strength as int, old(self).max_value as int, old(self).step_ratio as int) as u64,
                ..*old(self)
            }),
            final(self).wf(),
            old(self).strength <= final(self).strength,
    {
        proof { lemma_sigmoid_up_bounds(self.strength as int, self.max_value as int, self.step_ratio as int); }
        let s = self.strength as u128;
        let m = self.max_value as u128;
        let r = self.step_ratio as u128;
        assert(s * (UNIT as u128) <= MAX_LEVEL * UNIT) by (nonlinear_arith)
            requires s <= MAX_LEVEL;
        assert((m - s) * r <= MAX_LEVEL * UNIT) by (nonlinear_arith)
            requires s <= m <= MAX_LEVEL, r <= UNIT;
        let d = s * (UNIT as u128) + (m - s) * r;
        if d != 0 {
            assert(m * s <= MAX_LEVEL * MAX_LEVEL) by (nonlinear_arith)
                requires s <= m <= MAX_LEVEL;
            assert(m * s * (UNIT as u128) <= MAX_LEVEL * MAX_LEVEL * UNIT) by (nonlinear_arith)
                requires m * s <= MAX_LEVEL * MAX_LEVEL;
            let v = (m * s * (UNIT as u128)) / d;
            self.strength = v as u64;
        }
    }

    fn weaken(&mut self)
        requires
            old(self).wf(),
        ensures
            *final(self) == (SigmoidStrength {
                strength: sigmoid_down(old(self).strength as int, old(self).max_value as int, old(self).step_ratio as int) as u64,
                ..*old(self)
            }),
            final(self).wf(),
            final(self).strength <= old(self).strength,
    {
        proof { lemma_sigmoid_down_bounds(self.strength as int, self.max_value as int, self.step_ratio as int); }
        let s = self.strength as u128;
        let m = self.max_value as u128;
        let r = self.step_ratio as u128;
        assert(s * r <= MAX_LEVEL * UNIT) by (nonlinear_arith)
            requires s <= MAX_LEVEL, r <= UNIT;
        assert((m - s) * (UNIT as u128) <= MAX_LEVEL * UNIT) by (nonlinear_arith)
            requires s <= m <= MAX_LEVEL;
        let d = s * r + (m - s) * (UNIT as u128);
        if d != 0 {
            assert(m * s <= MAX_LEVEL * MAX_LEVEL) by (nonlinear_arith)
                requires s <= m <= MAX_LEVEL;
            assert(m * s * r <= MAX_LEVEL * MAX_LEVEL * UNIT) by (nonlinear_arith)
                requires m * s <= MAX_LEVEL * MAX_LEVEL, r <= UNIT;
            let v = (m * s * r) / d;
            self.strength = v as u64;
        }
    }
}

/// A strength that moves toward its maximum on strengthening and toward zero
/// on weakening, each time by the fraction `alpha / UNIT` of the distance.
#[derive(Clone, Copy, Debug)]
pub struct EmStrength {
    pub strength: u64,
    pub max_value: u64,
    pub weakness_threshold: u64,
    pub alpha: u64,
}

impl EmStrength {
    pub open spec fn wf(self) -> bool {
        &&& self.strength <= self.max_value <= MAX_LEVEL
        &&& 0 < self.alpha <= UNIT
    }

    /// An EM strength that starts at half its maximum.
    pub fn new(max_value: u64, weakness_threshold: u64, alpha: u64) -> (r: EmStrength)
        requires
            max_value <= MAX_LEVEL,
            0 < alpha <= UNIT,
        ensures
            r.wf(),
            r.strength == max_value / 2,
            r.max_value == max_value,
            r.weakness_threshold == weakness_threshold,
            r.alpha == alpha,
    {
        EmStrength { strength: max_value / 2, max_value, weakness_threshold, alpha }
    }

    /// An EM strength with a chosen starting strength.
    pub fn new_custom(strength: u64, max_value: u64, weakness_threshold: u64, alpha: u64) -> (r: EmStrength)
        requires
            strength <= max_value <= MAX_LEVEL,
            0 < alpha <= UNIT,
        ensures
            r.wf(),
            r == (EmStrength { strength, max_value, weakness_threshold, alpha }),
    {
        EmStrength { strength, max_value, weakness_threshold, alpha }
    }
}

/// The strength of a plastic synapse, under one of two policies.
#[derive(Clone, Copy, Debug)]
pub enum SynapticStrength {
    Sigmoid(SigmoidStrength),
    Em(EmStrength),
}

impl SynapticStrength {
    pub open spec fn wf(self) -> bool {
        match self {
            SynapticStrength::Sigmoid(s) => s.wf(),
            SynapticStrength::Em(e) => e.wf(),
        }
    }

    pub open spec fn value(self) -> int {
        match self {
            SynapticStrength::Sigmoid(s) => s.strength as int,
            SynapticStrength::Em(e) => e.strength as int,
        }
    }

    pub open spec fn max_value(self) -> int {
        match self {
            SynapticStrength::Sigmoid(s) => s.max_value as int,
            SynapticStrength::Em(e) => e.max_value as int,
        }
    }

    pub open spec fn threshold(self) -> int {
        match self {
            SynapticStrength::Sigmoid(s) => s.weakness_threshold as int,
            SynapticStrength::Em(e) => e.weakness_threshold as int,
        }
    }

    /// Whether the strength survives pruning: strictly above its threshold.
    pub open spec fn above(self) -> bool {
        self.value() > self.threshold()
    }

    /// The strength after one strengthening step.
    pub open spec fn strengthened(self) -> SynapticStrength {
        match self {
            SynapticStrength::Sigmoid(s) => SynapticStrength::Sigmoid(SigmoidStrength {
                strength: sigmoid_up(s.strength as int, s.max_value as int, s.step_ratio as int) as u64,
                ..s
            }),
            SynapticStrength::Em(e) => SynapticStrength::Em(EmStrength {
                strength: rise(e.strength as int, e.max_value as int, e.alpha as int) as u64,
                ..e
            }),
        }
    }

    /// The strength after one weakening step.
    pub open spec fn weakened(self) -> SynapticStrength {
        match self {
            SynapticStrength::Sigmoid(s) => SynapticStrength::Sigmoid(SigmoidStrength {
                strength: sigmoid_down(s.strength as int, s.max_value as int, s.step_ratio as int) as u64,
                ..s
            }),
            SynapticStrength::Em(e) => SynapticStrength::Em(EmStrength {
                strength: fall(e.strength as int, e.alpha as int) as u64,
                ..e
            }),
        }
    }

    pub fn get_strength(&self) -> (r: u64)
        ensures
            r as int == self.value(),
    {
        match self {
            SynapticStrength::Sigmoid(s) => s.strength,
            SynapticStrength::Em(e) => e.strength,
        }
    }

    /// One strengthening step; the strength never decreases nor passes its
    /// maximum.
    pub fn strengthen(&mut self)
        requires
            old(self).wf(),
        ensures
            *final(self) == old(self).strengthened(),
            final(self).wf(),
            old(self).value() <= final(self).value() <= final(self).max_value(),
            final(self).max_value() == old(self).max_value(),
            final(self).threshold() == old(self).threshold(),
    {
        match self {
            SynapticStrength::Sigmoid(s) => s.strengthen(),
            SynapticStrength::Em(e) => {
                e.strength = rise_toward(e.strength, e.max_value, e.alpha);
            },
        }
    }

    /// One weakening step; the strength never increases nor drops below zero.
    pub fn weaken(&mut self)
        requires
            old(self).wf(),
        ensures
            *final(self) == old(self).weakened(),
            final(self).wf(),
            0 <= final(self).value() <= old(self).value(),
            final(self).max_value() == old(self).max_value(),
            final(self).threshold() == old(self).threshold(),
    {
        match self {
            SynapticStrength::Sigmoid(s) => s.weaken(),
            SynapticStrength::Em(e) => {
                e.strength = fall_toward_zero(e.strength, e.alpha);
            },
        }
    }

    /// Whether the strength is strictly above the weakness threshold.
    pub fn above_weakness_threshold(&self) -> (r: bool)
        ensures
            r == self.above(),
    {
        match self {
            SynapticStrength::Sigmoid(s) => s.strength > s.weakness_threshold,
            SynapticStrength::Em(e) => e.strength > e.weakness_threshold,
        }
    }
}

/// A synapse whose strength changes with how well its firing correlates with
/// its target's; it dissolves once its strength is no longer above the
/// weakness threshold. The target is the index of a receiving neuron.
#[derive(Clone, Copy, Debug)]
pub struct PlasticSynapse {
    pub strength: SynapticStrength,
    pub synaptic_type: SynapticType,
    pub target: usize,
}

impl PlasticSynapse {
    pub open spec fn wf(self) -> bool {
        self.strength.wf()
    }

    /// The signed impulse that the synapse delivers when it fires.
    pub open spec fn impulse(self) -> int {
        self.synaptic_type.sign() * self.strength.value()
    }

    pub fn new(strength: SynapticStrength, synaptic_type: SynapticType, target: usize) -> (r: PlasticSynapse)
        ensures
            r == (PlasticSynapse { strength, synaptic_type, target }),
    {
        PlasticSynapse { strength, synaptic_type, target }
    }

    /// Strengthens the connection by one step.
    pub fn strengthen(&mut self)
        requires
            old(self).wf(),
        ensures
            *final(self) == (PlasticSynapse { strength: old(self).strength.strengthened(), ..*old(self) }),
            final(self).wf(),
    {
        self.strength.strengthen();
    }

    /// Weakens the connection by one step.
    pub fn decay(&mut self)
        requires
            old(self).wf(),
        ensures
            *final(self) == (PlasticSynapse { strength: old(self).strength.weakened(), ..*old(self) }),
            final(self).wf(),
    {
        self.strength.weaken();
    }

    /// Whether the synapse is still connected: its strength is strictly above
    /// the weakness threshold.
    pub fn connected(&self) -> (r: bool)
        ensures
            r == self.strength.above(),
    {
        self.strength.above_weakness_threshold()
    }

    /// Fires the synapse: the target and the signed impulse to deliver to it.
    pub fn fire(&self) -> (r: (usize, i64))
        requires
            self.wf(),
        ensures
            r.0 == self.target,
            r.1 as int == self.impulse(),
    {
        let s = self.strength.get_strength();
        assert(s <= MAX_LEVEL);
        let m = self.synaptic_type.get_synapse_modifier();
        let impulse: i64 = if m > 0 { s as i64 } else { -(s as i64) };
        (self.target, impulse)
    }
}

/// A synapse of constant strength, installed when the network is built and
/// never changed or removed.
#[derive(Clone, Copy, Debug)]
pub struct StaticSynapse {
    pub strength: u64,
    pub synaptic_type: SynapticType,
    pub target: usize,
}

impl StaticSynapse {
    pub open spec fn wf(self) -> bool {
        self.strength <= MAX_LEVEL
    }

    /// The signed impulse that the synapse delivers when it fires.
    pub open spec fn impulse(self) -> int {
        self.synaptic_type.sign() * self.strength
    }

    pub fn new(strength: u64, synaptic_type: SynapticType, target: usize) -> (r: StaticSynapse)
        requires
            strength <= MAX_LEVEL,
        ensures
            r == (StaticSynapse { strength, synaptic_type, target }),
            r.wf(),
    {
        StaticSynapse { strength, synaptic_type, target }
    }

    /// Fires the synapse: the target and the signed impulse to deliver to it.
    pub fn fire(&self) -> (r: (usize, i64))
        requires
            self.wf(),
        ensures
            r.0 == self.target,
            r.1 as int == self.impulse(),
    {
        let m = self.synaptic_type.get_synapse_modifier();
        let impulse: i64 = if m > 0 { self.strength as i64 } else { -(self.strength as i64) };
        (self.target, impulse)
    }
}

} // verus!
