use vstd::prelude::*;
use crate::fixed::{UNIT, MAX_LEVEL, rise, fall, rise_toward, fall_toward_zero, lemma_scaled_step};
use crate::ecp_geometry::Loc;
use crate::synapse::{SynapticType, SynapticStrength, PlasticSynapse, StaticSynapse};

verus! {

/// The parity tag of a cycle. A neuron reads its charge from the slot of the
/// current parity and receives impulses into the slot of the next one.
#[derive(Clone, Copy, Debug, PartialEq, Eq, Structural)]
pub enum ChargeCycle {
    Even,
    Odd,
}

impl ChargeCycle {
    pub open spec fn next(self) -> ChargeCycle {
        match self {
            ChargeCycle::Even => ChargeCycle::Odd,
            ChargeCycle::Odd => ChargeCycle::Even,
        }
    }

    /// The parity of a cycle count.
    pub open spec fn of_count(count: int) -> ChargeCycle {
        if count % 2 == 0 { ChargeCycle::Even } else { ChargeCycle::Odd }
    }

    /// The other parity.
    pub fn next_cycle(&self) -> (r: ChargeCycle)
        ensures
            r == self.next(),
            r != *self,
    {
        match self {
            ChargeCycle::Even => ChargeCycle::Odd,
            ChargeCycle::Odd => ChargeCycle::Even,
        }
    }

    /// The parity of a cycle count.
    pub fn from_count(count: u64) -> (r: ChargeCycle)
        ensures
            r == ChargeCycle::of_count(count as int),
    {
        if count % 2 == 0 { ChargeCycle::Even } else { ChargeCycle::Odd }
    }
}

/// The kind of a receiving neuron.
#[derive(Clone, Copy, Debug, PartialEq, Eq, Structural)]
pub enum RxNeuron {
    Actuator,
    Plastic,
}

/// `v` held within the range of an `i64`.
pub open spec fn clamp_charge(v: int) -> int {
    if v > i64::MAX { i64::MAX as int } else if v < i64::MIN { i64::MIN as int } else { v }
}

/// Adds two charges; the sum saturates at the bounds of `i64`.
pub fn add_charge(a: i64, b: i64) -> (r: i64)
    ensures
        r as int == clamp_charge(a + b),
{
    let s: i128 = a as i128 + b as i128;
    if s > i64::MAX as i128 {
        i64::MAX
    } else if s < i64::MIN as i128 {
        i64::MIN
    } else {
        s as i64
    }
}

/// The two charge slots of a receiving neuron, one per parity.
#[derive(Clone, Copy, Debug, PartialEq, Eq, Structural)]
pub struct InternalCharge(pub i64, pub i64);

impl InternalCharge {
    pub open spec fn slot(self, cycle: ChargeCycle) -> i64 {
        match cycle {
            ChargeCycle::Even => self.0,
            ChargeCycle::Odd => self.1,
        }
    }

    /// The charge after an impulse was received during `cycle`.
    pub open spec fn with_intake(self, cycle: ChargeCycle, impulse: int) -> InternalCharge {
        match cycle.next() {
            ChargeCycle::Even => InternalCharge(clamp_charge(self.0 + impulse) as i64, self.1),
            ChargeCycle::Odd => InternalCharge(self.0, clamp_charge(self.1 + impulse) as i64),
        }
    }

    /// The charge with the slot of `cycle` emptied.
    pub open spec fn with_reset(self, cycle: ChargeCycle) -> InternalCharge {
        match cycle {
            ChargeCycle::Even => InternalCharge(0, self.1),
            ChargeCycle::Odd => InternalCharge(self.0, 0),
        }
    }

    pub fn new() -> (r: InternalCharge)
        ensures
            r == InternalCharge(0, 0),
    {
        InternalCharge(0, 0)
    }

    pub fn get_charge(&self, cycle: ChargeCycle) -> (r: i64)
        ensures
            r == self.slot(cycle),
    {
        match cycle {
            ChargeCycle::Even => self.0,
            ChargeCycle::Odd => self.1,
        }
    }

    /// Empties the slot of `cycle`.
    pub fn reset_charge(&mut self, cycle: ChargeCycle)
        ensures
            *final(self) == old(self).with_reset(cycle),
            final(self).slot(cycle) == 0,
            final(self).slot(cycle.next()) == old(self).slot(cycle.next()),
    {
        match cycle {
            ChargeCycle::Even => self.0 = 0,
            ChargeCycle::Odd => self.1 = 0,
        }
    }

    /// Adds an impulse received during `cycle` to the slot of the next cycle.
    pub fn incr_next_charge(&mut self, cycle: ChargeCycle, incr_charge: i64)
        ensures
            *final(self) == old(self).with_intake(cycle, incr_charge as int),
            final(self).slot(cycle) == old(self).slot(cycle),
            final(self).slot(cycle.next()) as int == clamp_charge(old(self).slot(cycle.next()) + incr_charge),
    {
        let next_cycle = cycle.next_cycle();
        let new_charge = add_charge(self.get_charge(next_cycle), incr_charge);
        match next_cycle {
            ChargeCycle::Even => self.0 = new_charge,
            ChargeCycle::Odd => self.1 = new_charge,
        }
    }
}

/// Remembers whether a neuron fired on the previous cycle and on the one
/// before, one slot per parity.
#[derive(Clone, Copy, Debug)]
pub struct FireTracker {
    pub values: (bool, bool),
    pub last_recorded_current_cycle: ChargeCycle,
    pub prev_prev: bool,
}

impl FireTracker {
    pub open spec fn slot(self, cycle: ChargeCycle) -> bool {
        match cycle {
            ChargeCycle::Even => self.values.0,
            ChargeCycle::Odd => self.values.1,
        }
    }

    /// Whether the neuron fired on the cycle before the one of parity `cycle`.
    pub open spec fn prev(self, cycle: ChargeCycle) -> bool {
        self.slot(cycle.next())
    }

    /// Whether the neuron fired two cycles before the one of parity `cycle`.
    pub open spec fn prev_prev_of(self, cycle: ChargeCycle) -> bool {
        if self.last_recorded_current_cycle == cycle { self.prev_prev } else { self.slot(cycle) }
    }

    /// The tracker after recording the decision `fired` for `cycle`.
    pub open spec fn recorded(self, cycle: ChargeCycle, fired: bool) -> FireTracker {
        FireTracker {
            values: match cycle {
                ChargeCycle::Even => (fired, self.values.1),
                ChargeCycle::Odd => (self.values.0, fired),
            },
            last_recorded_current_cycle: cycle,
            prev_prev: self.slot(cycle),
        }
    }

    /// A tracker that has seen no fire.
    pub open spec fn initial() -> FireTracker {
        FireTracker { values: (false, false), last_recorded_current_cycle: ChargeCycle::Even, prev_prev: false }
    }

    pub fn new() -> (r: FireTracker)
        ensures
            r == FireTracker::initial(),
    {
        FireTracker { values: (false, false), last_recorded_current_cycle: ChargeCycle::Even, prev_prev: false }
    }

    /// Whether the neuron fired on the previous cycle.
    pub fn fired_on_prev_cycle(&self, cycle: ChargeCycle) -> (r: bool)
        ensures
            r == self.prev(cycle),
    {
        match cycle.next_cycle() {
            ChargeCycle::Even => self.values.0,
            ChargeCycle::Odd => self.values.1,
        }
    }

    /// Whether the neuron fired two cycles ago.
    pub fn fired_on_prev_prev(&self, cycle: ChargeCycle) -> (r: bool)
        ensures
            r == self.prev_prev_of(cycle),
    {
        if self.last_recorded_current_cycle == cycle {
            self.prev_prev
        } else {
            match cycle {
                ChargeCycle::Even => self.values.0,
                ChargeCycle::Odd => self.values.1,
            }
        }
    }

    /// Records whether the neuron fired on the current cycle.
    pub fn set_tracker(&mut self, cycle: ChargeCycle, fired: bool)
        ensures
            *final(self) == old(self).recorded(cycle, fired),
            final(self).prev(cycle.next()) == fired,
            final(self).prev_prev_of(cycle) == old(self).slot(cycle),
            final(self).prev(cycle) == old(self).prev(cycle),
    {
        self.last_recorded_current_cycle = cycle;
        self.prev_prev = match cycle {
            ChargeCycle::Even => self.values.0,
            ChargeCycle::Odd => self.values.1,
        };
        match cycle {
            ChargeCycle::Even => self.values.0 = fired,
            ChargeCycle::Odd => self.values.1 = fired,
        }
    }
}

/// The frequency estimate after a step: toward `UNIT` after a fire, toward
/// zero otherwise.
pub open spec fn ema_after(ema: int, alpha: int, fired: bool) -> int {
    if fired { rise(ema, UNIT as int, alpha) } else { fall(ema, alpha) }
}

/// One step of the exponential moving average of the firing frequency.
pub fn update_ema(ema: u64, alpha: u64, fired: bool) -> (r: u64)
    requires
        ema <= UNIT,
        0 < alpha < UNIT,
    ensures
        r == ema_after(ema as int, alpha as int, fired),
        r <= UNIT,
        fired && ema < UNIT ==> ema < r,
        !fired && 0 < ema ==> r < ema,
{
    if fired {
        rise_toward(ema, UNIT, alpha)
    } else {
        fall_toward_zero(ema, alpha)
    }
}

/// The frequency estimate stays within `[0, UNIT]`: a step with a fire raises
/// it strictly unless it is already `UNIT`, and a step without fire lowers it
/// strictly unless it is already 0.
pub proof fn lemma_ema_law(ema: int, alpha: int)
    requires
        0 <= ema <= UNIT,
        0 < alpha < UNIT,
    ensures
        0 <= ema_after(ema, alpha, true) <= UNIT,
        0 <= ema_after(ema, alpha, false) <= UNIT,
        ema < UNIT ==> ema < ema_after(ema, alpha, true),
        0 < ema ==> ema_after(ema, alpha, false) < ema,
        ema <= ema_after(ema, alpha, true),
        ema_after(ema, alpha, false) <= ema,
{
    lemma_scaled_step(UNIT - ema, alpha);
    lemma_scaled_step(ema, alpha);
}

/// The fire decision recorded in a cycle is what the next cycle reads as the
/// previous cycle's fire, and what the cycle after that reads as the fire two
/// cycles back.
pub proof fn lemma_tracker_law(t: FireTracker, cycle: ChargeCycle, fired: bool, fired_next: bool)
    ensures
        t.recorded(cycle, fired).prev(cycle.next()) == fired,
        t.recorded(cycle, fired).recorded(cycle.next(), fired_next).prev_prev_of(cycle) == fired,
{
}

/// A step in a cycle leaves what the other steps of that cycle read: the
/// previous cycle's fire, which a tracker keeps when it records the current
/// one, and the current slot of a charge, which an intake does not touch.
pub proof fn lemma_step_reads_unaffected(t: FireTracker, c: InternalCharge, cycle: ChargeCycle, fired: bool, impulse: int)
    ensures
        t.recorded(cycle, fired).prev(cycle) == t.prev(cycle),
        c.with_intake(cycle, impulse).slot(cycle) == c.slot(cycle),
{
}

/// A plastic synapse after the learning step: when its neuron fired two
/// cycles ago, it strengthens if its target fired on the previous cycle and
/// weakens otherwise.
pub open spec fn adjusted(s: PlasticSynapse, fired: bool, target_fired: Seq<bool>) -> PlasticSynapse {
    if !fired {
        s
    } else if target_fired[s.target as int] {
        PlasticSynapse { strength: s.strength.strengthened(), ..s }
    } else {
        PlasticSynapse { strength: s.strength.weakened(), ..s }
    }
}

/// The synapses kept after the learning step, each adjusted, in their order.
pub open spec fn pruned(s: Seq<PlasticSynapse>, fired: bool, target_fired: Seq<bool>) -> Seq<PlasticSynapse>
    decreases s.len(),
{
    if s.len() == 0 {
        seq![]
    } else {
        let rest = pruned(s.drop_last(), fired, target_fired);
        let a = adjusted(s.last(), fired, target_fired);
        if a.strength.above() { rest.push(a) } else { rest }
    }
}

/// The polarity of a new synapse: excitatory while the neuron's frequency is
/// below the type threshold.
pub open spec fn sprout_type(ema: int, type_threshold: int) -> SynapticType {
    if ema < type_threshold { SynapticType::Excitatory } else { SynapticType::Inhibitory }
}

/// The synapses after the sprouting step: a new one toward `target` when
/// there is room under the cap and a target was found.
pub open spec fn sprouted(
    s: Seq<PlasticSynapse>,
    cap: int,
    ema: int,
    type_threshold: int,
    template: SynapticStrength,
    target: Option<usize>,
) -> Seq<PlasticSynapse> {
    if s.len() < cap && target is Some {
        s.push(PlasticSynapse { strength: template, synaptic_type: sprout_type(ema, type_threshold), target: target->0 })
    } else {
        s
    }
}

/// All synapses are well formed and aim at one of `n` receivers.
pub open spec fn plastic_ok(s: Seq<PlasticSynapse>, n: int) -> bool {
    forall|k: int| 0 <= k < s.len() ==> (#[trigger] s[k]).wf() && s[k].target < n
}

pub open spec fn static_ok(s: Seq<StaticSynapse>, n: int) -> bool {
    forall|k: int| 0 <= k < s.len() ==> (#[trigger] s[k]).wf() && s[k].target < n
}

proof fn lemma_pruned_len(s: Seq<PlasticSynapse>, fired: bool, target_fired: Seq<bool>)
    ensures
        pruned(s, fired, target_fired).len() <= s.len(),
    decreases s.len(),
{
    if s.len() > 0 {
        lemma_pruned_len(s.drop_last(), fired, target_fired);
    }
}

/// The learning step: adjusts every plastic synapse and removes those whose
/// strength is no longer above the weakness threshold.
pub fn prune_synapses(synapses: &mut Vec<PlasticSynapse>, fired: bool, target_fired: &Vec<bool>)
    requires
        plastic_ok(old(synapses)@, target_fired@.len() as int),
    ensures
        final(synapses)@ == pruned(old(synapses)@, fired, target_fired@),
        plastic_ok(final(synapses)@, target_fired@.len() as int),
        final(synapses)@.len() <= old(synapses)@.len(),
{
    let ghost s0 = synapses@;
    let n = synapses.len();
    let mut kept: Vec<PlasticSynapse> = Vec::new();
    let mut i: usize = 0;
    while i < n
        invariant
            n == s0.len(),
            synapses@ == s0,
            i <= n,
            kept@ == pruned(s0.subrange(0, i as int), fired, target_fired@),
            plastic_ok(s0, target_fired@.len() as int),
            plastic_ok(kept@, target_fired@.len() as int),
        decreases n - i,
    {
        let mut syn = synapses[i];
        assert(s0[i as int].wf() && s0[i as int].target < target_fired@.len());
        if fired {
            if target_fired[syn.target] {
                syn.strengthen();
            } else {
                syn.decay();
            }
        }
        assert(s0.subrange(0, i + 1).drop_last() =~= s0.subrange(0, i as int));
        if syn.connected() {
            kept.push(syn);
        }
        i = i + 1;
    }
    assert(s0.subrange(0, n as int) =~= s0);
    proof { lemma_pruned_len(s0, fired, target_fired@); }
    *synapses = kept;
}

/// The sprouting step: when there is room under the cap and a target was
/// found, appends a new synapse toward it.
pub fn form_plastic_synapse(
    synapses: &mut Vec<PlasticSynapse>,
    max_plastic_synapses: usize,
    ema: u64,
    synapse_type_threshold: u64,
    template: SynapticStrength,
    target: Option<usize>,
)
    ensures
        final(synapses)@ == sprouted(
            old(synapses)@,
            max_plastic_synapses as int,
            ema as int,
            synapse_type_threshold as int,
            template,
            target,
        ),
{
    if synapses.len() < max_plastic_synapses {
        let synapse_type = if ema < synapse_type_threshold {
            SynapticType::Excitatory
        } else {
            SynapticType::Inhibitory
        };
        if let Some(t) = target {
            synapses.push(PlasticSynapse::new(template, synapse_type, t));
        }
    }
}

/// What a firing neuron sends: `(target, impulse)` for each plastic synapse,
/// then for each static synapse, in their order.
pub open spec fn emitted(plastic: Seq<PlasticSynapse>, statics: Seq<StaticSynapse>) -> Seq<(usize, i64)> {
    plastic.map_values(|s: PlasticSynapse| (s.target, s.impulse() as i64))
        + statics.map_values(|s: StaticSynapse| (s.target, s.impulse() as i64))
}

/// The impulses that a neuron with these synapses sends when it fires.
pub(crate) fn emissions(plastic: &Vec<PlasticSynapse>, statics: &Vec<StaticSynapse>, n: Ghost<int>) -> (r: Vec<(usize, i64)>)
    requires
        plastic_ok(plastic@, n@),
        static_ok(statics@, n@),
    ensures
        r@ == emitted(plastic@, statics@),
        forall|q: int| 0 <= q < r@.len() ==> (#[trigger] r@[q]).0 < n@,
{
    let mut out: Vec<(usize, i64)> = Vec::new();
    let mut i: usize = 0;
    while i < plastic.len()
        invariant
            i <= plastic@.len(),
            plastic_ok(plastic@, n@),
            out@ == plastic@.subrange(0, i as int).map_values(|s: PlasticSynapse| (s.target, s.impulse() as i64)),
        decreases plastic@.len() - i,
    {
        assert(plastic@[i as int].wf());
        let e = plastic[i].fire();
        out.push(e);
        assert(plastic@.subrange(0, i + 1) =~= plastic@.subrange(0, i as int).push(plastic@[i as int]));
        i = i + 1;
    }
    assert(plastic@.subrange(0, plastic@.len() as int) =~= plastic@);
    let ghost mid = out@;
    let mut j: usize = 0;
    while j < statics.len()
        invariant
            j <= statics@.len(),
            static_ok(statics@, n@),
            out@ == mid + statics@.subrange(0, j as int).map_values(|s: StaticSynapse| (s.target, s.impulse() as i64)),
        decreases statics@.len() - j,
    {
        assert(statics@[j as int].wf());
        let e = statics[j].fire();
        out.push(e);
        assert(statics@.subrange(0, j + 1) =~= statics@.subrange(0, j as int).push(statics@[j as int]));
        j = j + 1;
    }
    assert(statics@.subrange(0, statics@.len() as int) =~= statics@);
    assert(out@ =~= emitted(plastic@, statics@));
    proof {
        assert forall|q: int| 0 <= q < out@.len() implies (#[trigger] out@[q]).0 < n@ by {
            if q < plastic@.len() {
                assert(plastic@[q].wf());
            } else {
                assert(statics@[q - plastic@.len()].wf());
            }
        }
    }
    out
}

/// A neuron that carries an encoded sensor reading into the network: it fires
/// on every cycle whose count is a multiple of its period, and never while the
/// period is 0.
pub struct SensoryNeuron {
    pub period: u32,
    pub max_plastic_synapses: usize,
    pub plastic_synapses: Vec<PlasticSynapse>,
    pub static_synapses: Vec<StaticSynapse>,
    pub fire_tracker: FireTracker,
    pub strength_template: SynapticStrength,
    pub synapse_type_threshold: u64,
    pub ema: u64,
    pub alpha: u64,
    pub loc: Loc,
}

/// Whether a sensory neuron of period `period` fires on cycle `count`.
pub open spec fn sensory_fires(period: int, count: int) -> bool {
    period != 0 && count % period == 0
}

impl SensoryNeuron {
    /// Well formed, with every synapse aimed at one of `n` receivers.
    pub open spec fn wf(&self, n: int) -> bool {
        &&& self.ema <= UNIT
        &&& 0 < self.alpha < UNIT
        &&& self.strength_template.wf()
        &&& plastic_ok(self.plastic_synapses@, n)
        &&& static_ok(self.static_synapses@, n)
        &&& self.plastic_synapses@.len() <= self.max_plastic_synapses
    }

    /// The parameters that a cycle leaves as they are.
    pub open spec fn same_setup(&self, o: &SensoryNeuron) -> bool {
        &&& self.period == o.period
        &&& self.max_plastic_synapses == o.max_plastic_synapses
        &&& self.strength_template == o.strength_template
        &&& self.synapse_type_threshold == o.synapse_type_threshold
        &&& self.alpha == o.alpha
        &&& self.loc == o.loc
    }

    pub fn new(
        max_plastic_synapses: usize,
        strength_template: SynapticStrength,
        synapse_type_threshold: u64,
        alpha: u64,
        loc: Loc,
    ) -> (r: SensoryNeuron)
        requires
            strength_template.wf(),
            0 < alpha < UNIT,
        ensures
            forall|n: int| r.wf(n),
            r.period == 0,
            r.plastic_synapses@.len() == 0,
            r.static_synapses@.len() == 0,
            r.fire_tracker == FireTracker::initial(),
            r.ema == 0,
            r.max_plastic_synapses == max_plastic_synapses,
            r.strength_template == strength_template,
            r.synapse_type_threshold == synapse_type_threshold,
            r.alpha == alpha,
            r.loc == loc,
    {
        SensoryNeuron {
            period: 0,
            max_plastic_synapses,
            plastic_synapses: Vec::new(),
            static_synapses: Vec::new(),
            fire_tracker: FireTracker::new(),
            strength_template,
            synapse_type_threshold,
            ema: 0,
            alpha,
            loc,
        }
    }

    /// Sets the period at which the neuron fires.
    pub fn set_period(&mut self, period: u32)
        ensures
            final(self).period == period,
            final(self).plastic_synapses@ == old(self).plastic_synapses@,
            final(self).static_synapses@ == old(self).static_synapses@,
            final(self).fire_tracker == old(self).fire_tracker,
            final(self).ema == old(self).ema,
            final(self).max_plastic_synapses == old(self).max_plastic_synapses,
            final(self).strength_template == old(self).strength_template,
            final(self).synapse_type_threshold == old(self).synapse_type_threshold,
            final(self).alpha == old(self).alpha,
            final(self).loc == old(self).loc,
    {
        self.period = period;
    }

    /// Adds a static synapse toward receiver `target`.
    pub fn add_static_synapse(&mut self, strength: u64, synaptic_type: SynapticType, target: usize)
        requires
            strength <= MAX_LEVEL,
        ensures
            final(self).static_synapses@ == old(self).static_synapses@.push(StaticSynapse { strength, synaptic_type, target }),
            final(self).plastic_synapses@ == old(self).plastic_synapses@,
            final(self).same_setup(old(self)),
            final(self).fire_tracker == old(self).fire_tracker,
            final(self).ema == old(self).ema,
    {
        self.static_synapses.push(StaticSynapse::new(strength, synaptic_type, target));
    }

    /// Whether the neuron fired two cycles before a cycle of parity `cycle`.
    pub fn fired_on_prev_prev(&self, cycle: ChargeCycle) -> (r: bool)
        ensures
            r == self.fire_tracker.prev_prev_of(cycle),
    {
        self.fire_tracker.fired_on_prev_prev(cycle)
    }

    /// The neuron's step in cycle `cycle_count`: learning on its plastic
    /// synapses, sprouting toward `sprout_target` (the receiver that a random
    /// draw near the neuron found, if any), then the fire decision. Returns
    /// whether it fired; the caller delivers the impulses of its synapses.
    /// `target_fired` tells for each receiver whether it fired on the
    /// previous cycle.
    pub fn run_cycle(&mut self, cycle_count: u64, target_fired: &Vec<bool>, sprout_target: Option<usize>) -> (fired: bool)
        requires
            old(self).wf(target_fired@.len() as int),
            sprout_target matches Some(t) ==> t < target_fired@.len(),
        ensures
            fired == sensory_fires(old(self).period as int, cycle_count as int),
            final(self).plastic_synapses@ == sprouted(
                pruned(
                    old(self).plastic_synapses@,
                    old(self).fire_tracker.prev_prev_of(ChargeCycle::of_count(cycle_count as int)),
                    target_fired@,
                ),
                old(self).max_plastic_synapses as int,
                old(self).ema as int,
                old(self).synapse_type_threshold as int,
                old(self).strength_template,
                sprout_target,
            ),
            final(self).static_synapses@ == old(self).static_synapses@,
            final(self).ema == ema_after(old(self).ema as int, old(self).alpha as int, fired),
            final(self).fire_tracker == old(self).fire_tracker.recorded(ChargeCycle::of_count(cycle_count as int), fired),
            final(self).same_setup(old(self)),
            final(self).wf(target_fired@.len() as int),
    {
        let cycle = ChargeCycle::from_count(cycle_count);
        let fired_before = self.fired_on_prev_prev(cycle);
        prune_synapses(&mut self.plastic_synapses, fired_before, target_fired);
        form_plastic_synapse(
            &mut self.plastic_synapses,
            self.max_plastic_synapses,
            self.ema,
            self.synapse_type_threshold,
            self.strength_template,
            sprout_target,
        );
        let fired = self.period != 0 && cycle_count % (self.period as u64) == 0;
        self.ema = update_ema(self.ema, self.alpha, fired);
        self.fire_tracker.set_tracker(cycle, fired);
        fired
    }
}

/// A neuron that only receives: its firing frequency drives an actuator.
pub struct ActuatorNeuron {
    pub fire_tracker: FireTracker,
    pub internal_charge: InternalCharge,
    pub fire_threshold: i64,
    pub ema: u64,
    pub alpha: u64,
}

impl ActuatorNeuron {
    pub open spec fn wf(&self) -> bool {
        &&& self.ema <= UNIT
        &&& 0 < self.alpha < UNIT
    }

    pub fn new(fire_threshold: i64, alpha: u64) -> (r: ActuatorNeuron)
        requires
            0 < alpha < UNIT,
        ensures
            r.wf(),
            r.fire_tracker == FireTracker::initial(),
            r.internal_charge == InternalCharge(0, 0),
            r.fire_threshold == fire_threshold,
            r.ema == 0,
            r.alpha == alpha,
    {
        ActuatorNeuron {
            fire_tracker: FireTracker::new(),
            internal_charge: InternalCharge::new(),
            fire_threshold,
            ema: 0,
            alpha,
        }
    }

    /// The neuron's firing frequency estimate, between 0 and `UNIT`.
    pub fn read_ema_frequency(&self) -> (r: u64)
        requires
            self.wf(),
        ensures
            r == self.ema,
            r <= UNIT,
    {
        self.ema
    }

    /// The neuron's step in a cycle of parity `cycle`: it fires when the
    /// charge of the current slot is strictly above its threshold, and the
    /// slot is emptied.
    pub fn run_cycle(&mut self, cycle: ChargeCycle) -> (fired: bool)
        requires
            old(self).wf(),
        ensures
            fired == (old(self).internal_charge.slot(cycle) > old(self).fire_threshold),
            final(self).internal_charge == old(self).internal_charge.with_reset(cycle),
            final(self).ema == ema_after(old(self).ema as int, old(self).alpha as int, fired),
            final(self).fire_tracker == old(self).fire_tracker.recorded(cycle, fired),
            final(self).fire_threshold == old(self).fire_threshold,
            final(self).alpha == old(self).alpha,
            final(self).wf(),
    {
        let fired = self.internal_charge.get_charge(cycle) > self.fire_threshold;
        self.ema = update_ema(self.ema, self.alpha, fired);
        self.fire_tracker.set_tracker(cycle, fired);
        self.internal_charge.reset_charge(cycle);
        fired
    }

    /// Receives an impulse during a cycle of parity `cycle`, into the slot of
    /// the next cycle.
    pub fn intake_synaptic_impulse(&mut self, cycle: ChargeCycle, impulse: i64)
        ensures
            final(self).internal_charge == old(self).internal_charge.with_intake(cycle, impulse as int),
            final(self).fire_tracker == old(self).fire_tracker,
            final(self).fire_threshold == old(self).fire_threshold,
            final(self).ema == old(self).ema,
            final(self).alpha == old(self).alpha,
    {
        self.internal_charge.incr_next_charge(cycle, impulse);
    }

    /// Whether the neuron fired on the cycle before one of parity `cycle`.
    pub fn fired_on_prev_cycle(&self, cycle: ChargeCycle) -> (r: bool)
        ensures
            r == self.fire_tracker.prev(cycle),
    {
        self.fire_tracker.fired_on_prev_cycle(cycle)
    }
}

/// The common neuron of the network: it receives impulses, fires when its
/// charge is strictly above its threshold, and grows and loses plastic
/// synapses toward nearby receivers.
pub struct PlasticNeuron {
    pub internal_charge: InternalCharge,
    pub fire_threshold: i64,
    pub fire_tracker: FireTracker,
    pub max_plastic_synapses: usize,
    pub plastic_synapses: Vec<PlasticSynapse>,
    pub static_synapses: Vec<StaticSynapse>,
    pub strength_template: SynapticStrength,
    pub synapse_type_threshold: u64,
    pub ema: u64,
    pub alpha: u64,
    pub loc: Loc,
}

impl PlasticNeuron {
    /// Well formed, with every synapse aimed at one of `n` receivers.
    pub open spec fn wf(&self, n: int) -> bool {
        &&& self.ema <= UNIT
        &&& 0 < self.alpha < UNIT
        &&& self.strength_template.wf()
        &&& plastic_ok(self.plastic_synapses@, n)
        &&& static_ok(self.static_synapses@, n)
        &&& self.plastic_synapses@.len() <= self.max_plastic_synapses
    }

    /// The parameters that a cycle leaves as they are.
    pub open spec fn same_setup(&self, o: &PlasticNeuron) -> bool {
        &&& self.fire_threshold == o.fire_threshold
        &&& self.max_plastic_synapses == o.max_plastic_synapses
        &&& self.strength_template == o.strength_template
        &&& self.synapse_type_threshold == o.synapse_type_threshold
        &&& self.alpha == o.alpha
        &&& self.loc == o.loc
    }

    pub fn new(
        fire_threshold: i64,
        max_plastic_synapses: usize,
        strength_template: SynapticStrength,
        synapse_type_threshold: u64,
        alpha: u64,
        loc: Loc,
    ) -> (r: PlasticNeuron)
        requires
            strength_template.wf(),
            0 < alpha < UNIT,
        ensures
            forall|n: int| r.wf(n),
            r.internal_charge == InternalCharge(0, 0),
            r.fire_threshold == fire_threshold,
            r.fire_tracker == FireTracker::initial(),
            r.plastic_synapses@.len() == 0,
            r.static_synapses@.len() == 0,
            r.ema == 0,
            r.max_plastic_synapses == max_plastic_synapses,
            r.strength_template == strength_template,
            r.synapse_type_threshold == synapse_type_threshold,
            r.alpha == alpha,
            r.loc == loc,
    {
        PlasticNeuron {
            internal_charge: InternalCharge::new(),
            fire_threshold,
            fire_tracker: FireTracker::new(),
            max_plastic_synapses,
            plastic_synapses: Vec::new(),
            static_synapses: Vec::new(),
            strength_template,
            synapse_type_threshold,
            ema: 0,
            alpha,
            loc,
        }
    }

    /// Adds a static synapse toward receiver `target`.
    pub fn add_static_synapse(&mut self, strength: u64, synaptic_type: SynapticType, target: usize)
        requires
            strength <= MAX_LEVEL,
        ensures
            final(self).static_synapses@ == old(self).static_synapses@.push(StaticSynapse { strength, synaptic_type, target }),
            final(self).plastic_synapses@ == old(self).plastic_synapses@,
            final(self).same_setup(old(self)),
            final(self).internal_charge == old(self).internal_charge,
            final(self).fire_tracker == old(self).fire_tracker,
            final(self).ema == old(self).ema,
    {
        self.static_synapses.push(StaticSynapse::new(strength, synaptic_type, target));
    }

    /// Whether the neuron fired two cycles before a cycle of parity `cycle`.
    pub fn fired_on_prev_prev(&self, cycle: ChargeCycle) -> (r: bool)
        ensures
            r == self.fire_tracker.prev_prev_of(cycle),
    {
        self.fire_tracker.fired_on_prev_prev(cycle)
    }

    /// Whether the neuron fired on the cycle before one of parity `cycle`.
    pub fn fired_on_prev_cycle(&self, cycle: ChargeCycle) -> (r: bool)
        ensures
            r == self.fire_tracker.prev(cycle),
    {
        self.fire_tracker.fired_on_prev_cycle(cycle)
    }

    /// Receives an impulse during a cycle of parity `cycle`, into the slot of
    /// the next cycle.
    pub fn intake_synaptic_impulse(&mut self, cycle: ChargeCycle, impulse: i64)
        ensures
            final(self).internal_charge == old(self).internal_charge.with_intake(cycle, impulse as int),
            final(self).plastic_synapses@ == old(self).plastic_synapses@,
            final(self).static_synapses@ == old(self).static_synapses@,
            final(self).same_setup(old(self)),
            final(self).fire_tracker == old(self).fire_tracker,
            final(self).ema == old(self).ema,
    {
        self.internal_charge.incr_next_charge(cycle, impulse);
    }

    /// The neuron's step in a cycle of parity `cycle`: learning on its plastic
    /// synapses, sprouting toward `sprout_target`, then the fire decision on
    /// the charge of the current slot, which is then emptied. Returns whether
    /// it fired; the caller delivers the impulses of its synapses.
    pub fn run_cycle(&mut self, cycle: ChargeCycle, target_fired: &Vec<bool>, sprout_target: Option<usize>) -> (fired: bool)
        requires
            old(self).wf(target_fired@.len() as int),
            sprout_target matches Some(t) ==> t < target_fired@.len(),
        ensures
            fired == (old(self).internal_charge.slot(cycle) > old(self).fire_threshold),
            final(self).plastic_synapses@ == sprouted(
                pruned(old(self).plastic_synapses@, old(self).fire_tracker.prev_prev_of(cycle), target_fired@),
                old(self).max_plastic_synapses as int,
                old(self).ema as int,
                old(self).synapse_type_threshold as int,
                old(self).strength_template,
                sprout_target,
            ),
            final(self).static_synapses@ == old(self).static_synapses@,
            final(self).internal_charge == old(self).internal_charge.with_reset(cycle),
            final(self).ema == ema_after(old(self).ema as int, old(self).alpha as int, fired),
            final(self).fire_tracker == old(self).fire_tracker.recorded(cycle, fired),
            final(self).same_setup(old(self)),
            final(self).wf(target_fired@.len() as int),
    {
        let fired_before = self.fired_on_prev_prev(cycle);
        prune_synapses(&mut self.plastic_synapses, fired_before, target_fired);
        form_plastic_synapse(
            &mut self.plastic_synapses,
            self.max_plastic_synapses,
            self.ema,
            self.synapse_type_threshold,
            self.strength_template,
            sprout_target,
        );
        let fired = self.internal_charge.get_charge(cycle) > self.fire_threshold;
        self.ema = update_ema(self.ema, self.alpha, fired);
        self.fire_tracker.set_tracker(cycle, fired);
        self.internal_charge.reset_charge(cycle);
        fired
    }
}

/// A receiving neuron of the network.
pub enum Receiver {
    Plastic(PlasticNeuron),
    Actuator(ActuatorNeuron),
}

impl Receiver {
    pub open spec fn kind(&self) -> RxNeuron {
        match self {
            Receiver::Plastic(_) => RxNeuron::Plastic,
            Receiver::Actuator(_) => RxNeuron::Actuator,
        }
    }

    pub open spec fn charge(&self) -> InternalCharge {
        match self {
            Receiver::Plastic(p) => p.internal_charge,
            Receiver::Actuator(a) => a.internal_charge,
        }
    }

    pub open spec fn tracker(&self) -> FireTracker {
        match self {
            Receiver::Plastic(p) => p.fire_tracker,
            Receiver::Actuator(a) => a.fire_tracker,
        }
    }

    pub open spec fn ema(&self) -> u64 {
        match self {
            Receiver::Plastic(p) => p.ema,
            Receiver::Actuator(a) => a.ema,
        }
    }

    pub open spec fn alpha(&self) -> u64 {
        match self {
            Receiver::Plastic(p) => p.alpha,
            Receiver::Actuator(a) => a.alpha,
        }
    }

    pub open spec fn threshold(&self) -> i64 {
        match self {
            Receiver::Plastic(p) => p.fire_threshold,
            Receiver::Actuator(a) => a.fire_threshold,
        }
    }

    /// The plastic synapses; an actuator neuron has none.
    pub open spec fn plastic(&self) -> Seq<PlasticSynapse> {
        match self {
            Receiver::Plastic(p) => p.plastic_synapses@,
            Receiver::Actuator(_) => seq![],
        }
    }

    /// The static synapses; an actuator neuron has none.
    pub open spec fn statics(&self) -> Seq<StaticSynapse> {
        match self {
            Receiver::Plastic(p) => p.static_synapses@,
            Receiver::Actuator(_) => seq![],
        }
    }

    pub open spec fn wf(&self, n: int) -> bool {
        match self {
            Receiver::Plastic(p) => p.wf(n),
            Receiver::Actuator(a) => a.wf(),
        }
    }

    /// Same kind, parameters and synapses.
    pub open spec fn same_setup(&self, o: &Receiver) -> bool {
        match (self, o) {
            (Receiver::Plastic(p), Receiver::Plastic(q)) => p.same_setup(q),
            (Receiver::Actuator(a), Receiver::Actuator(b)) => a.fire_threshold == b.fire_threshold && a.alpha == b.alpha,
            _ => false,
        }
    }

    /// The plastic synapses after the learning and sprouting steps of a cycle.
    pub open spec fn next_plastic(&self, cycle: ChargeCycle, target_fired: Seq<bool>, sprout_target: Option<usize>) -> Seq<PlasticSynapse> {
        match self {
            Receiver::Plastic(p) => sprouted(
                pruned(p.plastic_synapses@, p.fire_tracker.prev_prev_of(cycle), target_fired),
                p.max_plastic_synapses as int,
                p.ema as int,
                p.synapse_type_threshold as int,
                p.strength_template,
                sprout_target,
            ),
            Receiver::Actuator(_) => seq![],
        }
    }

    /// The charge in the slot of parity `cycle`.
    pub fn get_charge(&self, cycle: ChargeCycle) -> (r: i64)
        ensures
            r == self.charge().slot(cycle),
    {
        match self {
            Receiver::Plastic(p) => p.internal_charge.get_charge(cycle),
            Receiver::Actuator(a) => a.internal_charge.get_charge(cycle),
        }
    }

    /// The neuron's firing frequency estimate.
    pub fn read_ema_frequency(&self) -> (r: u64)
        ensures
            r == self.ema(),
    {
        match self {
            Receiver::Plastic(p) => p.ema,
            Receiver::Actuator(a) => a.ema,
        }
    }

    /// The impulses that the neuron sends when it fires.
    pub(crate) fn emissions(&self, n: Ghost<int>) -> (r: Vec<(usize, i64)>)
        requires
            self.wf(n@),
        ensures
            r@ == emitted(self.plastic(), self.statics()),
            forall|q: int| 0 <= q < r@.len() ==> (#[trigger] r@[q]).0 < n@,
    {
        match self {
            Receiver::Plastic(p) => emissions(&p.plastic_synapses, &p.static_synapses, n),
            Receiver::Actuator(_) => {
                let r: Vec<(usize, i64)> = Vec::new();
                assert(r@ =~= emitted(seq![], seq![]));
                r
            },
        }
    }

    /// The place of a plastic neuron; `None` for an actuator neuron.
    pub fn plastic_loc(&self) -> (r: Option<Loc>)
        ensures
            r is Some <==> self is Plastic,
            r matches Some(l) ==> l == self->Plastic_0.loc,
    {
        match self {
            Receiver::Plastic(p) => Some(p.loc),
            Receiver::Actuator(_) => None,
        }
    }

    /// Whether the neuron fired on the cycle before one of parity `cycle`.
    pub fn fired_on_prev_cycle(&self, cycle: ChargeCycle) -> (r: bool)
        ensures
            r == self.tracker().prev(cycle),
    {
        match self {
            Receiver::Plastic(p) => p.fired_on_prev_cycle(cycle),
            Receiver::Actuator(a) => a.fired_on_prev_cycle(cycle),
        }
    }

    /// Receives an impulse during a cycle of parity `cycle`.
    pub fn intake_synaptic_impulse(&mut self, cycle: ChargeCycle, impulse: i64)
        ensures
            final(self).charge() == old(self).charge().with_intake(cycle, impulse as int),
            final(self).same_setup(old(self)),
            final(self).tracker() == old(self).tracker(),
            final(self).ema() == old(self).ema(),
            final(self).plastic() == old(self).plastic(),
            final(self).statics() == old(self).statics(),
            forall|n: int| old(self).wf(n) ==> final(self).wf(n),
    {
        match self {
            Receiver::Plastic(p) => p.intake_synaptic_impulse(cycle, impulse),
            Receiver::Actuator(a) => a.intake_synaptic_impulse(cycle, impulse),
        }
    }

    /// The neuron's step in a cycle of parity `cycle`; see the steps of the
    /// two kinds. Returns whether it fired.
    pub fn run_cycle(&mut self, cycle: ChargeCycle, target_fired: &Vec<bool>, sprout_target: Option<usize>) -> (fired: bool)
        requires
            old(self).wf(target_fired@.len() as int),
            sprout_target matches Some(t) ==> t < target_fired@.len(),
        ensures
            fired == (old(self).charge().slot(cycle) > old(self).threshold()),
            final(self).plastic() == old(self).next_plastic(cycle, target_fired@, sprout_target),
            final(self).statics() == old(self).statics(),
            final(self).charge() == old(self).charge().with_reset(cycle),
            final(self).ema() == ema_after(old(self).ema() as int, old(self).alpha() as int, fired),
            final(self).tracker() == old(self).tracker().recorded(cycle, fired),
            final(self).same_setup(old(self)),
            final(self).wf(target_fired@.len() as int),
    {
        match self {
            Receiver::Plastic(p) => p.run_cycle(cycle, target_fired, sprout_target),
            Receiver::Actuator(a) => a.run_cycle(cycle),
        }
    }
}

} // verus!
