use vstd::prelude::*;
use crate::fixed::{UNIT, MAX_LEVEL};
use crate::neuron::{Receiver, SensoryNeuron};

verus! {

/// Pairs a named sensor with the sensory neuron (by index) that carries its
/// readings.
#[derive(Clone, Debug)]
pub struct SensoryInterface {
    pub name: String,
    pub sensory_neuron: usize,
}

impl SensoryInterface {
    pub fn new(name: String, sensory_neuron: usize) -> (r: SensoryInterface)
        ensures
            r.name == name,
            r.sensory_neuron == sensory_neuron,
    {
        SensoryInterface { name, sensory_neuron }
    }

    /// Hands the period encoded from its sensor's measurement to its neuron.
    pub fn run_cycle(&self, sensory: &mut Vec<SensoryNeuron>, period: u32)
        requires
            self.sensory_neuron < old(sensory)@.len(),
        ensures
            final(sensory)@.len() == old(sensory)@.len(),
            forall|j: int| 0 <= j < old(sensory)@.len() && j != self.sensory_neuron ==>
                #[trigger] final(sensory)@[j] == old(sensory)@[j],
            ({
                let a = final(sensory)@[self.sensory_neuron as int];
                let b = old(sensory)@[self.sensory_neuron as int];
                &&& a.period == period
                &&& a.plastic_synapses@ == b.plastic_synapses@
                &&& a.static_synapses@ == b.static_synapses@
                &&& a.fire_tracker == b.fire_tracker
                &&& a.ema == b.ema
                &&& a.max_plastic_synapses == b.max_plastic_synapses
                &&& a.strength_template == b.strength_template
                &&& a.synapse_type_threshold == b.synapse_type_threshold
                &&& a.alpha == b.alpha
                &&& a.loc == b.loc
            }),
    {
        sensory[self.sensory_neuron].set_period(period);
    }
}

/// Pairs a named actuator with the actuator neuron (by receiver index) whose
/// frequency drives it.
#[derive(Clone, Debug)]
pub struct ActuatorInterface {
    pub name: String,
    pub actuator_neuron: usize,
}

impl ActuatorInterface {
    pub fn new(name: String, actuator_neuron: usize) -> (r: ActuatorInterface)
        ensures
            r.name == name,
            r.actuator_neuron == actuator_neuron,
    {
        ActuatorInterface { name, actuator_neuron }
    }

    /// The control value for its actuator: its neuron's frequency estimate.
    pub fn run_cycle(&self, rx: &Vec<Receiver>) -> (r: u64)
        requires
            self.actuator_neuron < rx@.len(),
        ensures
            r == rx@[self.actuator_neuron as int].ema(),
    {
        rx[self.actuator_neuron].read_ema_frequency()
    }
}

/// The period given by the line through `(1, 1)` with intercept `y_int`
/// (both in fixed point), rounded to the nearest integer; 0 (silence) for a
/// reading of 0.
pub open spec fn linear_period(measurement: int, y_int: int) -> int {
    if measurement == 0 {
        0
    } else {
        (y_int * UNIT - (y_int - UNIT) * measurement + (UNIT * UNIT) / 2) / ((UNIT * UNIT) as int)
    }
}

/// The period `1 / measurement` (the reading in fixed point), rounded to the
/// nearest integer; 0 (silence) for a reading of 0.
pub open spec fn inverse_period(measurement: int) -> int {
    if measurement == 0 {
        0
    } else {
        (2 * UNIT + measurement) / (2 * measurement)
    }
}

/// Encodes a reading in `[0, UNIT]` as a firing period along a line: stronger
/// readings give shorter periods, and a full reading gives period 1.
pub fn linear_encoder(measurement: u64, y_int: u64) -> (r: u32)
    requires
        measurement <= UNIT,
        UNIT <= y_int <= MAX_LEVEL,
    ensures
        r as int == linear_period(measurement as int, y_int as int),
        measurement == UNIT ==> r == 1,
        measurement == 0 ==> r == 0,
{
    if measurement == 0 {
        return 0;
    }
    assert((y_int - UNIT) * measurement <= y_int * UNIT) by (nonlinear_arith)
        requires measurement <= UNIT, UNIT <= y_int;
    assert(y_int * UNIT <= MAX_LEVEL * UNIT) by (nonlinear_arith)
        requires y_int <= MAX_LEVEL;
    let num = y_int * UNIT - (y_int - UNIT) * measurement + (UNIT * UNIT) / 2;
    let p = num / (UNIT * UNIT);
    assert(p <= 2_000_000) by (nonlinear_arith)
        requires p as int == (num as int) / ((UNIT * UNIT) as int), num <= MAX_LEVEL * UNIT + (UNIT * UNIT) / 2;
    assert(measurement == UNIT ==> num == UNIT * UNIT + (UNIT * UNIT) / 2) by (nonlinear_arith)
        requires num == y_int * UNIT - (y_int - UNIT) * measurement + (UNIT * UNIT) / 2;
    p as u32
}

/// Encodes a reading in `[0, UNIT]` as the rounded inverse of the reading: a
/// full reading gives period 1.
pub fn inverse_encoder(measurement: u64) -> (r: u32)
    requires
        measurement <= UNIT,
    ensures
        r as int == inverse_period(measurement as int),
        measurement == UNIT ==> r == 1,
        measurement == 0 ==> r == 0,
{
    if measurement == 0 {
        return 0;
    }
    let p = (2 * UNIT + measurement) / (2 * measurement);
    assert(p <= 2 * UNIT + measurement) by (nonlinear_arith)
        requires p as int == ((2 * UNIT + measurement) as int) / ((2 * measurement) as int), measurement >= 1;
    p as u32
}

} // verus!
