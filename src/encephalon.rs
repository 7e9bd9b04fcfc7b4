use vstd::prelude::*;
use crate::fixed::{UNIT, MAX_LEVEL};
use crate::ecp_geometry::{BoxEcp, ConfigError, Loc, in_box, in_nearby, on_sensory_plane, rx_kind, rx_index};
use crate::neuron::{
    clamp_charge, emitted, emissions, sensory_fires, pruned, sprouted, ChargeCycle, RxNeuron, Receiver, SensoryNeuron, PlasticNeuron, ActuatorNeuron,
};
use crate::neuron_interfaces::{SensoryInterface, ActuatorInterface};
use crate::synapse::{SynapticType, SynapticStrength, StaticSynapse};

verus! {

/// A reflex: a static synapse of fixed strength from a named sensor's neuron
/// to a named actuator's neuron.
#[derive(Clone, Debug)]
pub struct Reflex {
    pub sensor_name: String,
    pub actuator_name: String,
    pub synapse_type: SynapticType,
    pub strength: u64,
}

impl Reflex {
    pub fn new(sensor_name: String, actuator_name: String, synapse_type: SynapticType, strength: u64) -> (r: Reflex)
        ensures
            r.sensor_name == sensor_name,
            r.actuator_name == actuator_name,
            r.synapse_type == synapse_type,
            r.strength == strength,
    {
        Reflex { sensor_name, actuator_name, synapse_type, strength }
    }
}

/// The whole network and its driver: the receivers in the order of the
/// geometry's enumeration, the sensory neurons, the interfaces that name
/// them, and the cycle counter.
pub struct Encephalon {
    pub cycle_count: u64,
    pub ecp_geometry: BoxEcp,
    pub rx_neurons: Vec<Receiver>,
    pub sensory_neurons: Vec<SensoryNeuron>,
    pub actuator_interfaces: Vec<ActuatorInterface>,
    pub sensory_interfaces: Vec<SensoryInterface>,
    pub reflexes: Vec<Reflex>,
}

/// The first receiver index of the far face of a box of side `l`.
pub open spec fn face_base(l: int) -> int {
    l * l * (l - 1)
}

proof fn lemma_kind_index(l: int, na: int, loc: Loc)
    requires
        0 < l,
        0 <= na <= l * l,
        in_box(l, loc),
    ensures
        (rx_kind(l, na, loc) == RxNeuron::Actuator) <==> (face_base(l) <= rx_index(l, loc) < face_base(l) + na),
{
    let (x, y, z) = (loc.x as int, loc.y as int, loc.z as int);
    assert(0 <= x + l * y <= l * l - 1) by (nonlinear_arith)
        requires 0 <= x < l, 0 <= y < l;
    assert(y * l == l * y) by (nonlinear_arith);
    if z == l - 1 {
        assert(l * l * z == face_base(l));
    } else {
        assert(l * l * z <= l * l * (l - 2)) by (nonlinear_arith)
            requires 0 <= z < l - 1, 0 < l;
        assert(l * l * (l - 2) + l * l == face_base(l)) by (nonlinear_arith);
    }
}

proof fn lemma_plane_last(l: int, loc: Loc)
    requires
        0 < l,
        on_sensory_plane(l, loc),
    ensures
        0 <= loc.x + l * loc.y < l * l,
        (loc.x + l * loc.y == l * l - 1) <==> (loc.x == l - 1 && loc.y == l - 1),
{
    let (x, y) = (loc.x as int, loc.y as int);
    assert(0 <= x + l * y <= l * l - 1) by (nonlinear_arith)
        requires 0 <= x < l, 0 <= y < l;
    assert(x + l * y == l * l - 1 ==> x == l - 1 && y == l - 1) by (nonlinear_arith)
        requires 0 <= x < l, 0 <= y < l;
    assert((l - 1) + l * (l - 1) == l * l - 1) by (nonlinear_arith);
}

/// `k` is the first position of `name` in `names`.
pub open spec fn is_first_named(names: Seq<Seq<char>>, name: Seq<char>, k: int) -> bool {
    &&& 0 <= k < names.len()
    &&& names[k] == name
    &&& forall|j: int| 0 <= j < k ==> names[j] != name
}

/// The static synapses that the reflexes give the sensory neuron `k`, in the
/// order of the reflexes: one for each reflex whose sensor name first names
/// neuron `k` and whose actuator name names an actuator, toward the first
/// actuator neuron of that name. Reflexes with an unknown name give nothing.
pub open spec fn reflex_synapses(
    reflexes: Seq<Reflex>,
    sensor_names: Seq<Seq<char>>,
    actuator_names: Seq<Seq<char>>,
    k: int,
    base: int,
) -> Seq<crate::synapse::StaticSynapse>
    decreases reflexes.len(),
{
    if reflexes.len() == 0 {
        seq![]
    } else {
        let rest = reflex_synapses(reflexes.drop_last(), sensor_names, actuator_names, k, base);
        let r = reflexes.last();
        if is_first_named(sensor_names, r.sensor_name@, k) && exists|j: int| is_first_named(actuator_names, r.actuator_name@, j) {
            let j = choose|j: int| is_first_named(actuator_names, r.actuator_name@, j);
            rest.push(crate::synapse::StaticSynapse {
                strength: r.strength,
                synaptic_type: r.synapse_type,
                target: (base + j) as usize,
            })
        } else {
            rest
        }
    }
}

pub open spec fn sensory_names(ifs: Seq<SensoryInterface>) -> Seq<Seq<char>> {
    ifs.map_values(|i: SensoryInterface| i.name@)
}

pub open spec fn actuator_names_of(ifs: Seq<ActuatorInterface>) -> Seq<Seq<char>> {
    ifs.map_values(|i: ActuatorInterface| i.name@)
}

fn find_sensory(ifs: &Vec<SensoryInterface>, name: &String) -> (r: Option<usize>)
    ensures
        r matches Some(k) ==> is_first_named(sensory_names(ifs@), name@, k as int),
        r is None ==> forall|k: int| !is_first_named(sensory_names(ifs@), name@, k),
{
    let mut i: usize = 0;
    while i < ifs.len()
        invariant
            i <= ifs@.len(),
            forall|j: int| 0 <= j < i ==> sensory_names(ifs@)[j] != name@,
        decreases ifs@.len() - i,
    {
        if ifs[i].name == *name {
            return Some(i);
        }
        i = i + 1;
    }
    None
}

fn find_actuator(ifs: &Vec<ActuatorInterface>, name: &String) -> (r: Option<usize>)
    ensures
        r matches Some(k) ==> is_first_named(actuator_names_of(ifs@), name@, k as int),
        r is None ==> forall|k: int| !is_first_named(actuator_names_of(ifs@), name@, k),
{
    let mut i: usize = 0;
    while i < ifs.len()
        invariant
            i <= ifs@.len(),
            forall|j: int| 0 <= j < i ==> actuator_names_of(ifs@)[j] != name@,
        decreases ifs@.len() - i,
    {
        if ifs[i].name == *name {
            return Some(i);
        }
        i = i + 1;
    }
    None
}

proof fn lemma_first_unique(names: Seq<Seq<char>>, name: Seq<char>, a: int, b: int)
    requires
        is_first_named(names, name, a),
        is_first_named(names, name, b),
    ensures
        a == b,
{
}

/// Installs the reflexes as static synapses from sensory neurons to actuator
/// neurons.
fn form_reflex_synapses(
    sensory: &mut Vec<SensoryNeuron>,
    sensory_interfaces: &Vec<SensoryInterface>,
    actuator_interfaces: &Vec<ActuatorInterface>,
    reflexes: &Vec<Reflex>,
    base: usize,
    n: usize,
)
    requires
        old(sensory)@.len() == sensory_interfaces@.len(),
        forall|k: int| 0 <= k < sensory_interfaces@.len() ==> (#[trigger] sensory_interfaces@[k]).sensory_neuron == k,
        forall|k: int| 0 <= k < actuator_interfaces@.len() ==> (#[trigger] actuator_interfaces@[k]).actuator_neuron == base + k,
        base + actuator_interfaces@.len() <= n,
        forall|t: int| 0 <= t < reflexes@.len() ==> (#[trigger] reflexes@[t]).strength <= MAX_LEVEL,
        forall|k: int| 0 <= k < old(sensory)@.len() ==> (#[trigger] old(sensory)@[k]).wf(n as int),
        forall|k: int| 0 <= k < old(sensory)@.len() ==> (#[trigger] old(sensory)@[k]).static_synapses@.len() == 0,
    ensures
        final(sensory)@.len() == old(sensory)@.len(),
        forall|k: int| 0 <= k < final(sensory)@.len() ==> {
            let a = #[trigger] final(sensory)@[k];
            let b = old(sensory)@[k];
            &&& a.wf(n as int)
            &&& a.static_synapses@ == reflex_synapses(
                reflexes@,
                sensory_names(sensory_interfaces@),
                actuator_names_of(actuator_interfaces@),
                k,
                base as int,
            )
            &&& a.plastic_synapses@ == b.plastic_synapses@
            &&& a.same_setup(&b)
            &&& a.fire_tracker == b.fire_tracker
            &&& a.ema == b.ema
        },
{
    let ghost sn = sensory_names(sensory_interfaces@);
    let ghost an = actuator_names_of(actuator_interfaces@);
    let ghost s0 = sensory@;
    let mut t: usize = 0;
    while t < reflexes.len()
        invariant
            t <= reflexes@.len(),
            sensory@.len() == s0.len(),
            s0.len() == sensory_interfaces@.len(),
            sn == sensory_names(sensory_interfaces@),
            an == actuator_names_of(actuator_interfaces@),
            forall|k: int| 0 <= k < sensory_interfaces@.len() ==> (#[trigger] sensory_interfaces@[k]).sensory_neuron == k,
            forall|k: int| 0 <= k < actuator_interfaces@.len() ==> (#[trigger] actuator_interfaces@[k]).actuator_neuron == base + k,
            base + actuator_interfaces@.len() <= n,
            forall|u: int| 0 <= u < reflexes@.len() ==> (#[trigger] reflexes@[u]).strength <= MAX_LEVEL,
            forall|k: int| 0 <= k < s0.len() ==> {
                let a = #[trigger] sensory@[k];
                let b = s0[k];
                &&& a.wf(n as int)
                &&& a.static_synapses@ == reflex_synapses(reflexes@.subrange(0, t as int), sn, an, k, base as int)
                &&& a.plastic_synapses@ == b.plastic_synapses@
                &&& a.same_setup(&b)
                &&& a.fire_tracker == b.fire_tracker
                &&& a.ema == b.ema
            },
        decreases reflexes@.len() - t,
    {
        let reflex = &reflexes[t];
        let ghost pre = sensory@;
        let ghost rs = reflexes@.subrange(0, t + 1);
        assert(rs.drop_last() =~= reflexes@.subrange(0, t as int));
        assert(rs.last() == reflexes@[t as int]);
        let found_s = find_sensory(sensory_interfaces, &reflex.sensor_name);
        let found_a = find_actuator(actuator_interfaces, &reflex.actuator_name);
        match (found_s, found_a) {
            (Some(k), Some(j)) => {
                let target = actuator_interfaces[j].actuator_neuron;
                proof {
                    assert(an.len() == actuator_interfaces@.len());
                    assert(sn.len() == sensory_interfaces@.len());
                    assert(an[j as int] == actuator_interfaces@[j as int].name@);
                    let c = choose|c: int| is_first_named(an, reflex.actuator_name@, c);
                    lemma_first_unique(an, reflex.actuator_name@, c, j as int);
                    assert forall|m: int| 0 <= m < s0.len() && m != k implies
                        !is_first_named(sn, reflex.sensor_name@, m) by {
                        if is_first_named(sn, reflex.sensor_name@, m) {
                            lemma_first_unique(sn, reflex.sensor_name@, m, k as int);
                        }
                    }
                }
                sensory[k].add_static_synapse(reflex.strength, reflex.synapse_type, target);
                proof {
                    assert forall|m: int| 0 <= m < s0.len() implies {
                        let a = #[trigger] sensory@[m];
                        let b = s0[m];
                        &&& a.wf(n as int)
                        &&& a.static_synapses@ == reflex_synapses(rs, sn, an, m, base as int)
                        &&& a.plastic_synapses@ == b.plastic_synapses@
                        &&& a.same_setup(&b)
                        &&& a.fire_tracker == b.fire_tracker
                        &&& a.ema == b.ema
                    } by {
                        if m == k {
                            let a = sensory@[m];
                            assert(crate::neuron::static_ok(a.static_synapses@, n as int)) by {
                                assert forall|q: int| 0 <= q < a.static_synapses@.len() implies
                                    (#[trigger] a.static_synapses@[q]).wf() && a.static_synapses@[q].target < n by {
                                    if q < a.static_synapses@.len() - 1 {
                                        assert(a.static_synapses@[q] == pre[m].static_synapses@[q]);
                                    }
                                }
                            }
                        }
                    }
                }
            },
            _ => {
                proof {
                    assert forall|m: int| 0 <= m < s0.len() implies
                        reflex_synapses(rs, sn, an, m, base as int) == reflex_synapses(reflexes@.subrange(0, t as int), sn, an, m, base as int) by {
                        if found_s is Some && is_first_named(sn, reflex.sensor_name@, m) {
                            assert(!exists|j: int| is_first_named(an, reflex.actuator_name@, j));
                        }
                    }
                }
            },
        }
        t = t + 1;
    }
    proof {
        assert(reflexes@.subrange(0, reflexes@.len() as int) =~= reflexes@);
    }
}

/// The charge of receiver `r` after the impulses `sent` were added to
/// `start`, one by one in their order, each sum saturating at the bounds of
/// `i64`.
pub open spec fn charge_after(start: int, sent: Seq<(usize, i64)>, r: int) -> int
    decreases sent.len(),
{
    if sent.len() == 0 {
        start
    } else {
        let prev = charge_after(start, sent.drop_last(), r);
        if sent.last().0 == r { clamp_charge(prev + sent.last().1) } else { prev }
    }
}

proof fn lemma_charge_after_concat(start: int, a: Seq<(usize, i64)>, b: Seq<(usize, i64)>, r: int)
    ensures
        charge_after(start, a + b, r) == charge_after(charge_after(start, a, r), b, r),
    decreases b.len(),
{
    if b.len() == 0 {
        assert(a + b =~= a);
    } else {
        assert((a + b).drop_last() =~= a + b.drop_last());
        lemma_charge_after_concat(start, a, b.drop_last(), r);
    }
}

/// The exact sum of the impulses of `sent` aimed at receiver `r`.
pub open spec fn sent_total(sent: Seq<(usize, i64)>, r: int) -> int
    decreases sent.len(),
{
    if sent.len() == 0 {
        0
    } else {
        sent_total(sent.drop_last(), r) + if sent.last().0 == r { sent.last().1 as int } else { 0 }
    }
}

/// The sum of the magnitudes of the impulses of `sent` aimed at receiver `r`.
pub open spec fn sent_magnitude(sent: Seq<(usize, i64)>, r: int) -> int
    decreases sent.len(),
{
    if sent.len() == 0 {
        0
    } else {
        let v = sent.last().1 as int;
        sent_magnitude(sent.drop_last(), r) + if sent.last().0 == r { if v < 0 { -v } else { v } } else { 0 }
    }
}

proof fn lemma_total_within_magnitude(s: Seq<(usize, i64)>, r: int)
    ensures
        0 <= sent_magnitude(s, r),
        -sent_magnitude(s, r) <= sent_total(s, r) <= sent_magnitude(s, r),
        s.len() > 0 ==> sent_magnitude(s.drop_last(), r) <= sent_magnitude(s, r),
    decreases s.len(),
{
    if s.len() > 0 {
        lemma_total_within_magnitude(s.drop_last(), r);
    }
}

proof fn lemma_exact_when_small(s: Seq<(usize, i64)>, r: int)
    requires
        sent_magnitude(s, r) <= i64::MAX,
    ensures
        charge_after(0, s, r) == sent_total(s, r),
    decreases s.len(),
{
    lemma_total_within_magnitude(s, r);
    if s.len() > 0 {
        lemma_exact_when_small(s.drop_last(), r);
    }
}

proof fn lemma_remove_one(s: Seq<(usize, i64)>, j: int, r: int)
    requires
        0 <= j < s.len(),
    ensures
        sent_total(s, r) == sent_total(s.remove(j), r) + if s[j].0 == r { s[j].1 as int } else { 0 },
        sent_magnitude(s, r) == sent_magnitude(s.remove(j), r)
            + if s[j].0 == r { if s[j].1 < 0 { -(s[j].1 as int) } else { s[j].1 as int } } else { 0 },
    decreases s.len(),
{
    if j == s.len() - 1 {
        assert(s.remove(j) =~= s.drop_last());
    } else {
        assert(s.remove(j).drop_last() =~= s.drop_last().remove(j));
        assert(s.remove(j).last() == s.last());
        lemma_remove_one(s.drop_last(), j, r);
    }
}

proof fn lemma_total_permutation(a: Seq<(usize, i64)>, b: Seq<(usize, i64)>, r: int)
    requires
        a.to_multiset() == b.to_multiset(),
    ensures
        sent_total(a, r) == sent_total(b, r),
        sent_magnitude(a, r) == sent_magnitude(b, r),
    decreases a.len(),
{
    broadcast use vstd::seq_lib::group_to_multiset_ensures;
    if a.len() == 0 {
        assert(b.to_multiset().len() == 0);
        assert(b =~= seq![]);
    } else {
        let x = a.last();
        let rest = a.drop_last();
        assert(a =~= rest.push(x));
        assert(a.to_multiset() =~= rest.to_multiset().insert(x));
        assert(b.to_multiset().count(x) > 0);
        assert(b.contains(x));
        let j = choose|j: int| 0 <= j < b.len() && b[j] == x;
        let b2 = b.remove(j);
        assert(b2.to_multiset() =~= rest.to_multiset());
        lemma_total_permutation(rest, b2, r);
        lemma_remove_one(b, j, r);
    }
}

/// Whatever the order in which the impulses of a cycle reach a receiver, its
/// next-cycle charge is the same, as long as their magnitudes add up within
/// the range of `i64`.
pub proof fn lemma_delivery_order_independent(a: Seq<(usize, i64)>, b: Seq<(usize, i64)>, r: int)
    requires
        a.to_multiset() == b.to_multiset(),
        sent_magnitude(a, r) <= i64::MAX,
    ensures
        charge_after(0, a, r) == charge_after(0, b, r),
        charge_after(0, a, r) == sent_total(a, r),
{
    lemma_total_permutation(a, b, r);
    lemma_exact_when_small(a, r);
    lemma_exact_when_small(b, r);
}

/// The exact sum of the impulses of the static synapses aimed at receiver `r`.
pub open spec fn static_total(statics: Seq<StaticSynapse>, r: int) -> int
    decreases statics.len(),
{
    if statics.len() == 0 {
        0
    } else {
        static_total(statics.drop_last(), r) + if statics.last().target == r { statics.last().impulse() } else { 0 }
    }
}

proof fn lemma_static_sums(statics: Seq<StaticSynapse>, r: int)
    requires
        forall|k: int| 0 <= k < statics.len() ==> (#[trigger] statics[k]).wf(),
    ensures
        sent_magnitude(emitted(seq![], statics), r) <= statics.len() * MAX_LEVEL,
        sent_total(emitted(seq![], statics), r) == static_total(statics, r),
    decreases statics.len(),
{
    let e = emitted(seq![], statics);
    if statics.len() > 0 {
        let rest = statics.drop_last();
        assert(e.drop_last() =~= emitted(seq![], rest));
        let x = statics.last();
        assert(x.wf());
        assert(e.last() == (x.target, x.impulse() as i64));
        assert(-(MAX_LEVEL as int) <= x.impulse() <= MAX_LEVEL);
        assert forall|k: int| 0 <= k < rest.len() implies (#[trigger] rest[k]).wf() by {
            assert(rest[k] == statics[k]);
        }
        lemma_static_sums(rest, r);
        assert((statics.len() - 1) * MAX_LEVEL + MAX_LEVEL == statics.len() * MAX_LEVEL) by (nonlinear_arith);
    }
}

/// A neuron without plastic synapses passes through its static synapses
/// (its reflexes) exactly: when it fires, the charge that a receiver gets is
/// the sum of `sign(type) * strength` over the static synapses aimed at it,
/// and nothing for any other receiver.
pub proof fn lemma_reflex_propagation(statics: Seq<StaticSynapse>, r: int)
    requires
        forall|k: int| 0 <= k < statics.len() ==> (#[trigger] statics[k]).wf(),
        statics.len() <= 9_000_000,
    ensures
        charge_after(0, emitted(seq![], statics), r) == static_total(statics, r),
        (forall|k: int| 0 <= k < statics.len() ==> (#[trigger] statics[k]).target != r)
            ==> charge_after(0, emitted(seq![], statics), r) == 0,
{
    lemma_static_sums(statics, r);
    assert(statics.len() * MAX_LEVEL <= 9_000_000 * MAX_LEVEL) by (nonlinear_arith)
        requires statics.len() <= 9_000_000;
    lemma_exact_when_small(emitted(seq![], statics), r);
    lemma_no_target_total(statics, r);
}

proof fn lemma_no_target_total(statics: Seq<StaticSynapse>, r: int)
    ensures
        (forall|k: int| 0 <= k < statics.len() ==> (#[trigger] statics[k]).target != r) ==> static_total(statics, r) == 0,
    decreases statics.len(),
{
    if statics.len() > 0 {
        lemma_no_target_total(statics.drop_last(), r);
        if forall|k: int| 0 <= k < statics.len() ==> (#[trigger] statics[k]).target != r {
            assert forall|k: int| 0 <= k < statics.drop_last().len() implies (#[trigger] statics.drop_last()[k]).target != r by {
                assert(statics.drop_last()[k] == statics[k]);
            }
            assert(statics.last() == statics[statics.len() - 1]);
        }
    }
}

proof fn lemma_sensory_sent_single(s: Seq<SensoryNeuron>, count: int, k: int, m: int)
    requires
        0 <= k < s.len(),
        0 <= m <= s.len(),
        sensory_fires(s[k].period as int, count),
        forall|j: int| 0 <= j < s.len() && j != k ==> !sensory_fires((#[trigger] s[j]).period as int, count),
    ensures
        sensory_sent(s, count, m) == if m > k {
            emitted(s[k].plastic_synapses@, s[k].static_synapses@)
        } else {
            seq![]
        },
    decreases m,
{
    if m > 0 {
        lemma_sensory_sent_single(s, count, k, m - 1);
        if m - 1 == k {
            assert(seq![] + emitted(s[k].plastic_synapses@, s[k].static_synapses@)
                =~= emitted(s[k].plastic_synapses@, s[k].static_synapses@));
        }
    }
}

proof fn lemma_rx_sent_silent(before: Seq<Receiver>, after: Seq<Receiver>, cycle: ChargeCycle, i: int)
    requires
        0 <= i <= before.len(),
        forall|j: int| 0 <= j < before.len() ==>
            !((#[trigger] before[j]).charge().slot(cycle) > before[j].threshold()),
    ensures
        rx_sent(before, after, cycle, i) == Seq::<(usize, i64)>::empty(),
    decreases i,
{
    if i > 0 {
        lemma_rx_sent_silent(before, after, cycle, i - 1);
    }
}

/// In a cycle where one sensory neuron fires, it has no plastic synapse, and
/// no receiver fires, what each receiver gets for the next cycle is exactly
/// the sum of `sign(type) * strength` of that neuron's reflexes aimed at it,
/// and nothing else.
pub proof fn lemma_single_fire_propagation(
    s: Seq<SensoryNeuron>,
    count: int,
    before: Seq<Receiver>,
    after: Seq<Receiver>,
    cycle: ChargeCycle,
    k: int,
    r: int,
)
    requires
        0 <= k < s.len(),
        sensory_fires(s[k].period as int, count),
        forall|j: int| 0 <= j < s.len() && j != k ==> !sensory_fires((#[trigger] s[j]).period as int, count),
        forall|j: int| 0 <= j < before.len() ==>
            !((#[trigger] before[j]).charge().slot(cycle) > before[j].threshold()),
        s[k].plastic_synapses@.len() == 0,
        forall|q: int| 0 <= q < s[k].static_synapses@.len() ==> (#[trigger] s[k].static_synapses@[q]).wf(),
        s[k].static_synapses@.len() <= 9_000_000,
    ensures
        charge_after(
            0,
            sensory_sent(s, count, s.len() as int) + rx_sent(before, after, cycle, before.len() as int),
            r,
        ) == static_total(s[k].static_synapses@, r),
{
    lemma_sensory_sent_single(s, count, k, s.len() as int);
    lemma_rx_sent_silent(before, after, cycle, before.len() as int);
    let e = emitted(s[k].plastic_synapses@, s[k].static_synapses@);
    assert(s[k].plastic_synapses@ =~= seq![]);
    assert(e + Seq::<(usize, i64)>::empty() =~= e);
    lemma_reflex_propagation(s[k].static_synapses@, r);
}

/// Adds each impulse of `sent` to the next-cycle slot of its target.
fn deliver(rx: &mut Vec<Receiver>, cycle: ChargeCycle, sent: &Vec<(usize, i64)>)
    requires
        forall|q: int| 0 <= q < sent@.len() ==> (#[trigger] sent@[q]).0 < old(rx)@.len(),
    ensures
        final(rx)@.len() == old(rx)@.len(),
        forall|i: int| 0 <= i < old(rx)@.len() ==> {
            let a = #[trigger] final(rx)@[i];
            let b = old(rx)@[i];
            &&& a.charge().slot(cycle.next()) == charge_after(b.charge().slot(cycle.next()) as int, sent@, i)
            &&& a.charge().slot(cycle) == b.charge().slot(cycle)
            &&& a.same_setup(&b)
            &&& a.tracker() == b.tracker()
            &&& a.ema() == b.ema()
            &&& a.plastic() == b.plastic()
            &&& a.statics() == b.statics()
            &&& forall|n: int| b.wf(n) ==> a.wf(n)
        },
{
    let ghost r0 = rx@;
    let mut q: usize = 0;
    while q < sent.len()
        invariant
            q <= sent@.len(),
            rx@.len() == r0.len(),
            forall|u: int| 0 <= u < sent@.len() ==> (#[trigger] sent@[u]).0 < r0.len(),
            forall|i: int| 0 <= i < r0.len() ==> {
                let a = #[trigger] rx@[i];
                let b = r0[i];
                &&& a.charge().slot(cycle.next()) == charge_after(b.charge().slot(cycle.next()) as int, sent@.subrange(0, q as int), i)
                &&& a.charge().slot(cycle) == b.charge().slot(cycle)
                &&& a.same_setup(&b)
                &&& a.tracker() == b.tracker()
                &&& a.ema() == b.ema()
                &&& a.plastic() == b.plastic()
                &&& a.statics() == b.statics()
                &&& forall|n: int| b.wf(n) ==> a.wf(n)
            },
        decreases sent@.len() - q,
    {
        let (t, impulse) = sent[q];
        let ghost pre = rx@;
        rx[t].intake_synaptic_impulse(cycle, impulse);
        proof {
            let s1 = sent@.subrange(0, q + 1);
            assert(s1.drop_last() =~= sent@.subrange(0, q as int));
            assert forall|i: int| 0 <= i < r0.len() implies {
                let a = #[trigger] rx@[i];
                let b = r0[i];
                &&& a.charge().slot(cycle.next()) == charge_after(b.charge().slot(cycle.next()) as int, s1, i)
                &&& a.charge().slot(cycle) == b.charge().slot(cycle)
                &&& a.same_setup(&b)
                &&& a.tracker() == b.tracker()
                &&& a.ema() == b.ema()
                &&& a.plastic() == b.plastic()
                &&& a.statics() == b.statics()
                &&& forall|n: int| b.wf(n) ==> a.wf(n)
            } by {
                if i == t {
                    let b = r0[i];
                    match cycle {
                        ChargeCycle::Even => {},
                        ChargeCycle::Odd => {},
                    }
                    match (rx@[i], pre[i], b) {
                        (Receiver::Plastic(x), Receiver::Plastic(y), Receiver::Plastic(z)) => {},
                        (Receiver::Actuator(x), Receiver::Actuator(y), Receiver::Actuator(z)) => {},
                        _ => {},
                    }
                }
            }
        }
        q = q + 1;
    }
    assert(sent@.subrange(0, sent@.len() as int) =~= sent@);
}

/// What the sensory neurons `0..k` send in a cycle of count `count`, in their
/// order: the emissions of each one that fires.
pub open spec fn sensory_sent(s: Seq<SensoryNeuron>, count: int, k: int) -> Seq<(usize, i64)>
    decreases k,
{
    if k <= 0 {
        seq![]
    } else {
        let prev = sensory_sent(s, count, k - 1);
        let x = s[k - 1];
        if sensory_fires(x.period as int, count) {
            prev + emitted(x.plastic_synapses@, x.static_synapses@)
        } else {
            prev
        }
    }
}

/// What the receivers `0..i` send in a cycle of parity `cycle`, in their
/// order: a receiver fires when its charge before the cycle was strictly
/// above its threshold, and sends through its synapses after the cycle's
/// learning and sprouting.
pub open spec fn rx_sent(before: Seq<Receiver>, after: Seq<Receiver>, cycle: ChargeCycle, i: int) -> Seq<(usize, i64)>
    decreases i,
{
    if i <= 0 {
        seq![]
    } else {
        let prev = rx_sent(before, after, cycle, i - 1);
        if before[i - 1].charge().slot(cycle) > before[i - 1].threshold() {
            prev + emitted(after[i - 1].plastic(), after[i - 1].statics())
        } else {
            prev
        }
    }
}

proof fn lemma_sensory_sent_prefix(a: Seq<SensoryNeuron>, b: Seq<SensoryNeuron>, count: int, k: int)
    requires
        0 <= k <= a.len(),
        k <= b.len(),
        forall|j: int| 0 <= j < k ==> a[j] == b[j],
    ensures
        sensory_sent(a, count, k) == sensory_sent(b, count, k),
    decreases k,
{
    if k > 0 {
        lemma_sensory_sent_prefix(a, b, count, k - 1);
    }
}

proof fn lemma_rx_sent_prefix(before: Seq<Receiver>, a: Seq<Receiver>, b: Seq<Receiver>, cycle: ChargeCycle, i: int)
    requires
        0 <= i <= a.len(),
        i <= b.len(),
        forall|j: int| 0 <= j < i ==> (#[trigger] a[j]).plastic() == b[j].plastic() && a[j].statics() == b[j].statics(),
    ensures
        rx_sent(before, a, cycle, i) == rx_sent(before, b, cycle, i),
    decreases i,
{
    if i > 0 {
        lemma_rx_sent_prefix(before, a, b, cycle, i - 1);
    }
}

/// `t` names the receiver at a cell of the nearby cube of `loc`.
pub open spec fn near_target(g: BoxEcp, loc: Loc, t: Option<usize>) -> bool {
    let l = g.side_length as int;
    let n = g.nearby_side_length as int;
    exists|d: Loc| {
        &&& in_box(l, d)
        &&& in_nearby(d.x as int, loc.x as int, n, l)
        &&& in_nearby(d.y as int, loc.y as int, n, l)
        &&& in_nearby(d.z as int, loc.z as int, n, l)
        &&& t == Some(#[trigger] g.index_of(d) as usize)
    }
}

/// The sprout target that a receiver may get in a cycle: a nearby receiver
/// for a plastic neuron, none for an actuator neuron.
pub open spec fn rx_sprout_ok(g: BoxEcp, r: Receiver, t: Option<usize>) -> bool {
    match r {
        Receiver::Plastic(p) => near_target(g, p.loc, t),
        Receiver::Actuator(_) => t is None,
    }
}

/// Draws a random receiver near `loc`.
fn draw_target(g: &BoxEcp, loc: Loc) -> (r: usize)
    requires
        g.wf(),
        -1 <= loc.x < g.side_length,
        -1 <= loc.y < g.side_length,
        -1 <= loc.z < g.side_length,
    ensures
        near_target(*g, loc, Some(r)),
        r < g.num_plastic,
{
    let d = g.local_random_loc(loc);
    let t = g.loc_index(d);
    assert(Some(g.index_of(d) as usize) == Some(t));
    t
}

/// The sensory neuron `f` is `o` after its step in cycle `count`, with the
/// fire decision `fired`, given the receivers' previous fires `tf`.
pub open spec fn sensory_stepped(g: BoxEcp, o: SensoryNeuron, f: SensoryNeuron, count: int, tf: Seq<bool>) -> bool {
    let c = ChargeCycle::of_count(count);
    let fired = sensory_fires(o.period as int, count);
    &&& f.static_synapses@ == o.static_synapses@
    &&& f.ema == crate::neuron::ema_after(o.ema as int, o.alpha as int, fired)
    &&& f.fire_tracker == o.fire_tracker.recorded(c, fired)
    &&& f.same_setup(&o)
    &&& exists|t: Option<usize>| #[trigger] near_target(g, o.loc, t) && f.plastic_synapses@ == sprouted(
        pruned(o.plastic_synapses@, o.fire_tracker.prev_prev_of(c), tf),
        o.max_plastic_synapses as int,
        o.ema as int,
        o.synapse_type_threshold as int,
        o.strength_template,
        t,
    )
}

/// The receiver `a` equals `b` but for the next-cycle slot of its charge,
/// which is `b`'s with `sent` added.
pub open spec fn rx_received(a: Receiver, b: Receiver, cycle: ChargeCycle, sent: Seq<(usize, i64)>, i: int, n: int) -> bool {
    &&& a.charge().slot(cycle.next()) == charge_after(b.charge().slot(cycle.next()) as int, sent, i)
    &&& a.charge().slot(cycle) == b.charge().slot(cycle)
    &&& a.same_setup(&b)
    &&& a.tracker() == b.tracker()
    &&& a.ema() == b.ema()
    &&& a.plastic() == b.plastic()
    &&& a.statics() == b.statics()
    &&& a.wf(n)
}

/// Step (4) of a cycle: every sensory neuron takes its step, and the
/// impulses of those that fire are delivered.
fn step_sensory_all(sensory: &mut Vec<SensoryNeuron>, rx: &mut Vec<Receiver>, g: &BoxEcp, count: u64, tf: &Vec<bool>)
    requires
        g.wf(),
        old(rx)@.len() == g.num_plastic,
        tf@.len() == old(rx)@.len(),
        forall|i: int| 0 <= i < old(rx)@.len() ==> (#[trigger] old(rx)@[i]).wf(old(rx)@.len() as int),
        forall|k: int| 0 <= k < old(sensory)@.len() ==> (#[trigger] old(sensory)@[k]).wf(old(rx)@.len() as int),
        forall|k: int| 0 <= k < old(sensory)@.len() ==> on_sensory_plane(g.side_length as int, (#[trigger] old(sensory)@[k]).loc),
    ensures
        final(sensory)@.len() == old(sensory)@.len(),
        final(rx)@.len() == old(rx)@.len(),
        forall|k: int| 0 <= k < old(sensory)@.len() ==> {
            &&& sensory_stepped(*g, old(sensory)@[k], #[trigger] final(sensory)@[k], count as int, tf@)
            &&& final(sensory)@[k].wf(old(rx)@.len() as int)
        },
        forall|i: int| 0 <= i < old(rx)@.len() ==> rx_received(
            #[trigger] final(rx)@[i],
            old(rx)@[i],
            ChargeCycle::of_count(count as int),
            sensory_sent(final(sensory)@, count as int, old(sensory)@.len() as int),
            i,
            old(rx)@.len() as int,
        ),
{
    let ghost s0 = sensory@;
    let ghost r0 = rx@;
    let ghost n = rx@.len() as int;
    let cycle = ChargeCycle::from_count(count);
    let mut k: usize = 0;
    while k < sensory.len()
        invariant
            g.wf(),
            n == g.num_plastic,
            n == r0.len(),
            cycle == ChargeCycle::of_count(count as int),
            k <= s0.len(),
            sensory@.len() == s0.len(),
            rx@.len() == n,
            tf@.len() == n,
            forall|i: int| 0 <= i < n ==> (#[trigger] r0[i]).wf(n),
            forall|j: int| 0 <= j < s0.len() ==> (#[trigger] s0[j]).wf(n),
            forall|j: int| 0 <= j < s0.len() ==> on_sensory_plane(g.side_length as int, (#[trigger] s0[j]).loc),
            forall|j: int| k <= j < s0.len() ==> #[trigger] sensory@[j] == s0[j],
            forall|j: int| 0 <= j < k ==> {
                &&& sensory_stepped(*g, s0[j], #[trigger] sensory@[j], count as int, tf@)
                &&& sensory@[j].wf(n)
            },
            forall|i: int| 0 <= i < n ==> rx_received(#[trigger] rx@[i], r0[i], cycle, sensory_sent(sensory@, count as int, k as int), i, n),
        decreases s0.len() - k,
    {
        let loc = sensory[k].loc;
        assert(s0[k as int].loc == loc);
        let t = draw_target(g, loc);
        let ghost pre = sensory@;
        let fired = sensory[k].run_cycle(count, tf, Some(t));
        proof {
            lemma_sensory_sent_prefix(sensory@, pre, count as int, k as int);
            assert(near_target(*g, s0[k as int].loc, Some(t)));
        }
        if fired {
            let em = emissions(&sensory[k].plastic_synapses, &sensory[k].static_synapses, Ghost(n));
            deliver(rx, cycle, &em);
            proof {
                assert forall|i: int| 0 <= i < n implies rx_received(#[trigger] rx@[i], r0[i], cycle, sensory_sent(sensory@, count as int, k + 1), i, n) by {
                    lemma_charge_after_concat(r0[i].charge().slot(cycle.next()) as int, sensory_sent(sensory@, count as int, k as int), em@, i);
                }
            }
        } else {
            proof {
                assert forall|i: int| 0 <= i < n implies rx_received(#[trigger] rx@[i], r0[i], cycle, sensory_sent(sensory@, count as int, k + 1), i, n) by {}
            }
        }
        k = k + 1;
    }
}

/// The receiver `f` is `o` after its step in a cycle of parity `cycle`,
/// given the receivers' previous fires `tf`; its next-cycle slot is left
/// aside.
pub open spec fn rx_stepped(g: BoxEcp, o: Receiver, f: Receiver, cycle: ChargeCycle, tf: Seq<bool>) -> bool {
    let fired = o.charge().slot(cycle) > o.threshold();
    &&& f.charge().slot(cycle) == 0
    &&& f.tracker() == o.tracker().recorded(cycle, fired)
    &&& f.ema() == crate::neuron::ema_after(o.ema() as int, o.alpha() as int, fired)
    &&& f.statics() == o.statics()
    &&& f.same_setup(&o)
    &&& exists|t: Option<usize>| #[trigger] rx_sprout_ok(g, o, t) && f.plastic() == o.next_plastic(cycle, tf, t)
}

/// Step (5) of a cycle: every receiver takes its step, and the impulses of
/// those that fire are delivered.
fn step_rx_all(rx: &mut Vec<Receiver>, g: &BoxEcp, cycle: ChargeCycle, tf: &Vec<bool>)
    requires
        g.wf(),
        old(rx)@.len() == g.num_plastic,
        tf@.len() == old(rx)@.len(),
        forall|i: int| 0 <= i < old(rx)@.len() ==> (#[trigger] old(rx)@[i]).wf(old(rx)@.len() as int),
        forall|i: int| 0 <= i < old(rx)@.len() && (#[trigger] old(rx)@[i]) is Plastic ==>
            in_box(g.side_length as int, old(rx)@[i]->Plastic_0.loc),
    ensures
        final(rx)@.len() == old(rx)@.len(),
        forall|i: int| 0 <= i < old(rx)@.len() ==> {
            let f = #[trigger] final(rx)@[i];
            let o = old(rx)@[i];
            &&& rx_stepped(*g, o, f, cycle, tf@)
            &&& f.charge().slot(cycle.next()) == charge_after(
                o.charge().slot(cycle.next()) as int,
                rx_sent(old(rx)@, final(rx)@, cycle, old(rx)@.len() as int),
                i,
            )
            &&& f.wf(old(rx)@.len() as int)
        },
{
    let ghost r0 = rx@;
    let ghost n = rx@.len() as int;
    let mut i: usize = 0;
    while i < rx.len()
        invariant
            g.wf(),
            n == g.num_plastic,
            n == r0.len(),
            i <= n,
            rx@.len() == n,
            tf@.len() == n,
            forall|j: int| 0 <= j < n ==> (#[trigger] r0[j]).wf(n),
            forall|j: int| 0 <= j < n && (#[trigger] r0[j]) is Plastic ==> in_box(g.side_length as int, r0[j]->Plastic_0.loc),
            forall|j: int| 0 <= j < i ==> {
                let f = #[trigger] rx@[j];
                let o = r0[j];
                &&& rx_stepped(*g, o, f, cycle, tf@)
                &&& f.charge().slot(cycle.next()) == charge_after(o.charge().slot(cycle.next()) as int, rx_sent(r0, rx@, cycle, i as int), j)
                &&& f.wf(n)
            },
            forall|j: int| i <= j < n ==> rx_received(#[trigger] rx@[j], r0[j], cycle, rx_sent(r0, rx@, cycle, i as int), j, n),
        decreases n - i,
    {
        let sprout = match rx[i].plastic_loc() {
            Some(loc) => Some(draw_target(g, loc)),
            None => None,
        };
        let ghost pre = rx@;
        proof {
            assert(rx_sprout_ok(*g, r0[i as int], sprout));
        }
        let fired = rx[i].run_cycle(cycle, tf, sprout);
        proof {
            lemma_rx_sent_prefix(r0, rx@, pre, cycle, i as int);
            match (pre[i as int], r0[i as int]) {
                (Receiver::Plastic(x), Receiver::Plastic(y)) => {},
                (Receiver::Actuator(x), Receiver::Actuator(y)) => {},
                _ => {},
            }
            assert(rx_stepped(*g, r0[i as int], rx@[i as int], cycle, tf@));
        }
        if fired {
            let em = rx[i].emissions(Ghost(n));
            let ghost mid = rx@;
            deliver(rx, cycle, &em);
            proof {
                lemma_rx_sent_prefix(r0, rx@, mid, cycle, i + 1);
                assert forall|j: int| 0 <= j < n implies
                    charge_after(r0[j].charge().slot(cycle.next()) as int, rx_sent(r0, rx@, cycle, i + 1), j)
                    == charge_after(charge_after(r0[j].charge().slot(cycle.next()) as int, rx_sent(r0, mid, cycle, i as int), j), em@, j) by {
                    lemma_rx_sent_prefix(r0, mid, pre, cycle, i as int);
                    lemma_charge_after_concat(r0[j].charge().slot(cycle.next()) as int, rx_sent(r0, mid, cycle, i as int), em@, j);
                }
            }
        } else {
            proof {
                lemma_rx_sent_prefix(r0, rx@, pre, cycle, i as int);
            }
        }
        i = i + 1;
    }
}

proof fn lemma_rx_sent_before(a: Seq<Receiver>, b: Seq<Receiver>, after: Seq<Receiver>, cycle: ChargeCycle, i: int)
    requires
        0 <= i <= a.len(),
        i <= b.len(),
        forall|j: int| 0 <= j < i ==>
            (#[trigger] a[j]).charge().slot(cycle) == b[j].charge().slot(cycle) && a[j].threshold() == b[j].threshold(),
    ensures
        rx_sent(a, after, cycle, i) == rx_sent(b, after, cycle, i),
    decreases i,
{
    if i > 0 {
        lemma_rx_sent_before(a, b, after, cycle, i - 1);
    }
}

/// The sensory neuron `f` is `o` after a cycle of count `count` in which its
/// period was set to `period`, given the receivers' previous fires `tf`.
pub open spec fn sensory_cycled(g: BoxEcp, o: SensoryNeuron, f: SensoryNeuron, period: u32, count: int, tf: Seq<bool>) -> bool {
    let c = ChargeCycle::of_count(count);
    let fired = sensory_fires(period as int, count);
    &&& f.period == period
    &&& f.static_synapses@ == o.static_synapses@
    &&& f.ema == crate::neuron::ema_after(o.ema as int, o.alpha as int, fired)
    &&& f.fire_tracker == o.fire_tracker.recorded(c, fired)
    &&& f.max_plastic_synapses == o.max_plastic_synapses
    &&& f.strength_template == o.strength_template
    &&& f.synapse_type_threshold == o.synapse_type_threshold
    &&& f.alpha == o.alpha
    &&& f.loc == o.loc
    &&& exists|t: Option<usize>| #[trigger] near_target(g, o.loc, t) && f.plastic_synapses@ == sprouted(
        pruned(o.plastic_synapses@, o.fire_tracker.prev_prev_of(c), tf),
        o.max_plastic_synapses as int,
        o.ema as int,
        o.synapse_type_threshold as int,
        o.strength_template,
        t,
    )
}

/// For each receiver, whether it fired on the cycle before one of parity
/// `cycle`.
pub open spec fn prev_fires(rx: Seq<Receiver>, cycle: ChargeCycle) -> Seq<bool> {
    Seq::new(rx.len(), |i: int| rx[i].tracker().prev(cycle))
}

impl Encephalon {
    /// The number of receivers.
    pub open spec fn num_rx(&self) -> int {
        self.rx_neurons@.len() as int
    }

    /// Receiver `i` is an actuator neuron exactly when its cell is one of the
    /// first `num_actuator` cells of the far face.
    pub open spec fn is_actuator_index(&self, i: int) -> bool {
        let l = self.ecp_geometry.side_length as int;
        face_base(l) <= i < face_base(l) + self.ecp_geometry.num_actuator
    }

    /// The parity of the current cycle.
    pub open spec fn parity(&self) -> ChargeCycle {
        ChargeCycle::of_count(self.cycle_count as int)
    }

    /// Every receiver and sensory neuron is as built: no charge, no fire
    /// recorded, zero frequency, and no plastic synapse.
    pub open spec fn fresh(&self) -> bool {
        &&& forall|i: int| 0 <= i < self.num_rx() ==> {
            let r = #[trigger] self.rx_neurons@[i];
            &&& r.charge() == crate::neuron::InternalCharge(0, 0)
            &&& r.tracker() == crate::neuron::FireTracker::initial()
            &&& r.ema() == 0
            &&& r.plastic().len() == 0
        }
        &&& forall|k: int| 0 <= k < self.sensory_neurons@.len() ==> {
            let s = #[trigger] self.sensory_neurons@[k];
            &&& s.period == 0
            &&& s.fire_tracker == crate::neuron::FireTracker::initial()
            &&& s.ema == 0
            &&& s.plastic_synapses@.len() == 0
        }
    }

    /// The parameters shared by all neurons.
    pub open spec fn neurons_use(
        &self,
        fire_threshold: i64,
        ema_alpha: u64,
        strength_template: SynapticStrength,
        synapse_type_threshold: u64,
        max_plastic_synapses: usize,
    ) -> bool {
        &&& forall|i: int| 0 <= i < self.num_rx() ==> {
            let r = #[trigger] self.rx_neurons@[i];
            &&& r.threshold() == fire_threshold
            &&& r.alpha() == ema_alpha
            &&& r is Plastic ==> {
                &&& r->Plastic_0.strength_template == strength_template
                &&& r->Plastic_0.synapse_type_threshold == synapse_type_threshold
                &&& r->Plastic_0.max_plastic_synapses == max_plastic_synapses
            }
        }
        &&& forall|k: int| 0 <= k < self.sensory_neurons@.len() ==> {
            let s = #[trigger] self.sensory_neurons@[k];
            &&& s.alpha == ema_alpha
            &&& s.strength_template == strength_template
            &&& s.synapse_type_threshold == synapse_type_threshold
            &&& s.max_plastic_synapses == max_plastic_synapses
        }
    }

    fn build_receivers(
        g: &BoxEcp,
        actuator_names: Vec<String>,
        fire_threshold: i64,
        ema_alpha: u64,
        strength_template: SynapticStrength,
        synapse_type_threshold: u64,
        max_plastic_synapses: usize,
    ) -> (r: (Vec<Receiver>, Vec<ActuatorInterface>))
        requires
            g.wf(),
            actuator_names@.len() == g.num_actuator,
            0 < ema_alpha < UNIT,
            strength_template.wf(),
        ensures
            ({
                let (rx, acts) = r;
                let l = g.side_length as int;
                let n = rx@.len() as int;
                let na = g.num_actuator as int;
                &&& n == g.num_plastic
                &&& acts@.len() == na
                &&& forall|i: int| 0 <= i < n ==> (#[trigger] rx@[i]).wf(n)
                &&& forall|i: int| 0 <= i < n ==>
                        ((#[trigger] rx@[i]).kind() == RxNeuron::Actuator <==> face_base(l) <= i < face_base(l) + na)
                &&& forall|i: int| 0 <= i < n && (#[trigger] rx@[i]) is Plastic ==> in_box(l, rx@[i]->Plastic_0.loc)
                &&& forall|i: int| 0 <= i < n ==> {
                    let x = #[trigger] rx@[i];
                    &&& x.charge() == crate::neuron::InternalCharge(0, 0)
                    &&& x.tracker() == crate::neuron::FireTracker::initial()
                    &&& x.ema() == 0
                    &&& x.plastic().len() == 0
                    &&& x.statics().len() == 0
                    &&& x.threshold() == fire_threshold
                    &&& x.alpha() == ema_alpha
                    &&& x is Plastic ==> {
                        &&& x->Plastic_0.strength_template == strength_template
                        &&& x->Plastic_0.synapse_type_threshold == synapse_type_threshold
                        &&& x->Plastic_0.max_plastic_synapses == max_plastic_synapses
                    }
                }
                &&& forall|k: int| 0 <= k < na ==> {
                    &&& (#[trigger] acts@[k]).actuator_neuron == face_base(l) + k
                    &&& acts@[k].name == actuator_names@[na - 1 - k]
                }
            }),
    {
        let ghost l = g.side_length as int;
        let ghost na = g.num_actuator as int;
        let ghost base = face_base(l);
        let ghost orig = actuator_names@;
        let mut names = actuator_names;
        let mut rx: Vec<Receiver> = Vec::new();
        let mut acts: Vec<ActuatorInterface> = Vec::new();
        let n = g.num_plastic as usize;
        let first = g.first_rx_loc();
        let mut loc = first.0;
        let mut kind = first.1;
        proof {
            assert(l * l * l >= 1) by (nonlinear_arith) requires l >= 1;
            assert(base + na <= l * l * l) by (nonlinear_arith)
                requires base == l * l * (l - 1), na <= l * l, l >= 1;
            assert(base >= 0) by (nonlinear_arith) requires base == l * l * (l - 1), l >= 1;
        }
        let mut i: usize = 0;
        while i < n
            invariant
                g.wf(),
                l == g.side_length,
                na == g.num_actuator,
                base == face_base(l),
                0 <= base,
                base + na <= n,
                n == g.num_plastic,
                orig.len() == na,
                i <= n,
                rx@.len() == i,
                i < n ==> in_box(l, loc) && g.index_of(loc) == i && kind == g.kind_at(loc),
                forall|j: int| 0 <= j < i ==> (#[trigger] rx@[j]).wf(n as int),
                forall|j: int| 0 <= j < i ==>
                    ((#[trigger] rx@[j]).kind() == RxNeuron::Actuator <==> base <= j < base + na),
                forall|j: int| 0 <= j < i && (#[trigger] rx@[j]) is Plastic ==> in_box(l, rx@[j]->Plastic_0.loc),
                forall|j: int| 0 <= j < i ==> {
                    let x = #[trigger] rx@[j];
                    &&& x.charge() == crate::neuron::InternalCharge(0, 0)
                    &&& x.tracker() == crate::neuron::FireTracker::initial()
                    &&& x.ema() == 0
                    &&& x.plastic().len() == 0
                    &&& x.statics().len() == 0
                    &&& x.threshold() == fire_threshold
                    &&& x.alpha() == ema_alpha
                    &&& x is Plastic ==> {
                        &&& x->Plastic_0.strength_template == strength_template
                        &&& x->Plastic_0.synapse_type_threshold == synapse_type_threshold
                        &&& x->Plastic_0.max_plastic_synapses == max_plastic_synapses
                    }
                },
                acts@.len() == (if i <= base { 0 } else if i >= base + na { na } else { i - base }),
                forall|k: int| 0 <= k < acts@.len() ==> {
                    &&& (#[trigger] acts@[k]).actuator_neuron == base + k
                    &&& acts@[k].name == orig[na - 1 - k]
                },
                names@ == orig.subrange(0, na - acts@.len()),
                0 < ema_alpha < UNIT,
                strength_template.wf(),
            decreases n - i,
        {
            proof { lemma_kind_index(l, na, loc); }
            match kind {
                RxNeuron::Actuator => {
                    rx.push(Receiver::Actuator(ActuatorNeuron::new(fire_threshold, ema_alpha)));
                    match names.pop() {
                        Some(name) => {
                            acts.push(ActuatorInterface::new(name, i));
                        },
                        None => {},
                    }
                },
                RxNeuron::Plastic => {
                    rx.push(Receiver::Plastic(PlasticNeuron::new(
                        fire_threshold,
                        max_plastic_synapses,
                        strength_template,
                        synapse_type_threshold,
                        ema_alpha,
                        loc,
                    )));
                },
            }
            if i + 1 < n {
                match g.next_rx_loc(loc) {
                    Some(next) => {
                        loc = next.0;
                        kind = next.1;
                    },
                    None => {},
                }
            }
            i = i + 1;
        }
        (rx, acts)
    }

    fn build_sensory(
        g: &BoxEcp,
        sensor_names: Vec<String>,
        ema_alpha: u64,
        strength_template: SynapticStrength,
        synapse_type_threshold: u64,
        max_plastic_synapses: usize,
    ) -> (r: (Vec<SensoryNeuron>, Vec<SensoryInterface>))
        requires
            g.wf(),
            sensor_names@.len() == g.num_sensory,
            0 < ema_alpha < UNIT,
            strength_template.wf(),
        ensures
            ({
                let (sn, ifs) = r;
                let ns = g.num_sensory as int;
                &&& sn@.len() == ns
                &&& ifs@.len() == ns
                &&& forall|k: int| 0 <= k < ns ==> {
                    let x = #[trigger] sn@[k];
                    &&& forall|m: int| x.wf(m)
                    &&& on_sensory_plane(g.side_length as int, x.loc)
                    &&& x.loc.x + g.side_length * x.loc.y == k
                    &&& x.period == 0
                    &&& x.fire_tracker == crate::neuron::FireTracker::initial()
                    &&& x.ema == 0
                    &&& x.plastic_synapses@.len() == 0
                    &&& x.static_synapses@.len() == 0
                    &&& x.alpha == ema_alpha
                    &&& x.strength_template == strength_template
                    &&& x.synapse_type_threshold == synapse_type_threshold
                    &&& x.max_plastic_synapses == max_plastic_synapses
                }
                &&& forall|k: int| 0 <= k < ns ==> {
                    &&& (#[trigger] ifs@[k]).sensory_neuron == k
                    &&& ifs@[k].name == sensor_names@[ns - 1 - k]
                }
            }),
    {
        let ghost l = g.side_length as int;
        let ghost orig = sensor_names@;
        let mut names = sensor_names;
        let mut sn: Vec<SensoryNeuron> = Vec::new();
        let mut ifs: Vec<SensoryInterface> = Vec::new();
        let ns = g.num_sensory as usize;
        let mut loc = g.first_sensory_loc();
        let mut k: usize = 0;
        while k < ns
            invariant
                g.wf(),
                l == g.side_length,
                ns == g.num_sensory,
                orig.len() == ns,
                k <= ns,
                sn@.len() == k,
                ifs@.len() == k,
                k < ns ==> on_sensory_plane(l, loc) && loc.x + l * loc.y == k,
                forall|j: int| 0 <= j < k ==> {
                    let x = #[trigger] sn@[j];
                    &&& forall|m: int| x.wf(m)
                    &&& on_sensory_plane(l, x.loc)
                    &&& x.loc.x + l * x.loc.y == j
                    &&& x.period == 0
                    &&& x.fire_tracker == crate::neuron::FireTracker::initial()
                    &&& x.ema == 0
                    &&& x.plastic_synapses@.len() == 0
                    &&& x.static_synapses@.len() == 0
                    &&& x.alpha == ema_alpha
                    &&& x.strength_template == strength_template
                    &&& x.synapse_type_threshold == synapse_type_threshold
                    &&& x.max_plastic_synapses == max_plastic_synapses
                },
                forall|j: int| 0 <= j < k ==> {
                    &&& (#[trigger] ifs@[j]).sensory_neuron == j
                    &&& ifs@[j].name == orig[ns - 1 - j]
                },
                names@ == orig.subrange(0, ns - k),
                0 < ema_alpha < UNIT,
                strength_template.wf(),
            decreases ns - k,
        {
            sn.push(SensoryNeuron::new(max_plastic_synapses, strength_template, synapse_type_threshold, ema_alpha, loc));
            match names.pop() {
                Some(name) => {
                    ifs.push(SensoryInterface::new(name, k));
                },
                None => {},
            }
            if k + 1 < ns {
                proof { lemma_plane_last(l, loc); }
                match g.next_sensory_loc(loc) {
                    Some(next) => {
                        loc = next;
                    },
                    None => {},
                }
            }
            k = k + 1;
        }
        (sn, ifs)
    }

    /// Builds the network: a receiver for each cell of the geometry's
    /// receiver enumeration, each actuator cell paired with the name popped
    /// from the end of `actuator_names`; a sensory neuron for each of the
    /// first `num_sensory` cells of the sensory plane, paired likewise with
    /// the end of `sensor_names`; then the reflexes as static synapses.
    /// Fails when the numbers of names differ from the geometry's counts.
    pub fn new(
        ecp_geometry: BoxEcp,
        sensor_names: Vec<String>,
        actuator_names: Vec<String>,
        fire_threshold: i64,
        ema_alpha: u64,
        strength_template: SynapticStrength,
        synapse_type_threshold: u64,
        max_plastic_synapses: usize,
        reflexes: Vec<Reflex>,
    ) -> (r: Result<Encephalon, ConfigError>)
        requires
            ecp_geometry.wf(),
            0 < ema_alpha < UNIT,
            strength_template.wf(),
            forall|t: int| 0 <= t < reflexes@.len() ==> (#[trigger] reflexes@[t]).strength <= MAX_LEVEL,
        ensures
            r == Err::<Encephalon, ConfigError>(ConfigError::SensorCountMismatch)
                <==> sensor_names@.len() != ecp_geometry.num_sensory,
            r == Err::<Encephalon, ConfigError>(ConfigError::ActuatorCountMismatch)
                <==> sensor_names@.len() == ecp_geometry.num_sensory && actuator_names@.len() != ecp_geometry.num_actuator,
            r is Ok <==> sensor_names@.len() == ecp_geometry.num_sensory && actuator_names@.len() == ecp_geometry.num_actuator,
            r matches Ok(e) ==> {
                let ns = ecp_geometry.num_sensory as int;
                let na = ecp_geometry.num_actuator as int;
                &&& e.wf()
                &&& e.fresh()
                &&& e.cycle_count == 0
                &&& e.ecp_geometry == ecp_geometry
                &&& e.reflexes@ == reflexes@
                &&& e.neurons_use(fire_threshold, ema_alpha, strength_template, synapse_type_threshold, max_plastic_synapses)
                &&& forall|k: int| 0 <= k < ns ==> (#[trigger] e.sensory_interfaces@[k]).name == sensor_names@[ns - 1 - k]
                &&& forall|k: int| 0 <= k < na ==> (#[trigger] e.actuator_interfaces@[k]).name == actuator_names@[na - 1 - k]
                &&& forall|i: int| 0 <= i < e.num_rx() ==> (#[trigger] e.rx_neurons@[i]).statics().len() == 0
                &&& forall|k: int| 0 <= k < ns ==> (#[trigger] e.sensory_neurons@[k]).static_synapses@ == reflex_synapses(
                    reflexes@,
                    sensory_names(e.sensory_interfaces@),
                    actuator_names_of(e.actuator_interfaces@),
                    k,
                    face_base(ecp_geometry.side_length as int),
                )
            },
    {
        if ecp_geometry.get_num_sensory() as usize != sensor_names.len() {
            return Err(ConfigError::SensorCountMismatch);
        } else if ecp_geometry.get_num_actuator() as usize != actuator_names.len() {
            return Err(ConfigError::ActuatorCountMismatch);
        }
        let ghost l = ecp_geometry.side_length as int;
        let (rx_neurons, actuator_interfaces) = Encephalon::build_receivers(
            &ecp_geometry,
            actuator_names,
            fire_threshold,
            ema_alpha,
            strength_template,
            synapse_type_threshold,
            max_plastic_synapses,
        );
        let (mut sensory_neurons, sensory_interfaces) = Encephalon::build_sensory(
            &ecp_geometry,
            sensor_names,
            ema_alpha,
            strength_template,
            synapse_type_threshold,
            max_plastic_synapses,
        );
        let side = ecp_geometry.side_length as usize;
        proof {
            assert(side * side <= 1625 * 1625) by (nonlinear_arith) requires side <= 1625;
            assert(side * side * (side - 1) <= 1625 * 1625 * 1625) by (nonlinear_arith)
                requires side <= 1625, side * side <= 1625 * 1625, side >= 1;
            assert(l * l * (l - 1) + ecp_geometry.num_actuator <= l * l * l) by (nonlinear_arith)
                requires ecp_geometry.num_actuator <= l * l, l >= 1;
        }
        let base = side * side * (side - 1);
        form_reflex_synapses(
            &mut sensory_neurons,
            &sensory_interfaces,
            &actuator_interfaces,
            &reflexes,
            base,
            rx_neurons.len(),
        );
        let e = Encephalon {
            cycle_count: 0,
            ecp_geometry,
            rx_neurons,
            sensory_neurons,
            actuator_interfaces,
            sensory_interfaces,
            reflexes,
        };
        Ok(e)
    }

    /// Runs one cycle: increments the counter; sets the period of each
    /// sensory interface's neuron from `periods` (one per interface, in
    /// order); reads each actuator interface's neuron frequency into the
    /// result; then steps every sensory neuron and every receiver, each
    /// reading only its own state and the receivers' fires of the previous
    /// cycle, and delivers the impulses of those that fire into the next
    /// cycle's slots.
    pub fn run_cycle(&mut self, periods: &Vec<u32>) -> (outputs: Vec<u64>)
        requires
            old(self).wf(),
            periods@.len() == old(self).sensory_interfaces@.len(),
            old(self).cycle_count < u64::MAX,
        ensures
            final(self).wf(),
            final(self).cycle_count == old(self).cycle_count + 1,
            final(self).ecp_geometry == old(self).ecp_geometry,
            final(self).sensory_interfaces@ == old(self).sensory_interfaces@,
            final(self).actuator_interfaces@ == old(self).actuator_interfaces@,
            final(self).reflexes@ == old(self).reflexes@,
            outputs@.len() == old(self).actuator_interfaces@.len(),
            forall|k: int| 0 <= k < outputs@.len() ==>
                #[trigger] outputs@[k] == old(self).rx_neurons@[old(self).actuator_interfaces@[k].actuator_neuron as int].ema(),
            forall|k: int| 0 <= k < outputs@.len() ==> #[trigger] outputs@[k] <= UNIT,
            forall|k: int| 0 <= k < periods@.len() ==> sensory_cycled(
                old(self).ecp_geometry,
                old(self).sensory_neurons@[k],
                #[trigger] final(self).sensory_neurons@[k],
                periods@[k],
                final(self).cycle_count as int,
                prev_fires(old(self).rx_neurons@, final(self).parity()),
            ),
            forall|i: int| 0 <= i < old(self).num_rx() ==> {
                let f = #[trigger] final(self).rx_neurons@[i];
                &&& rx_stepped(
                    old(self).ecp_geometry,
                    old(self).rx_neurons@[i],
                    f,
                    final(self).parity(),
                    prev_fires(old(self).rx_neurons@, final(self).parity()),
                )
                &&& f.charge().slot(final(self).parity().next()) == charge_after(
                    0,
                    sensory_sent(final(self).sensory_neurons@, final(self).cycle_count as int, final(self).sensory_neurons@.len() as int)
                        + rx_sent(old(self).rx_neurons@, final(self).rx_neurons@, final(self).parity(), old(self).num_rx()),
                    i,
                )
            },
    {
        let ghost e0 = *self;
        let ghost s_old = self.sensory_neurons@;
        let ghost r_old = self.rx_neurons@;
        let ghost n = self.rx_neurons@.len() as int;
        self.cycle_count = self.cycle_count + 1;
        let count = self.cycle_count;
        let cycle = ChargeCycle::from_count(count);
        assert(cycle.next() == ChargeCycle::of_count(count - 1));

        // the sensory interfaces set their neurons' periods
        let mut k: usize = 0;
        while k < periods.len()
            invariant
                k <= periods@.len(),
                periods@.len() == s_old.len(),
                self.sensory_interfaces@ == e0.sensory_interfaces@,
                self.sensory_interfaces@.len() == s_old.len(),
                forall|j: int| 0 <= j < s_old.len() ==> (#[trigger] self.sensory_interfaces@[j]).sensory_neuron == j,
                self.sensory_neurons@.len() == s_old.len(),
                self.rx_neurons@ == r_old,
                self.ecp_geometry == e0.ecp_geometry,
                self.actuator_interfaces@ == e0.actuator_interfaces@,
                self.reflexes@ == e0.reflexes@,
                self.cycle_count == count,
                forall|j: int| 0 <= j < k ==> {
                    let a = #[trigger] self.sensory_neurons@[j];
                    let b = s_old[j];
                    &&& a.period == periods@[j]
                    &&& a.plastic_synapses@ == b.plastic_synapses@
                    &&& a.static_synapses@ == b.static_synapses@
                    &&& a.fire_tracker == b.fire_tracker
                    &&& a.ema == b.ema
                    &&& a.max_plastic_synapses == b.max_plastic_synapses
                    &&& a.strength_template == b.strength_template
                    &&& a.synapse_type_threshold == b.synapse_type_threshold
                    &&& a.alpha == b.alpha
                    &&& a.loc == b.loc
                },
                forall|j: int| k <= j < s_old.len() ==> #[trigger] self.sensory_neurons@[j] == s_old[j],
            decreases periods@.len() - k,
        {
            self.sensory_interfaces[k].run_cycle(&mut self.sensory_neurons, periods[k]);
            k = k + 1;
        }

        // the actuator interfaces read their neurons' frequencies
        let mut outputs: Vec<u64> = Vec::new();
        let mut a: usize = 0;
        while a < self.actuator_interfaces.len()
            invariant
                a <= self.actuator_interfaces@.len(),
                self.actuator_interfaces@ == e0.actuator_interfaces@,
                self.rx_neurons@ == r_old,
                r_old == e0.rx_neurons@,
                e0.wf(),
                outputs@.len() == a,
                forall|j: int| 0 <= j < a ==>
                    #[trigger] outputs@[j] == r_old[e0.actuator_interfaces@[j].actuator_neuron as int].ema(),
                forall|j: int| 0 <= j < a ==> #[trigger] outputs@[j] <= UNIT,
            decreases self.actuator_interfaces@.len() - a,
        {
            let idx = self.actuator_interfaces[a].actuator_neuron;
            proof {
                let l = e0.ecp_geometry.side_length as int;
                assert(face_base(l) + e0.ecp_geometry.num_actuator <= l * l * l) by (nonlinear_arith)
                    requires e0.ecp_geometry.num_actuator <= l * l, l >= 1;
                assert(idx == face_base(l) + a);
                assert(a < e0.ecp_geometry.num_actuator);
                assert(r_old.len() == e0.ecp_geometry.num_plastic);
                assert(e0.ecp_geometry.num_plastic == l * l * l);
                assert(idx < r_old.len());
                assert(r_old[idx as int].wf(r_old.len() as int));
                match r_old[idx as int] {
                    Receiver::Plastic(p) => {},
                    Receiver::Actuator(q) => {},
                }
            }
            outputs.push(self.actuator_interfaces[a].run_cycle(&self.rx_neurons));
            a = a + 1;
        }

        // the receivers' fires of the previous cycle, which no step of this
        // cycle changes
        let mut tf: Vec<bool> = Vec::new();
        let mut i: usize = 0;
        while i < self.rx_neurons.len()
            invariant
                i <= self.rx_neurons@.len(),
                self.rx_neurons@ == r_old,
                tf@ == prev_fires(r_old, cycle).subrange(0, i as int),
            decreases self.rx_neurons@.len() - i,
        {
            tf.push(self.rx_neurons[i].fired_on_prev_cycle(cycle));
            proof {
                assert(prev_fires(r_old, cycle).subrange(0, i + 1) =~= prev_fires(r_old, cycle).subrange(0, i as int).push(r_old[i as int].tracker().prev(cycle)));
            }
            i = i + 1;
        }
        assert(tf@ =~= prev_fires(r_old, cycle));

        let ghost s_mid = self.sensory_neurons@;
        step_sensory_all(&mut self.sensory_neurons, &mut self.rx_neurons, &self.ecp_geometry, count, &tf);
        let ghost r_mid = self.rx_neurons@;
        step_rx_all(&mut self.rx_neurons, &self.ecp_geometry, cycle, &tf);
        proof {
            let ss = sensory_sent(self.sensory_neurons@, count as int, s_old.len() as int);
            let rs = rx_sent(r_mid, self.rx_neurons@, cycle, n);
            lemma_rx_sent_before(r_mid, r_old, self.rx_neurons@, cycle, n);
            assert forall|i: int| 0 <= i < n implies {
                let f = #[trigger] self.rx_neurons@[i];
                &&& rx_stepped(e0.ecp_geometry, r_old[i], f, cycle, tf@)
                &&& f.charge().slot(cycle.next()) == charge_after(0, ss + rs, i)
                &&& f.wf(n)
            } by {
                let f = self.rx_neurons@[i];
                lemma_charge_after_concat(0, ss, rs, i);
                assert(r_old[i].charge().slot(cycle.next()) == 0);
                assert(r_mid[i].charge().slot(cycle.next()) == charge_after(0, ss, i));
                assert(f.charge().slot(cycle.next()) == charge_after(0, ss + rs, i));
                match (r_mid[i], r_old[i]) {
                    (Receiver::Plastic(x), Receiver::Plastic(y)) => {},
                    (Receiver::Actuator(x), Receiver::Actuator(y)) => {},
                    _ => {},
                }
                assert(rx_stepped(e0.ecp_geometry, r_mid[i], f, cycle, tf@));
                assert(r_mid[i].threshold() == r_old[i].threshold());
                assert(f.same_setup(&r_old[i]));
                let t = choose|t: Option<usize>| #[trigger] rx_sprout_ok(e0.ecp_geometry, r_mid[i], t)
                    && f.plastic() == r_mid[i].next_plastic(cycle, tf@, t);
                assert(rx_sprout_ok(e0.ecp_geometry, r_old[i], t));
                assert(f.plastic() == r_old[i].next_plastic(cycle, tf@, t));
                assert(rx_stepped(e0.ecp_geometry, r_old[i], f, cycle, tf@));
            }
            assert forall|k: int| 0 <= k < s_old.len() implies sensory_cycled(
                e0.ecp_geometry, s_old[k], #[trigger] self.sensory_neurons@[k], periods@[k], count as int, tf@) by {
                assert(sensory_stepped(e0.ecp_geometry, s_mid[k], self.sensory_neurons@[k], count as int, tf@));
            }
        }
        outputs
    }

    /// The number of cycles run so far.
    pub fn get_cycle_count(&self) -> (r: u64)
        ensures
            r == self.cycle_count,
    {
        self.cycle_count
    }

    /// The parity of the current cycle.
    pub fn get_charge_cycle(&self) -> (r: ChargeCycle)
        ensures
            r == self.parity(),
    {
        ChargeCycle::from_count(self.cycle_count)
    }

    /// A random receiver near `loc`: the one at a random cell of the nearby
    /// cube around `loc`.
    pub fn local_random_neuron(&self, loc: &Loc) -> (r: Option<usize>)
        requires
            self.wf(),
            -1 <= loc.x < self.ecp_geometry.side_length,
            -1 <= loc.y < self.ecp_geometry.side_length,
            -1 <= loc.z < self.ecp_geometry.side_length,
        ensures
            r is Some,
            near_target(self.ecp_geometry, *loc, r),
            r matches Some(i) ==> i < self.num_rx(),
    {
        Some(draw_target(&self.ecp_geometry, *loc))
    }

    /// The frequency estimate of each actuator interface's neuron, in the
    /// order of the interfaces.
    pub fn actuator_values(&self) -> (r: Vec<u64>)
        requires
            self.wf(),
        ensures
            r@.len() == self.actuator_interfaces@.len(),
            forall|k: int| 0 <= k < r@.len() ==>
                #[trigger] r@[k] == self.rx_neurons@[self.actuator_interfaces@[k].actuator_neuron as int].ema(),
            forall|k: int| 0 <= k < r@.len() ==> #[trigger] r@[k] <= UNIT,
    {
        let mut out: Vec<u64> = Vec::new();
        let mut a: usize = 0;
        let ghost l = self.ecp_geometry.side_length as int;
        proof {
            assert(face_base(l) + self.ecp_geometry.num_actuator <= l * l * l) by (nonlinear_arith)
                requires self.ecp_geometry.num_actuator <= l * l, l >= 1;
        }
        while a < self.actuator_interfaces.len()
            invariant
                self.wf(),
                l == self.ecp_geometry.side_length,
                face_base(l) + self.ecp_geometry.num_actuator <= l * l * l,
                a <= self.actuator_interfaces@.len(),
                out@.len() == a,
                forall|j: int| 0 <= j < a ==>
                    #[trigger] out@[j] == self.rx_neurons@[self.actuator_interfaces@[j].actuator_neuron as int].ema(),
                forall|j: int| 0 <= j < a ==> #[trigger] out@[j] <= UNIT,
            decreases self.actuator_interfaces@.len() - a,
        {
            let idx = self.actuator_interfaces[a].actuator_neuron;
            assert(idx < self.rx_neurons@.len());
            let v = self.rx_neurons[idx].read_ema_frequency();
            proof {
                let x = self.rx_neurons@[idx as int];
                assert(x.wf(self.num_rx()));
                match x {
                    Receiver::Plastic(p) => {},
                    Receiver::Actuator(q) => {},
                }
            }
            out.push(v);
            a = a + 1;
        }
        out
    }

    pub open spec fn wf(&self) -> bool {
        let g = self.ecp_geometry;
        let l = g.side_length as int;
        let n = self.num_rx();
        &&& g.wf()
        &&& n == g.num_plastic
        &&& self.sensory_neurons@.len() == g.num_sensory
        &&& self.sensory_interfaces@.len() == g.num_sensory
        &&& self.actuator_interfaces@.len() == g.num_actuator
        &&& forall|i: int| 0 <= i < n ==> (#[trigger] self.rx_neurons@[i]).wf(n)
        &&& forall|i: int| 0 <= i < n ==>
                ((#[trigger] self.rx_neurons@[i]).kind() == RxNeuron::Actuator <==> self.is_actuator_index(i))
        &&& forall|i: int| 0 <= i < n && (#[trigger] self.rx_neurons@[i]) is Plastic ==>
                in_box(l, self.rx_neurons@[i]->Plastic_0.loc)
        &&& forall|i: int| 0 <= i < n ==>
                (#[trigger] self.rx_neurons@[i]).charge().slot(self.parity()) == 0
        &&& forall|k: int| 0 <= k < self.sensory_neurons@.len() ==> (#[trigger] self.sensory_neurons@[k]).wf(n)
        &&& forall|k: int| 0 <= k < self.sensory_neurons@.len() ==>
                on_sensory_plane(l, (#[trigger] self.sensory_neurons@[k]).loc)
        &&& forall|k: int| 0 <= k < self.sensory_interfaces@.len() ==>
                (#[trigger] self.sensory_interfaces@[k]).sensory_neuron == k
        &&& forall|k: int| 0 <= k < self.actuator_interfaces@.len() ==>
                (#[trigger] self.actuator_interfaces@[k]).actuator_neuron == face_base(l) + k
    }
}

} // verus!
