use eywa::ecp_geometry::{BoxEcp, ConfigError, Loc};
use eywa::fixed::{fall_toward_zero, rise_toward, UNIT};
use eywa::neuron::{
    add_charge, update_ema, ChargeCycle, FireTracker, InternalCharge, RxNeuron,
};
use eywa::neuron_interfaces::{inverse_encoder, linear_encoder};
use eywa::synapse::{
    EmStrength, PlasticSynapse, SigmoidStrength, StaticSynapse, SynapticStrength, SynapticType,
};

const STEP_RATIO: u64 = 904_837;

#[test]
fn synapse_modifier_signs() {
    assert_eq!(SynapticType::Excitatory.get_synapse_modifier(), 1);
    assert_eq!(SynapticType::Inhibitory.get_synapse_modifier(), -1);
}

#[test]
fn charge_cycle_alternates() {
    assert_eq!(ChargeCycle::Even.next_cycle(), ChargeCycle::Odd);
    assert_eq!(ChargeCycle::Odd.next_cycle(), ChargeCycle::Even);
    assert_eq!(ChargeCycle::from_count(0), ChargeCycle::Even);
    assert_eq!(ChargeCycle::from_count(7), ChargeCycle::Odd);
}

#[test]
fn internal_charge_writes_next_slot_and_resets_current() {
    let mut c = InternalCharge::new();
    c.incr_next_charge(ChargeCycle::Even, 5);
    c.incr_next_charge(ChargeCycle::Even, -2);
    assert_eq!(c.get_charge(ChargeCycle::Odd), 3);
    assert_eq!(c.get_charge(ChargeCycle::Even), 0);
    c.incr_next_charge(ChargeCycle::Odd, 9);
    c.reset_charge(ChargeCycle::Odd);
    assert_eq!(c.get_charge(ChargeCycle::Odd), 0);
    assert_eq!(c.get_charge(ChargeCycle::Even), 9);
}

#[test]
fn charge_sum_saturates() {
    assert_eq!(add_charge(i64::MAX - 1, 5), i64::MAX);
    assert_eq!(add_charge(i64::MIN + 1, -5), i64::MIN);
    assert_eq!(add_charge(40, -50), -10);
}

#[test]
fn fire_tracker_remembers_two_cycles() {
    let mut t = FireTracker::new();
    assert!(!t.fired_on_prev_cycle(ChargeCycle::Odd));
    t.set_tracker(ChargeCycle::Odd, true);
    assert!(t.fired_on_prev_cycle(ChargeCycle::Even));
    assert!(!t.fired_on_prev_prev(ChargeCycle::Even));
    t.set_tracker(ChargeCycle::Even, false);
    assert!(!t.fired_on_prev_cycle(ChargeCycle::Odd));
    assert!(t.fired_on_prev_prev(ChargeCycle::Odd));
    assert!(t.fired_on_prev_prev(ChargeCycle::Even) == false);
}

#[test]
fn fire_tracker_prev_cycle_is_last_decision() {
    let mut t = FireTracker::new();
    let decisions = [true, false, false, true, true, false];
    for (c, fired) in decisions.iter().enumerate() {
        let cycle = ChargeCycle::from_count(c as u64 + 1);
        t.set_tracker(cycle, *fired);
        assert_eq!(t.fired_on_prev_cycle(cycle.next_cycle()), *fired);
    }
}

#[test]
fn ema_update_exact_values() {
    assert_eq!(update_ema(0, 19_802, true), 19_802);
    assert_eq!(update_ema(500_000, 100_000, false), 450_000);
    assert_eq!(update_ema(500_000, 100_000, true), 550_000);
    assert_eq!(update_ema(0, 100_000, false), 0);
}

#[test]
fn ema_moves_strictly_and_stays_bounded() {
    let mut e: u64 = 0;
    for _ in 0..300 {
        let n = update_ema(e, 19_802, true);
        assert!(n > e && n <= UNIT);
        e = n;
    }
    for _ in 0..300 {
        let n = update_ema(e, 19_802, false);
        assert!(n < e);
        e = n;
    }
}

#[test]
fn smoothing_steps_exact() {
    assert_eq!(rise_toward(5 * UNIT, 10 * UNIT, 100_000), 5_500_000);
    assert_eq!(fall_toward_zero(5 * UNIT, 100_000), 4_500_000);
}

#[test]
fn em_strength_steps() {
    let e = EmStrength::new(10 * UNIT, UNIT, 100_000);
    assert_eq!(e.strength, 5 * UNIT);
    let mut s = SynapticStrength::Em(e);
    s.strengthen();
    assert_eq!(s.get_strength(), 5_500_000);
    s.weaken();
    assert_eq!(s.get_strength(), 4_950_000);
    assert!(s.above_weakness_threshold());
    let low = SynapticStrength::Em(EmStrength::new_custom(UNIT, 10 * UNIT, UNIT, 100_000));
    assert!(!low.above_weakness_threshold());
}

#[test]
fn sigmoid_strength_steps() {
    let g = SigmoidStrength::new(9 * UNIT, UNIT, STEP_RATIO);
    assert_eq!(g.strength, 4_500_000);
    let mut up = SynapticStrength::Sigmoid(g);
    up.strengthen();
    assert_eq!(up.get_strength(), 4_724_813);
    let mut down = SynapticStrength::Sigmoid(g);
    down.weaken();
    assert_eq!(down.get_strength(), 4_275_186);
    let c = SigmoidStrength::new_custom_x(9 * UNIT, UNIT, STEP_RATIO, 2 * UNIT);
    assert_eq!(c.strength, 2 * UNIT);
}

#[test]
fn sigmoid_strength_weakens_below_threshold_eventually() {
    let mut s = SynapticStrength::Sigmoid(SigmoidStrength::new(9 * UNIT, UNIT, STEP_RATIO));
    let mut steps = 0;
    while s.above_weakness_threshold() {
        let before = s.get_strength();
        s.weaken();
        assert!(s.get_strength() < before);
        steps += 1;
        assert!(steps < 1000);
    }
    assert!(steps > 1);
}

#[test]
fn weakness_threshold_equal_does_not_survive() {
    let s = SynapticStrength::Em(EmStrength::new_custom(UNIT, 2 * UNIT, UNIT, 100_000));
    let p = PlasticSynapse::new(s, SynapticType::Excitatory, 0);
    assert!(!p.connected());
}

#[test]
fn plastic_synapse_fires_signed_strength() {
    let s = SynapticStrength::Em(EmStrength::new(8 * UNIT, UNIT, 100_000));
    let mut p = PlasticSynapse::new(s, SynapticType::Inhibitory, 3);
    assert_eq!(p.fire(), (3, -4_000_000));
    p.strengthen();
    assert_eq!(p.fire(), (3, -4_400_000));
    p.decay();
    assert_eq!(p.fire(), (3, -3_960_000));
}

#[test]
fn static_synapse_fires_signed_strength() {
    let s = StaticSynapse::new(20 * UNIT, SynapticType::Excitatory, 4);
    assert_eq!(s.fire(), (4, 20_000_000));
    let i = StaticSynapse::new(20 * UNIT, SynapticType::Inhibitory, 4);
    assert_eq!(i.fire(), (4, -20_000_000));
}

#[test]
fn linear_encoder_values() {
    assert_eq!(linear_encoder(UNIT, 1000 * UNIT), 1);
    assert_eq!(linear_encoder(UNIT, 100 * UNIT), 1);
    assert_eq!(linear_encoder(UNIT / 2, 100 * UNIT), 51);
    assert_eq!(linear_encoder(0, 100 * UNIT), 0);
}

#[test]
fn inverse_encoder_values() {
    assert_eq!(inverse_encoder(UNIT), 1);
    assert_eq!(inverse_encoder(333_333), 3);
    assert_eq!(inverse_encoder(400_000), 3);
    assert_eq!(inverse_encoder(UNIT / 4), 4);
    assert_eq!(inverse_encoder(0), 0);
}

#[test]
fn box_geometry_dimensions() {
    let g = BoxEcp::new(1000, 4, 3, 216).unwrap();
    assert_eq!(g.side_length, 10);
    assert_eq!(g.nearby_side_length, 5);
    assert_eq!(g.get_num_plastic(), 1000);
    assert_eq!(g.get_num_actuator(), 3);
    assert_eq!(g.get_num_sensory(), 4);
    let h = BoxEcp::new(130, 8, 4, 27).unwrap();
    assert_eq!(h.side_length, 5);
    assert_eq!(h.nearby_side_length, 3);
    assert_eq!(h.get_num_plastic(), 125);
    let small = BoxEcp::new(8, 0, 1, 1).unwrap();
    assert_eq!(small.side_length, 2);
    assert_eq!(small.nearby_side_length, 1);
}

#[test]
fn box_geometry_errors() {
    assert_eq!(BoxEcp::new(8, 0, 5, 1).err(), Some(ConfigError::ActuatorsExceedFace));
    assert_eq!(BoxEcp::new(8, 5, 1, 1).err(), Some(ConfigError::SensoryExceedFace));
    assert_eq!(BoxEcp::new(8, 1, 1, 27).err(), Some(ConfigError::NearbyExceedsVolume));
    assert_eq!(BoxEcp::new(8, 1, 1, 0).err(), Some(ConfigError::NearbyEmpty));
    assert_eq!(BoxEcp::new(0, 0, 0, 1).err(), Some(ConfigError::NearbyExceedsVolume));
}

#[test]
fn receiver_enumeration_tags_far_face() {
    let g = BoxEcp::new(27, 0, 4, 1).unwrap();
    let (mut loc, mut kind) = g.first_rx_loc();
    assert_eq!(loc, Loc { x: 0, y: 0, z: 0 });
    let mut kinds = vec![kind];
    let mut locs = vec![loc];
    while let Some((l, k)) = g.next_rx_loc(loc) {
        loc = l;
        kind = k;
        kinds.push(kind);
        locs.push(loc);
    }
    assert_eq!(kinds.len(), 27);
    assert_eq!(locs[1], Loc { x: 1, y: 0, z: 0 });
    assert_eq!(locs[3], Loc { x: 0, y: 1, z: 0 });
    assert_eq!(locs[9], Loc { x: 0, y: 0, z: 1 });
    for (i, k) in kinds.iter().enumerate() {
        let expected = if (18..22).contains(&i) { RxNeuron::Actuator } else { RxNeuron::Plastic };
        assert_eq!(*k, expected);
        assert_eq!(g.loc_index(locs[i]), i);
    }
}

#[test]
fn sensory_enumeration_walks_plane() {
    let g = BoxEcp::new(8, 4, 0, 1).unwrap();
    let mut loc = g.first_sensory_loc();
    let mut locs = vec![loc];
    while let Some(l) = g.next_sensory_loc(loc) {
        loc = l;
        locs.push(loc);
    }
    assert_eq!(
        locs,
        vec![
            Loc { x: 0, y: 0, z: -1 },
            Loc { x: 1, y: 0, z: -1 },
            Loc { x: 0, y: 1, z: -1 },
            Loc { x: 1, y: 1, z: -1 },
        ]
    );
}

#[test]
fn local_random_at_corner_stays_in_bounds() {
    let g = BoxEcp::new(125, 0, 0, 27).unwrap();
    let mut seen_other_than_low = false;
    for _ in 0..300 {
        let r = g.local_random_loc(Loc { x: 0, y: 0, z: 0 });
        assert!((0..=2).contains(&r.x) && (0..=2).contains(&r.y) && (0..=2).contains(&r.z));
        if r.x != 0 || r.y != 0 || r.z != 0 {
            seen_other_than_low = true;
        }
        let s = g.local_random_loc(Loc { x: 4, y: 4, z: -1 });
        assert!((2..=4).contains(&s.x) && (2..=4).contains(&s.y) && (0..=2).contains(&s.z));
        let m = g.local_random_loc(Loc { x: 2, y: 3, z: 2 });
        assert!((1..=3).contains(&m.x) && (2..=4).contains(&m.y) && (1..=3).contains(&m.z));
    }
    assert!(seen_other_than_low);
}

#[test]
fn impulses_in_either_order_give_the_same_charge() {
    let impulses = [7_000_000i64, -3_000_000, 4_500_000, -20_000_000, 20_000_000];
    let mut forward = InternalCharge::new();
    for v in impulses.iter() {
        forward.incr_next_charge(ChargeCycle::Odd, *v);
    }
    let mut backward = InternalCharge::new();
    for v in impulses.iter().rev() {
        backward.incr_next_charge(ChargeCycle::Odd, *v);
    }
    assert_eq!(forward.get_charge(ChargeCycle::Even), 8_500_000);
    assert_eq!(forward, backward);
}
