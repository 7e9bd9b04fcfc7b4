use eywa::ecp_geometry::{BoxEcp, ConfigError};
use eywa::encephalon::{Encephalon, Reflex};
use eywa::fixed::UNIT;
use eywa::neuron::Receiver;
use eywa::neuron_interfaces::linear_encoder;
use eywa::synapse::{SigmoidStrength, SynapticStrength, SynapticType};

const FIRE_THRESHOLD: i64 = 10_000_000;
const EMA_ALPHA: u64 = 19_802;
const TYPE_THRESHOLD: u64 = 100_000;
const STEP_RATIO: u64 = 904_837;

fn template() -> SynapticStrength {
    SynapticStrength::Sigmoid(SigmoidStrength::new(9 * UNIT, UNIT, STEP_RATIO))
}

fn names(v: &[&str]) -> Vec<String> {
    v.iter().map(|s| s.to_string()).collect()
}

fn build(
    geometry: BoxEcp,
    sensors: &[&str],
    actuators: &[&str],
    reflexes: Vec<Reflex>,
    cap: usize,
) -> Result<Encephalon, ConfigError> {
    Encephalon::new(
        geometry,
        names(sensors),
        names(actuators),
        FIRE_THRESHOLD,
        EMA_ALPHA,
        template(),
        TYPE_THRESHOLD,
        cap,
        reflexes,
    )
}

fn period_of(measurement: u64) -> u32 {
    linear_encoder(measurement, 100 * UNIT)
}

fn actuator_ema(e: &Encephalon, k: usize) -> u64 {
    e.actuator_values()[k]
}

#[test]
fn silent_network_stays_silent() {
    let g = BoxEcp::new(8, 0, 1, 1).unwrap();
    let mut e = build(g, &[], &["out"], vec![], 64).unwrap();
    for _ in 0..1000 {
        e.run_cycle(&vec![]);
    }
    assert_eq!(e.get_cycle_count(), 1000);
    assert_eq!(actuator_ema(&e, 0), 0);
}

#[test]
fn single_excitatory_reflex_drives_actuator() {
    let g = BoxEcp::new(8, 1, 1, 1).unwrap();
    let reflexes = vec![Reflex::new("s".to_string(), "a".to_string(), SynapticType::Excitatory, 20 * UNIT)];
    let mut e = build(g, &["s"], &["a"], reflexes, 64).unwrap();
    let period = period_of(UNIT);
    assert_eq!(period, 1);
    e.run_cycle(&vec![period]);
    assert_eq!(actuator_ema(&e, 0), 0);
    let mut last = 0;
    for _ in 2..300 {
        e.run_cycle(&vec![period]);
        let now = actuator_ema(&e, 0);
        assert!(now > last);
        last = now;
    }
    assert!(last > UNIT / 2);
}

#[test]
fn inhibitory_cancels_excitatory() {
    let g = BoxEcp::new(8, 1, 1, 1).unwrap();
    let reflexes = vec![
        Reflex::new("s".to_string(), "a".to_string(), SynapticType::Excitatory, 20 * UNIT),
        Reflex::new("s".to_string(), "a".to_string(), SynapticType::Inhibitory, 20 * UNIT),
    ];
    let mut e = build(g, &["s"], &["a"], reflexes, 64).unwrap();
    for _ in 0..300 {
        e.run_cycle(&vec![1]);
        assert_eq!(actuator_ema(&e, 0), 0);
        match &e.rx_neurons[e.actuator_interfaces[0].actuator_neuron] {
            Receiver::Actuator(a) => {
                assert_eq!(a.internal_charge.0, 0);
                assert_eq!(a.internal_charge.1, 0);
            }
            Receiver::Plastic(_) => panic!("the actuator interface names a plastic neuron"),
        }
    }
}

fn opposing_drive(back: u64, front: u64) -> u64 {
    let g = BoxEcp::new(8, 2, 1, 1).unwrap();
    let reflexes = vec![
        Reflex::new("back_pain".to_string(), "forward_wheel".to_string(), SynapticType::Excitatory, 20 * UNIT),
        Reflex::new("front_pain".to_string(), "forward_wheel".to_string(), SynapticType::Inhibitory, 20 * UNIT),
    ];
    let mut e = build(g, &["front_pain", "back_pain"], &["forward_wheel"], reflexes, 64).unwrap();
    let mut periods = vec![0u32; 2];
    for (k, iface) in e.sensory_interfaces.iter().enumerate() {
        periods[k] = if iface.name == "back_pain" { period_of(back) } else { period_of(front) };
    }
    for _ in 0..200 {
        e.run_cycle(&periods);
    }
    actuator_ema(&e, 0)
}

#[test]
fn opposing_drive_back_pain_moves_forward() {
    assert!(opposing_drive(UNIT, 0) > 0);
}

#[test]
fn opposing_drive_front_pain_does_not() {
    assert_eq!(opposing_drive(0, UNIT), 0);
}

#[test]
fn plastic_cap_holds() {
    let g = BoxEcp::new(27, 2, 1, 27).unwrap();
    let reflexes = vec![Reflex::new("x".to_string(), "y".to_string(), SynapticType::Excitatory, 20 * UNIT)];
    let mut e = build(g, &["x", "z"], &["y"], reflexes, 3).unwrap();
    for _ in 0..400 {
        e.run_cycle(&vec![1, 2]);
        for s in e.sensory_neurons.iter() {
            assert!(s.plastic_synapses.len() <= 3);
        }
        for r in e.rx_neurons.iter() {
            if let Receiver::Plastic(p) = r {
                assert!(p.plastic_synapses.len() <= 3);
            }
        }
    }
    assert!(e.sensory_neurons.iter().any(|s| !s.plastic_synapses.is_empty()));
}

#[test]
fn construction_fails_on_actuator_count() {
    let g = BoxEcp::new(8, 0, 1, 1).unwrap();
    let r = build(g, &[], &["a", "b"], vec![], 64);
    assert_eq!(r.err(), Some(ConfigError::ActuatorCountMismatch));
}

#[test]
fn construction_fails_on_sensor_count() {
    let g = BoxEcp::new(8, 1, 1, 1).unwrap();
    let r = build(g, &[], &["a"], vec![], 64);
    assert_eq!(r.err(), Some(ConfigError::SensorCountMismatch));
}

#[test]
fn names_pair_from_the_end_of_the_lists() {
    let g = BoxEcp::new(27, 3, 2, 1).unwrap();
    let e = build(g, &["s0", "s1", "s2"], &["a0", "a1"], vec![], 64).unwrap();
    let s: Vec<&str> = e.sensory_interfaces.iter().map(|i| i.name.as_str()).collect();
    assert_eq!(s, vec!["s2", "s1", "s0"]);
    let a: Vec<&str> = e.actuator_interfaces.iter().map(|i| i.name.as_str()).collect();
    assert_eq!(a, vec!["a1", "a0"]);
    assert_eq!(e.actuator_interfaces[0].actuator_neuron, 18);
    assert_eq!(e.actuator_interfaces[1].actuator_neuron, 19);
    assert_eq!(e.sensory_neurons[1].loc.x, 1);
    assert_eq!(e.sensory_neurons[1].loc.z, -1);
}

#[test]
fn reflexes_with_unknown_names_are_skipped() {
    let g = BoxEcp::new(8, 1, 1, 1).unwrap();
    let reflexes = vec![
        Reflex::new("nobody".to_string(), "a".to_string(), SynapticType::Excitatory, 20 * UNIT),
        Reflex::new("s".to_string(), "nothing".to_string(), SynapticType::Excitatory, 20 * UNIT),
        Reflex::new("s".to_string(), "a".to_string(), SynapticType::Inhibitory, 7 * UNIT),
        Reflex::new("s".to_string(), "a".to_string(), SynapticType::Excitatory, 3 * UNIT),
    ];
    let e = build(g, &["s"], &["a"], reflexes, 64).unwrap();
    let statics = &e.sensory_neurons[0].static_synapses;
    assert_eq!(statics.len(), 2);
    assert_eq!(statics[0].strength, 7 * UNIT);
    assert_eq!(statics[0].synaptic_type, SynapticType::Inhibitory);
    assert_eq!(statics[0].target, 4);
    assert_eq!(statics[1].fire(), (4, 3 * UNIT as i64));
}

#[test]
fn reflex_delivers_into_next_slot_only() {
    let g = BoxEcp::new(8, 1, 1, 1).unwrap();
    let reflexes = vec![Reflex::new("s".to_string(), "a".to_string(), SynapticType::Inhibitory, 6 * UNIT)];
    let mut e = build(g, &["s"], &["a"], reflexes, 0).unwrap();
    e.run_cycle(&vec![1]);
    let idx = e.actuator_interfaces[0].actuator_neuron;
    match &e.rx_neurons[idx] {
        Receiver::Actuator(a) => {
            assert_eq!(a.internal_charge.get_charge(e.get_charge_cycle()), 0);
            assert_eq!(a.internal_charge.get_charge(e.get_charge_cycle().next_cycle()), -6_000_000);
        }
        Receiver::Plastic(_) => panic!("the actuator interface names a plastic neuron"),
    }
    for r in e.rx_neurons.iter().enumerate().filter(|(i, _)| *i != idx) {
        match r.1 {
            Receiver::Plastic(p) => assert_eq!(p.internal_charge.0 + p.internal_charge.1, 0),
            Receiver::Actuator(_) => {}
        }
    }
}

#[test]
fn period_zero_never_fires() {
    let g = BoxEcp::new(8, 1, 1, 1).unwrap();
    let reflexes = vec![Reflex::new("s".to_string(), "a".to_string(), SynapticType::Excitatory, 20 * UNIT)];
    let mut e = build(g, &["s"], &["a"], reflexes, 64).unwrap();
    for _ in 0..100 {
        e.run_cycle(&vec![0]);
        assert_eq!(e.sensory_neurons[0].ema, 0);
    }
    assert_eq!(actuator_ema(&e, 0), 0);
}

#[test]
fn sensory_neuron_fires_on_multiples_of_period() {
    let g = BoxEcp::new(8, 1, 0, 1).unwrap();
    let mut e = build(g, &["s"], &[], vec![], 0).unwrap();
    let mut fires = vec![];
    for _ in 0..9 {
        let before = e.sensory_neurons[0].ema;
        e.run_cycle(&vec![3]);
        fires.push(e.sensory_neurons[0].ema > before);
    }
    assert_eq!(fires, vec![false, false, true, false, false, true, false, false, true]);
}

#[test]
fn charge_equal_to_threshold_does_not_fire() {
    let g = BoxEcp::new(8, 1, 1, 1).unwrap();
    let reflexes = vec![Reflex::new("s".to_string(), "a".to_string(), SynapticType::Excitatory, 10 * UNIT)];
    let mut e = build(g, &["s"], &["a"], reflexes, 0).unwrap();
    for _ in 0..50 {
        e.run_cycle(&vec![1]);
    }
    assert_eq!(actuator_ema(&e, 0), 0);
}

#[test]
fn local_random_neuron_is_a_receiver() {
    let g = BoxEcp::new(125, 0, 0, 27).unwrap();
    let e = build(g, &[], &[], vec![], 4).unwrap();
    for _ in 0..100 {
        let r = e.local_random_neuron(&eywa::ecp_geometry::Loc { x: 4, y: 0, z: 2 }).unwrap();
        assert!(r < 125);
        let x = r % 5;
        let y = (r / 5) % 5;
        let z = r / 25;
        assert!((2..=4).contains(&x) && y <= 2 && (1..=3).contains(&z));
    }
}

#[test]
fn interfaces_set_periods_and_read_frequencies() {
    let g = BoxEcp::new(8, 1, 1, 1).unwrap();
    let reflexes = vec![Reflex::new("s".to_string(), "a".to_string(), SynapticType::Excitatory, 20 * UNIT)];
    let mut e = build(g, &["s"], &["a"], reflexes, 64).unwrap();
    let iface = e.sensory_interfaces[0].clone();
    iface.run_cycle(&mut e.sensory_neurons, 5);
    assert_eq!(e.sensory_neurons[0].period, 5);
    for _ in 0..2 {
        e.run_cycle(&vec![1]);
    }
    let out = e.actuator_interfaces[0].run_cycle(&e.rx_neurons);
    assert_eq!(out, 19_802);
    assert_eq!(out, e.actuator_values()[0]);
}

#[test]
fn fire_of_previous_cycle_is_visible_to_next_cycle() {
    let g = BoxEcp::new(8, 1, 1, 1).unwrap();
    let reflexes = vec![Reflex::new("s".to_string(), "a".to_string(), SynapticType::Excitatory, 20 * UNIT)];
    let mut e = build(g, &["s"], &["a"], reflexes, 0).unwrap();
    let idx = e.actuator_interfaces[0].actuator_neuron;
    let mut fired_last = false;
    for c in 1..20u64 {
        let charge_before = e.rx_neurons[idx].get_charge(e.get_charge_cycle().next_cycle());
        e.run_cycle(&vec![1]);
        let fired = charge_before > FIRE_THRESHOLD;
        assert_eq!(e.rx_neurons[idx].fired_on_prev_cycle(e.get_charge_cycle().next_cycle()), fired);
        assert_eq!(fired, c >= 2);
        fired_last = fired;
    }
    assert!(fired_last);
}
