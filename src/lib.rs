//! A small online-learning spiking network: neurons placed on a lattice,
//! fed by sensory neurons, read out through actuator neurons, and trained by
//! local Hebbian plasticity.
//!
//! Every analog quantity (charge, synaptic strength, firing frequency,
//! smoothing constants, thresholds) is held in fixed point: the value 1.0 is
//! [`fixed::UNIT`].

pub mod ecp_geometry;
pub mod encephalon;
pub mod fixed;
pub mod synapse;
pub mod neuron;
pub mod neuron_interfaces;
