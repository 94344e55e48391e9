//! The exact core of a hydrogen-atom visualiser: orbitals, the states shown on
//! screen and their time-evolution parameters, the key map, the colour palette
//! index, the sampling budget and the screenshot schedule.

pub mod cloud;
pub mod keys;
pub mod orbital;
pub mod shot;
pub mod state;

pub use cloud::{hue_index, keep_sampling, CLOUD_POINTS, HUES, MAX_ATTEMPTS, PEAK_PROBES};
pub use keys::{control_step, initial_state, state_from_key, ControlOutcome};
pub use orbital::{Orbital, ENERGY_UNITS_PER_HARTREE, RADIUS_UNITS_PER_BOHR};
pub use shot::{shot_path, ShotPlan};
pub use state::{SimState, Term};
