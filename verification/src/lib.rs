//! A fixed-point articulatory voice model: a glottal source feeding a
//! waveguide simulation of the oral and nasal cavities.
//!
//! Every quantity is an integer counted in millionths (see [`fixed::ONE`]), so
//! that each operation has an exact meaning that the contracts can state.
pub mod fixed;
pub mod geometry;
pub mod power;
pub mod velum;
pub mod cavity;
pub mod tract;
pub mod acoustics;
pub mod note;
pub mod noise;
pub mod trig;
pub mod glottis;
pub mod timing;
pub mod pulse;
pub mod voice;
