//! Signal-processing core of a camera shutter speed tester.
//!
//! The device samples a light sensor, calibrates against the ambient level,
//! waits for the light to rise above a trigger threshold, follows the pulse
//! until it falls below a lower threshold and reports how long the shutter
//! was open.
#![allow(unused_imports)]

pub mod app_mode;
pub mod bootloader;
pub mod calibration;
pub mod chart;
pub mod clock;
pub mod compacting;
pub mod fx;
pub mod history_iter;
pub mod measurement;
pub mod ring;
pub mod sampler;
pub mod screens;
pub mod shapes;
pub mod sound;
pub mod stats;

