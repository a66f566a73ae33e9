//! Weight acquisition engine for a strain-gauge load cell: exact calibration
//! of raw samples, averaging-based taring and windowed settle detection.

pub mod calibration;
pub mod scale;
pub mod stability;
pub mod taring;

pub use calibration::{Calibrated, ScaleFactor};
pub use stability::{StabilityWindow, Tolerance, SETTLE_WINDOW};
pub use scale::{NotReadyError, Scale, ScaleView};
