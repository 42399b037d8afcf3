//! Groove scheduling for agent fleets: cyclic micro-timing patterns, a swing
//! scheduler, pocket (flow) state tracking, syncopation and polyrhythmic
//! cadences, with their behaviour stated as contracts and proved.

pub mod cadence;
pub mod feel;
pub mod groove;
pub mod pocket;
pub mod polyrhythm;
pub mod swing;
pub mod syncopation;
pub mod timing;

pub use feel::{Feel, FeelScore, Ratio};
pub use groove::Groove;
pub use pocket::{Pocket, PocketState};
pub use polyrhythm::PolyrhythmWork;
pub use swing::SwingScheduler;
pub use syncopation::Syncopator;
pub use timing::Timing;
