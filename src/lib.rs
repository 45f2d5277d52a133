//! Brightness emulation through a display's gamma ramp.
//!
//! The verified core: reading backlight levels, turning them into a
//! brightness percentage, computing the scaled gamma ramp, choosing the
//! output to program, and the event-driven reconciliation state machine
//! that decides when a ramp has to be written again.
pub mod fraction;
pub mod gamma;
pub mod level;
pub mod output;
pub mod reactor;
pub mod registry;

pub use fraction::{fraction_of, scale_for, BrightnessError};
pub use gamma::{value_at, GammaTable, CHANNEL_MAX};
pub use level::parse_level;
pub use output::{name_matches, select_crtc};
pub use reactor::{classify_display_event, Event, LevelSource, Reactor};
pub use registry::{SourceTag, WatchRegistry};
