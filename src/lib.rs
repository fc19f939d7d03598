//! Verified core of a MOSSE correlation-filter object tracker: window
//! geometry on luminance frames, peak location, sidelobe selection for the
//! peak-to-sidelobe ratio, and the registry that keeps trackers alive while
//! their confidence holds.
pub mod frame;
pub mod geometry;
pub mod peak;
pub mod psr;
pub mod registry;

pub use frame::LumaFrame;
pub use geometry::{index_to_coords, window_crop, TrackingWindow, WindowError};
pub use peak::peak_index;
pub use psr::sidelobe_exclusion;
pub use registry::{TrackerRecord, TrackerRegistry};
