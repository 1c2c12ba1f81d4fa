//! Distance, elevation gain, pauses and speed of a track.

pub mod distance;
pub mod elevation;
pub mod pause;
pub mod speed;
pub mod timing;

pub use self::distance::way_distance;
pub use self::elevation::way_elevations;
pub use self::pause::{
    find_pauses, PauseGaps, PauseInterval, PausePolicy, CYCLING_DISTANCE_GAP,
    CYCLING_DURATION_GAP,
};
pub use self::speed::{avg_speed, max_speed};
pub use self::timing::way_durations;
