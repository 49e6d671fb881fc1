//! Anemometer pulse counting, wind-speed sampling and time-bucket
//! aggregation of the measurement history.
//!
//! Time is kept in microseconds since the Unix epoch, speeds in
//! micrometres per second and directions in whole degrees.

pub mod aggregate;
pub mod clock;
pub mod measurement;
pub mod pulse;
pub mod rate;
pub mod text;
