//! Discrete core of a reservation-based intersection manager.
//!
//! Positions that the geometry fixes exactly are held as integer pixels,
//! angles that are multiples of a right angle as quarter turns, and the
//! tile/time-slot reservation table as a map from tile keys to vehicle ids.
//! Sampling a curved path, animation and drawing are left to the caller.

pub mod constants;
pub mod geometry;
pub mod vehicle;
pub mod reservation;
pub mod intersection;
