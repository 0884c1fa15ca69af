//! Shape-aware host-galaxy association.
//!
//! Each galaxy is scored by its directional light radius (DLR), its radius along
//! the direction of the transient, rather than by a fixed circular aperture. The
//! separation in units of that radius says how many galaxy radii out the transient
//! sits. Geometry and probabilities are computed outside and handed in.
pub mod associate;
pub mod association;
pub mod catalog;
pub mod config;
pub mod dlr;
pub mod ellipse;
pub mod error;
pub mod likelihood;
pub mod prior;
pub mod types;
