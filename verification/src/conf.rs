//! Configuration of the services.
use vstd::prelude::*;

use crate::binary::Double;
use crate::document::Document;

verus! {

/// Where product analytics go.
#[derive(Clone, Debug)]
pub struct PostHogConfig {
    pub project_api_key: String,
    pub host: String,
    pub queue_capacity: usize,
    pub flush_interval_seconds: u64,
}

impl PostHogConfig {
    /// Analytics are on when a project key is configured.
    pub open spec fn enabled(self) -> bool {
        self.project_api_key@.len() > 0
    }

    pub fn is_enabled(&self) -> (enabled: bool)
        ensures
            enabled == self.enabled(),
    {
        !self.project_api_key.as_str().is_empty()
    }
}

/// The radii of a catalog in arcseconds.
#[derive(Clone, Copy, Debug)]
pub struct CatalogRadii {
    /// The cone that the database is asked for.
    pub base: Double,
    /// The smallest radius that a row gets by its size.
    pub size_min: Double,
    /// The largest radius that a row gets by its size, where one is configured.
    pub size_max: Double,
    /// The size at which a row's own radius overtakes the cone.
    pub size_threshold: Double,
}

/// How alerts are matched against one catalog.
#[derive(Debug)]
pub struct CatalogXmatchConfig {
    pub catalog: String,
    pub collection_name: String,
    /// Radius of the cone that the database is asked for, in radians.
    pub radius: Double,
    pub projection: Document,
    pub use_distance: bool,
    pub distance_key: Option<String>,
    pub distance_max: Option<Double>,
    pub distance_max_near: Option<Double>,
    pub max_results: Option<usize>,
    pub angular_size_key: Option<String>,
    /// Radius of the cone for rows that are large, in radians.
    pub angular_size_radius_max: Option<Double>,
    pub type_key: Option<String>,
    pub stellar_types: Vec<String>,
    pub radii: CatalogRadii,
}

/// Whether a measured size can be used: a positive, finite number.
pub open spec fn usable_size(size: Option<Double>) -> bool {
    size matches Some(size) && size.is_finite_spec() && (Double { bits: 0 }).less(size)
}

impl CatalogXmatchConfig {
    /// A catalog that matches on distance says how far.
    pub open spec fn valid(self) -> bool {
        self.use_distance ==> self.distance_max is Some && self.distance_max_near is Some
    }

    /// Radius in arcseconds for a row of the given size, of which `scaled` is the
    /// configured multiple of its half: the cone when the catalog has no sizes,
    /// and otherwise `scaled` between the two bounds, or the lower one for a row
    /// without a usable size.
    pub open spec fn radius_for(self, size: Option<Double>, scaled: Double) -> Double {
        let cap = if self.angular_size_radius_max is Some {
            self.radii.size_max
        } else {
            self.radii.base
        };
        if self.angular_size_key is None {
            self.radii.base
        } else if usable_size(size) {
            scaled.greatest(self.radii.size_min).least(cap)
        } else {
            self.radii.size_min
        }
    }

    pub fn match_radius_arcsec(&self, size: Option<Double>, scaled: Double) -> (radius: Double)
        ensures
            radius == self.radius_for(size, scaled),
    {
        let cap = if self.angular_size_radius_max.is_some() {
            self.radii.size_max
        } else {
            self.radii.base
        };
        if self.angular_size_key.is_none() {
            return self.radii.base;
        }
        match size {
            Some(size) => {
                if size.is_finite() && (Double { bits: 0 }).lt(size) {
                    scaled.max(self.radii.size_min).min(cap)
                } else {
                    self.radii.size_min
                }
            },
            None => self.radii.size_min,
        }
    }
}

}
