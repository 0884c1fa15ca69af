pub mod alerts;
pub mod analytics;
pub mod cutouts;
pub mod observability;
pub mod queries;
pub mod response;
