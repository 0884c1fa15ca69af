//! What holds of the library as a whole.
pub mod alerts;
pub mod crossmatch;
pub mod hosts;
pub mod light_curves;
pub mod names;
pub mod numbers;
pub mod replies;
pub mod reprocessing;
pub mod requests;
pub mod running;
pub mod searches;
pub mod sharing;
pub mod texts;
pub mod topics;
