pub mod enums;
pub mod host;
pub mod lightcurves;
pub mod parser;
pub mod spatial;
