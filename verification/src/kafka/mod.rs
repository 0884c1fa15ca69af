pub mod lsst;
