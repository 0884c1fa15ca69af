pub mod babamul;
pub mod models;
