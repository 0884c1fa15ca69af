pub mod api;
pub mod backfill;
pub mod binary;
pub mod conf;
pub mod document;
pub mod enrichment;
pub mod formula;
pub mod gpu;
pub mod json;
pub mod kafka;
pub mod laws;
pub mod named;
pub mod order;
pub mod reprocess;
pub mod text;
pub mod utils;
