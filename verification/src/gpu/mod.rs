pub mod pool;
