pub mod config;
pub mod errors;
pub mod patterns;
pub mod pipeline;
pub mod rng;
pub mod sampler;
pub mod segment;
pub mod word;
