//! Local model runtimes: where they listen, which models they hold, and which of those
//! are a given catalog model.
pub mod matching;
pub mod quant;
pub mod mlx;
pub mod ollama;
pub mod ollama_rows;
pub mod answers;
pub mod disk;
pub mod hosts;
pub mod openai;
pub mod runtimes;
