pub mod catalog;
pub mod context_fit;
pub mod double;
pub mod env;
pub mod estimate;
pub mod fit;
pub mod fit_request;
pub mod gateway;
pub mod gguf;
pub mod hf;
pub mod json;
pub mod library;
pub mod library_change;
pub mod memory;
pub mod names;
pub mod numeral;
pub mod outside;
pub mod paths;
pub mod providers;
pub mod pull;
pub mod scripts;
pub mod servers;
pub mod settings;
pub mod share;
pub mod state;
pub mod text;
pub mod text_map;
pub mod tools;
pub mod update;
