//! Data preparation and architecture planning for a character-aware
//! language model: example construction, corpus splitting, batch iteration
//! and the shapes that flow through the encoders.

pub mod config;
pub mod dataset;
pub mod error;
pub mod example;
pub mod json;
pub mod loader;
pub mod model;
pub mod permutation;
pub mod splitter;
pub mod text;
pub mod vocabulary;

pub use config::{ConfigElmo, Conigure, FloatBits, JsonELMo};
pub use dataset::{DatasetBuilder, ELMoText};
pub use error::ElmoError;
pub use json::Json;
pub use loader::{Device, Loader};
pub use model::{CharLevelNet, CnnBlock, ForwardState, Highway, UniLM};
pub use splitter::Splitter;
