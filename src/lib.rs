//! A style-transfer inference engine over fixed-point image tensors.
pub mod blend;
pub mod cache;
pub mod codec;
pub mod engine;
pub mod error;
pub mod fixed;
pub mod layout;
pub mod registry;
pub mod simulate;
