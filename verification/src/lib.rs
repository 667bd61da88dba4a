//! Health bookkeeping of client services and batching of chat completion
//! detections.

pub mod assoc;
pub mod batcher;
pub mod batcher_laws;
pub mod chunk;
pub mod client_code;
pub mod detection;
pub mod health;
pub mod health_laws;
pub mod outside;
pub mod string_map;
pub mod text;

