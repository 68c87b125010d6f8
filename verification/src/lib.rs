//! Verified core of an image mirroring service: request paths, stored file names,
//! configuration parsing, address policy and the decisions taken while serving images.

pub mod text;
pub mod config;
pub mod image_type;
pub mod cached_images;
pub mod address;
pub mod fetch;
pub mod source;
pub mod memory;
pub mod signature;
pub mod serving;
