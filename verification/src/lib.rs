//! Verified building blocks of the Nexus (Nx) archive format: packed headers,
//! table of contents layouts, string pools and dictionary payloads.
#![allow(unused_imports)]

pub mod api;
pub mod headers;
pub mod utilities;
