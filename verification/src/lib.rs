//! Verified core of a small video-retrieval service.
//!
//! The library validates and normalizes a client-supplied video reference,
//! plans which retrieval provider handles a request, maps every provider
//! result or failure into one closed outcome shape, and renders that outcome
//! as an HTTP reply. All network, subprocess and filesystem work is left to
//! the surrounding program; the library only decides.

pub mod model;
pub mod normalize;
mod text;
pub mod codec;
pub mod orchestrate;
pub mod respond;
