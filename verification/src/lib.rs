//! An HTTP client: GET requests, downloads that can be followed, stopped and resumed,
//! and SHA-256 digests. This crate decides what to send, what to make of the answer and
//! what to do next; whoever uses it talks to the network and the disk.
pub mod dict;
pub mod download;
pub mod download_laws;
pub mod encode;
pub mod failure;
pub mod handle;
pub mod hash;
pub mod headers;
pub mod items;
pub mod request;
pub mod response;
pub mod text;
