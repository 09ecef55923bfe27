//! Protocol adaptation layer of an S3-compatible server: typed operation
//! results become wire responses, and request values are extracted.
pub mod xml_tree;
pub mod error;
pub mod response;
pub mod time;
pub mod dto;
pub mod output;
pub mod request;
pub mod laws;
