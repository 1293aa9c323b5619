//! Fetching and rendering the on-chain accounts a program owns: the
//! argument model with its conflict rules, the filter compiler, the
//! request builder, the decoder registry, and the per-account result
//! pipeline, each with its contract.

pub mod address;
pub mod base64code;
pub mod decoder;
pub mod errors;
pub mod filter;
pub mod hexcode;
pub mod numparse;
pub mod pipeline;
pub mod report;
pub mod request;
pub mod rpc;
pub mod strutil;
