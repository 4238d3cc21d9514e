//! Dataset discovery: requests, manifests, name and LFN validation, and the
//! resolvers that turn a dataset request into a manifest of CMS files.
pub mod dasgoclient;
pub mod error;
pub mod fixture;
pub mod manifest;
pub mod model;
pub mod resolver;
pub mod source_policy;
