//! Assembly of a local multi-node test deployment: validated parameters,
//! per-node filesystem layout and configuration documents, and the
//! partition of nodes into subnets.
pub mod address;
pub mod deployment;
pub mod keys;
pub mod node_config;
pub mod params;
pub mod paths;
pub mod settings;
pub mod text;
pub mod topology;
