//! Records that describe the resources a document declares.

pub mod deployment_node;
pub mod node;
pub mod service_node;
