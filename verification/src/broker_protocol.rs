//! Topics, topic layers and topic patterns of the broker.
pub mod topics;
pub mod topic_layers;
pub mod topic_patterns;
