//! Camera-level types and the Lepton SDK command layer.

pub mod lepton;
pub mod types;
