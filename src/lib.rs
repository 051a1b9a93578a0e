//! Tiny Recursive Model (TRM): a small network that refines a latent state
//! and a candidate answer through nested think/act cycles.
//!
//! The library holds the model's structure: its configuration and the widths
//! derived from it, the layer topology and its parameter count, the packing
//! of think and act inputs into the shared network's buffer, the think/act
//! schedule of a forward pass, and the shape check of a saved snapshot.

pub mod config;
pub mod loss;
pub mod matrix;
pub mod reasoning;
pub mod snapshot;
pub mod topology;

pub use config::{ConfigError, TRMConfig};
pub use loss::LossType;
pub use matrix::Matrix;
pub use reasoning::{act_input, pad_gradient, think_input, ForwardPass, Step};
pub use snapshot::{check_snapshot, LayerRecord, SnapshotError};
pub use topology::{ActivationType, LayerShape, Topology, TopologyError};
