//! The shape check of a saved model: a snapshot is accepted only where its
//! layers are exactly those that its configuration builds.

use crate::config::{ConfigError, TRMConfig};
use crate::topology::{ActivationType, LayerShape, Topology};
use vstd::prelude::*;

verus! {

/// The parameters of one layer as a snapshot holds them: `weights` has one
/// row per output and one column per input.
pub struct LayerRecord<T> {
    pub weights: Vec<Vec<T>>,
    pub bias: Vec<T>,
    pub activation: ActivationType,
}

/// `record` holds parameters of exactly the shape `shape`.
pub open spec fn record_fits<T>(record: LayerRecord<T>, shape: LayerShape) -> bool {
    &&& record.weights@.len() == shape.output_dim
    &&& forall|r: int|
        0 <= r < record.weights@.len() ==> (#[trigger] record.weights@[r])@.len() == shape.input_dim
    &&& record.bias@.len() == shape.output_dim
    &&& record.activation == shape.activation
}

/// The layers of a snapshot are those that `config` builds.
pub open spec fn layers_fit<T>(config: TRMConfig, layers: Seq<LayerRecord<T>>) -> bool {
    &&& layers.len() == config.plan().len()
    &&& forall|i: int| 0 <= i < layers.len() ==> record_fits(#[trigger] layers[i], config.plan()[i])
}

/// Why a snapshot cannot be loaded.
#[derive(Debug, Clone, Copy, PartialEq, Eq, Structural)]
pub enum SnapshotError {
    /// The configuration cannot define a model.
    Config(ConfigError),
    /// The configuration builds `expected` layers; the snapshot has `actual`.
    LayerCount { expected: usize, actual: usize },
    /// Layer `index` is the first whose parameters do not have the planned shape.
    LayerShape { index: usize },
}

fn check_record<T>(record: &LayerRecord<T>, shape: &LayerShape) -> (r: bool)
    ensures
        r == record_fits(*record, *shape),
{
    if record.weights.len() != shape.output_dim || record.bias.len() != shape.output_dim
        || record.activation != shape.activation {
        return false;
    }
    let mut i: usize = 0;
    while i < record.weights.len()
        invariant
            0 <= i <= record.weights@.len(),
            forall|r: int| 0 <= r < i ==> (#[trigger] record.weights@[r])@.len() == shape.input_dim,
        decreases record.weights@.len() - i,
    {
        if record.weights[i].len() != shape.input_dim {
            return false;
        }
        i = i + 1;
    }
    true
}

/// Checks a loaded snapshot against its configuration and gives the topology
/// of the network it describes.
pub fn check_snapshot<T>(config: &TRMConfig, layers: &Vec<LayerRecord<T>>) -> (r: Result<
    Topology,
    SnapshotError,
>)
    ensures
        forall|e: ConfigError|
            r == Err::<Topology, SnapshotError>(SnapshotError::Config(e)) <==> (
            !config.is_valid() && e == (if config.is_positive() {
                ConfigError::TooLarge
            } else {
                ConfigError::NotPositive
            })),
        forall|expected: usize, actual: usize|
            r == Err::<Topology, SnapshotError>(SnapshotError::LayerCount { expected, actual })
                <==> (config.is_valid() && layers@.len() != config.plan().len() && expected
                == config.plan().len() && actual == layers@.len()),
        forall|index: usize|
            r == Err::<Topology, SnapshotError>(SnapshotError::LayerShape { index }) <==> {
                &&& config.is_valid()
                &&& layers@.len() == config.plan().len()
                &&& index < layers@.len()
                &&& !record_fits(layers@[index as int], config.plan()[index as int])
                &&& forall|i: int|
                    0 <= i < index ==> record_fits(#[trigger] layers@[i], config.plan()[i])
            },
        r is Ok <==> config.is_valid() && layers_fit(*config, layers@),
        r matches Ok(t) ==> t@ == config.plan(),
{
    let topology = match config.topology() {
        Ok(t) => t,
        Err(e) => {
            return Err(SnapshotError::Config(e));
        },
    };
    let shapes = topology.layers();
    if layers.len() != shapes.len() {
        return Err(SnapshotError::LayerCount { expected: shapes.len(), actual: layers.len() });
    }
    let mut i: usize = 0;
    while i < layers.len()
        invariant
            0 <= i <= layers@.len(),
            layers@.len() == shapes@.len(),
            shapes@ == config.plan(),
            config.is_valid(),
            forall|k: int| 0 <= k < i ==> record_fits(#[trigger] layers@[k], config.plan()[k]),
        decreases layers@.len() - i,
    {
        if !check_record(&layers[i], &shapes[i]) {
            return Err(SnapshotError::LayerShape { index: i });
        }
        i = i + 1;
    }
    Ok(topology)
}

/// What a model writes is what loading accepts: layers that have the shapes
/// of their configuration's plan pass the check, and the topology that comes
/// back is that plan.
pub proof fn lemma_saved_layers_accepted<T>(config: TRMConfig, layers: Seq<LayerRecord<T>>)
    requires
        config.is_valid(),
        layers.len() == config.plan().len(),
        forall|i: int| 0 <= i < layers.len() ==> record_fits(#[trigger] layers[i], config.plan()[i]),
    ensures
        layers_fit(config, layers),
{
}

} // verus!
