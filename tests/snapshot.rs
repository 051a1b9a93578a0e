use train_trm::{
    check_snapshot, ActivationType, ConfigError, LayerRecord, SnapshotError, TRMConfig,
};

fn small_config() -> TRMConfig {
    TRMConfig {
        input_dim: 2,
        output_dim: 1,
        hidden_dim: 3,
        latent_dim: 2,
        l_layers: 1,
        h_cycles: 1,
        l_cycles: 1,
    }
}

fn record(rows: usize, cols: usize, activation: ActivationType) -> LayerRecord<f32> {
    LayerRecord {
        weights: vec![vec![0.25; cols]; rows],
        bias: vec![0.0; rows],
        activation,
    }
}

/// Layers with the shapes that `small_config` plans: 5 -> 3 (ReLU), 3 -> 2 (Tanh).
fn planned_layers() -> Vec<LayerRecord<f32>> {
    vec![record(3, 5, ActivationType::ReLU), record(2, 3, ActivationType::Tanh)]
}

#[test]
fn snapshot_with_planned_shapes_is_accepted() {
    let topology = check_snapshot(&small_config(), &planned_layers()).unwrap();
    assert_eq!(topology.num_parameters(), 3 * 5 + 3 + 2 * 3 + 2);
}

#[test]
fn snapshot_with_missing_layer_is_rejected() {
    let mut layers = planned_layers();
    layers.pop();
    assert_eq!(
        check_snapshot(&small_config(), &layers).err(),
        Some(SnapshotError::LayerCount { expected: 2, actual: 1 })
    );
}

#[test]
fn snapshot_with_wrong_weight_width_is_rejected() {
    let mut layers = planned_layers();
    layers[1].weights[1].push(1.0);
    assert_eq!(
        check_snapshot(&small_config(), &layers).err(),
        Some(SnapshotError::LayerShape { index: 1 })
    );
}

#[test]
fn snapshot_with_wrong_bias_or_activation_is_rejected() {
    let mut layers = planned_layers();
    layers[0].bias.push(0.0);
    assert_eq!(
        check_snapshot(&small_config(), &layers).err(),
        Some(SnapshotError::LayerShape { index: 0 })
    );
    let mut layers = planned_layers();
    layers[1].activation = ActivationType::Identity;
    assert_eq!(
        check_snapshot(&small_config(), &layers).err(),
        Some(SnapshotError::LayerShape { index: 1 })
    );
}

#[test]
fn snapshot_with_invalid_config_is_rejected() {
    let mut config = small_config();
    config.latent_dim = 0;
    assert_eq!(
        check_snapshot(&config, &planned_layers()).err(),
        Some(SnapshotError::Config(ConfigError::NotPositive))
    );
}
