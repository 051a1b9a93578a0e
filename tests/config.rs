use train_trm::{ActivationType, ConfigError, LayerShape, TRMConfig};

fn scenario_config() -> TRMConfig {
    TRMConfig {
        input_dim: 5,
        output_dim: 3,
        hidden_dim: 8,
        latent_dim: 4,
        l_layers: 2,
        h_cycles: 2,
        l_cycles: 2,
    }
}

#[test]
fn test_config_default() {
    let config = TRMConfig::default();
    assert_eq!(config.l_layers, 2);
    assert_eq!(config.h_cycles, 3);
    assert_eq!(config.l_cycles, 4);
}

#[test]
fn default_config_other_fields() {
    let config = TRMConfig::default();
    assert_eq!(config.hidden_dim, 64);
    assert_eq!(config.latent_dim, 64);
    assert_eq!(config.input_dim, 10);
    assert_eq!(config.output_dim, 10);
}

#[test]
fn widths_of_default_config() {
    let config = TRMConfig::default();
    assert_eq!(config.think_input_width(), 84);
    assert_eq!(config.act_input_width(), 74);
    assert_eq!(config.max_input_width(), 84);
    assert_eq!(config.max_output_width(), 64);
}

#[test]
fn output_width_takes_larger_of_latent_and_output() {
    let mut config = scenario_config();
    assert_eq!(config.max_output_width(), 4);
    config.output_dim = 9;
    assert_eq!(config.max_output_width(), 9);
}

#[test]
fn test_trm_creation() {
    let config = TRMConfig::default();
    let topology = config.topology().unwrap();
    assert_eq!(config.l_layers, 2);
    assert!(!topology.layers().is_empty());
}

#[test]
fn layer_plan_of_scenario_config() {
    let config = scenario_config();
    let plan = config.layer_plan();
    assert_eq!(
        plan,
        vec![
            LayerShape::new(12, 8, ActivationType::ReLU),
            LayerShape::new(8, 8, ActivationType::ReLU),
            LayerShape::new(8, 4, ActivationType::Tanh),
        ]
    );
}

#[test]
fn layer_plan_with_one_layer_has_no_hidden_to_hidden_layer() {
    let mut config = scenario_config();
    config.l_layers = 1;
    let plan = config.layer_plan();
    assert_eq!(plan.len(), 2);
    assert_eq!(plan[0], LayerShape::new(12, 8, ActivationType::ReLU));
    assert_eq!(plan[1], LayerShape::new(8, 4, ActivationType::Tanh));
}

#[test]
fn topology_of_scenario_config_counts_parameters() {
    let topology = scenario_config().topology().unwrap();
    // 12*8+8 + 8*8+8 + 8*4+4
    assert_eq!(topology.num_parameters(), 212);
    assert_eq!(topology.input_width(), 12);
    assert_eq!(topology.output_width(), 4);
}

#[test]
fn test_num_parameters() {
    let topology = TRMConfig::default().topology().unwrap();
    let num_params = topology.num_parameters();
    assert!(num_params > 0);
    // 84*64+64 + 64*64+64 + 64*64+64
    assert_eq!(num_params, 13760);
}

#[test]
fn zero_cycle_count_is_rejected() {
    let mut config = scenario_config();
    config.h_cycles = 0;
    assert_eq!(config.topology().err(), Some(ConfigError::NotPositive));
    let mut config = scenario_config();
    config.l_layers = 0;
    assert_eq!(config.topology().err(), Some(ConfigError::NotPositive));
}

#[test]
fn oversized_config_is_rejected() {
    let mut config = scenario_config();
    config.input_dim = usize::MAX;
    assert_eq!(config.topology().err(), Some(ConfigError::TooLarge));
    let mut config = scenario_config();
    config.hidden_dim = usize::MAX / 4;
    assert_eq!(config.topology().err(), Some(ConfigError::TooLarge));
}
