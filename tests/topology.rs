use train_trm::{ActivationType, LayerShape, Topology, TopologyError};

fn two_layers() -> Topology {
    let layer1 = LayerShape::new(10, 5, ActivationType::ReLU);
    let layer2 = LayerShape::new(5, 2, ActivationType::Tanh);
    Topology::new(vec![layer1, layer2]).unwrap()
}

#[test]
fn test_layer_creation() {
    let layer = LayerShape::new(10, 5, ActivationType::ReLU);
    assert_eq!((layer.output_dim, layer.input_dim), (5, 10));
    assert_eq!(layer.output_dim, 5);
    assert_eq!(layer.activation, ActivationType::ReLU);
}

#[test]
fn test_network_creation() {
    let network = two_layers();
    assert_eq!(network.layers().len(), 2);
}

#[test]
fn test_network_num_parameters() {
    let network = two_layers();
    // weights: 10*5 = 50, bias: 5 = 55 total; weights: 5*2 = 10, bias: 2 = 12 total
    assert_eq!(network.num_parameters(), 55 + 12);
}

#[test]
fn test_layer_forward_shape() {
    let layer = Topology::new(vec![LayerShape::new(3, 2, ActivationType::ReLU)]).unwrap();
    assert_eq!(layer.forward_shape(2, 3), Some((2, 2)));
}

#[test]
fn test_network_forward() {
    let layer1 = LayerShape::new(3, 4, ActivationType::ReLU);
    let layer2 = LayerShape::new(4, 2, ActivationType::Identity);
    let network = Topology::new(vec![layer1, layer2]).unwrap();
    assert_eq!(network.forward_shape(1, 3), Some((1, 2)));
}

#[test]
fn forward_shape_keeps_batch_and_ends_at_last_width() {
    let network = two_layers();
    for batch in [0usize, 1, 7, 100] {
        assert_eq!(network.forward_shape(batch, 10), Some((batch, 2)));
    }
}

#[test]
fn forward_shape_refuses_wrong_input_width() {
    let network = two_layers();
    assert_eq!(network.forward_shape(4, 5), None);
    assert_eq!(network.forward_shape(4, 11), None);
}

#[test]
fn empty_topology_is_rejected() {
    assert_eq!(Topology::new(vec![]).err(), Some(TopologyError::Empty));
}

#[test]
fn unchained_layers_are_rejected_at_first_mismatch() {
    let layers = vec![
        LayerShape::new(3, 4, ActivationType::ReLU),
        LayerShape::new(4, 6, ActivationType::ReLU),
        LayerShape::new(5, 2, ActivationType::Tanh),
        LayerShape::new(7, 2, ActivationType::Tanh),
    ];
    assert_eq!(
        Topology::new(layers).err(),
        Some(TopologyError::Mismatch { index: 1 })
    );
}

#[test]
fn overflowing_parameter_count_is_rejected() {
    let big = usize::MAX / 2;
    let layers = vec![
        LayerShape::new(2, big, ActivationType::ReLU),
        LayerShape::new(big, 1, ActivationType::Tanh),
    ];
    assert_eq!(Topology::new(layers).err(), Some(TopologyError::TooLarge));
}

#[test]
fn topology_reports_its_widths() {
    let network = two_layers();
    assert_eq!(network.input_width(), 10);
    assert_eq!(network.output_width(), 2);
}
