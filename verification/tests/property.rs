use lottie_core::{CompObject, LayerObject, TransformObject};

#[test]
fn test_layer_object() {
    let layer = LayerObject::new(5, "Test Layer");
    assert_eq!(layer.index(), 5);
    assert_eq!(layer.name(), "Test Layer");
}

#[test]
fn test_comp_object() {
    let mut comp = CompObject::new();

    // Add multiple layers
    let layer1 = LayerObject::new(1, "Background");
    let layer2 = LayerObject::new(2, "Circle");
    let layer3 = LayerObject::new(3, "Text Layer");

    comp.add_layer(layer1);
    comp.add_layer(layer2);
    comp.add_layer(layer3);

    // Verify num_layers
    assert_eq!(comp.num_layers(), 3);

    // Access by index
    let by_index = comp.layer_by_index(2);
    assert!(by_index.is_some());
    assert_eq!(by_index.unwrap().name(), "Circle");

    // Access by name
    let by_name = comp.layer_by_name("Text Layer");
    assert!(by_name.is_some());
    assert_eq!(by_name.unwrap().index(), 3);

    // Non-existent access
    assert!(comp.layer_by_index(999).is_none());
    assert!(comp.layer_by_name("NonExistent").is_none());
}

#[test]
fn test_comp_object_clone() {
    let mut comp = CompObject::new();
    comp.add_layer(LayerObject::new(1, "Layer1"));
    comp.add_layer(LayerObject::new(2, "Layer2"));

    let cloned = comp.clone();

    // Verify clone works correctly
    assert_eq!(cloned.num_layers(), 2);
    assert_eq!(cloned.layer_by_index(1).unwrap().name(), "Layer1");
    assert_eq!(cloned.layer_by_name("Layer2").unwrap().index(), 2);
}

#[test]
fn layer_object_with_transform() {
    let layer = LayerObject::with_transform(7, "Moving", TransformObject::new());
    assert_eq!(layer.index(), 7);
    assert_eq!(layer.name(), "Moving");
    let mut comp = CompObject::new();
    comp.add_layer(layer);
    comp.add_layer(LayerObject::new(7, "Replacement"));
    assert_eq!(comp.layer_by_index(7).unwrap().name(), "Replacement");
    // the name of a replaced layer no longer names any layer
    assert!(comp.layer_by_name("Moving").is_none());
    assert_eq!(comp.layer_by_name("Replacement").unwrap().index(), 7);
    assert_eq!(comp.num_layers(), 1);
}
