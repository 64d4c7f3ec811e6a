use lottie_core::composition::{
    active_camera_index, layer_action, parent_chain, plan_matte_steps, LayerAction,
    LayerContentKind, MatteLink, RefResolution, RenderStep,
};
use lottie_core::effects::{
    effect_control_index, effect_kind, effect_parameters, effect_plan, layer_effects, EffectEntry,
    EffectKind, ParamValue, BY_NAME_ONLY,
};
use lottie_core::modes::{
    blend_mode_code, blend_mode_from_code, color_channel_from_code, gradient_kind_from_code,
    justification_from_code, layer_mask_modes, layer_style_kind, layer_styles, StyleEntry, line_cap_from_code, line_join_from_code, LineCap, LineJoin, mask_mode_from_code, matte_mode_from_code,
    merge_mode_from_code, ColorChannel, GradientKind, Justification, LayerStyleKind,
};
use lottie_core::schema::rendered_effect_types;
use lottie_core::shapes::{plan_shapes, shape_item_for_tag, PlannedNode, ShapeItem};
use lottie_core::{
    asset_kind_support, effect_type_support, layer_type_support, BlendMode, MaskMode, MatteMode,
    MergeMode, MergePathsShape, SchemaSupport,
};

#[test]
fn blend_codes_round_trip() {
    for code in 0u8..16 {
        assert_eq!(blend_mode_code(blend_mode_from_code(Some(code))), code);
        assert_eq!(blend_mode_from_code(Some(code)) as u8, code);
    }
    assert_eq!(blend_mode_from_code(None), BlendMode::Normal);
    assert_eq!(blend_mode_from_code(Some(16)), BlendMode::Normal);
    assert_eq!(blend_mode_from_code(Some(255)), BlendMode::Normal);
}

#[test]
fn matte_mask_and_merge_codes() {
    assert_eq!(matte_mode_from_code(1), MatteMode::Alpha);
    assert_eq!(matte_mode_from_code(2), MatteMode::AlphaInverted);
    assert_eq!(matte_mode_from_code(3), MatteMode::Luma);
    assert_eq!(matte_mode_from_code(4), MatteMode::LumaInverted);
    assert_eq!(matte_mode_from_code(9), MatteMode::Alpha);
    assert_eq!(mask_mode_from_code(Some("n")), Some(MaskMode::NoMask));
    assert_eq!(mask_mode_from_code(Some("a")), Some(MaskMode::Add));
    assert_eq!(mask_mode_from_code(Some("s")), Some(MaskMode::Subtract));
    assert_eq!(mask_mode_from_code(Some("i")), Some(MaskMode::Intersect));
    assert_eq!(mask_mode_from_code(Some("l")), Some(MaskMode::Lighten));
    assert_eq!(mask_mode_from_code(Some("d")), Some(MaskMode::Darken));
    assert_eq!(mask_mode_from_code(Some("f")), Some(MaskMode::Difference));
    assert_eq!(mask_mode_from_code(Some("add")), None);
    assert_eq!(mask_mode_from_code(None), None);
    assert_eq!(merge_mode_from_code(1), MergeMode::Merge);
    assert_eq!(merge_mode_from_code(3), MergeMode::Subtract);
    assert_eq!(merge_mode_from_code(5), MergeMode::Exclude);
    assert_eq!(merge_mode_from_code(0), MergeMode::Merge);
    let shape = MergePathsShape { nm: Some("Merge Paths 1".to_string()), mm: 4 };
    assert_eq!(shape.merge_mode(), MergeMode::Intersect);
}

#[test]
fn small_code_tables() {
    assert_eq!(color_channel_from_code(1), ColorChannel::R);
    assert_eq!(color_channel_from_code(3), ColorChannel::B);
    assert_eq!(color_channel_from_code(0), ColorChannel::A);
    assert_eq!(gradient_kind_from_code(1), GradientKind::Linear);
    assert_eq!(gradient_kind_from_code(2), GradientKind::Radial);
    assert_eq!(justification_from_code(1), Justification::Right);
    assert_eq!(justification_from_code(2), Justification::Center);
    assert_eq!(justification_from_code(0), Justification::Left);
    assert_eq!(line_cap_from_code(1), LineCap::Butt);
    assert_eq!(line_cap_from_code(2), LineCap::Round);
    assert_eq!(line_cap_from_code(3), LineCap::Square);
    assert_eq!(line_join_from_code(1), LineJoin::Miter);
    assert_eq!(line_join_from_code(3), LineJoin::Bevel);
    assert_eq!(line_join_from_code(0), LineJoin::Round);
}

#[test]
fn layer_style_kinds() {
    assert_eq!(layer_style_kind(Some(0), None), Some(LayerStyleKind::DropShadow));
    assert_eq!(layer_style_kind(Some(1), Some("Stroke")), Some(LayerStyleKind::InnerShadow));
    assert_eq!(layer_style_kind(Some(2), None), Some(LayerStyleKind::OuterGlow));
    assert_eq!(layer_style_kind(Some(3), None), Some(LayerStyleKind::Stroke));
    assert_eq!(layer_style_kind(None, None), Some(LayerStyleKind::Stroke));
    assert_eq!(layer_style_kind(Some(6), Some("Outer Stroke")), Some(LayerStyleKind::Stroke));
    assert_eq!(layer_style_kind(Some(6), Some("outer stroke")), None);
    assert_eq!(layer_style_kind(Some(5), None), None);
}

#[test]
fn schema_tables() {
    assert_eq!(effect_type_support(5), SchemaSupport::Implemented);
    assert_eq!(effect_type_support(20), SchemaSupport::Implemented);
    assert_eq!(effect_type_support(34), SchemaSupport::Implemented);
    assert_eq!(effect_type_support(35), SchemaSupport::Missing);
    assert_eq!(effect_type_support(0), SchemaSupport::Missing);
    let mut expected = vec![5u8];
    expected.extend(20u8..=34);
    assert_eq!(rendered_effect_types(), expected);
    for ty in rendered_effect_types() {
        assert_eq!(effect_type_support(ty), SchemaSupport::Implemented);
    }
    for ty in [0u8, 1, 2, 3, 4, 5, 6, 13, 15] {
        assert_eq!(layer_type_support(ty), SchemaSupport::Implemented);
    }
    for ty in [7u8, 8, 12, 14, 16, 255] {
        assert_eq!(layer_type_support(ty), SchemaSupport::Missing);
    }
    for kind in ["precomposition", "image", "data-source", "sound"] {
        assert_eq!(asset_kind_support(kind), SchemaSupport::Implemented);
    }
    assert_eq!(asset_kind_support("Image"), SchemaSupport::Missing);
    assert_eq!(asset_kind_support("font"), SchemaSupport::Missing);
}

#[test]
fn effect_dispatch_agrees_with_support_table() {
    for ty in 0u8..=255 {
        let implemented = effect_type_support(ty) == SchemaSupport::Implemented;
        assert_eq!(effect_kind(ty) != EffectKind::Unsupported, implemented, "type {ty}");
    }
    assert_eq!(effect_kind(25), EffectKind::DropShadow);
    assert_eq!(effect_kind(5), EffectKind::CustomGroup);
}

#[test]
fn effect_plan_skips_disabled_and_empty_entries() {
    assert_eq!(effect_plan(Some(0), Some(20), true), None);
    assert_eq!(effect_plan(Some(1), Some(20), false), None);
    assert_eq!(effect_plan(None, Some(29), true), Some(EffectKind::GaussianBlur));
    assert_eq!(effect_plan(Some(1), None, true), Some(EffectKind::Unsupported));
    assert_eq!(effect_plan(Some(1), Some(99), true), Some(EffectKind::Unsupported));
}

#[test]
fn effect_control_lookup() {
    let names = vec![Some("Color".to_string()), None, Some("Blur Radius".to_string())];
    assert_eq!(effect_control_index(&names, &vec![true, true, true], 1, "radius"), Some(1));
    assert_eq!(effect_control_index(&names, &vec![true, false, true], 1, "RADIUS"), Some(2));
    assert_eq!(effect_control_index(&names, &vec![true, false, false], 1, "radius"), None);
    assert_eq!(effect_control_index(&names, &vec![true, false, true], 7, "col"), Some(0));
    assert_eq!(effect_control_index(&names, &vec![true, false, true], 7, ""), Some(0));
}

#[test]
fn layer_actions() {
    let r = RefResolution::NoRef;
    assert_eq!(layer_action(Some(true), true, 4, true, false, r, false), LayerAction::Skip);
    assert_eq!(layer_action(None, false, 4, true, false, r, false), LayerAction::Skip);
    assert_eq!(layer_action(Some(false), true, 6, false, false, r, false), LayerAction::CaptureAudio);
    assert_eq!(layer_action(None, true, 15, false, false, r, false), LayerAction::CaptureData);
    assert_eq!(
        layer_action(None, true, 4, true, true, r, true),
        LayerAction::Render(LayerContentKind::Shapes)
    );
    assert_eq!(
        layer_action(None, true, 5, false, true, r, false),
        LayerAction::Render(LayerContentKind::Text)
    );
    assert_eq!(
        layer_action(None, true, 0, false, false, RefResolution::Precomp, true),
        LayerAction::Render(LayerContentKind::Precomp)
    );
    assert_eq!(
        layer_action(None, true, 2, false, false, RefResolution::Image, false),
        LayerAction::Render(LayerContentKind::Image)
    );
    assert_eq!(
        layer_action(None, true, 0, false, false, RefResolution::Unresolved, true),
        LayerAction::Render(LayerContentKind::EmptyGroup)
    );
    assert_eq!(
        layer_action(None, true, 1, false, false, r, true),
        LayerAction::Render(LayerContentKind::Solid)
    );
    assert_eq!(
        layer_action(None, true, 3, false, false, r, false),
        LayerAction::Render(LayerContentKind::EmptyGroup)
    );
}

#[test]
fn camera_is_first_visible_camera_layer() {
    assert_eq!(active_camera_index(&vec![4, 13, 13], &vec![true, false, true]), Some(2));
    assert_eq!(active_camera_index(&vec![13, 13], &vec![true, true]), Some(0));
    assert_eq!(active_camera_index(&vec![4, 13], &vec![true, false]), None);
}

#[test]
fn matte_plan_pairs_layers_with_their_matte() {
    // layer 1 is matted by layer 0; layer 3 by layer 2; layer 4 has no matte
    let tts = vec![None, Some(1), None, Some(3), None];
    let steps = plan_matte_steps(&tts);
    assert_eq!(
        steps,
        vec![
            RenderStep { content: 4, matte: None },
            RenderStep { content: 3, matte: Some(MatteLink { layer: 2, mode: MatteMode::Luma }) },
            RenderStep { content: 1, matte: Some(MatteLink { layer: 0, mode: MatteMode::Alpha }) },
        ]
    );
}

#[test]
fn matte_plan_draws_every_layer_once() {
    let tts = vec![Some(1), Some(2), Some(2), None, Some(4), Some(1)];
    let steps = plan_matte_steps(&tts);
    let mut drawn: Vec<usize> = Vec::new();
    for s in &steps {
        drawn.push(s.content);
        if let Some(m) = s.matte {
            drawn.push(m.layer);
        }
    }
    drawn.sort();
    assert_eq!(drawn, (0..tts.len()).collect::<Vec<_>>());
    // the first layer cannot be matted: there is nothing before it
    assert_eq!(plan_matte_steps(&vec![Some(1)]), vec![RenderStep { content: 0, matte: None }]);
}

#[test]
fn parent_chains() {
    let inds = vec![Some(1), Some(2), Some(3), Some(4)];
    let parents = vec![None, Some(1), Some(2), Some(9)];
    assert_eq!(parent_chain(&inds, &parents, 2), Some(vec![2, 1, 0]));
    assert_eq!(parent_chain(&inds, &parents, 0), Some(vec![0]));
    // an unknown parent index ends the chain
    assert_eq!(parent_chain(&inds, &parents, 3), Some(vec![3]));
    // a cycle has no world transform
    let cyclic = vec![Some(2), Some(1), None, None];
    assert_eq!(parent_chain(&inds, &cyclic, 0), None);
    // the last layer with an index is the one a parent link names
    let dup = vec![Some(7), Some(7), Some(8)];
    assert_eq!(parent_chain(&dup, &vec![None, None, Some(7)], 2), Some(vec![2, 1]));
}

#[test]
fn shape_plan_paints_pending_geometry() {
    // rect, ellipse, fill, stroke
    let plan = plan_shapes(&vec![ShapeItem::Geometry, ShapeItem::Geometry, ShapeItem::Paint, ShapeItem::Paint]);
    assert_eq!(
        plan.nodes,
        vec![
            PlannedNode::Shape { paint: 2, geometry: 0 },
            PlannedNode::Shape { paint: 2, geometry: 1 },
            PlannedNode::Shape { paint: 3, geometry: 0 },
            PlannedNode::Shape { paint: 3, geometry: 1 },
        ]
    );
    assert_eq!(plan.pending, vec![0, 1]);
    assert_eq!(plan.trim_item, None);
}

#[test]
fn shape_plan_merges_groups_and_trims() {
    let plan = plan_shapes(&vec![ShapeItem::MergePaths, ShapeItem::Geometry, ShapeItem::Trim, ShapeItem::Geometry, ShapeItem::MergePaths, ShapeItem::Paint, ShapeItem::Group, ShapeItem::RoundCorners, ShapeItem::Trim, ShapeItem::Other]);
    assert_eq!(
        plan.nodes,
        vec![PlannedNode::Shape { paint: 5, geometry: 4 }, PlannedNode::Group { item: 6 }]
    );
    assert_eq!(plan.pending, vec![4]);
    assert_eq!(plan.trim_item, Some(8));
    // paint before any geometry draws nothing
    assert!(plan_shapes(&vec![ShapeItem::Paint, ShapeItem::Geometry]).nodes.is_empty());
}

#[test]
fn shape_plan_repeater_copies_geometry_and_nodes() {
    let plan = plan_shapes(&vec![ShapeItem::Geometry, ShapeItem::Paint, ShapeItem::Repeater(3), ShapeItem::Paint]);
    assert_eq!(plan.pending, vec![0, 0, 0]);
    assert_eq!(plan.nodes.len(), 3 + 3);
    assert_eq!(plan.nodes[0], PlannedNode::Shape { paint: 1, geometry: 0 });
    assert_eq!(plan.nodes[5], PlannedNode::Shape { paint: 3, geometry: 0 });
    // one copy or none changes nothing
    let one = plan_shapes(&vec![ShapeItem::Geometry, ShapeItem::Repeater(1), ShapeItem::Paint]);
    assert_eq!(one.nodes, vec![PlannedNode::Shape { paint: 2, geometry: 0 }]);
    let none = plan_shapes(&vec![ShapeItem::Geometry, ShapeItem::Repeater(0), ShapeItem::Paint]);
    assert_eq!(none.nodes.len(), 1);
}

#[test]
fn shape_tags() {
    for t in ["sh", "rc", "el", "sr"] {
        assert_eq!(shape_item_for_tag(t, 0), ShapeItem::Geometry);
    }
    for t in ["fl", "st", "gf", "gs"] {
        assert_eq!(shape_item_for_tag(t, 0), ShapeItem::Paint);
    }
    for t in ["zz", "pb", "tw", "op", "wgl"] {
        assert_eq!(shape_item_for_tag(t, 0), ShapeItem::Modifier);
    }
    assert_eq!(shape_item_for_tag("tr", 0), ShapeItem::Transform);
    assert_eq!(shape_item_for_tag("rd", 0), ShapeItem::RoundCorners);
    assert_eq!(shape_item_for_tag("mm", 2), ShapeItem::MergePaths);
    assert_eq!(shape_item_for_tag("gr", 2), ShapeItem::Group);
    assert_eq!(shape_item_for_tag("rp", 4), ShapeItem::Repeater(4));
    assert_eq!(shape_item_for_tag("tm", 4), ShapeItem::Trim);
    assert_eq!(shape_item_for_tag("GR", 4), ShapeItem::Other);
    assert_eq!(shape_item_for_tag("", 4), ShapeItem::Other);
}

#[test]
fn shape_transform_following_fill_applies_to_it() {
    let g = ShapeItem::Geometry;
    let p = ShapeItem::Paint;
    let t = ShapeItem::Transform;
    // a transform after the fill still reaches the painted node
    let plan = plan_shapes(&vec![g, p, t]);
    assert_eq!(plan.node_transforms, vec![vec![2]]);
    assert_eq!(plan.pending_transforms, vec![vec![2]]);
    // transforms before and after painting, in order
    let plan = plan_shapes(&vec![g, t, p, t]);
    assert_eq!(plan.node_transforms, vec![vec![1, 3]]);
    // a modifier applies the transforms so far to the path itself
    let plan = plan_shapes(&vec![g, t, ShapeItem::Modifier, p]);
    assert_eq!(plan.node_transforms, vec![Vec::<usize>::new()]);
    // a merged geometry starts afresh
    let plan = plan_shapes(&vec![g, t, g, ShapeItem::MergePaths, p, t]);
    assert_eq!(plan.node_transforms, vec![vec![5]]);
    assert_eq!(plan.pending_transforms, vec![vec![5]]);
    // a repeater copies the lists; a group node is reached too
    let plan = plan_shapes(&vec![g, t, p, ShapeItem::Repeater(2), ShapeItem::Group, t]);
    assert_eq!(plan.node_transforms, vec![vec![1, 5], vec![1, 5], vec![5]]);
    assert_eq!(plan.pending_transforms, vec![vec![1, 5], vec![1, 5]]);
    // rounded corners leave the lists alone
    let plan = plan_shapes(&vec![g, t, ShapeItem::RoundCorners, p]);
    assert_eq!(plan.node_transforms, vec![vec![1]]);
}

#[test]
fn layer_level_lists_keep_order_and_skip() {
    let e = |en: Option<u8>, ty: Option<u8>, has_values: bool| EffectEntry { en, ty, has_values };
    let effects = layer_effects(&vec![
        e(Some(1), Some(29), true),
        e(Some(0), Some(20), true),
        e(None, Some(20), false),
        e(None, Some(99), true),
        e(None, Some(20), true),
    ]);
    assert_eq!(
        effects,
        vec![(0, EffectKind::GaussianBlur), (3, EffectKind::Unsupported), (4, EffectKind::Tint)]
    );
    let masks = layer_mask_modes(&vec![
        Some("a".to_string()),
        None,
        Some("x".to_string()),
        Some("n".to_string()),
        Some("f".to_string()),
    ]);
    assert_eq!(masks, vec![(0, MaskMode::Add), (3, MaskMode::NoMask), (4, MaskMode::Difference)]);
    let s = |ty: Option<u8>, nm: Option<&str>| StyleEntry { ty, nm: nm.map(|n| n.to_string()) };
    let styles = layer_styles(&vec![s(Some(5), None), s(Some(2), None), s(None, None), s(Some(7), Some("Stroke 1"))]);
    assert_eq!(
        styles,
        vec![(1, LayerStyleKind::OuterGlow), (2, LayerStyleKind::Stroke), (3, LayerStyleKind::Stroke)]
    );
    assert!(layer_effects(&vec![]).is_empty());
}

#[test]
fn drop_shadow_parameter_table() {
    let p = effect_parameters(EffectKind::DropShadow);
    assert_eq!(
        p,
        vec![
            (0, "color", ParamValue::Vector),
            (1, "opacity", ParamValue::Scalar),
            (2, "direction", ParamValue::Scalar),
            (3, "distance", ParamValue::Scalar),
            (4, "softness", ParamValue::Scalar),
        ]
    );
}

#[test]
fn stroke_parameters_fall_back_to_names() {
    let p = effect_parameters(EffectKind::Stroke);
    assert_eq!(p.len(), 6);
    assert_eq!(p[1], (4, "Brush Size", ParamValue::Scalar));
    assert_eq!(p[3], (BY_NAME_ONLY, "All Masks", ParamValue::Scalar));
    assert_eq!(p[5], (BY_NAME_ONLY, "Mask", ParamValue::Scalar));
    assert!(effect_parameters(EffectKind::CustomGroup).is_empty());
    assert!(effect_parameters(EffectKind::Unsupported).is_empty());
    assert_eq!(effect_parameters(EffectKind::Wavy).len(), 7);
}

#[test]
fn parameter_table_drives_control_lookup() {
    // A drop shadow whose opacity control sits at an unexpected position is
    // found again by its name.
    let (index, hint, _) = effect_parameters(EffectKind::DropShadow)[1];
    let names = vec![Some("Shadow Color".to_string()), Some("Shadow Opacity".to_string())];
    let has_value = vec![true, true];
    assert_eq!(effect_control_index(&names, &has_value, index, hint), Some(1));
    let has_value = vec![true, false];
    assert_eq!(effect_control_index(&names, &has_value, index, hint), None);
}
