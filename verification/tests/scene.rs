use raytracer::scene::{
    describe_tokens, parse_scene_text, Definition, MaterialSpec, Number, PatternKind, SceneError,
    ShapeKind, TransformItem, Triple,
};
use raytracer::yaml::{flatten_documents, tokenize, YamlNode, YamlToken};

fn whole(value: i64) -> Number {
    Number::Integer(value)
}

fn decimal(text: &str) -> Number {
    Number::Real(text.to_string())
}

fn triple(first: Number, second: Number, third: Number) -> Triple {
    Triple { first, second, third }
}

const SCENE: &str = "
- add: camera
  width: 100
  height: 50
  field-of-view: 0.785
  from: [-6, 6, -10]
  to: [6, 0, 6]
  up: [-0.45, 1, 0]
- add: light
  at: [50, 100, -50]
  intensity: [1, 1, 1]
- define: white-material
  value:
    color: [1, 1, 1]
    diffuse: 0.7
    ambient: 0.1
- define: blue-material
  extend: white-material
  value:
    color: [0.537, 0.831, 0.914]
- define: standard-transform
  value:
    - [translate, 1, -1, 1]
    - [scale, 0.5, 0.5, 0.5]
- define: large-object
  value:
    - standard-transform
    - [scale, 3.5, 3.5, 3.5]
- add: sphere
  material: blue-material
  transform:
    - large-object
    - [translate, 8.5, 1.5, -0.5]
- add: plane
  material:
    color: [1, 1, 1]
    pattern:
      type: checkers
      colors: [[0, 0, 0], [1, 1, 1]]
      transform: [[rotate-y, 0.5]]
";

#[test]
fn scene_camera_and_light() {
    let scene = parse_scene_text(SCENE).unwrap();
    let camera = scene.camera.unwrap();
    assert_eq!(camera.width, whole(100));
    assert_eq!(camera.height, whole(50));
    assert_eq!(camera.field_of_view, decimal("0.785"));
    assert_eq!(camera.from, triple(whole(-6), whole(6), whole(-10)));
    assert_eq!(camera.up, triple(decimal("-0.45"), whole(1), whole(0)));
    assert_eq!(scene.lights.len(), 1);
    assert_eq!(scene.lights[0].position, triple(whole(50), whole(100), whole(-50)));
}

#[test]
fn scene_definitions_in_order() {
    let scene = parse_scene_text(SCENE).unwrap();
    assert_eq!(scene.definitions.len(), 4);
    match &scene.definitions[1] {
        Definition::Material(name, material) => {
            assert_eq!(name, "blue-material");
            assert_eq!(material.color, Some(triple(decimal("0.537"), decimal("0.831"), decimal("0.914"))));
            assert_eq!(material.diffuse, Some(decimal("0.7")));
            assert_eq!(material.ambient, Some(decimal("0.1")));
            assert_eq!(material.specular, None);
        },
        other => panic!("unexpected {:?}", other),
    }
    match &scene.definitions[3] {
        Definition::Transformation(name, items) => {
            assert_eq!(name, "large-object");
            assert_eq!(
                items,
                &vec![
                    TransformItem::Defined("standard-transform".to_string(), 2),
                    TransformItem::Scale(triple(decimal("3.5"), decimal("3.5"), decimal("3.5"))),
                ]
            );
        },
        other => panic!("unexpected {:?}", other),
    }
}

#[test]
fn scene_shapes() {
    let scene = parse_scene_text(SCENE).unwrap();
    assert_eq!(scene.shapes.len(), 2);
    let sphere = &scene.shapes[0];
    assert_eq!(sphere.kind, ShapeKind::Sphere);
    assert_eq!(sphere.material.color, Some(triple(decimal("0.537"), decimal("0.831"), decimal("0.914"))));
    assert_eq!(
        sphere.transformation,
        vec![
            TransformItem::Defined("large-object".to_string(), 3),
            TransformItem::Translate(triple(decimal("8.5"), decimal("1.5"), decimal("-0.5"))),
        ]
    );
    let plane = &scene.shapes[1];
    assert_eq!(plane.kind, ShapeKind::Plane);
    let pattern = plane.material.pattern.as_ref().unwrap();
    assert_eq!(pattern.kind, PatternKind::Checkers);
    assert_eq!(pattern.color_a, triple(whole(0), whole(0), whole(0)));
    assert_eq!(pattern.color_b, triple(whole(1), whole(1), whole(1)));
    assert_eq!(pattern.transformation, Some(vec![TransformItem::RotateY(decimal("0.5"))]));
}

#[test]
fn shape_without_material_has_default_material() {
    let scene = parse_scene_text("- add: cube\n- add: cone\n- add: cylinder\n").unwrap();
    let kinds: Vec<ShapeKind> = scene.shapes.iter().map(|s| s.kind).collect();
    assert_eq!(kinds, vec![ShapeKind::Cube, ShapeKind::Cone, ShapeKind::Cylinder]);
    assert_eq!(scene.shapes[0].material, MaterialSpec::default_spec());
    assert!(scene.shapes[0].transformation.is_empty());
    assert!(scene.camera.is_none());
}

#[test]
fn named_colors_and_color_mappings() {
    let text = "
- define: red-color
  value: [1, 0, 0]
- add: sphere
  material:
    color: red-color
- add: sphere
  material:
    color:
      value: red-color
";
    let scene = parse_scene_text(text).unwrap();
    let red = Some(triple(whole(1), whole(0), whole(0)));
    assert_eq!(scene.shapes[0].material.color, red);
    assert_eq!(scene.shapes[1].material.color, red);
}

#[test]
fn later_definition_replaces_earlier() {
    let text = "
- define: m-material
  value: { ambient: 1 }
- define: m-material
  value: { ambient: 2 }
- add: sphere
  material: m-material
";
    let scene = parse_scene_text(text).unwrap();
    assert_eq!(scene.shapes[0].material.ambient, Some(whole(2)));
}

#[test]
fn material_properties_and_unknown_operations() {
    let text = "
- add: sphere
  material:
    specular: 0.2
    shininess: 50
    reflective: 0.5
    transparency: 1
    refractive-index: 1.5
  transform:
    - [shear, 1, 2, 3, 4, 5, 6]
    - [rotate-x, 1]
    - [rotate-z, 2]
    - 7
";
    let scene = parse_scene_text(text).unwrap();
    let material = &scene.shapes[0].material;
    assert_eq!(material.shininess, Some(whole(50)));
    assert_eq!(material.refractive_index, Some(decimal("1.5")));
    assert_eq!(material.transparency, Some(whole(1)));
    assert_eq!(
        scene.shapes[0].transformation,
        vec![TransformItem::RotateX(whole(1)), TransformItem::RotateZ(whole(2))]
    );
}

fn error_of(text: &str) -> SceneError {
    parse_scene_text(text).unwrap_err()
}

#[test]
fn scene_errors() {
    assert_eq!(error_of("[1, 2"), SceneError::Syntax);
    assert_eq!(error_of(""), SceneError::DocumentCount);
    assert_eq!(error_of("- a\n---\n- b\n"), SceneError::DocumentCount);
    assert_eq!(
        error_of("- add: camera\n  width: abc\n"),
        SceneError::IncorrectFloat
    );
    assert_eq!(error_of("- add: sphere\n  material:\n    color: true\n"), SceneError::IncorrectColor);
    assert_eq!(
        error_of("- add: sphere\n  material:\n    pattern:\n      type: dots\n      colors: [[0, 0, 0], [1, 1, 1]]\n"),
        SceneError::IncorrectPatternType
    );
    assert_eq!(error_of("- add: sphere\n  material:\n    color: none-color\n"), SceneError::UnknownColor);
    assert_eq!(error_of("- add: sphere\n  material: nothing\n"), SceneError::UnknownMaterial);
    assert_eq!(error_of("- add: sphere\n  transform: [nothing]\n"), SceneError::UnknownTransformation);
    assert_eq!(error_of("- add: sphere\n  material:\n    extend: [1]\n"), SceneError::NotAString);
    assert_eq!(error_of("- add: light\n  at: 3\n"), SceneError::NotAnArray);
    assert_eq!(error_of("- add: light\n  at: [1, 2]\n  intensity: [1, 1, 1]\n"), SceneError::MissingElement);
    assert_eq!(error_of("- add: sphere\n  transform: [[scale, 1, 2]]\n"), SceneError::MissingElement);
}

#[test]
fn tokens_are_in_preorder() {
    let tokens = tokenize("- a: 1\n  b: [2.5, x]\n").unwrap();
    assert_eq!(
        tokens,
        vec![
            YamlToken::Array(1),
            YamlToken::Array(1),
            YamlToken::Hash(2),
            YamlToken::Str("a".to_string()),
            YamlToken::Integer(1),
            YamlToken::Str("b".to_string()),
            YamlToken::Array(2),
            YamlToken::Real("2.5".to_string()),
            YamlToken::Str("x".to_string()),
        ]
    );
}

#[test]
fn truncated_token_stream_is_malformed() {
    let tokens = vec![YamlToken::Array(1), YamlToken::Array(2), YamlToken::Hash(1)];
    assert_eq!(describe_tokens(&tokens).unwrap_err(), SceneError::Malformed);
}

#[test]
fn documents_flatten_key_before_value() {
    let docs = vec![
        YamlNode::Hash(vec![
            (YamlNode::Str("k".to_string()), YamlNode::Array(vec![YamlNode::Boolean(true), YamlNode::Null])),
            (YamlNode::Integer(3), YamlNode::Alias(0)),
        ]),
        YamlNode::BadValue,
    ];
    assert_eq!(
        flatten_documents(&docs),
        vec![
            YamlToken::Array(2),
            YamlToken::Hash(2),
            YamlToken::Str("k".to_string()),
            YamlToken::Array(2),
            YamlToken::Other,
            YamlToken::Other,
            YamlToken::Integer(3),
            YamlToken::Other,
            YamlToken::BadValue,
        ]
    );
}

#[test]
fn material_in_place_reads_as_its_definition() {
    let text = "
- define: base-material
  value: { diffuse: 0.3 }
- define: shiny-material
  extend: base-material
  value: { color: [1, 0, 0], ambient: 0.5 }
- add: sphere
  material: shiny-material
- add: sphere
  material: { extend: base-material, color: [1, 0, 0], ambient: 0.5 }
";
    let scene = parse_scene_text(text).unwrap();
    assert_eq!(scene.shapes[0].material, scene.shapes[1].material);
    assert_eq!(scene.shapes[1].material.diffuse, Some(decimal("0.3")));
    assert_eq!(scene.shapes[1].material.ambient, Some(decimal("0.5")));
}

#[test]
fn transformation_definition_holds_the_steps_of_a_shape_transform() {
    let text = "
- define: moved-transform
  value: [[translate, 1, 2, 3], [rotate-y, 0.5]]
- add: cube
  transform: [[translate, 1, 2, 3], [rotate-y, 0.5]]
";
    let scene = parse_scene_text(text).unwrap();
    match &scene.definitions[0] {
        Definition::Transformation(name, items) => {
            assert_eq!(name, "moved-transform");
            assert_eq!(items, &scene.shapes[0].transformation);
        }
        other => panic!("unexpected definition {:?}", other),
    }
}

#[test]
fn pattern_type_and_color_shape_errors() {
    let pattern = |kind: &str| {
        format!("- add: plane\n  material:\n    pattern:\n      {}colors: [[0, 0, 0], [1, 1, 1]]\n", kind)
    };
    assert_eq!(error_of(&pattern("type: waves\n      ")), SceneError::IncorrectPatternType);
    assert_eq!(error_of(&pattern("")), SceneError::IncorrectPatternType);
    assert!(parse_scene_text(&pattern("type: rings\n      ")).is_ok());
    assert_eq!(
        error_of("- add: plane\n  material:\n    pattern:\n      type: waves\n      colors: [7, [1, 1, 1]]\n"),
        SceneError::IncorrectColor
    );
    assert_eq!(error_of("- add: sphere\n  material:\n    color: { value: true }\n"), SceneError::IncorrectColor);
}

#[test]
fn named_transformation_is_the_latest_where_it_is_read() {
    let text = "
- define: turn-transform
  value: [[rotate-x, 1]]
- define: striped-material
  value:
    pattern:
      type: stripes
      colors: [[0, 0, 0], [1, 1, 1]]
      transform: [turn-transform]
- define: turn-transform
  value: [[rotate-y, 2], turn-transform]
- add: sphere
  material: striped-material
  transform: [turn-transform]
";
    let scene = parse_scene_text(text).unwrap();
    let shape = &scene.shapes[0];
    let pattern = shape.material.pattern.as_ref().unwrap();
    assert_eq!(pattern.transformation, Some(vec![TransformItem::Defined("turn-transform".to_string(), 0)]));
    assert_eq!(shape.transformation, vec![TransformItem::Defined("turn-transform".to_string(), 2)]);
    match &scene.definitions[2] {
        Definition::Transformation(_, items) => {
            assert_eq!(items[1], TransformItem::Defined("turn-transform".to_string(), 0));
        }
        other => panic!("unexpected definition {:?}", other),
    }
}
