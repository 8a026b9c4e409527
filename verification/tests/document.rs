use opengex::error::{AssemblyError, Category};
use opengex::io::read::{
    scene_from_src_string, scene_from_text, scene_from_tokens, ReadError, OPENDDL_SYNTAX,
};
use opengex::scalar::Scalar;
use opengex::scene::{Axis, Scene};
use opengex::structure::{
    AttenuationCurve, AttenuationKind, Color, GeometricPrimitive, LightType, MorphWeight, Nodes,
    Rotation, Scale, Time, TrackTarget, Transformation, Translation, Value,
};
use opengex::tree::Token;
use piston_meta::MetaData;

fn num(v: f64) -> Scalar {
    Scalar::from_bits(v.to_bits())
}

fn tokens(text: &str) -> Vec<Token> {
    let rules = piston_meta::syntax_errstr(OPENDDL_SYNTAX).expect("the syntax is read");
    let mut data = vec![];
    piston_meta::parse_errstr(&rules, text, &mut data).expect("the text is read");
    data.into_iter()
        .map(|d| match d.data {
            MetaData::StartNode(n) => Token::StartNode(n.to_string()),
            MetaData::EndNode(n) => Token::EndNode(n.to_string()),
            MetaData::Bool(n, b) => Token::Bool(n.to_string(), b),
            MetaData::F64(n, v) => Token::Number(n.to_string(), num(v)),
            MetaData::String(n, s) => Token::Text(n.to_string(), s.to_string()),
        })
        .collect()
}

fn scene(text: &str) -> Result<Scene, AssemblyError> {
    scene_from_tokens(&tokens(text))
}

const CUBE: &str = r#"
Metric (key = "distance") {float {0.01}}
Metric (key = "angle") {float {1}}
Metric (key = "time") {float {1}}
Metric (key = "up") {string {"y"}}

GeometryNode $node1
{
    Name {string {"Cube"}}
    ObjectRef {ref {$geometry1}}
    MaterialRef (index = 0) {ref {$material1}}

    Transform
    {
        float[16]
        {
            {1, 0, 0, 0,
             0, 1, 0, 0,
             0, 0, 1, 0,
             50, 50, 0, 1}
        }
    }
}

/* The cube itself: one mesh, one index array. */
GeometryObject $geometry1    // Cube
{
    Mesh (primitive = "triangles")
    {
        VertexArray (attrib = "position")
        {
            float[3]
            {
                {-50, -50, 0}, {-50, 50, 0}, {50, 50, 0}, {50, -50, 0},
                {-50, -50, 100}, {50, -50, 100}, {50, 50, 100}, {-50, 50, 100}
            }
        }

        IndexArray
        {
            unsigned_int32[3]
            {
                {0, 1, 2}, {2, 3, 0}, {4, 5, 6}, {6, 7, 4}
            }
        }
    }
}

Material $material1
{
    Name {string {"03 - Default"}}

    Color (attrib = "diffuse") {float[3] {{0.5, 0.5, 0.5}}}
}
"#;

#[test]
fn test_syntax_opengex() {
    let scene = scene_from_src_string(CUBE.to_string()).expect("the cube is a scene");
    assert_eq!(scene.roots().len(), 1);
    assert_eq!(scene.objects().geometries.len(), 1);
    assert_eq!(scene.objects().materials.len(), 1);
    assert_eq!(scene.objects().cameras.len(), 0);
    assert_eq!(scene.objects().lights.len(), 0);
    let metric = scene.metric();
    assert_eq!(metric.distance, num(0.01));
    assert_eq!(metric.angle, num(1.0));
    assert_eq!(metric.time, num(1.0));
    assert_eq!(metric.up, Axis::Y);
    match &scene.roots()[0] {
        Nodes::GeometryNode(node) => {
            assert_eq!(node.name.as_deref(), Some("Cube"));
            assert_eq!(node.iden.as_deref(), Some("$node1"));
            assert_eq!(node.geometry, 0);
            assert_eq!(node.materials.get(0), Some(0));
            assert_eq!(node.materials.get(1), None);
            assert!(node.morph_weights.is_empty());
            assert!(node.animations.is_empty());
            assert!(node.children.is_empty());
            assert_eq!(node.transformations.len(), 1);
            match &node.transformations[0] {
                Transformation::Transform(t) => {
                    assert_eq!(t.0[0], num(1.0));
                    assert_eq!(t.0[1], num(0.0));
                    assert_eq!(t.0[12], num(50.0));
                    assert_eq!(t.0[15], num(1.0));
                }
                other => panic!("a matrix was expected, not {:?}", other),
            }
        }
        other => panic!("a geometry node was expected, not {:?}", other),
    }
    let geometry = scene.objects().geometries.get(0).expect("the geometry is in its table");
    assert!(geometry.visible && geometry.casts_shadows && geometry.motion_blur);
    assert_eq!(geometry.meshes.len(), 1);
    assert_eq!(geometry.meshes[0].primitive, GeometricPrimitive::Triangles);
    assert_eq!(geometry.meshes[0].lod, 0);
    assert_eq!(geometry.meshes[0].materials, vec![0]);
    assert_eq!(geometry.levels.entries(), vec![(0, 0)]);
    assert!(geometry.targets.entries().is_empty());
    let material = scene.objects().materials.get(0).expect("the material is in its table");
    assert_eq!(material.name.as_deref(), Some("03 - Default"));
    assert!(!material.two_sided);
    let diffuse = material.color.resolve("diffuse").expect("the material has a diffuse color");
    assert_eq!(material.color.get(diffuse), Some(&Color::Rgb(num(0.5), num(0.5), num(0.5))));
}

#[test]
fn test_syntax_opendll() {
    let rules = piston_meta::syntax_errstr(OPENDDL_SYNTAX).expect("the syntax is read");
    let mut data = vec![];
    piston_meta::parse_errstr(&rules, CUBE, &mut data).expect("the cube is read");
    let starts = data
        .iter()
        .filter(|d| matches!(&d.data, MetaData::StartNode(n) if n.as_str() == "structure"))
        .count();
    let ends = data
        .iter()
        .filter(|d| matches!(&d.data, MetaData::EndNode(n) if n.as_str() == "structure"))
        .count();
    assert_eq!(starts, 28);
    assert_eq!(ends, 28);
    let numbers = data.iter().filter(|d| matches!(&d.data, MetaData::F64(_, _))).count();
    assert_eq!(numbers, 3 + 16 + 24 + 12 + 3 + 1);
}

#[test]
fn minimal_document_is_one_node_with_one_translation() {
    let text = r#"Node { Translation (kind = "xyz") { float[3] {{1, 2, 3}} } }"#;
    let scene = scene_from_src_string(text.to_string()).expect("the document is a scene");
    assert_eq!(scene.roots().len(), 1);
    match &scene.roots()[0] {
        Nodes::Node(node) => {
            assert_eq!(node.name, None);
            assert_eq!(node.iden, None);
            assert_eq!(
                node.transformations,
                vec![Transformation::Translation(Translation::Xyz(num(1.0), num(2.0), num(3.0)))]
            );
            assert!(node.animations.is_empty());
            assert!(node.children.is_empty());
        }
        other => panic!("a plain node was expected, not {:?}", other),
    }
    let objects = scene.objects();
    assert_eq!(objects.geometries.len(), 0);
    assert_eq!(objects.cameras.len(), 0);
    assert_eq!(objects.lights.len(), 0);
    assert_eq!(objects.materials.len(), 0);
    assert_eq!(scene.metric().up, Axis::Z);
    assert_eq!(scene.metric().distance, num(1.0));
}

#[test]
fn the_tokens_of_the_minimal_document() {
    let text = r#"Node { Translation (kind = "xyz") { float[3] {{1, 2, 3}} } }"#;
    let s = |t: &str| t.to_string();
    assert_eq!(
        tokens(text),
        vec![
            Token::StartNode(s("structure")),
            Token::Text(s("tag"), s("Node")),
            Token::StartNode(s("structure")),
            Token::Text(s("tag"), s("Translation")),
            Token::StartNode(s("property")),
            Token::Text(s("key"), s("kind")),
            Token::Text(s("text"), s("xyz")),
            Token::EndNode(s("property")),
            Token::StartNode(s("structure")),
            Token::Text(s("tag"), s("float")),
            Token::Number(s("number"), num(1.0)),
            Token::Number(s("number"), num(2.0)),
            Token::Number(s("number"), num(3.0)),
            Token::EndNode(s("structure")),
            Token::EndNode(s("structure")),
            Token::EndNode(s("structure")),
        ]
    );
}

#[test]
fn text_that_is_no_document_is_refused() {
    assert!(scene_from_src_string("Node {".to_string()).is_err());
    assert!(scene_from_src_string("Node { Translation { float {1, 2} } }".to_string()).is_err());
    assert!(scene_from_src_string("{}".to_string()).is_err());
    assert!(scene_from_src_string("".to_string()).is_ok());
    assert!(scene_from_src_string("// nothing\n".to_string()).is_ok());
}

#[test]
fn two_morph_weights_of_one_target_are_refused() {
    let text = r#"
        GeometryObject $g { Mesh { } }
        GeometryNode {
            ObjectRef {ref {$g}}
            MorphWeight (index = 1) {float {0.25}}
            MorphWeight (index = 2) {float {0.5}}
            MorphWeight (index = 2) {float {0.75}}
        }
    "#;
    assert_eq!(scene(text), Err(AssemblyError::DuplicateMorphTarget { index: 2 }));
}

#[test]
fn morph_weights_of_distinct_targets_are_kept_in_order() {
    let text = r#"
        GeometryObject $g { Mesh { } }
        GeometryNode {
            ObjectRef {ref {$g}}
            MorphWeight (index = 3) {float {0.25}}
            MorphWeight {float {0.5}}
            MorphWeight (index = 2) {float {3}}
        }
    "#;
    let scene = scene(text).expect("the document is a scene");
    match &scene.roots()[0] {
        Nodes::GeometryNode(node) => assert_eq!(
            node.morph_weights,
            vec![
                MorphWeight { target_index: 3, weight: num(0.25) },
                MorphWeight { target_index: 0, weight: num(0.5) },
                MorphWeight { target_index: 2, weight: num(3.0) },
            ]
        ),
        other => panic!("a geometry node was expected, not {:?}", other),
    }
}

#[test]
fn a_material_slot_that_the_geometry_uses_must_be_filled() {
    let text = r#"
        Material $a { }
        Material $b { }
        GeometryObject $g {
            Mesh {
                IndexArray (material = 1) { unsigned_int32[3] {{0, 1, 2}} }
                IndexArray (material = 3) { unsigned_int32[3] {{0, 1, 2}} }
            }
        }
        GeometryNode {
            ObjectRef {ref {$g}}
            MaterialRef (index = 0) {ref {$a}}
            MaterialRef (index = 1) {ref {$b}}
        }
    "#;
    assert_eq!(scene(text), Err(AssemblyError::UnresolvedMaterialSlot { index: 3 }));
}

#[test]
fn filled_material_slots_hold_the_keys_of_their_materials() {
    let text = r#"
        GeometryNode {
            ObjectRef {ref {$g}}
            MaterialRef (index = 4) {ref {$b}}
            MaterialRef (index = 1) {ref {$a}}
        }
        Material $a { }
        Material $b { }
        GeometryObject $g {
            Mesh {
                IndexArray (material = 1) { unsigned_int32[3] {{0, 1, 2}} }
                IndexArray (material = 4) { unsigned_int32[3] {{0, 1, 2}} }
            }
        }
    "#;
    let scene = scene(text).expect("the document is a scene");
    match &scene.roots()[0] {
        Nodes::GeometryNode(node) => {
            assert_eq!(node.materials.get(1), Some(0));
            assert_eq!(node.materials.get(4), Some(1));
            assert!(!node.materials.contains_key(0));
            assert_eq!(node.materials.entries(), vec![(1, 0), (4, 1)]);
        }
        other => panic!("a geometry node was expected, not {:?}", other),
    }
}

#[test]
fn a_material_slot_is_filled_once() {
    let text = r#"
        Material $a { }
        GeometryObject $g { }
        GeometryNode {
            ObjectRef {ref {$g}}
            MaterialRef (index = 1) {ref {$a}}
            MaterialRef (index = 1) {ref {$a}}
        }
    "#;
    assert_eq!(
        scene(text),
        Err(AssemblyError::MalformedStructure { tag: "MaterialRef".to_string() })
    );
}

#[test]
fn two_nodes_share_the_object_that_both_name() {
    let text = r#"
        GeometryObject $Other { }
        GeometryNode $first { ObjectRef {ref {$Cube001}} }
        GeometryObject $Cube001 { Mesh (primitive = "quads") { } }
        GeometryNode $second { ObjectRef {ref {$Cube001}} }
    "#;
    let scene = scene(text).expect("the document is a scene");
    let keys: Vec<usize> = scene
        .roots()
        .iter()
        .map(|node| match node {
            Nodes::GeometryNode(node) => node.geometry,
            other => panic!("a geometry node was expected, not {:?}", other),
        })
        .collect();
    assert_eq!(keys, vec![1, 1]);
    let table = &scene.objects().geometries;
    assert_eq!(table.len(), 2);
    assert_eq!(table.resolve("$Cube001"), Ok(1));
    assert_eq!(table.resolve("$Cube001"), Ok(1));
    let entries = (0..table.len())
        .filter(|key| table.name_of(*key).map(|n| n.as_str()) == Some("$Cube001"))
        .count();
    assert_eq!(entries, 1);
    assert_eq!(table.get(1).unwrap().meshes[0].primitive, GeometricPrimitive::Quads);
}

#[test]
fn a_name_is_declared_once() {
    let text = r#"
        Material $m { }
        GeometryObject $m { }
        Material $m { }
    "#;
    assert_eq!(scene(text), Err(AssemblyError::DuplicateObjectName { name: "$m".to_string() }));
}

#[test]
fn a_name_is_declared_once_in_the_whole_document() {
    let text = r#"
        Material $m { }
        CameraObject $c { }
        LightObject $c (type = "point") { }
    "#;
    assert_eq!(scene(text), Err(AssemblyError::DuplicateObjectName { name: "$c".to_string() }));
    let text = r#"
        Material { }
        Material { }
        GeometryObject { }
    "#;
    let scene = scene(text).expect("objects without a name are entries of their own");
    assert_eq!(scene.objects().materials.len(), 2);
    assert_eq!(scene.objects().geometries.len(), 1);
    assert!(scene.objects().declares("$m") == false);
}

#[test]
fn a_reference_needs_its_declaration() {
    let text = r#"
        Material $m { }
        GeometryNode { ObjectRef {ref {$m}} }
    "#;
    assert_eq!(scene(text), Err(AssemblyError::UnresolvedReference { name: "$m".to_string() }));
    let text = r#"
        GeometryObject $g { }
        GeometryNode { ObjectRef {ref {$g}} MaterialRef {ref {$missing}} }
    "#;
    assert_eq!(
        scene(text),
        Err(AssemblyError::UnresolvedReference { name: "$missing".to_string() })
    );
}

#[test]
fn a_node_with_an_object_needs_its_reference() {
    let text = "CameraNode { }";
    assert_eq!(
        scene(text),
        Err(AssemblyError::MalformedStructure { tag: "CameraNode".to_string() })
    );
}

#[test]
fn a_track_with_three_times_and_four_values_is_refused() {
    let text = r#"
        Node {
            Translation (kind = "x") { float {0} }
            Animation {
                Track (target = 0) {
                    Time { Key { float {0, 1, 2} } }
                    Value { Key { float {0, 10, 20, 30} } }
                }
            }
        }
    "#;
    assert_eq!(scene(text), Err(AssemblyError::KeyCountMismatch { time_keys: 3, value_keys: 4 }));
}

#[test]
fn tracks_are_read_with_their_curves_and_targets() {
    let text = r#"
        GeometryObject $g { }
        GeometryNode {
            ObjectRef {ref {$g}}
            Rotation (kind = "z") { float {0} }
            MorphWeight (index = 7) { float {0} }
            Scale { float[3] {{1, 1, 1}} }
            Animation (clip = 2, begin = 0.5, end = 2) {
                Track (target = 2) {
                    Time (curve = "bezier") {
                        Key { float {0, 1} }
                        Key (kind = "-control") { float {-1, 0.5} }
                        Key (kind = "+control") { float {0.5, 2} }
                    }
                    Value (curve = "tcb") {
                        Key { float {10, 20} }
                        Key (kind = "tension") { float {1, 2} }
                        Key (kind = "continuity") { float {3, 4} }
                        Key (kind = "bias") { float {5, 6} }
                    }
                }
                Track (target = 1) {
                    Time { Key { float {0, 1, 2} } }
                    Value (curve = "constant") { Key { float {0, 1, 0} } }
                }
            }
        }
    "#;
    let scene = scene(text).expect("the document is a scene");
    let node = match &scene.roots()[0] {
        Nodes::GeometryNode(node) => node,
        other => panic!("a geometry node was expected, not {:?}", other),
    };
    assert_eq!(
        node.transformations,
        vec![
            Transformation::Rotation(Rotation::Z(num(0.0))),
            Transformation::Scale(Scale::Xyz(num(1.0), num(1.0), num(1.0))),
        ]
    );
    assert_eq!(node.animations.len(), 1);
    let animation = &node.animations[0];
    assert_eq!(animation.clip, 2);
    assert_eq!(animation.begin, Some(num(0.5)));
    assert_eq!(animation.end, Some(num(2.0)));
    assert_eq!(animation.tracks.len(), 2);
    assert_eq!(animation.tracks[0].target, TrackTarget::Transformation(1));
    assert_eq!(
        animation.tracks[0].time,
        Time::Bezier(vec![(num(0.0), num(-1.0), num(0.5)), (num(1.0), num(0.5), num(2.0))])
    );
    assert_eq!(
        animation.tracks[0].value,
        Value::Tcb(vec![
            (num(10.0), num(1.0), num(3.0), num(5.0)),
            (num(20.0), num(2.0), num(4.0), num(6.0)),
        ])
    );
    assert_eq!(animation.tracks[1].target, TrackTarget::MorphWeight(0));
    assert_eq!(animation.tracks[1].time, Time::Linear(vec![num(0.0), num(1.0), num(2.0)]));
    assert_eq!(animation.tracks[1].value, Value::Constant(vec![num(0.0), num(1.0), num(0.0)]));
    assert_eq!(animation.tracks[1].time.key_count(), animation.tracks[1].value.key_count());
}

#[test]
fn a_track_needs_a_target_of_its_node() {
    let text = r#"
        Node {
            Node {
                Translation { float[3] {{1, 2, 3}} }
                MorphWeight { float {1} }
                Animation {
                    Track (target = 1) {
                        Time { Key { float {0} } }
                        Value { Key { float {0} } }
                    }
                }
            }
        }
    "#;
    assert_eq!(
        scene(text),
        Err(AssemblyError::InvalidTrackTarget { node: vec![0, 0], position: 1 })
    );
    let text = r#"
        Material $m { }
        Node { }
        BoneNode {
            Animation {
                Track (target = 0) {
                    Time { Key { float {0} } }
                    Value { Key { float {0} } }
                }
            }
        }
    "#;
    assert_eq!(scene(text), Err(AssemblyError::InvalidTrackTarget { node: vec![2], position: 0 }));
}

#[test]
fn a_track_without_a_target_or_a_curve_is_malformed() {
    let malformed = Err(AssemblyError::MalformedStructure { tag: "Track".to_string() });
    let text = r#"Node { Scale (kind = "x") { float {1} } Animation { Track {
        Time { Key { float {0} } } Value { Key { float {0} } } } } }"#;
    assert_eq!(scene(text), malformed);
    let text = r#"Node { Scale (kind = "x") { float {1} } Animation { Track (target = 0) {
        Value { Key { float {0} } } } } }"#;
    assert_eq!(scene(text), malformed);
    let text = r#"Node { Scale (kind = "x") { float {1} } Animation { Track (target = 0.5) {
        Time { Key { float {0} } } Value { Key { float {0} } } } } }"#;
    assert_eq!(scene(text), malformed);
}

#[test]
fn a_curve_has_one_key_structure_for_each_channel() {
    let text = r#"Node { Scale (kind = "x") { float {1} } Animation { Track (target = 0) {
        Time (curve = "bezier") { Key { float {0, 1, 2} } }
        Value { Key { float {0, 1, 2} } } } } }"#;
    assert_eq!(scene(text), Err(AssemblyError::ArityMismatch { expected: 3, actual: 1 }));
    let text = r#"Node { Scale (kind = "x") { float {1} } Animation { Track (target = 0) {
        Time { Key { float {0, 1, 2} } }
        Value (curve = "bezier") {
            Key { float {0, 1, 2} }
            Key (kind = "-control") { float {0, 1} }
            Key (kind = "+control") { float {0, 1, 2} }
        } } } }"#;
    assert_eq!(scene(text), Err(AssemblyError::ArityMismatch { expected: 3, actual: 2 }));
    let text = r#"Node { Scale (kind = "x") { float {1} } Animation { Track (target = 0) {
        Time (curve = "cubic") { Key { float {0} } }
        Value { Key { float {0} } } } } }"#;
    assert_eq!(
        scene(text),
        Err(AssemblyError::UnknownVariant { category: Category::Time, kind: "cubic".to_string() })
    );
}

#[test]
fn kinds_and_arities_of_transformations_are_checked() {
    let text = r#"Node { Rotation (kind = "euler") { float[3] {{1, 2, 3}} } }"#;
    assert_eq!(
        scene(text),
        Err(AssemblyError::UnknownVariant {
            category: Category::Rotation,
            kind: "euler".to_string()
        })
    );
    let text = r#"Node { Rotation { float[3] {{1, 2, 3}} } }"#;
    assert_eq!(scene(text), Err(AssemblyError::ArityMismatch { expected: 4, actual: 3 }));
    let text = r#"Node { Transform { float[12] {{1, 0, 0, 0, 0, 1, 0, 0, 0, 0, 1, 0}} } }"#;
    assert_eq!(scene(text), Err(AssemblyError::ArityMismatch { expected: 16, actual: 12 }));
    let text = r#"Node { Translation { string {"far"} } }"#;
    assert_eq!(
        scene(text),
        Err(AssemblyError::MalformedStructure { tag: "Translation".to_string() })
    );
    let text = r#"Node { Rotation { float[4] {{90, 0, 0, 1}} } }"#;
    let scene = scene(text).expect("the document is a scene");
    match &scene.roots()[0] {
        Nodes::Node(node) => assert_eq!(
            node.transformations,
            vec![Transformation::Rotation(Rotation::Axis(
                num(90.0),
                num(0.0),
                num(0.0),
                num(1.0)
            ))]
        ),
        other => panic!("a plain node was expected, not {:?}", other),
    }
}

#[test]
fn children_are_built_below_their_parents_in_order() {
    let text = r#"
        CameraObject $c { Param (attrib = "fov") {float {1.5}} }
        LightObject $l (type = "spot", shadow = false) {
            Color (attrib = "light") {float[4] {{1, 0.5, 0.25, 1}}}
            Param (attrib = "intensity") {float {2}}
            Atten (curve = "inverse_square") { Param (attrib = "scale") {float {4}} }
            Atten (kind = "cos_angle", curve = "smooth") { }
        }
        Node $root {
            Name {string {"root"}}
            CameraNode { ObjectRef {ref {$c}} Name {string {"eye"}} }
            Extension { }
            BoneNode $bone {
                LightNode (shadow = true, visible = false) { ObjectRef {ref {$l}} }
            }
        }
        LightNode { ObjectRef {ref {$l}} }
    "#;
    let scene = scene(text).expect("the document is a scene");
    assert_eq!(scene.roots().len(), 2);
    let root = match &scene.roots()[0] {
        Nodes::Node(node) => node,
        other => panic!("a plain node was expected, not {:?}", other),
    };
    assert_eq!(root.name.as_deref(), Some("root"));
    assert_eq!(root.children.len(), 2);
    match &root.children[0] {
        Nodes::CameraNode(node) => {
            assert_eq!(node.camera, 0);
            assert_eq!(node.name.as_deref(), Some("eye"));
        }
        other => panic!("a camera node was expected, not {:?}", other),
    }
    match &root.children[1] {
        Nodes::BoneNode(bone) => match &bone.children[0] {
            Nodes::LightNode(node) => {
                assert_eq!(node.light, 0);
                assert_eq!(node.casts_shadows, Some(true));
                assert_eq!(node.visible, Some(false));
            }
            other => panic!("a light node was expected, not {:?}", other),
        },
        other => panic!("a bone node was expected, not {:?}", other),
    }
    match &scene.roots()[1] {
        Nodes::LightNode(node) => {
            assert_eq!(node.light, 0);
            assert_eq!(node.casts_shadows, None);
            assert_eq!(node.visible, None);
            assert_eq!(node.iden, None);
        }
        other => panic!("a light node was expected, not {:?}", other),
    }
    let camera = scene.objects().cameras.get(0).unwrap();
    let fov = camera.params.resolve("fov").unwrap();
    assert_eq!(camera.params.get(fov), Some(&num(1.5)));
    let light = scene.objects().lights.get(0).unwrap();
    assert_eq!(light.light_type, LightType::Spot);
    assert!(!light.casts_shadows);
    let color = light.colors.resolve("light").unwrap();
    assert_eq!(
        light.colors.get(color),
        Some(&Color::Rgba(num(1.0), num(0.5), num(0.25), num(1.0)))
    );
    assert_eq!(light.attenuations.len(), 2);
    assert_eq!(light.attenuations[0].kind, AttenuationKind::Distance);
    assert_eq!(light.attenuations[0].curve, AttenuationCurve::InverseSquare);
    assert_eq!(light.attenuations[0].params.resolve("scale"), Ok(0));
    assert_eq!(light.attenuations[1].kind, AttenuationKind::CosAngle);
    assert_eq!(light.attenuations[1].curve, AttenuationCurve::Cubic);
}

#[test]
fn materials_hold_their_colors_parameters_and_textures() {
    let text = r#"
        Material $m (two_sided = true) {
            Param (attrib = "specular_power") {float {32}}
            Texture (attrib = "diffuse", texcoord = 1) {
                string {"wood.png"}
                Translation (kind = "x") { float {0.5} }
                Scale (kind = "y") { float {2} }
            }
            Color (attrib = "diffuse") {float[3] {{1, 1, 1}}}
        }
    "#;
    let scene = scene(text).expect("the document is a scene");
    let material = scene.objects().materials.get(0).unwrap();
    assert!(material.two_sided);
    assert_eq!(material.name, None);
    assert_eq!(material.param.resolve("specular_power"), Ok(0));
    assert_eq!(material.param.get(0), Some(&num(32.0)));
    let texture = material.texture.get(material.texture.resolve("diffuse").unwrap()).unwrap();
    assert_eq!(texture.texcoord, 1);
    assert_eq!(texture.file_name, "wood.png");
    assert_eq!(
        texture.transformations,
        vec![
            Transformation::Translation(Translation::X(num(0.5))),
            Transformation::Scale(Scale::Y(num(2.0))),
        ]
    );
    assert!(texture.animation.is_empty());
    let text = r#"
        Material $m {
            Color (attrib = "diffuse") {float[3] {{1, 1, 1}}}
            Color (attrib = "diffuse") {float[3] {{0, 0, 0}}}
        }
    "#;
    assert_eq!(
        scene_from_tokens(&tokens(text)),
        Err(AssemblyError::DuplicateObjectName { name: "diffuse".to_string() })
    );
    let text = r#"Material $m { Color (attrib = "diffuse") {float[2] {{1, 1}}} }"#;
    assert_eq!(
        scene_from_tokens(&tokens(text)),
        Err(AssemblyError::ArityMismatch { expected: 3, actual: 2 })
    );
}

#[test]
fn the_tracks_of_a_texture_animate_its_transformations() {
    let text = r#"
        CameraObject $c {
            Texture (attrib = "lens") {
                string {"dirt.png"}
                Translation (kind = "x") { float {0} }
                Animation {
                    Track (target = 0) {
                        Time { Key { float {0, 1} } }
                        Value { Key { float {0, 4} } }
                    }
                }
            }
        }
    "#;
    let scene = scene(text).expect("the document is a scene");
    let camera = scene.objects().cameras.get(0).unwrap();
    let texture = camera.textures.get(camera.textures.resolve("lens").unwrap()).unwrap();
    assert_eq!(texture.file_name, "dirt.png");
    assert_eq!(texture.animation.len(), 1);
    assert_eq!(texture.animation[0].tracks[0].target, TrackTarget::Transformation(0));
    assert_eq!(texture.animation[0].tracks[0].value, Value::Linear(vec![num(0.0), num(4.0)]));
    let text = r#"
        LightObject $l (type = "infinite") {
            Texture (attrib = "projection") {
                string {"window.png"}
                Animation {
                    Track (target = 0) {
                        Time { Key { float {0} } }
                        Value { Key { float {0} } }
                    }
                }
            }
        }
    "#;
    assert_eq!(
        scene_from_tokens(&tokens(text)),
        Err(AssemblyError::InvalidTrackTarget { node: vec![], position: 0 })
    );
}

#[test]
fn geometries_hold_their_meshes_and_morph_targets() {
    let text = r#"
        GeometryObject $g (visible = false, motion_blur = false) {
            Mesh (lod = 1, primitive = "line_strip") { IndexArray (material = 2) { } IndexArray { } }
            Morph (index = 1, base = 0) { Name {string {"smile"}} }
            Mesh { }
            Morph { }
        }
    "#;
    let scene = scene(text).expect("the document is a scene");
    let geometry = scene.objects().geometries.get(0).unwrap();
    assert!(!geometry.visible);
    assert!(geometry.casts_shadows);
    assert!(!geometry.motion_blur);
    assert_eq!(geometry.meshes.len(), 2);
    assert_eq!(geometry.meshes[0].lod, 1);
    assert_eq!(geometry.meshes[0].primitive, GeometricPrimitive::LineStrip);
    assert_eq!(geometry.meshes[0].materials, vec![2, 0]);
    assert_eq!(geometry.meshes[1].primitive, GeometricPrimitive::default());
    assert_eq!(geometry.morphs.len(), 2);
    assert_eq!(geometry.morphs[0].index, 1);
    assert_eq!(geometry.morphs[0].base_target_index, Some(0));
    assert_eq!(geometry.morphs[0].name.as_deref(), Some("smile"));
    assert_eq!(geometry.morphs[1].index, 0);
    assert_eq!(geometry.morphs[1].base_target_index, None);
    assert_eq!(geometry.levels.entries(), vec![(0, 1), (1, 0)]);
    assert_eq!(geometry.levels.get(1), Some(0));
    assert_eq!(geometry.targets.entries(), vec![(0, 1), (1, 0)]);
    let malformed = Err(AssemblyError::MalformedStructure { tag: "GeometryObject".to_string() });
    let text = r#"GeometryObject $g { Mesh (lod = 2) { } Mesh { } Mesh (lod = 2) { } }"#;
    assert_eq!(scene_from_tokens(&tokens(text)), malformed);
    let text = r#"GeometryObject $g { Morph { } Morph (index = 0) { } }"#;
    assert_eq!(scene_from_tokens(&tokens(text)), malformed);
    let text = r#"GeometryObject $g { Mesh (lod = 65536) { } }"#;
    assert_eq!(scene_from_tokens(&tokens(text)), malformed);
    let text = r#"GeometryObject $g { Mesh (primitive = "hexagons") { } }"#;
    assert_eq!(
        scene_from_tokens(&tokens(text)),
        Err(AssemblyError::MalformedStructure { tag: "Mesh".to_string() })
    );
}

#[test]
fn a_text_is_refused_with_its_reason() {
    assert!(scene_from_text("Node { }").is_ok());
    assert_eq!(scene_from_text("Node {"), Err(ReadError::Syntax));
    assert_eq!(scene_from_text(&"{".repeat(101)), Err(ReadError::TooDeep));
    assert_eq!(
        scene_from_text(&format!("{} 1e9999999999999999999", "{".repeat(101))),
        Err(ReadError::TooDeep)
    );
    assert_eq!(
        scene_from_text("Node { Translation { float {1, 2} } }"),
        Err(ReadError::Assembly(AssemblyError::ArityMismatch { expected: 3, actual: 2 }))
    );
    assert_eq!(
        scene_from_text("CameraNode { ObjectRef {ref {$c}} }"),
        Err(ReadError::Assembly(AssemblyError::UnresolvedReference { name: "$c".to_string() }))
    );
}

#[test]
fn an_exponent_of_nineteen_digits_is_refused() {
    let long = Err(ReadError::LongExponent);
    assert_eq!(scene_from_text("a {1e9999999999999999999}"), long);
    assert_eq!(scene_from_text("a {1e9999999999999999999.}"), long);
    assert_eq!(scene_from_text("a {1e9999999999999999999+}"), long);
    assert_eq!(scene_from_text("a {1e9999999999999999999-}"), long);
    assert_eq!(scene_from_text("a {1e99999999999999999999}"), long);
    assert_eq!(scene_from_text("a {1e-0000000000000000001}"), long);
    assert_eq!(scene_from_text("a [1e9999999999999999999] {1}"), long);
    assert!(scene_from_src_string("a {1e9999999999999999999.}".to_string()).is_err());
}

#[test]
fn an_exponent_of_eighteen_digits_is_handed_to_the_engine() {
    assert!(scene_from_text("a {1e999999999999999999}").is_ok());
    assert!(scene_from_text("a {1e000000000000000002, 0e999, 1e-5}").is_ok());
    assert_eq!(scene_from_text("a {1e999999999999999999.}"), Err(ReadError::Syntax));
    assert_eq!(scene_from_text("a {1e999999999999999999+}"), Err(ReadError::Syntax));
    assert_eq!(scene_from_text("a {1e999999999999999999-}"), Err(ReadError::Syntax));
    assert_eq!(scene_from_text("a {1e-999999999999999999.5}"), Err(ReadError::Syntax));
    assert_eq!(scene_from_text("a {1e+999999999999999999+7}"), Err(ReadError::Syntax));
    let scene = scene_from_text("Node { Scale (kind = \"x\") { float {25e-1} } }").unwrap();
    match &scene.roots()[0] {
        Nodes::Node(node) => {
            assert_eq!(node.transformations, vec![Transformation::Scale(Scale::X(num(2.5)))])
        }
        other => panic!("a plain node was expected, not {:?}", other),
    }
}

#[test]
fn data_lists_nest_as_deep_as_structures() {
    let text = format!("Node {{ float {}1{} }}", "{".repeat(99), "}".repeat(99));
    let scene = scene_from_text(&text).expect("a hundred brackets may nest");
    assert_eq!(scene.roots().len(), 1);
    let text = format!("Node {{ float {}1{} }}", "{".repeat(100), "}".repeat(100));
    assert_eq!(scene_from_text(&text), Err(ReadError::TooDeep));
}

#[test]
fn brackets_nest_no_deeper_than_the_limit() {
    let mut text = String::new();
    for _ in 0..100 {
        text.push_str("Node {");
    }
    for _ in 0..100 {
        text.push('}');
    }
    let scene = scene_from_src_string(text.clone()).expect("a hundred nodes may nest");
    assert_eq!(scene.roots().len(), 1);
    let text = format!("Node {{{}}}", text);
    assert!(scene_from_src_string(text).is_err());
}
