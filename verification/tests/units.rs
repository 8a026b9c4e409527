use opengex::classify::{
    classify, classify_bone_transforms, classify_rotation, classify_scale, classify_time,
    classify_transform, classify_translation, classify_value, default_kind, Variant,
};
use opengex::error::{AssemblyError, Category};
use opengex::exponent::{exponents_within, MAX_EXPONENT_DIGITS};
use opengex::nesting::{nesting_within, MAX_NESTING};
use opengex::objects::SharedObjects;
use opengex::scalar::Scalar;
use opengex::scene::{assemble, Axis, Metric, Scene};
use opengex::sparse::{Refused, SparseIndexMap, MAX_INDEX};
use opengex::structure::{
    CameraNode, GeometryNode, LightNode, Node, Nodes, Rotation, Scale, Time, Transformation,
    Translation, Value,
};
use opengex::table::SharedTable;
use opengex::text::text_eq;
use opengex::tree::{forest_from_tokens, Datum, Property, Structure, Token};

fn num(v: f64) -> Scalar {
    Scalar::from_bits(v.to_bits())
}

fn nums(values: &[f64]) -> Vec<Scalar> {
    values.iter().map(|v| num(*v)).collect()
}

fn structure(tag: &str, properties: Vec<Property>, children: Vec<Structure>) -> Structure {
    Structure { tag: tag.to_string(), name: None, properties, data: vec![], children }
}

fn floats(values: &[f64]) -> Structure {
    Structure {
        tag: "float".to_string(),
        name: None,
        properties: vec![],
        data: values.iter().map(|v| Datum::Number(num(*v))).collect(),
        children: vec![],
    }
}

fn property(key: &str, value: Datum) -> Property {
    Property { key: key.to_string(), value }
}

fn kind(kind: &str) -> Property {
    property("kind", Datum::Text(kind.to_string()))
}

#[test]
fn whole_numbers_are_read_as_indices() {
    assert_eq!(num(0.0).as_index(), Some(0));
    assert_eq!(num(1.0).as_index(), Some(1));
    assert_eq!(num(2.0).as_index(), Some(2));
    assert_eq!(num(3.0).as_index(), Some(3));
    assert_eq!(num(65535.0).as_index(), Some(65535));
    assert_eq!(num(4294967295.0).as_index(), Some(4294967295));
    assert_eq!(num(4294967296.0).as_index(), None);
    assert_eq!(num(1e300).as_index(), None);
    assert_eq!(num(0.5).as_index(), None);
    assert_eq!(num(1.5).as_index(), None);
    assert_eq!(num(4294967294.5).as_index(), None);
    assert_eq!(num(-1.0).as_index(), None);
    assert_eq!(num(-0.0).as_index(), None);
    assert_eq!(num(f64::NAN).as_index(), None);
    assert_eq!(num(f64::INFINITY).as_index(), None);
    assert_eq!(num(f64::MIN_POSITIVE).as_index(), None);
    assert_eq!(Scalar::from_bits(1).as_index(), None);
    assert_eq!(Scalar::from_bits(0x4000_0000_0000_0000).as_index(), Some(2));
    assert_eq!(Scalar::from_bits(0x4000_0000_0000_0000).to_bits(), 2.0f64.to_bits());
    for n in [5u32, 6, 7, 100, 1023, 1024, 1025, 123456789, 2147483648] {
        assert_eq!(num(n as f64).as_index(), Some(n));
    }
}

#[test]
fn strings_are_compared_by_their_characters() {
    assert!(text_eq("", ""));
    assert!(text_eq("xyz", "xyz"));
    assert!(!text_eq("xyz", "xy"));
    assert!(!text_eq("xyz", "xyZ"));
    assert!(text_eq("Bézier", "Bézier"));
    assert!(!text_eq("Bézier", "Bezier"));
}

#[test]
fn classification_keeps_kind_and_values() {
    let cases: Vec<(Category, &str, Vec<f64>)> = vec![
        (Category::Translation, "x", vec![1.0]),
        (Category::Translation, "y", vec![2.0]),
        (Category::Translation, "z", vec![3.0]),
        (Category::Translation, "xyz", vec![1.0, 2.0, 3.0]),
        (Category::Rotation, "x", vec![1.0]),
        (Category::Rotation, "y", vec![2.0]),
        (Category::Rotation, "z", vec![3.0]),
        (Category::Rotation, "axis", vec![90.0, 0.0, 1.0, 0.0]),
        (Category::Rotation, "quaternion", vec![0.0, 0.0, 0.0, 1.0]),
        (Category::Scale, "x", vec![1.0]),
        (Category::Scale, "y", vec![2.0]),
        (Category::Scale, "z", vec![3.0]),
        (Category::Scale, "xyz", vec![1.0, 2.0, 3.0]),
        (Category::Time, "linear", vec![]),
        (Category::Time, "linear", vec![0.0, 1.0, 2.0, 3.0]),
        (Category::Time, "bezier", vec![0.0, 1.0, -1.0, 0.5, 0.5, 2.0]),
        (Category::Value, "constant", vec![5.0]),
        (Category::Value, "linear", vec![5.0, 6.0]),
        (Category::Value, "bezier", vec![1.0, 2.0, 3.0]),
        (Category::Value, "tcb", vec![1.0, 2.0, 3.0, 4.0, 5.0, 6.0, 7.0, 8.0]),
    ];
    for (category, kind, args) in cases {
        let variant = classify(category, kind, &nums(&args)).expect("the kind is of the category");
        assert_eq!(variant.category(), category);
        assert_eq!(variant.kind(), kind);
        assert_eq!(variant.arity(), Some(args.len()));
    }
}

#[test]
fn classification_gives_the_variant_of_the_kind() {
    let a = nums(&[1.0, 2.0, 3.0, 4.0, 5.0, 6.0, 7.0, 8.0]);
    assert_eq!(classify_translation("x", &a[..1]), Ok(Translation::X(a[0])));
    assert_eq!(classify_translation("y", &a[..1]), Ok(Translation::Y(a[0])));
    assert_eq!(classify_translation("z", &a[..1]), Ok(Translation::Z(a[0])));
    assert_eq!(classify_translation("xyz", &a[..3]), Ok(Translation::Xyz(a[0], a[1], a[2])));
    assert_eq!(classify_rotation("x", &a[1..2]), Ok(Rotation::X(a[1])));
    assert_eq!(classify_rotation("y", &a[1..2]), Ok(Rotation::Y(a[1])));
    assert_eq!(classify_rotation("z", &a[1..2]), Ok(Rotation::Z(a[1])));
    assert_eq!(classify_rotation("axis", &a[..4]), Ok(Rotation::Axis(a[0], a[1], a[2], a[3])));
    assert_eq!(
        classify_rotation("quaternion", &a[4..]),
        Ok(Rotation::Quaternion(a[4], a[5], a[6], a[7]))
    );
    assert_eq!(classify_scale("x", &a[2..3]), Ok(Scale::X(a[2])));
    assert_eq!(classify_scale("y", &a[2..3]), Ok(Scale::Y(a[2])));
    assert_eq!(classify_scale("z", &a[2..3]), Ok(Scale::Z(a[2])));
    assert_eq!(classify_scale("xyz", &a[5..]), Ok(Scale::Xyz(a[5], a[6], a[7])));
    assert_eq!(classify_time("linear", &a[..2]), Ok(Time::Linear(vec![a[0], a[1]])));
    assert_eq!(
        classify_time("bezier", &a[..6]),
        Ok(Time::Bezier(vec![(a[0], a[2], a[4]), (a[1], a[3], a[5])]))
    );
    assert_eq!(classify_value("constant", &a[..2]), Ok(Value::Constant(vec![a[0], a[1]])));
    assert_eq!(classify_value("linear", &a[..1]), Ok(Value::Linear(vec![a[0]])));
    assert_eq!(classify_value("bezier", &a[..3]), Ok(Value::Bezier(vec![(a[0], a[1], a[2])])));
    assert_eq!(
        classify_value("tcb", &a),
        Ok(Value::Tcb(vec![(a[0], a[2], a[4], a[6]), (a[1], a[3], a[5], a[7])]))
    );
    assert_eq!(
        classify(Category::Scale, "xyz", &a[..3]),
        Ok(Variant::Scale(Scale::Xyz(a[0], a[1], a[2])))
    );
    let matrix = nums(&[1.0, 2.0, 3.0, 4.0, 5.0, 6.0, 7.0, 8.0, 9.0, 10.0, 11.0, 12.0, 13.0, 14.0, 15.0, 16.0]);
    let transform = classify_transform(&matrix).expect("sixteen values are a matrix");
    assert_eq!(transform.0.to_vec(), matrix);
}

#[test]
fn classification_refuses_what_does_not_fit() {
    let a = nums(&[1.0, 2.0, 3.0, 4.0, 5.0]);
    assert_eq!(
        classify_translation("xy", &a[..2]),
        Err(AssemblyError::UnknownVariant {
            category: Category::Translation,
            kind: "xy".to_string()
        })
    );
    assert_eq!(
        classify_translation("", &a[..3]),
        Err(AssemblyError::UnknownVariant { category: Category::Translation, kind: String::new() })
    );
    assert_eq!(
        classify_translation("axis", &a[..4]),
        Err(AssemblyError::UnknownVariant {
            category: Category::Translation,
            kind: "axis".to_string()
        })
    );
    assert_eq!(
        classify_scale("quaternion", &a[..4]),
        Err(AssemblyError::UnknownVariant {
            category: Category::Scale,
            kind: "quaternion".to_string()
        })
    );
    assert_eq!(
        classify_time("constant", &a[..1]),
        Err(AssemblyError::UnknownVariant {
            category: Category::Time,
            kind: "constant".to_string()
        })
    );
    assert_eq!(
        classify_value("XYZ", &a[..1]),
        Err(AssemblyError::UnknownVariant { category: Category::Value, kind: "XYZ".to_string() })
    );
    assert_eq!(
        classify_translation("x", &a[..3]),
        Err(AssemblyError::ArityMismatch { expected: 1, actual: 3 })
    );
    assert_eq!(
        classify_translation("xyz", &a[..1]),
        Err(AssemblyError::ArityMismatch { expected: 3, actual: 1 })
    );
    assert_eq!(
        classify_rotation("axis", &a[..3]),
        Err(AssemblyError::ArityMismatch { expected: 4, actual: 3 })
    );
    assert_eq!(
        classify_rotation("quaternion", &a),
        Err(AssemblyError::ArityMismatch { expected: 4, actual: 5 })
    );
    assert_eq!(
        classify_rotation("z", &a[..0]),
        Err(AssemblyError::ArityMismatch { expected: 1, actual: 0 })
    );
    assert_eq!(
        classify_time("bezier", &a[..4]),
        Err(AssemblyError::ArityMismatch { expected: 3, actual: 4 })
    );
    assert_eq!(
        classify_value("tcb", &a[..3]),
        Err(AssemblyError::ArityMismatch { expected: 4, actual: 3 })
    );
    assert_eq!(
        classify_transform(&a),
        Err(AssemblyError::ArityMismatch { expected: 16, actual: 5 })
    );
}

#[test]
fn the_transform_of_a_skeleton_holds_a_matrix_for_each_bone() {
    let values: Vec<f64> = (0..48).map(|i| i as f64).collect();
    let args = nums(&values);
    let list = classify_bone_transforms(&args, 3).expect("three bones take 48 values");
    assert_eq!(list.len(), 3);
    for (bone, transform) in list.iter().enumerate() {
        assert_eq!(transform.0.to_vec(), nums(&values[16 * bone..16 * bone + 16]));
    }
    assert_eq!(classify_bone_transforms(&[], 0), Ok(vec![]));
    assert_eq!(
        classify_bone_transforms(&args, 2),
        Err(AssemblyError::ArityMismatch { expected: 32, actual: 48 })
    );
    assert_eq!(
        classify_bone_transforms(&args[..16], 0),
        Err(AssemblyError::ArityMismatch { expected: 0, actual: 16 })
    );
    assert_eq!(
        classify_bone_transforms(&args, usize::MAX),
        Err(AssemblyError::ArityMismatch { expected: usize::MAX, actual: 48 })
    );
}

#[test]
fn each_category_has_its_default_kind() {
    assert_eq!(default_kind(Category::Translation), "xyz");
    assert_eq!(default_kind(Category::Rotation), "axis");
    assert_eq!(default_kind(Category::Scale), "xyz");
    assert_eq!(default_kind(Category::Time), "linear");
    assert_eq!(default_kind(Category::Value), "linear");
}

#[test]
fn a_sparse_index_map_keeps_what_it_accepts() {
    let mut map = SparseIndexMap::new();
    assert!(map.entries().is_empty());
    assert_eq!(map.get(0), None);
    assert!(!map.contains_key(5));
    assert_eq!(map.insert(5, 50), Ok(()));
    assert_eq!(map.insert(2, 20), Ok(()));
    assert_eq!(map.insert(MAX_INDEX, 7), Ok(()));
    assert_eq!(map.get(5), Some(50));
    assert_eq!(map.get(2), Some(20));
    assert_eq!(map.get(MAX_INDEX), Some(7));
    assert_eq!(map.get(3), None);
    assert_eq!(map.get(50), None);
    assert!(map.contains_key(2));
    assert!(!map.contains_key(20));
    assert_eq!(map.entries(), vec![(2, 20), (5, 50), (MAX_INDEX, 7)]);
}

#[test]
fn a_sparse_index_map_never_overwrites() {
    let mut map = SparseIndexMap::new();
    assert_eq!(map.insert(5, 50), Ok(()));
    assert_eq!(map.insert(5, 51), Err(Refused::Occupied { value: 50 }));
    assert_eq!(map.get(5), Some(50));
    assert_eq!(map.insert(MAX_INDEX + 1, 1), Err(Refused::OutOfRange));
    assert_eq!(map.insert(usize::MAX, 1), Err(Refused::OutOfRange));
    assert_eq!(map.get(MAX_INDEX + 1), None);
    assert_eq!(map.get(usize::MAX), None);
    assert_eq!(map.entries(), vec![(5, 50)]);
}

#[test]
fn a_name_resolves_to_the_same_key_every_time() {
    let mut table: SharedTable<Scalar> = SharedTable::new();
    assert_eq!(table.len(), 0);
    assert_eq!(table.insert(Some("one".to_string()), num(1.0)), Ok(0));
    assert_eq!(table.insert(Some("two".to_string()), num(2.0)), Ok(1));
    assert_eq!(table.resolve("two"), Ok(1));
    assert_eq!(table.resolve("two"), Ok(1));
    assert_eq!(table.insert(Some("three".to_string()), num(3.0)), Ok(2));
    assert_eq!(table.insert(None, num(4.0)), Ok(3));
    assert_eq!(table.resolve("two"), Ok(1));
    assert_eq!(table.resolve("one"), Ok(0));
    assert_eq!(table.get(1), Some(&num(2.0)));
    assert_eq!(table.name_of(1).map(|n| n.as_str()), Some("two"));
    assert_eq!(table.len(), 4);
}

#[test]
fn a_table_refuses_a_name_that_is_taken() {
    let mut table: SharedTable<Scalar> = SharedTable::new();
    assert_eq!(table.insert(Some("one".to_string()), num(1.0)), Ok(0));
    assert_eq!(
        table.insert(Some("one".to_string()), num(2.0)),
        Err(AssemblyError::DuplicateObjectName { name: "one".to_string() })
    );
    assert_eq!(table.len(), 1);
    assert_eq!(table.get(0), Some(&num(1.0)));
    assert_eq!(
        table.resolve("two"),
        Err(AssemblyError::UnresolvedReference { name: "two".to_string() })
    );
}

#[test]
fn objects_without_a_name_are_entries_of_their_own() {
    let mut table: SharedTable<Scalar> = SharedTable::new();
    assert_eq!(table.insert(None, num(1.0)), Ok(0));
    assert_eq!(table.insert(None, num(1.0)), Ok(1));
    assert_eq!(table.len(), 2);
    assert_eq!(table.name_of(0), None);
    assert_eq!(table.name_of(2), None);
    assert_eq!(table.get(2), None);
    assert_eq!(
        table.resolve(""),
        Err(AssemblyError::UnresolvedReference { name: String::new() })
    );
}

#[test]
fn nesting_is_counted_outside_strings_and_comments() {
    assert!(nesting_within("", 0));
    assert!(nesting_within("a b c", 0));
    assert!(!nesting_within("{", 0));
    assert!(nesting_within("{", 1));
    assert!(nesting_within("{}{}{}", 1));
    assert!(!nesting_within("{{}{}}", 1));
    assert!(nesting_within("{{}{}}", 2));
    assert!(!nesting_within("{{{}}}", 2));
    assert!(nesting_within("}}}{", 1));
    assert!(nesting_within("\"{{{\"", 0));
    assert!(nesting_within("\"\\\"{{{\"", 0));
    assert!(!nesting_within("\"\\\\\"{", 0));
    assert!(nesting_within("// {{{\n", 0));
    assert!(!nesting_within("// {{{\n{", 0));
    assert!(nesting_within("/* {{{ * / { */", 0));
    assert!(!nesting_within("/* {{{ **/{", 0));
    assert!(!nesting_within("/ {", 0));
    assert!(nesting_within("{ \"}\" { // }\n { /* } */ }}}", 3));
    assert!(!nesting_within("{ \"}\" { // }\n { /* } */ }}}", 2));
    assert!(nesting_within(&"{".repeat(MAX_NESTING), MAX_NESTING));
    assert!(!nesting_within(&"{".repeat(MAX_NESTING + 1), MAX_NESTING));
}

#[test]
fn exponents_are_measured_by_their_digits() {
    assert!(exponents_within("", 0));
    assert!(exponents_within("1234567890123456789012345", 0));
    assert!(exponents_within("e", 0));
    assert!(exponents_within("1e+", 0));
    assert!(!exponents_within("1e5", 0));
    assert!(exponents_within("1e5", 1));
    assert!(exponents_within("1E-25", 2));
    assert!(!exponents_within("1E-250", 2));
    assert!(!exponents_within("1e+250", 2));
    assert!(exponents_within("1e+-250", 0));
    assert!(exponents_within("1e 250", 0));
    assert!(exponents_within("1e25 e+25 E-25", 2));
    assert!(!exponents_within("1e25 e+250 E-25", 2));
    assert!(exponents_within("Node12", 2));
    assert!(!exponents_within("Node123", 2));
    assert!(exponents_within("1e1e1e1", 1));
    assert!(exponents_within("1e12-345", 2));
    assert_eq!(MAX_EXPONENT_DIGITS, 18);
    assert!(exponents_within(&format!("1e{}", "9".repeat(18)), MAX_EXPONENT_DIGITS));
    assert!(exponents_within(&format!("1e{}.", "9".repeat(18)), MAX_EXPONENT_DIGITS));
    assert!(exponents_within(&format!("1e{}+9", "9".repeat(18)), MAX_EXPONENT_DIGITS));
    assert!(!exponents_within(&format!("1e{}", "9".repeat(19)), MAX_EXPONENT_DIGITS));
    assert!(!exponents_within(&format!("1e{}.", "9".repeat(19)), MAX_EXPONENT_DIGITS));
    assert!(!exponents_within(&format!("1e{}", "0".repeat(19)), MAX_EXPONENT_DIGITS));
    assert!(!exponents_within(&format!("1E-{}", "9".repeat(19)), MAX_EXPONENT_DIGITS));
}

#[test]
fn a_forest_is_read_from_its_tokens() {
    let s = |t: &str| t.to_string();
    let tokens = vec![
        Token::StartNode(s("structure")),
        Token::Text(s("tag"), s("Node")),
        Token::Text(s("name"), s("$n")),
        Token::StartNode(s("property")),
        Token::Text(s("key"), s("visible")),
        Token::Bool(s("flag"), true),
        Token::EndNode(s("property")),
        Token::StartNode(s("property")),
        Token::Text(s("key"), s("link")),
        Token::Text(s("ref"), s("$m")),
        Token::EndNode(s("property")),
        Token::Number(s("number"), num(1.0)),
        Token::Text(s("text"), s("t")),
        Token::StartNode(s("structure")),
        Token::Text(s("tag"), s("Child")),
        Token::EndNode(s("structure")),
        Token::EndNode(s("structure")),
        Token::StartNode(s("structure")),
        Token::Text(s("tag"), s("Other")),
        Token::EndNode(s("structure")),
    ];
    let forest = forest_from_tokens(&tokens).expect("the tokens are a forest");
    assert_eq!(
        forest,
        vec![
            Structure {
                tag: s("Node"),
                name: Some(s("$n")),
                properties: vec![
                    Property { key: s("visible"), value: Datum::Bool(true) },
                    Property { key: s("link"), value: Datum::Reference(s("$m")) },
                ],
                data: vec![Datum::Number(num(1.0)), Datum::Text(s("t"))],
                children: vec![structure("Child", vec![], vec![])],
            },
            structure("Other", vec![], vec![]),
        ]
    );
    assert_eq!(forest_from_tokens(&vec![]), Ok(vec![]));
}

#[test]
fn a_token_out_of_place_is_reported_with_its_position() {
    let s = |t: &str| t.to_string();
    let start = || Token::StartNode(s("structure"));
    let end = || Token::EndNode(s("structure"));
    let tag = || Token::Text(s("tag"), s("Node"));
    let unexpected = |position| Err(AssemblyError::UnexpectedToken { position });
    assert_eq!(forest_from_tokens(&vec![end()]), unexpected(0));
    assert_eq!(forest_from_tokens(&vec![tag()]), unexpected(0));
    assert_eq!(forest_from_tokens(&vec![start()]), unexpected(1));
    assert_eq!(forest_from_tokens(&vec![start(), end()]), unexpected(1));
    assert_eq!(forest_from_tokens(&vec![start(), tag()]), unexpected(2));
    assert_eq!(forest_from_tokens(&vec![start(), tag(), end(), end()]), unexpected(3));
    assert_eq!(
        forest_from_tokens(&vec![start(), tag(), Token::EndNode(s("property"))]),
        unexpected(2)
    );
    assert_eq!(
        forest_from_tokens(&vec![start(), tag(), Token::Number(s("value"), num(1.0)), end()]),
        unexpected(2)
    );
    assert_eq!(
        forest_from_tokens(&vec![
            start(),
            tag(),
            start(),
            tag(),
            end(),
            Token::Number(s("number"), num(1.0)),
            end()
        ]),
        unexpected(5)
    );
    assert_eq!(
        forest_from_tokens(&vec![
            start(),
            tag(),
            Token::StartNode(s("property")),
            Token::Text(s("key"), s("k")),
            Token::EndNode(s("property")),
            end()
        ]),
        unexpected(4)
    );
    assert_eq!(
        forest_from_tokens(&vec![
            start(),
            tag(),
            Token::StartNode(s("property")),
            Token::Text(s("key"), s("k")),
            Token::Bool(s("flag"), false),
            end()
        ]),
        unexpected(5)
    );
}

#[test]
fn a_scene_is_assembled_from_structures() {
    let forest = vec![structure(
        "Node",
        vec![],
        vec![structure("Translation", vec![kind("xyz")], vec![floats(&[1.0, 2.0, 3.0])])],
    )];
    let scene = assemble(&forest).expect("the forest is a scene");
    assert_eq!(
        scene.roots(),
        &vec![Nodes::Node(Node {
            name: None,
            iden: None,
            transformations: vec![Transformation::Translation(Translation::Xyz(
                num(1.0),
                num(2.0),
                num(3.0)
            ))],
            animations: vec![],
            children: vec![],
        })]
    );
    assert_eq!(scene.objects(), &SharedObjects::new());
    assert_eq!(scene.metric(), Metric::new());
    assert_eq!(
        Metric::new(),
        Metric { distance: num(1.0), angle: num(1.0), time: num(1.0), up: Axis::Z }
    );
}

#[test]
fn the_metric_is_read_key_by_key() {
    let metric = |key: &str, child: Structure| {
        structure("Metric", vec![property("key", Datum::Text(key.to_string()))], vec![child])
    };
    let axis = |name: &str| Structure {
        tag: "string".to_string(),
        name: None,
        properties: vec![],
        data: vec![Datum::Text(name.to_string())],
        children: vec![],
    };
    let forest = vec![
        metric("distance", floats(&[0.5])),
        metric("up", axis("x")),
        metric("time", floats(&[2.0])),
        metric("mass", floats(&[1.0, 2.0])),
        metric("distance", floats(&[0.25])),
    ];
    let scene = assemble(&forest).expect("the forest is a scene");
    assert_eq!(
        scene.metric(),
        Metric { distance: num(0.25), angle: num(1.0), time: num(2.0), up: Axis::X }
    );
    assert_eq!(
        assemble(&vec![metric("angle", floats(&[1.0, 2.0]))]),
        Err(AssemblyError::ArityMismatch { expected: 1, actual: 2 })
    );
    assert_eq!(
        assemble(&vec![metric("up", axis("w"))]),
        Err(AssemblyError::MalformedStructure { tag: "Metric".to_string() })
    );
    assert_eq!(
        assemble(&vec![structure("Metric", vec![], vec![floats(&[1.0])])]),
        Err(AssemblyError::MalformedStructure { tag: "Metric".to_string() })
    );
}

#[test]
fn an_index_above_the_limit_of_a_sparse_map_is_malformed() {
    let index = |tag: &str, value: f64, child: Structure| {
        structure(tag, vec![property("index", Datum::Number(num(value)))], vec![child])
    };
    let reference = |name: &str| Structure {
        tag: "ref".to_string(),
        name: None,
        properties: vec![],
        data: vec![Datum::Reference(name.to_string())],
        children: vec![],
    };
    let node = |child: Structure| {
        structure(
            "GeometryNode",
            vec![],
            vec![structure("ObjectRef", vec![], vec![reference("$g")]), child],
        )
    };
    let limit = MAX_INDEX as f64;
    let scene = |child: Structure| {
        let mut geometry = structure("GeometryObject", vec![], vec![]);
        geometry.name = Some("$g".to_string());
        let mut material = structure("Material", vec![], vec![]);
        material.name = Some("$m".to_string());
        assemble(&vec![geometry, material, node(child)])
    };
    assert!(scene(index("MorphWeight", limit, floats(&[1.0]))).is_ok());
    assert_eq!(
        scene(index("MorphWeight", limit + 1.0, floats(&[1.0]))),
        Err(AssemblyError::MalformedStructure { tag: "MorphWeight".to_string() })
    );
    assert_eq!(
        scene(index("MorphWeight", 0.5, floats(&[1.0]))),
        Err(AssemblyError::MalformedStructure { tag: "MorphWeight".to_string() })
    );
    assert!(scene(index("MaterialRef", limit, reference("$m"))).is_ok());
    assert_eq!(
        scene(index("MaterialRef", limit + 1.0, reference("$m"))),
        Err(AssemblyError::MalformedStructure { tag: "MaterialRef".to_string() })
    );
    assert_eq!(
        scene(index("MaterialRef", -1.0, reference("$m"))),
        Err(AssemblyError::MalformedStructure { tag: "MaterialRef".to_string() })
    );
}

#[test]
fn a_scene_is_refused_if_a_key_has_no_object() {
    let plain = |children: Vec<Nodes>| {
        Nodes::Node(Node {
            name: None,
            iden: None,
            transformations: vec![],
            animations: vec![],
            children,
        })
    };
    let camera = |key: usize| {
        Nodes::CameraNode(CameraNode {
            name: None,
            iden: None,
            transformations: vec![],
            animations: vec![],
            children: vec![],
            camera: key,
        })
    };
    let light = |key: usize| {
        Nodes::LightNode(LightNode {
            name: None,
            iden: None,
            visible: None,
            transformations: vec![],
            animations: vec![],
            children: vec![],
            casts_shadows: None,
            light: key,
        })
    };
    let geometry = |key: usize, slots: &[(usize, usize)]| {
        let mut materials = SparseIndexMap::new();
        for (slot, material) in slots {
            materials.insert(*slot, *material).unwrap();
        }
        Nodes::GeometryNode(GeometryNode {
            name: None,
            iden: None,
            transformations: vec![],
            animations: vec![],
            children: vec![],
            visible: None,
            casts_shadows: None,
            motion_blur: None,
            geometry: key,
            materials,
            morph_weights: vec![],
        })
    };
    let objects = || {
        let mut objects = SharedObjects::new();
        objects.geometries.insert(None, scene_geometry()).unwrap();
        objects.materials.insert(None, scene_material()).unwrap();
        objects.materials.insert(None, scene_material()).unwrap();
        objects
    };
    let dangling = Err(AssemblyError::DanglingReference);
    assert!(Scene::new(Metric::new(), vec![], objects()).is_ok());
    assert!(Scene::new(Metric::new(), vec![plain(vec![geometry(0, &[(3, 1)])])], objects()).is_ok());
    assert_eq!(Scene::new(Metric::new(), vec![geometry(1, &[])], objects()), dangling);
    assert_eq!(Scene::new(Metric::new(), vec![geometry(0, &[(0, 0), (9, 2)])], objects()), dangling);
    assert_eq!(Scene::new(Metric::new(), vec![camera(0)], objects()), dangling);
    assert_eq!(Scene::new(Metric::new(), vec![plain(vec![]), plain(vec![light(0)])], objects()), dangling);
}

fn scene_geometry() -> opengex::structure::GeometryObject {
    opengex::structure::GeometryObject {
        visible: true,
        casts_shadows: true,
        motion_blur: true,
        meshes: vec![],
        levels: SparseIndexMap::new(),
        morphs: vec![],
        targets: SparseIndexMap::new(),
    }
}

fn scene_material() -> opengex::structure::Material {
    opengex::structure::Material {
        two_sided: false,
        name: None,
        color: SharedTable::new(),
        param: SharedTable::new(),
        texture: SharedTable::new(),
    }
}

fn matrix_of(t: &Transformation) -> [[f64; 4]; 4] {
    let value = |s: &Scalar| f64::from_bits(s.to_bits());
    let mut m = [[0.0; 4]; 4];
    for i in 0..4 {
        m[i][i] = 1.0;
    }
    match t {
        Transformation::Translation(Translation::Xyz(x, y, z)) => {
            m[3][0] = value(x);
            m[3][1] = value(y);
            m[3][2] = value(z);
        }
        Transformation::Scale(Scale::Xyz(x, y, z)) => {
            m[0][0] = value(x);
            m[1][1] = value(y);
            m[2][2] = value(z);
        }
        other => panic!("this test composes translations and scales only, not {:?}", other),
    }
    m
}

fn product(a: [[f64; 4]; 4], b: [[f64; 4]; 4]) -> [[f64; 4]; 4] {
    let mut m = [[0.0; 4]; 4];
    for i in 0..4 {
        for j in 0..4 {
            for k in 0..4 {
                m[i][j] += a[i][k] * b[k][j];
            }
        }
    }
    m
}

#[test]
fn transformations_compose_in_the_order_of_the_document() {
    let forest = vec![structure(
        "Node",
        vec![],
        vec![
            structure("Translation", vec![], vec![floats(&[1.0, 2.0, 3.0])]),
            structure("Animation", vec![], vec![]),
            structure("Scale", vec![], vec![floats(&[2.0, 2.0, 2.0])]),
        ],
    )];
    let scene = assemble(&forest).expect("the forest is a scene");
    let list = match &scene.roots()[0] {
        Nodes::Node(node) => &node.transformations,
        other => panic!("a plain node was expected, not {:?}", other),
    };
    assert_eq!(
        list,
        &vec![
            Transformation::Translation(Translation::Xyz(num(1.0), num(2.0), num(3.0))),
            Transformation::Scale(Scale::Xyz(num(2.0), num(2.0), num(2.0))),
        ]
    );
    let local = list.iter().fold(matrix_of(&list[0]), |m, t| {
        if std::ptr::eq(t, &list[0]) {
            m
        } else {
            product(m, matrix_of(t))
        }
    });
    let first_then_second = product(matrix_of(&list[0]), matrix_of(&list[1]));
    let second_then_first = product(matrix_of(&list[1]), matrix_of(&list[0]));
    assert_eq!(local, first_then_second);
    assert_ne!(local, second_then_first);
    assert_eq!(local[3], [2.0, 4.0, 6.0, 1.0]);
    assert_eq!(second_then_first[3], [1.0, 2.0, 3.0, 1.0]);
}
