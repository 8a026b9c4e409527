//! The scene: what a document is, once it is assembled.
//!
//! A document is assembled in two passes over its top-level structures. The
//! first reads the metric and enters every shared object into its table, so
//! that a node may refer to an object that is declared after it. The second
//! builds the nodes and resolves their references. The scene is then frozen:
//! it is checked once more that every key of a node is in its table, and
//! from then on the scene is only read.

use vstd::prelude::*;
use crate::classify::arity_mismatch;
use crate::error::{AssemblyError, ErrorView};
use crate::lookup::{
    malformed, malformed_structure, property_text, text, text_of, text_property, values, values_of,
};
use crate::nodes::{build_nodes, nodes_among};
use crate::objects::{
    camera_object_of, geometry_object_of, light_object_of, material_of, read_camera_object,
    read_geometry_object, read_light_object, read_material, SharedObjects, SharedObjectsView,
};
use crate::scalar::{Scalar, ONE_BITS};
use crate::sparse::SparseIndexMap;
use crate::structure::{lemma_node_views, node_views, NodeDetail, NodeView, Nodes};
use crate::table::name_text;
use crate::text::text_eq;
use crate::tree::{forest_view, Structure, StructureView};

verus! {

/// A coordinate axis.
#[derive(Clone, Copy, PartialEq, Eq, Structural, Debug)]
pub enum Axis {
    X,
    Y,
    Z,
}

/// The units of a scene: the length of one unit of distance in meters, the
/// size of one unit of angle in radians, the length of one unit of time in
/// seconds, and the axis that points up.
#[derive(Clone, Copy, PartialEq, Eq, Structural, Debug)]
pub struct Metric {
    pub distance: Scalar,
    pub angle: Scalar,
    pub time: Scalar,
    pub up: Axis,
}

/// The metric of a document that states none: every unit is one, and the z
/// axis points up.
pub open spec fn default_metric() -> Metric {
    Metric { distance: Scalar::one(), angle: Scalar::one(), time: Scalar::one(), up: Axis::Z }
}

/// The axis of a name.
pub open spec fn axis_of(name: Seq<char>) -> Option<Axis> {
    if name == "x"@ {
        Some(Axis::X)
    } else if name == "y"@ {
        Some(Axis::Y)
    } else if name == "z"@ {
        Some(Axis::Z)
    } else {
        None
    }
}

/// The metric after a Metric structure: the structure sets the unit of its
/// key. A key that is none of `distance`, `angle`, `time` and `up` changes
/// nothing.
pub open spec fn metric_with(before: Metric, s: StructureView) -> Result<Metric, ErrorView> {
    match text_property(s, "key"@) {
        Err(e) => Err(e),
        Ok(None) => Err(malformed(s)),
        Ok(Some(key)) => if key == "up"@ {
            match text_of(s) {
                Err(e) => Err(e),
                Ok(name) => match axis_of(name) {
                    None => Err(malformed(s)),
                    Some(up) => Ok(Metric { up, ..before }),
                },
            }
        } else if key == "distance"@ || key == "angle"@ || key == "time"@ {
            match values_of(s) {
                Err(e) => Err(e),
                Ok(v) => if v.len() != 1 {
                    Err(arity_mismatch(1, v))
                } else if key == "distance"@ {
                    Ok(Metric { distance: v[0], ..before })
                } else if key == "angle"@ {
                    Ok(Metric { angle: v[0], ..before })
                } else {
                    Ok(Metric { time: v[0], ..before })
                },
            }
        } else {
            Ok(before)
        },
    }
}

/// The metric that the first `n` structures of a document state.
pub open spec fn metric_among(forest: Seq<StructureView>, n: int) -> Result<Metric, ErrorView>
    decreases n,
{
    if n <= 0 || n > forest.len() {
        Ok(default_metric())
    } else {
        match metric_among(forest, n - 1) {
            Err(e) => Err(e),
            Ok(before) => if forest[n - 1].tag == "Metric"@ {
                metric_with(before, forest[n - 1])
            } else {
                Ok(before)
            },
        }
    }
}

/// The tables after a structure: an object structure is read and enters the
/// table of its type under the name of the structure, which no object of
/// the document has taken. Any other structure changes nothing.
pub open spec fn objects_with(before: SharedObjectsView, s: StructureView) -> Result<
    SharedObjectsView,
    ErrorView,
> {
    if s.tag == "GeometryObject"@ {
        match geometry_object_of(s) {
            Err(e) => Err(e),
            Ok(object) => match before.free(s.name) {
                Err(e) => Err(e),
                Ok(_) => Ok(
                    SharedObjectsView {
                        geometries: before.geometries.with(s.name, object),
                        ..before
                    },
                ),
            },
        }
    } else if s.tag == "CameraObject"@ {
        match camera_object_of(s) {
            Err(e) => Err(e),
            Ok(object) => match before.free(s.name) {
                Err(e) => Err(e),
                Ok(_) => Ok(
                    SharedObjectsView { cameras: before.cameras.with(s.name, object), ..before },
                ),
            },
        }
    } else if s.tag == "LightObject"@ {
        match light_object_of(s) {
            Err(e) => Err(e),
            Ok(object) => match before.free(s.name) {
                Err(e) => Err(e),
                Ok(_) => Ok(
                    SharedObjectsView { lights: before.lights.with(s.name, object), ..before },
                ),
            },
        }
    } else if s.tag == "Material"@ {
        match material_of(s) {
            Err(e) => Err(e),
            Ok(object) => match before.free(s.name) {
                Err(e) => Err(e),
                Ok(_) => Ok(
                    SharedObjectsView {
                        materials: before.materials.with(s.name, object),
                        ..before
                    },
                ),
            },
        }
    } else {
        Ok(before)
    }
}

/// The tables of the objects that the first `n` structures of a document
/// declare.
pub open spec fn objects_among(forest: Seq<StructureView>, n: int) -> Result<
    SharedObjectsView,
    ErrorView,
>
    decreases n,
{
    if n <= 0 || n > forest.len() {
        Ok(SharedObjectsView::empty())
    } else {
        match objects_among(forest, n - 1) {
            Err(e) => Err(e),
            Ok(before) => objects_with(before, forest[n - 1]),
        }
    }
}

/// Whether every key of a sparse index map is below a bound.
pub open spec fn keys_below(slots: Map<usize, usize>, bound: nat) -> bool {
    forall|slot: usize| #[trigger] slots.dom().contains(slot) ==> slots[slot] < bound
}

/// Whether every key that a node holds beside its common parts is in its
/// table.
pub open spec fn detail_consistent(detail: NodeDetail, objects: SharedObjectsView) -> bool {
    match detail {
        NodeDetail::Node => true,
        NodeDetail::Bone => true,
        NodeDetail::Geometry { geometry, materials, .. } => {
            &&& geometry < objects.geometries.objects.len()
            &&& keys_below(materials, objects.materials.objects.len())
        },
        NodeDetail::Camera { camera } => camera < objects.cameras.objects.len(),
        NodeDetail::Light { light, .. } => light < objects.lights.objects.len(),
    }
}

/// Whether every key of a node, and of every node below it, is in its table.
pub open spec fn node_consistent(node: NodeView, objects: SharedObjectsView) -> bool
    decreases node, 0int,
{
    detail_consistent(node.detail, objects) && nodes_consistent(
        node.children,
        node.children.len() as int,
        objects,
    )
}

/// Whether every key of the first `n` nodes of a list, and of every node
/// below them, is in its table.
pub open spec fn nodes_consistent(nodes: Seq<NodeView>, n: int, objects: SharedObjectsView) -> bool
    decreases nodes, n,
{
    if n <= 0 || n > nodes.len() {
        true
    } else {
        nodes_consistent(nodes, n - 1, objects) && node_consistent(nodes[n - 1], objects)
    }
}

/// The mathematical value of a [`Scene`].
pub struct SceneView {
    pub metric: Metric,
    pub roots: Seq<NodeView>,
    pub objects: SharedObjectsView,
}

impl SceneView {
    /// The invariant of a scene: its tables are well formed, and every key
    /// of every node is in its table.
    pub open spec fn wf(self) -> bool {
        &&& self.objects.wf()
        &&& nodes_consistent(self.roots, self.roots.len() as int, self.objects)
    }
}

/// The scene that is frozen from its parts, if its nodes hold no key that
/// is not in its table.
pub open spec fn frozen(metric: Metric, roots: Seq<NodeView>, objects: SharedObjectsView) -> Result<
    SceneView,
    ErrorView,
> {
    if nodes_consistent(roots, roots.len() as int, objects) {
        Ok(SceneView { metric, roots, objects })
    } else {
        Err(ErrorView::DanglingReference)
    }
}

/// The scene that a document is.
pub open spec fn scene_of(forest: Seq<StructureView>) -> Result<SceneView, ErrorView> {
    match metric_among(forest, forest.len() as int) {
        Err(e) => Err(e),
        Ok(metric) => match objects_among(forest, forest.len() as int) {
            Err(e) => Err(e),
            Ok(objects) => match nodes_among(forest, forest.len() as int, Seq::empty(), objects) {
                Err(e) => Err(e),
                Ok(roots) => frozen(metric, roots, objects),
            },
        },
    }
}

/// A scene: the metric, the nodes at the top of the hierarchy, and the
/// tables of the shared objects. A scene is made once and then only read.
#[derive(PartialEq, Eq, Debug)]
pub struct Scene {
    metric: Metric,
    roots: Vec<Nodes>,
    objects: SharedObjects,
}

impl View for Scene {
    type V = SceneView;

    closed spec fn view(&self) -> SceneView {
        SceneView { metric: self.metric, roots: node_views(self.roots@), objects: self.objects@ }
    }
}

/// The metric of some structures is that of all of them, where it fails.
pub proof fn lemma_metric_fails(forest: Seq<StructureView>, n: int, m: int)
    requires
        0 <= n <= m <= forest.len(),
        metric_among(forest, n) is Err,
    ensures
        metric_among(forest, m) == metric_among(forest, n),
    decreases m - n,
{
    if n < m {
        lemma_metric_fails(forest, n, m - 1);
    }
}

/// The objects of some structures are those of all of them, where they
/// fail.
pub proof fn lemma_objects_fail(forest: Seq<StructureView>, n: int, m: int)
    requires
        0 <= n <= m <= forest.len(),
        objects_among(forest, n) is Err,
    ensures
        objects_among(forest, m) == objects_among(forest, n),
    decreases m - n,
{
    if n < m {
        lemma_objects_fail(forest, n, m - 1);
    }
}

/// Nodes that are not consistent stay so, whatever follows them.
pub proof fn lemma_inconsistent_stays(
    nodes: Seq<NodeView>,
    n: int,
    m: int,
    objects: SharedObjectsView,
)
    requires
        0 <= n <= m <= nodes.len(),
        !nodes_consistent(nodes, n, objects),
    ensures
        !nodes_consistent(nodes, m, objects),
    decreases m - n,
{
    if n < m {
        lemma_inconsistent_stays(nodes, n, m - 1, objects);
    }
}

impl Metric {
    /// The metric of a document that states none.
    pub fn new() -> (metric: Metric)
        ensures
            metric == default_metric(),
    {
        let one = Scalar::from_bits(ONE_BITS);
        Metric { distance: one, angle: one, time: one, up: Axis::Z }
    }
}

fn read_axis(name: &str) -> (axis: Option<Axis>)
    ensures
        axis == axis_of(name@),
{
    if text_eq(name, "x") {
        Some(Axis::X)
    } else if text_eq(name, "y") {
        Some(Axis::Y)
    } else if text_eq(name, "z") {
        Some(Axis::Z)
    } else {
        None
    }
}

fn apply_metric(before: Metric, s: &Structure) -> (r: Result<Metric, AssemblyError>)
    ensures
        match r {
            Ok(metric) => metric_with(before, s@) == Ok::<Metric, ErrorView>(metric),
            Err(e) => metric_with(before, s@) == Err::<Metric, ErrorView>(e@),
        },
{
    let key = match property_text(s, "key") {
        Err(e) => {
            return Err(e);
        },
        Ok(None) => {
            return Err(malformed_structure(s));
        },
        Ok(Some(key)) => key,
    };
    if text_eq(key.as_str(), "up") {
        match text(s) {
            Err(e) => Err(e),
            Ok(name) => match read_axis(name.as_str()) {
                None => Err(malformed_structure(s)),
                Some(up) => Ok(
                    Metric { distance: before.distance, angle: before.angle, time: before.time, up },
                ),
            },
        }
    } else {
        let distance = text_eq(key.as_str(), "distance");
        let angle = text_eq(key.as_str(), "angle");
        let time = text_eq(key.as_str(), "time");
        if distance || angle || time {
            match values(s) {
                Err(e) => Err(e),
                Ok(v) => if v.len() != 1 {
                    Err(AssemblyError::ArityMismatch { expected: 1, actual: v.len() })
                } else if distance {
                    Ok(
                        Metric {
                            distance: v[0],
                            angle: before.angle,
                            time: before.time,
                            up: before.up,
                        },
                    )
                } else if angle {
                    Ok(
                        Metric {
                            distance: before.distance,
                            angle: v[0],
                            time: before.time,
                            up: before.up,
                        },
                    )
                } else {
                    Ok(
                        Metric {
                            distance: before.distance,
                            angle: before.angle,
                            time: v[0],
                            up: before.up,
                        },
                    )
                },
            }
        } else {
            Ok(before)
        }
    }
}

/// Reads the metric of a document.
pub fn read_metric(forest: &Vec<Structure>) -> (r: Result<Metric, AssemblyError>)
    ensures
        match r {
            Ok(metric) => metric_among(forest_view(forest@), forest@.len() as int) == Ok::<
                Metric,
                ErrorView,
            >(metric),
            Err(e) => metric_among(forest_view(forest@), forest@.len() as int) == Err::<
                Metric,
                ErrorView,
            >(e@),
        },
{
    let mut metric = Metric::new();
    let mut i: usize = 0;
    while i < forest.len()
        invariant
            i <= forest.len(),
            metric_among(forest_view(forest@), i as int) == Ok::<Metric, ErrorView>(metric),
        decreases forest.len() - i,
    {
        let s = &forest[i];
        assert(forest_view(forest@)[i as int] == s@);
        if text_eq(s.tag.as_str(), "Metric") {
            match apply_metric(metric, s) {
                Err(e) => {
                    proof {
                        lemma_metric_fails(forest_view(forest@), i + 1, forest@.len() as int);
                    }
                    return Err(e);
                },
                Ok(next) => {
                    metric = next;
                },
            }
        }
        i += 1;
    }
    Ok(metric)
}

fn free_name(objects: &SharedObjects, name: &Option<String>) -> (r: Result<
    Option<String>,
    AssemblyError,
>)
    ensures
        match r {
            Ok(copy) => objects@.free(name_text(*name)) is Ok && name_text(copy) == name_text(
                *name,
            ),
            Err(e) => objects@.free(name_text(*name)) == Err::<(), ErrorView>(e@),
        },
{
    match name {
        Some(n) => if objects.declares(n.as_str()) {
            Err(AssemblyError::DuplicateObjectName { name: n.clone() })
        } else {
            Ok(Some(n.clone()))
        },
        None => Ok(None),
    }
}

fn register(objects: &mut SharedObjects, s: &Structure) -> (r: Result<(), AssemblyError>)
    ensures
        match r {
            Ok(_) => objects_with(old(objects)@, s@) == Ok::<SharedObjectsView, ErrorView>(
                final(objects)@,
            ),
            Err(e) => objects_with(old(objects)@, s@) == Err::<SharedObjectsView, ErrorView>(e@),
        },
{
    if text_eq(s.tag.as_str(), "GeometryObject") {
        match read_geometry_object(s) {
            Err(e) => Err(e),
            Ok(object) => match free_name(objects, &s.name) {
                Err(e) => Err(e),
                Ok(name) => match objects.geometries.insert(name, object) {
                    Err(e) => Err(e),
                    Ok(_) => Ok(()),
                },
            },
        }
    } else if text_eq(s.tag.as_str(), "CameraObject") {
        match read_camera_object(s) {
            Err(e) => Err(e),
            Ok(object) => match free_name(objects, &s.name) {
                Err(e) => Err(e),
                Ok(name) => match objects.cameras.insert(name, object) {
                    Err(e) => Err(e),
                    Ok(_) => Ok(()),
                },
            },
        }
    } else if text_eq(s.tag.as_str(), "LightObject") {
        match read_light_object(s) {
            Err(e) => Err(e),
            Ok(object) => match free_name(objects, &s.name) {
                Err(e) => Err(e),
                Ok(name) => match objects.lights.insert(name, object) {
                    Err(e) => Err(e),
                    Ok(_) => Ok(()),
                },
            },
        }
    } else if text_eq(s.tag.as_str(), "Material") {
        match read_material(s) {
            Err(e) => Err(e),
            Ok(object) => match free_name(objects, &s.name) {
                Err(e) => Err(e),
                Ok(name) => match objects.materials.insert(name, object) {
                    Err(e) => Err(e),
                    Ok(_) => Ok(()),
                },
            },
        }
    } else {
        Ok(())
    }
}

/// Reads the shared objects of a document into their tables.
pub fn read_objects(forest: &Vec<Structure>) -> (r: Result<SharedObjects, AssemblyError>)
    ensures
        match r {
            Ok(objects) => objects_among(
                forest_view(forest@),
                forest@.len() as int,
            ) == Ok::<SharedObjectsView, ErrorView>(objects@),
            Err(e) => objects_among(forest_view(forest@), forest@.len() as int) == Err::<
                SharedObjectsView,
                ErrorView,
            >(e@),
        },
{
    let mut objects = SharedObjects::new();
    let mut i: usize = 0;
    while i < forest.len()
        invariant
            i <= forest.len(),
            objects_among(forest_view(forest@), i as int) == Ok::<SharedObjectsView, ErrorView>(
                objects@,
            ),
        decreases forest.len() - i,
    {
        let s = &forest[i];
        assert(forest_view(forest@)[i as int] == s@);
        if let Err(e) = register(&mut objects, s) {
            proof {
                lemma_objects_fail(forest_view(forest@), i + 1, forest@.len() as int);
            }
            return Err(e);
        }
        i += 1;
    }
    Ok(objects)
}

fn children_of(node: &Nodes) -> (children: &Vec<Nodes>)
    ensures
        node_views(children@) == node@.children,
        decreases_to!(node => children),
{
    let children = match node {
        Nodes::Node(n) => &n.children,
        Nodes::BoneNode(n) => &n.children,
        Nodes::GeometryNode(n) => &n.children,
        Nodes::CameraNode(n) => &n.children,
        Nodes::LightNode(n) => &n.children,
    };
    proof {
        lemma_node_views(children@);
    }
    children
}

fn check_slots(materials: &SparseIndexMap, bound: usize) -> (consistent: bool)
    ensures
        consistent == keys_below(materials@, bound as nat),
{
    let entries = materials.entries();
    let mut i: usize = 0;
    while i < entries.len()
        invariant
            i <= entries.len(),
            forall|j: int|
                0 <= j < entries@.len() ==> materials@.dom().contains(#[trigger] entries@[j].0)
                    && materials@[entries@[j].0] == entries@[j].1,
            forall|j: int| 0 <= j < i ==> entries@[j].1 < bound,
        decreases entries.len() - i,
    {
        if entries[i].1 >= bound {
            assert(materials@.dom().contains(entries@[i as int].0));
            return false;
        }
        i += 1;
    }
    assert forall|slot: usize| #[trigger] materials@.dom().contains(slot) implies materials@[slot]
        < bound by {
        let j = choose|j: int| 0 <= j < entries@.len() && entries@[j].0 == slot;
        assert(materials@[entries@[j].0] == entries@[j].1);
    }
    true
}

fn check_detail(node: &Nodes, objects: &SharedObjects) -> (consistent: bool)
    ensures
        consistent == detail_consistent(node@.detail, objects@),
{
    match node {
        Nodes::Node(_) => true,
        Nodes::BoneNode(_) => true,
        Nodes::GeometryNode(n) => {
            if n.geometry >= objects.geometries.len() {
                return false;
            }
            check_slots(&n.materials, objects.materials.len())
        },
        Nodes::CameraNode(n) => n.camera < objects.cameras.len(),
        Nodes::LightNode(n) => n.light < objects.lights.len(),
    }
}

/// Whether every key of a node, and of every node below it, is in its
/// table.
pub fn check_node(node: &Nodes, objects: &SharedObjects) -> (consistent: bool)
    ensures
        consistent == node_consistent(node@, objects@),
    decreases node,
{
    if !check_detail(node, objects) {
        return false;
    }
    check_nodes(children_of(node), objects)
}

/// Whether every key of the nodes of a list, and of every node below them,
/// is in its table.
pub fn check_nodes(nodes: &Vec<Nodes>, objects: &SharedObjects) -> (consistent: bool)
    ensures
        consistent == nodes_consistent(node_views(nodes@), nodes@.len() as int, objects@),
    decreases nodes,
{
    let mut i: usize = 0;
    while i < nodes.len()
        invariant
            i <= nodes.len(),
            nodes_consistent(node_views(nodes@), i as int, objects@),
        decreases nodes.len() - i,
    {
        assert(node_views(nodes@)[i as int] == nodes@[i as int]@);
        if !check_node(&nodes[i], objects) {
            proof {
                lemma_inconsistent_stays(node_views(nodes@), i + 1, nodes@.len() as int, objects@);
            }
            return false;
        }
        i += 1;
    }
    true
}

impl Scene {
    /// The invariant of the scene.
    pub open spec fn wf(&self) -> bool {
        self@.wf()
    }

    /// Whether every node of the scene is sound: each track has as many
    /// time keys as value keys and animates a transformation or a morph
    /// weight of its node, no two morph weights of a node have the same
    /// target, and every material slot that a geometry uses is filled.
    pub open spec fn sound(&self) -> bool {
        crate::invariants::trees_sound(self@.roots, self@.roots.len() as int, self@.objects)
    }

    /// Freezes a scene from its parts. The scene is refused if a node holds
    /// a key that is not in its table.
    pub fn new(metric: Metric, roots: Vec<Nodes>, objects: SharedObjects) -> (r: Result<
        Scene,
        AssemblyError,
    >)
        ensures
            crate::error::result_view(r) == frozen(metric, node_views(roots@), objects@),
            r is Ok ==> r->Ok_0.wf(),
    {
        proof {
            use_type_invariant(&objects.geometries);
            use_type_invariant(&objects.cameras);
            use_type_invariant(&objects.lights);
            use_type_invariant(&objects.materials);
            objects.geometries.lemma_wf();
            objects.cameras.lemma_wf();
            objects.lights.lemma_wf();
            objects.materials.lemma_wf();
        }
        if check_nodes(&roots, &objects) {
            Ok(Scene { metric, roots, objects })
        } else {
            Err(AssemblyError::DanglingReference)
        }
    }

    /// The units of the scene.
    pub fn metric(&self) -> (metric: Metric)
        ensures
            metric == self@.metric,
    {
        self.metric
    }

    /// The nodes at the top of the hierarchy, in the order of the document.
    pub fn roots(&self) -> (roots: &Vec<Nodes>)
        ensures
            node_views(roots@) == self@.roots,
    {
        &self.roots
    }

    /// The tables of the shared objects.
    pub fn objects(&self) -> (objects: &SharedObjects)
        ensures
            objects@ == self@.objects,
    {
        &self.objects
    }
}

/// Assembles the scene that a document is.
pub fn assemble(forest: &Vec<Structure>) -> (r: Result<Scene, AssemblyError>)
    ensures
        crate::error::result_view(r) == scene_of(forest_view(forest@)),
        r is Ok ==> r->Ok_0.wf() && r->Ok_0.sound(),
{
    proof {
        crate::tree::lemma_forest_fits(forest@, forest@.len() as int);
        assert(forest_view(forest@).len() == forest.len());
        if scene_of(forest_view(forest@)) is Ok {
            crate::invariants::lemma_scene_sound(forest_view(forest@));
        }
    }
    let metric = match read_metric(forest) {
        Ok(metric) => metric,
        Err(e) => {
            return Err(e);
        },
    };
    let objects = match read_objects(forest) {
        Ok(objects) => objects,
        Err(e) => {
            return Err(e);
        },
    };
    let path: Vec<usize> = Vec::new();
    let roots = match build_nodes(forest, &path, &objects) {
        Ok(roots) => roots,
        Err(e) => {
            return Err(e);
        },
    };
    assert(path@ =~= Seq::empty());
    Scene::new(metric, roots, objects)
}

} // verus!
