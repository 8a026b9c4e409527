//! The scene graph builder: the nodes of a document, each with its parts
//! and with its children below it.
//!
//! A node is read part by part: its name, its transformations, its
//! animations, what its type adds (the object that it refers to, its material
//! slots and its morph weights), and last its child nodes, each in the order
//! of the document. The first part that fails ends the reading.

use vstd::prelude::*;
use vstd::slice::slice_to_vec;
use crate::animation::{animations_of, read_animations, read_targets, targets_of};
use crate::classify::arity_mismatch;
use crate::error::{AssemblyError, ErrorView};
use crate::lookup::{
    bool_property, child, child_of, index_property, malformed, malformed_structure, property_bool,
    property_index, reference, reference_of, values, values_of,
};
use crate::objects::{name_of, read_name, SharedObjects, SharedObjectsView};
use crate::sparse::{Refused, SparseIndexMap, MAX_INDEX};
use crate::structure::{
    lemma_node_views, node_views, BoneNode, CameraNode, GeometryNode, GeometryObject,
    GeometryObjectView, LightNode, MeshView, MorphWeight, Node, NodeDetail, NodeView, Nodes,
};
use crate::table::{SharedTable, TableView};
use crate::text::text_eq;
use crate::transformations::{read_transformations, transformations_of};
use crate::tree::{forest_view, lemma_children_view, Structure, StructureView};

verus! {

/// Whether a structure is a node.
pub open spec fn is_node(s: StructureView) -> bool {
    s.tag == "Node"@ || s.tag == "BoneNode"@ || s.tag == "GeometryNode"@ || s.tag == "CameraNode"@
        || s.tag == "LightNode"@
}

/// The morph weight that a MorphWeight structure is: of target `0`, where
/// it states none.
pub open spec fn morph_weight_of(s: StructureView) -> Result<MorphWeight, ErrorView> {
    match index_property(s, "index"@, 0) {
        Err(e) => Err(e),
        Ok(target_index) => match values_of(s) {
            Err(e) => Err(e),
            Ok(v) => if v.len() == 1 {
                Ok(MorphWeight { target_index, weight: v[0] })
            } else {
                Err(arity_mismatch(1, v))
            },
        },
    }
}

/// The morph weights of a node as far as they are read, and the position of
/// the weight of each target index.
pub struct Weights {
    pub list: Seq<MorphWeight>,
    pub positions: Map<usize, usize>,
}

/// The morph weights among the first `n` children of a node. A target index
/// that is taken ends the reading.
pub open spec fn weights_among(children: Seq<StructureView>, n: int) -> Result<Weights, ErrorView>
    decreases n,
{
    if n <= 0 || n > children.len() {
        Ok(Weights { list: Seq::empty(), positions: Map::empty() })
    } else {
        match weights_among(children, n - 1) {
            Err(e) => Err(e),
            Ok(before) => if children[n - 1].tag == "MorphWeight"@ {
                match morph_weight_of(children[n - 1]) {
                    Err(e) => Err(e),
                    Ok(w) => if w.target_index > MAX_INDEX {
                        Err(malformed(children[n - 1]))
                    } else if before.positions.dom().contains(w.target_index as usize) {
                        Err(ErrorView::DuplicateMorphTarget { index: w.target_index as usize })
                    } else {
                        Ok(
                            Weights {
                                list: before.list.push(w),
                                positions: before.positions.insert(
                                    w.target_index as usize,
                                    before.list.len() as usize,
                                ),
                            },
                        )
                    },
                }
            } else {
                Ok(before)
            },
        }
    }
}

/// The morph weights of a node.
pub open spec fn weights_of(s: StructureView) -> Result<Seq<MorphWeight>, ErrorView> {
    match weights_among(s.children, s.children.len() as int) {
        Err(e) => Err(e),
        Ok(weights) => Ok(weights.list),
    }
}

/// The material slot that a MaterialRef structure fills, and the key of the
/// material that it fills it with.
pub open spec fn slot_entry_of<V>(s: StructureView, materials: TableView<V>) -> Result<
    (usize, usize),
    ErrorView,
> {
    match index_property(s, "index"@, 0) {
        Err(e) => Err(e),
        Ok(slot) => if slot > MAX_INDEX {
            Err(malformed(s))
        } else {
            match reference_of(s) {
                Err(e) => Err(e),
                Ok(name) => match materials.resolved(name) {
                    Err(e) => Err(e),
                    Ok(key) => Ok((slot as usize, key)),
                },
            }
        },
    }
}

/// The material slots that the first `n` children of a node fill. A slot
/// that is filled twice ends the reading.
pub open spec fn slots_among<V>(
    children: Seq<StructureView>,
    n: int,
    materials: TableView<V>,
) -> Result<Map<usize, usize>, ErrorView>
    decreases n,
{
    if n <= 0 || n > children.len() {
        Ok(Map::empty())
    } else {
        match slots_among(children, n - 1, materials) {
            Err(e) => Err(e),
            Ok(before) => if children[n - 1].tag == "MaterialRef"@ {
                match slot_entry_of(children[n - 1], materials) {
                    Err(e) => Err(e),
                    Ok((slot, key)) => if before.dom().contains(slot) {
                        Err(malformed(children[n - 1]))
                    } else {
                        Ok(before.insert(slot, key))
                    },
                }
            } else {
                Ok(before)
            },
        }
    }
}

/// The first of the first `n` slots of a mesh that the node leaves empty.
pub open spec fn empty_slot(used: Seq<u32>, n: int, slots: Map<usize, usize>) -> Option<u32>
    decreases n,
{
    if n <= 0 || n > used.len() {
        None
    } else {
        match empty_slot(used, n - 1, slots) {
            Some(slot) => Some(slot),
            None => if slots.dom().contains(used[n - 1] as usize) {
                None
            } else {
                Some(used[n - 1])
            },
        }
    }
}

/// The first slot that one of the first `n` meshes uses and the node leaves
/// empty.
pub open spec fn uncovered_slot(meshes: Seq<MeshView>, n: int, slots: Map<usize, usize>) -> Option<
    u32,
>
    decreases n,
{
    if n <= 0 || n > meshes.len() {
        None
    } else {
        match uncovered_slot(meshes, n - 1, slots) {
            Some(slot) => Some(slot),
            None => empty_slot(
                meshes[n - 1].materials,
                meshes[n - 1].materials.len() as int,
                slots,
            ),
        }
    }
}

/// Whether the node fills every slot that its geometry uses.
pub open spec fn covered(geometry: GeometryObjectView, slots: Map<usize, usize>) -> Result<
    (),
    ErrorView,
> {
    match uncovered_slot(geometry.meshes, geometry.meshes.len() as int, slots) {
        Some(slot) => Err(ErrorView::UnresolvedMaterialSlot { index: slot as usize }),
        None => Ok(()),
    }
}

/// The key of the object that a node refers to.
pub open spec fn object_key_of<V>(s: StructureView, table: TableView<V>) -> Result<
    usize,
    ErrorView,
> {
    match child_of(s, "ObjectRef"@) {
        None => Err(malformed(s)),
        Some(c) => match reference_of(c) {
            Err(e) => Err(e),
            Ok(name) => table.resolved(name),
        },
    }
}

/// What a geometry node adds to a node.
pub open spec fn geometry_detail_of(s: StructureView, objects: SharedObjectsView) -> Result<
    NodeDetail,
    ErrorView,
> {
    match bool_property(s, "visible"@) {
        Err(e) => Err(e),
        Ok(visible) => match bool_property(s, "shadow"@) {
            Err(e) => Err(e),
            Ok(casts_shadows) => match bool_property(s, "motion_blur"@) {
                Err(e) => Err(e),
                Ok(motion_blur) => match object_key_of(s, objects.geometries) {
                    Err(e) => Err(e),
                    Ok(geometry) => match slots_among(
                        s.children,
                        s.children.len() as int,
                        objects.materials,
                    ) {
                        Err(e) => Err(e),
                        Ok(materials) => match weights_of(s) {
                            Err(e) => Err(e),
                            Ok(morph_weights) => match covered(
                                objects.geometries.objects[geometry as int],
                                materials,
                            ) {
                                Err(e) => Err(e),
                                Ok(_) => Ok(
                                    NodeDetail::Geometry {
                                        visible,
                                        casts_shadows,
                                        motion_blur,
                                        geometry,
                                        materials,
                                        morph_weights,
                                    },
                                ),
                            },
                        },
                    },
                },
            },
        },
    }
}

/// What the type of a node adds to it.
pub open spec fn detail_of(s: StructureView, objects: SharedObjectsView) -> Result<
    NodeDetail,
    ErrorView,
> {
    if s.tag == "GeometryNode"@ {
        geometry_detail_of(s, objects)
    } else if s.tag == "CameraNode"@ {
        match object_key_of(s, objects.cameras) {
            Err(e) => Err(e),
            Ok(camera) => Ok(NodeDetail::Camera { camera }),
        }
    } else if s.tag == "LightNode"@ {
        match bool_property(s, "visible"@) {
            Err(e) => Err(e),
            Ok(visible) => match bool_property(s, "shadow"@) {
                Err(e) => Err(e),
                Ok(casts_shadows) => match object_key_of(s, objects.lights) {
                    Err(e) => Err(e),
                    Ok(light) => Ok(NodeDetail::Light { visible, casts_shadows, light }),
                },
            },
        }
    } else if s.tag == "BoneNode"@ {
        Ok(NodeDetail::Bone)
    } else {
        Ok(NodeDetail::Node)
    }
}

/// The node that a node structure is. `path` is the path of the node, and
/// `objects` are the shared objects of the document.
pub open spec fn node_of(s: StructureView, path: Seq<usize>, objects: SharedObjectsView) -> Result<
    NodeView,
    ErrorView,
>
    decreases s, 0int,
{
    match name_of(s) {
        Err(e) => Err(e),
        Ok(name) => match transformations_of(s) {
            Err(e) => Err(e),
            Ok(transformations) => match animations_of(
                s,
                targets_of(s, s.tag == "GeometryNode"@),
                path,
            ) {
                Err(e) => Err(e),
                Ok(animations) => match detail_of(s, objects) {
                    Err(e) => Err(e),
                    Ok(detail) => match nodes_among(
                        s.children,
                        s.children.len() as int,
                        path,
                        objects,
                    ) {
                        Err(e) => Err(e),
                        Ok(children) => Ok(
                            NodeView {
                                name,
                                iden: s.name,
                                transformations,
                                animations,
                                children,
                                detail,
                            },
                        ),
                    },
                },
            },
        },
    }
}

/// The nodes among the first `n` structures of a list, in the order of the
/// document. `path` is the path of the node that holds the list, and is
/// empty for the list of the document.
pub open spec fn nodes_among(
    children: Seq<StructureView>,
    n: int,
    path: Seq<usize>,
    objects: SharedObjectsView,
) -> Result<Seq<NodeView>, ErrorView>
    decreases children, n,
{
    if n <= 0 || n > children.len() {
        Ok(Seq::empty())
    } else {
        match nodes_among(children, n - 1, path, objects) {
            Err(e) => Err(e),
            Ok(before) => if is_node(children[n - 1]) {
                match node_of(children[n - 1], path.push((n - 1) as usize), objects) {
                    Err(e) => Err(e),
                    Ok(node) => Ok(before.push(node)),
                }
            } else {
                Ok(before)
            },
        }
    }
}

/// The nodes of some structures are those of all of them, where they fail.
pub proof fn lemma_nodes_fail(
    children: Seq<StructureView>,
    n: int,
    m: int,
    path: Seq<usize>,
    objects: SharedObjectsView,
)
    requires
        0 <= n <= m <= children.len(),
        nodes_among(children, n, path, objects) is Err,
    ensures
        nodes_among(children, m, path, objects) == nodes_among(children, n, path, objects),
    decreases m - n,
{
    if n < m {
        lemma_nodes_fail(children, n, m - 1, path, objects);
    }
}

/// The morph weights of some children are those of all of them, where they
/// fail.
pub proof fn lemma_weights_fail(children: Seq<StructureView>, n: int, m: int)
    requires
        0 <= n <= m <= children.len(),
        weights_among(children, n) is Err,
    ensures
        weights_among(children, m) == weights_among(children, n),
    decreases m - n,
{
    if n < m {
        lemma_weights_fail(children, n, m - 1);
    }
}

/// The material slots of some children are those of all of them, where they
/// fail.
pub proof fn lemma_slots_fail<V>(
    children: Seq<StructureView>,
    n: int,
    m: int,
    materials: TableView<V>,
)
    requires
        0 <= n <= m <= children.len(),
        slots_among(children, n, materials) is Err,
    ensures
        slots_among(children, m, materials) == slots_among(children, n, materials),
    decreases m - n,
{
    if n < m {
        lemma_slots_fail(children, n, m - 1, materials);
    }
}

/// A slot that is empty among some slots of a mesh is the first empty one
/// among all of them.
pub proof fn lemma_empty_slot_stays(used: Seq<u32>, n: int, m: int, slots: Map<usize, usize>)
    requires
        0 <= n <= m <= used.len(),
        empty_slot(used, n, slots) is Some,
    ensures
        empty_slot(used, m, slots) == empty_slot(used, n, slots),
    decreases m - n,
{
    if n < m {
        lemma_empty_slot_stays(used, n, m - 1, slots);
    }
}

/// A slot that is uncovered among some meshes is the first uncovered one
/// among all of them.
pub proof fn lemma_uncovered_slot_stays(
    meshes: Seq<MeshView>,
    n: int,
    m: int,
    slots: Map<usize, usize>,
)
    requires
        0 <= n <= m <= meshes.len(),
        uncovered_slot(meshes, n, slots) is Some,
    ensures
        uncovered_slot(meshes, m, slots) == uncovered_slot(meshes, n, slots),
    decreases m - n,
{
    if n < m {
        lemma_uncovered_slot_stays(meshes, n, m - 1, slots);
    }
}

/// Whether a structure is a node.
pub fn is_node_structure(s: &Structure) -> (b: bool)
    ensures
        b == is_node(s@),
{
    text_eq(s.tag.as_str(), "Node") || text_eq(s.tag.as_str(), "BoneNode") || text_eq(
        s.tag.as_str(),
        "GeometryNode",
    ) || text_eq(s.tag.as_str(), "CameraNode") || text_eq(s.tag.as_str(), "LightNode")
}

fn read_morph_weight(s: &Structure) -> (r: Result<MorphWeight, AssemblyError>)
    ensures
        match r {
            Ok(w) => morph_weight_of(s@) == Ok::<MorphWeight, ErrorView>(w),
            Err(e) => morph_weight_of(s@) == Err::<MorphWeight, ErrorView>(e@),
        },
{
    let target_index = match property_index(s, "index", 0) {
        Ok(index) => index,
        Err(e) => {
            return Err(e);
        },
    };
    let v = match values(s) {
        Ok(v) => v,
        Err(e) => {
            return Err(e);
        },
    };
    if v.len() == 1 {
        Ok(MorphWeight { target_index, weight: v[0] })
    } else {
        Err(AssemblyError::ArityMismatch { expected: 1, actual: v.len() })
    }
}

/// Reads the morph weights of a node. No two of them have the same target
/// index.
pub fn read_weights(s: &Structure) -> (r: Result<Vec<MorphWeight>, AssemblyError>)
    ensures
        match r {
            Ok(list) => weights_of(s@) == Ok::<Seq<MorphWeight>, ErrorView>(list@),
            Err(e) => weights_of(s@) == Err::<Seq<MorphWeight>, ErrorView>(e@),
        },
{
    proof {
        lemma_children_view(*s);
    }
    let mut list: Vec<MorphWeight> = Vec::new();
    let mut seen = SparseIndexMap::new();
    let mut i: usize = 0;
    while i < s.children.len()
        invariant
            i <= s.children.len(),
            s@.children == forest_view(s.children@),
            weights_among(s@.children, i as int) == Ok::<Weights, ErrorView>(
                Weights { list: list@, positions: seen@ },
            ),
        decreases s.children.len() - i,
    {
        let c = &s.children[i];
        assert(s@.children[i as int] == c@);
        if text_eq(c.tag.as_str(), "MorphWeight") {
            let entered = match read_morph_weight(c) {
                Err(e) => Err(e),
                Ok(w) => match seen.insert(w.target_index as usize, list.len()) {
                    Ok(()) => {
                        list.push(w);
                        Ok(())
                    },
                    Err(Refused::OutOfRange) => Err(malformed_structure(c)),
                    Err(Refused::Occupied { value: _ }) => Err(
                        AssemblyError::DuplicateMorphTarget { index: w.target_index as usize },
                    ),
                },
            };
            if let Err(e) = entered {
                proof {
                    lemma_weights_fail(s@.children, i + 1, s@.children.len() as int);
                }
                return Err(e);
            }
        }
        i += 1;
    }
    Ok(list)
}

fn read_slot_entry<T: View>(s: &Structure, materials: &SharedTable<T>) -> (r: Result<
    (usize, usize),
    AssemblyError,
>)
    ensures
        match r {
            Ok(entry) => slot_entry_of(s@, materials@) == Ok::<(usize, usize), ErrorView>(entry),
            Err(e) => slot_entry_of(s@, materials@) == Err::<(usize, usize), ErrorView>(e@),
        },
{
    let slot = match property_index(s, "index", 0) {
        Ok(slot) => slot as usize,
        Err(e) => {
            return Err(e);
        },
    };
    if slot > MAX_INDEX {
        return Err(malformed_structure(s));
    }
    let name = match reference(s) {
        Ok(name) => name,
        Err(e) => {
            return Err(e);
        },
    };
    match materials.resolve(name.as_str()) {
        Err(e) => Err(e),
        Ok(key) => Ok((slot, key)),
    }
}

/// Reads the material slots that a node fills: under each slot the key of
/// its material.
pub fn read_slots<T: View>(s: &Structure, materials: &SharedTable<T>) -> (r: Result<
    SparseIndexMap,
    AssemblyError,
>)
    ensures
        match r {
            Ok(slots) => slots_among(s@.children, s@.children.len() as int, materials@) == Ok::<
                Map<usize, usize>,
                ErrorView,
            >(slots@),
            Err(e) => slots_among(s@.children, s@.children.len() as int, materials@) == Err::<
                Map<usize, usize>,
                ErrorView,
            >(e@),
        },
{
    proof {
        lemma_children_view(*s);
    }
    let mut slots = SparseIndexMap::new();
    let mut i: usize = 0;
    while i < s.children.len()
        invariant
            i <= s.children.len(),
            s@.children == forest_view(s.children@),
            slots_among(s@.children, i as int, materials@) == Ok::<Map<usize, usize>, ErrorView>(
                slots@,
            ),
        decreases s.children.len() - i,
    {
        let c = &s.children[i];
        assert(s@.children[i as int] == c@);
        if text_eq(c.tag.as_str(), "MaterialRef") {
            let entered = match read_slot_entry(c, materials) {
                Err(e) => Err(e),
                Ok((slot, key)) => match slots.insert(slot, key) {
                    Ok(()) => Ok(()),
                    Err(_) => Err(malformed_structure(c)),
                },
            };
            if let Err(e) = entered {
                proof {
                    lemma_slots_fail(s@.children, i + 1, s@.children.len() as int, materials@);
                }
                return Err(e);
            }
        }
        i += 1;
    }
    Ok(slots)
}

/// Checks that a node fills every material slot that its geometry uses.
pub fn check_coverage(geometry: &GeometryObject, slots: &SparseIndexMap) -> (r: Result<
    (),
    AssemblyError,
>)
    ensures
        match r {
            Ok(_) => covered(geometry@, slots@) is Ok,
            Err(e) => covered(geometry@, slots@) == Err::<(), ErrorView>(e@),
        },
{
    let ghost meshes = geometry@.meshes;
    let mut i: usize = 0;
    while i < geometry.meshes.len()
        invariant
            i <= geometry.meshes.len(),
            meshes == geometry@.meshes,
            meshes.len() == geometry.meshes.len(),
            uncovered_slot(meshes, i as int, slots@) is None,
        decreases geometry.meshes.len() - i,
    {
        let mesh = &geometry.meshes[i];
        assert(meshes[i as int] == mesh@);
        let mut j: usize = 0;
        while j < mesh.materials.len()
            invariant
                j <= mesh.materials.len(),
                i < meshes.len(),
                meshes == geometry@.meshes,
                meshes[i as int] == mesh@,
                uncovered_slot(meshes, i as int, slots@) is None,
                empty_slot(mesh@.materials, j as int, slots@) is None,
            decreases mesh.materials.len() - j,
        {
            let slot = mesh.materials[j];
            if !slots.contains_key(slot as usize) {
                proof {
                    lemma_empty_slot_stays(
                        mesh@.materials,
                        j + 1,
                        mesh@.materials.len() as int,
                        slots@,
                    );
                    lemma_uncovered_slot_stays(meshes, i + 1, meshes.len() as int, slots@);
                }
                return Err(AssemblyError::UnresolvedMaterialSlot { index: slot as usize });
            }
            j += 1;
        }
        i += 1;
    }
    Ok(())
}

/// Resolves the reference of a node to its object.
pub fn read_object_key<T: View>(s: &Structure, table: &SharedTable<T>) -> (r: Result<
    usize,
    AssemblyError,
>)
    ensures
        crate::table::result_key(r) == object_key_of(s@, table@),
        r is Ok ==> r->Ok_0 < table@.objects.len(),
{
    match child(s, "ObjectRef") {
        None => Err(malformed_structure(s)),
        Some(c) => match reference(c) {
            Err(e) => Err(e),
            Ok(name) => table.resolve(name.as_str()),
        },
    }
}

/// What the type of a node adds to it, as it is read.
enum Detail {
    Node,
    Bone,
    Geometry {
        visible: Option<bool>,
        casts_shadows: Option<bool>,
        motion_blur: Option<bool>,
        geometry: usize,
        materials: SparseIndexMap,
        morph_weights: Vec<MorphWeight>,
    },
    Camera { camera: usize },
    Light { visible: Option<bool>, casts_shadows: Option<bool>, light: usize },
}

impl View for Detail {
    type V = NodeDetail;

    closed spec fn view(&self) -> NodeDetail {
        match *self {
            Detail::Node => NodeDetail::Node,
            Detail::Bone => NodeDetail::Bone,
            Detail::Geometry {
                visible,
                casts_shadows,
                motion_blur,
                geometry,
                materials,
                morph_weights,
            } => NodeDetail::Geometry {
                visible,
                casts_shadows,
                motion_blur,
                geometry,
                materials: materials@,
                morph_weights: morph_weights@,
            },
            Detail::Camera { camera } => NodeDetail::Camera { camera },
            Detail::Light { visible, casts_shadows, light } => NodeDetail::Light {
                visible,
                casts_shadows,
                light,
            },
        }
    }
}

fn read_geometry_detail(s: &Structure, objects: &SharedObjects) -> (r: Result<Detail, AssemblyError>)
    ensures
        crate::error::result_view(r) == geometry_detail_of(s@, objects@),
{
    let visible = match property_bool(s, "visible") {
        Ok(b) => b,
        Err(e) => {
            return Err(e);
        },
    };
    let casts_shadows = match property_bool(s, "shadow") {
        Ok(b) => b,
        Err(e) => {
            return Err(e);
        },
    };
    let motion_blur = match property_bool(s, "motion_blur") {
        Ok(b) => b,
        Err(e) => {
            return Err(e);
        },
    };
    let geometry = match read_object_key(s, &objects.geometries) {
        Ok(key) => key,
        Err(e) => {
            return Err(e);
        },
    };
    let materials = match read_slots(s, &objects.materials) {
        Ok(slots) => slots,
        Err(e) => {
            return Err(e);
        },
    };
    let morph_weights = match read_weights(s) {
        Ok(weights) => weights,
        Err(e) => {
            return Err(e);
        },
    };
    match check_coverage(objects.geometries.object(geometry), &materials) {
        Err(e) => Err(e),
        Ok(_) => Ok(
            Detail::Geometry {
                visible,
                casts_shadows,
                motion_blur,
                geometry,
                materials,
                morph_weights,
            },
        ),
    }
}

fn read_detail(s: &Structure, objects: &SharedObjects) -> (r: Result<Detail, AssemblyError>)
    ensures
        crate::error::result_view(r) == detail_of(s@, objects@),
{
    if text_eq(s.tag.as_str(), "GeometryNode") {
        read_geometry_detail(s, objects)
    } else if text_eq(s.tag.as_str(), "CameraNode") {
        match read_object_key(s, &objects.cameras) {
            Err(e) => Err(e),
            Ok(camera) => Ok(Detail::Camera { camera }),
        }
    } else if text_eq(s.tag.as_str(), "LightNode") {
        let visible = match property_bool(s, "visible") {
            Ok(b) => b,
            Err(e) => {
                return Err(e);
            },
        };
        let casts_shadows = match property_bool(s, "shadow") {
            Ok(b) => b,
            Err(e) => {
                return Err(e);
            },
        };
        match read_object_key(s, &objects.lights) {
            Err(e) => Err(e),
            Ok(light) => Ok(Detail::Light { visible, casts_shadows, light }),
        }
    } else if text_eq(s.tag.as_str(), "BoneNode") {
        Ok(Detail::Bone)
    } else {
        Ok(Detail::Node)
    }
}

/// Builds the node that a node structure is, with all nodes below it.
pub fn build_node(s: &Structure, path: &Vec<usize>, objects: &SharedObjects) -> (r: Result<
    Nodes,
    AssemblyError,
>)
    ensures
        crate::error::result_view(r) == node_of(s@, path@, objects@),
    decreases s,
{
    let name = match read_name(s) {
        Ok(name) => name,
        Err(e) => {
            return Err(e);
        },
    };
    let transformations = match read_transformations(s) {
        Ok(list) => list,
        Err(e) => {
            return Err(e);
        },
    };
    let targets = read_targets(s, text_eq(s.tag.as_str(), "GeometryNode"));
    let animations = match read_animations(s, &targets, path) {
        Ok(list) => list,
        Err(e) => {
            return Err(e);
        },
    };
    let detail = match read_detail(s, objects) {
        Ok(detail) => detail,
        Err(e) => {
            return Err(e);
        },
    };
    proof {
        lemma_children_view(*s);
    }
    let children = match build_nodes(&s.children, path, objects) {
        Ok(children) => children,
        Err(e) => {
            return Err(e);
        },
    };
    proof {
        lemma_node_views(children@);
    }
    let iden = match &s.name {
        Some(n) => Some(n.clone()),
        None => None,
    };
    let node = match detail {
        Detail::Node => Nodes::Node(Node { name, iden, transformations, animations, children }),
        Detail::Bone => Nodes::BoneNode(
            BoneNode { name, iden, transformations, animations, children },
        ),
        Detail::Geometry {
            visible,
            casts_shadows,
            motion_blur,
            geometry,
            materials,
            morph_weights,
        } => Nodes::GeometryNode(
            GeometryNode {
                name,
                iden,
                transformations,
                animations,
                children,
                visible,
                casts_shadows,
                motion_blur,
                geometry,
                materials,
                morph_weights,
            },
        ),
        Detail::Camera { camera } => Nodes::CameraNode(
            CameraNode { name, iden, transformations, animations, children, camera },
        ),
        Detail::Light { visible, casts_shadows, light } => Nodes::LightNode(
            LightNode {
                name,
                iden,
                transformations,
                animations,
                children,
                visible,
                casts_shadows,
                light,
            },
        ),
    };
    Ok(node)
}

/// Builds the nodes among the structures of a list, in the order of the
/// document. `path` is the path of the node that holds the list, and is
/// empty for the list of the document.
pub fn build_nodes(list: &Vec<Structure>, path: &Vec<usize>, objects: &SharedObjects) -> (r: Result<
    Vec<Nodes>,
    AssemblyError,
>)
    ensures
        match r {
            Ok(nodes) => nodes_among(
                forest_view(list@),
                list@.len() as int,
                path@,
                objects@,
            ) == Ok::<Seq<NodeView>, ErrorView>(node_views(nodes@)),
            Err(e) => nodes_among(forest_view(list@), list@.len() as int, path@, objects@) == Err::<
                Seq<NodeView>,
                ErrorView,
            >(e@),
        },
    decreases list,
{
    let mut nodes: Vec<Nodes> = Vec::new();
    let mut i: usize = 0;
    assert(node_views(nodes@) =~= Seq::empty());
    while i < list.len()
        invariant
            i <= list.len(),
            nodes_among(forest_view(list@), i as int, path@, objects@) == Ok::<
                Seq<NodeView>,
                ErrorView,
            >(node_views(nodes@)),
        decreases list.len() - i,
    {
        let c = &list[i];
        assert(forest_view(list@)[i as int] == c@);
        if is_node_structure(c) {
            let mut child_path = slice_to_vec(path.as_slice());
            child_path.push(i);
            match build_node(c, &child_path, objects) {
                Err(e) => {
                    proof {
                        lemma_nodes_fail(
                            forest_view(list@),
                            i + 1,
                            list@.len() as int,
                            path@,
                            objects@,
                        );
                    }
                    return Err(e);
                },
                Ok(node) => {
                    proof {
                        assert(node_views(nodes@.push(node)) =~= node_views(nodes@).push(node@));
                    }
                    nodes.push(node);
                },
            }
        }
        i += 1;
    }
    Ok(nodes)
}

} // verus!
