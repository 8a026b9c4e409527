//! What holds of every scene that is assembled.
//!
//! The assembly checks as it goes. Here it is proved that the checks add up:
//! a scene that was assembled holds no key without its object, no two morph
//! weights of one target, no material slot that the geometry uses and the
//! node leaves empty, and no track without its target.

use vstd::prelude::*;
use crate::animation::{
    animation_reader, morph_weights_among, target_position_of, targets_among, targets_of, track_of,
    transformations_among,
};
use crate::error::ErrorView;
use crate::gather::{collect, lemma_collect_len, tagged, wanted_among};
use crate::lookup::{child_of, reference_of};
use crate::nodes::{
    covered, detail_of, empty_slot, geometry_detail_of, is_node, morph_weight_of, node_of,
    nodes_among, object_key_of, slots_among, uncovered_slot, weights_among, Weights,
};
use crate::objects::SharedObjectsView;
use crate::scene::{
    detail_consistent, keys_below, metric_among, node_consistent, nodes_consistent, objects_among,
    scene_of,
};
use crate::structure::{
    GeometryObjectView, MeshView, MorphWeight, NodeDetail, NodeView, TrackTarget, TrackView,
};
use crate::table::{lemma_resolved_in_table, lemma_with_wf, TableView};
use crate::transformations::{is_transformation, transformations_of, transformations_wanted};
use crate::tree::{all_fit, fits, StructureView};

verus! {

/// The key of every material slot that was read is the key of a material.
pub proof fn lemma_slots_in_table<V>(children: Seq<StructureView>, n: int, materials: TableView<V>)
    requires
        0 <= n <= children.len(),
        materials.wf(),
        slots_among(children, n, materials) is Ok,
    ensures
        keys_below(slots_among(children, n, materials)->Ok_0, materials.objects.len()),
    decreases n,
{
    if n > 0 {
        lemma_slots_in_table(children, n - 1, materials);
        let c = children[n - 1];
        if c.tag == "MaterialRef"@ {
            lemma_resolved_in_table(materials, reference_of(c)->Ok_0);
        }
    }
}

/// The key of the object that a node refers to is the key of an object.
pub proof fn lemma_object_key_in_table<V>(s: StructureView, table: TableView<V>)
    requires
        table.wf(),
        object_key_of(s, table) is Ok,
    ensures
        object_key_of(s, table)->Ok_0 < table.objects.len(),
{
    let c = child_of(s, "ObjectRef"@)->Some_0;
    lemma_resolved_in_table(table, reference_of(c)->Ok_0);
}

/// What the type of a node adds to it holds only keys of objects.
pub proof fn lemma_detail_consistent(s: StructureView, objects: SharedObjectsView)
    requires
        objects.wf(),
        detail_of(s, objects) is Ok,
    ensures
        detail_consistent(detail_of(s, objects)->Ok_0, objects),
{
    if s.tag == "GeometryNode"@ {
        lemma_object_key_in_table(s, objects.geometries);
        lemma_slots_in_table(s.children, s.children.len() as int, objects.materials);
    } else if s.tag == "CameraNode"@ {
        lemma_object_key_in_table(s, objects.cameras);
    } else if s.tag == "LightNode"@ {
        lemma_object_key_in_table(s, objects.lights);
    }
}

/// A node that was built holds only keys of objects, and so does every node
/// below it.
pub proof fn lemma_node_consistent(s: StructureView, path: Seq<usize>, objects: SharedObjectsView)
    requires
        objects.wf(),
        node_of(s, path, objects) is Ok,
    ensures
        node_consistent(node_of(s, path, objects)->Ok_0, objects),
    decreases s, 0int,
{
    lemma_detail_consistent(s, objects);
    lemma_nodes_consistent(s.children, s.children.len() as int, path, objects);
}

/// The nodes that were built from a list hold only keys of objects.
pub proof fn lemma_nodes_consistent(
    children: Seq<StructureView>,
    n: int,
    path: Seq<usize>,
    objects: SharedObjectsView,
)
    requires
        objects.wf(),
        0 <= n <= children.len(),
        nodes_among(children, n, path, objects) is Ok,
    ensures
        nodes_consistent(
            nodes_among(children, n, path, objects)->Ok_0,
            nodes_among(children, n, path, objects)->Ok_0.len() as int,
            objects,
        ),
    decreases children, n,
{
    if n > 0 {
        let before = nodes_among(children, n - 1, path, objects)->Ok_0;
        lemma_nodes_consistent(children, n - 1, path, objects);
        if is_node(children[n - 1]) {
            let node = node_of(children[n - 1], path.push((n - 1) as usize), objects)->Ok_0;
            lemma_node_consistent(children[n - 1], path.push((n - 1) as usize), objects);
            lemma_consistent_push(before, node, objects);
        }
    }
}

/// A list of consistent nodes stays consistent when a consistent node
/// follows it.
pub proof fn lemma_consistent_push(nodes: Seq<NodeView>, node: NodeView, objects: SharedObjectsView)
    requires
        nodes_consistent(nodes, nodes.len() as int, objects),
        node_consistent(node, objects),
    ensures
        nodes_consistent(nodes.push(node), nodes.len() as int + 1, objects),
{
    lemma_consistent_prefix(nodes, nodes.push(node), nodes.len() as int, objects);
}

/// Whether the first nodes of a list are consistent depends on those nodes
/// alone.
pub proof fn lemma_consistent_prefix(
    a: Seq<NodeView>,
    b: Seq<NodeView>,
    n: int,
    objects: SharedObjectsView,
)
    requires
        0 <= n <= a.len(),
        n <= b.len(),
        forall|i: int| 0 <= i < n ==> a[i] == b[i],
    ensures
        nodes_consistent(a, n, objects) == nodes_consistent(b, n, objects),
    decreases n,
{
    if n > 0 {
        lemma_consistent_prefix(a, b, n - 1, objects);
    }
}

/// The tables of the objects of a document are well formed, and hold at most
/// one object for each structure.
pub proof fn lemma_objects_wf(forest: Seq<StructureView>, n: int)
    requires
        0 <= n <= forest.len() <= usize::MAX,
        objects_among(forest, n) is Ok,
    ensures
        objects_among(forest, n)->Ok_0.wf(),
        objects_among(forest, n)->Ok_0.len() <= n,
    decreases n,
{
    if n > 0 {
        lemma_objects_wf(forest, n - 1);
        let before = objects_among(forest, n - 1)->Ok_0;
        let s = forest[n - 1];
        if s.tag == "GeometryObject"@ {
            lemma_with_wf(
                before.geometries,
                s.name,
                crate::objects::geometry_object_of(s)->Ok_0,
            );
        } else if s.tag == "CameraObject"@ {
            lemma_with_wf(before.cameras, s.name, crate::objects::camera_object_of(s)->Ok_0);
        } else if s.tag == "LightObject"@ {
            lemma_with_wf(before.lights, s.name, crate::objects::light_object_of(s)->Ok_0);
        } else if s.tag == "Material"@ {
            lemma_with_wf(before.materials, s.name, crate::objects::material_of(s)->Ok_0);
        }
    }
}

/// The last check of an assembly never fails: the nodes that are built from
/// a document hold only keys that the tables of the document gave out. So a
/// document whose metric, objects and nodes are read is assembled, and every
/// scene that is assembled is well formed.
pub proof fn lemma_assembly_never_dangles(forest: Seq<StructureView>)
    requires
        forest.len() <= usize::MAX,
    ensures
        scene_of(forest) is Ok <==> {
            &&& metric_among(forest, forest.len() as int) is Ok
            &&& objects_among(forest, forest.len() as int) is Ok
            &&& nodes_among(
                forest,
                forest.len() as int,
                Seq::empty(),
                objects_among(forest, forest.len() as int)->Ok_0,
            ) is Ok
        },
        scene_of(forest) is Ok ==> scene_of(forest)->Ok_0.wf(),
{
    let n = forest.len() as int;
    if metric_among(forest, n) is Ok && objects_among(forest, n) is Ok {
        let objects = objects_among(forest, n)->Ok_0;
        lemma_objects_wf(forest, n);
        if nodes_among(forest, n, Seq::empty(), objects) is Ok {
            lemma_nodes_consistent(forest, n, Seq::empty(), objects);
        }
    }
}

/// Whether a list of morph weights holds a weight of this target index.
pub open spec fn has_target(list: Seq<MorphWeight>, index: usize) -> bool {
    exists|j: int| 0 <= j < list.len() && #[trigger] list[j].target_index as usize == index
}

/// Whether no two morph weights of a list have the same target index.
pub open spec fn targets_distinct(list: Seq<MorphWeight>) -> bool {
    forall|i: int, j: int|
        0 <= i < j < list.len() ==> #[trigger] list[i].target_index != #[trigger] list[j].target_index
}

/// The morph weights that were read have distinct target indices, and the
/// target indices that are taken are those of the weights.
pub proof fn lemma_morph_targets_distinct(children: Seq<StructureView>, n: int)
    requires
        0 <= n <= children.len(),
        weights_among(children, n) is Ok,
    ensures
        targets_distinct(weights_among(children, n)->Ok_0.list),
        forall|index: usize|
            weights_among(children, n)->Ok_0.positions.dom().contains(index) <==> has_target(
                weights_among(children, n)->Ok_0.list,
                index,
            ),
    decreases n,
{
    let now = weights_among(children, n)->Ok_0;
    if n > 0 {
        lemma_morph_targets_distinct(children, n - 1);
        let before = weights_among(children, n - 1)->Ok_0;
        if children[n - 1].tag == "MorphWeight"@ {
            let w = morph_weight_of(children[n - 1])->Ok_0;
            let taken = w.target_index as usize;
            assert(!has_target(before.list, taken));
            assert(now.list[before.list.len() as int] == w);
            assert forall|index: usize| now.positions.dom().contains(index) implies has_target(
                now.list,
                index,
            ) by {
                if index == taken {
                    assert(now.list[before.list.len() as int].target_index as usize == index);
                } else {
                    assert(has_target(before.list, index));
                    let j = choose|j: int|
                        0 <= j < before.list.len() && #[trigger] before.list[j].target_index as usize
                            == index;
                    assert(now.list[j].target_index as usize == index);
                }
            }
            assert forall|index: usize| has_target(now.list, index) implies now.positions.dom().contains(
                index,
            ) by {
                let j = choose|j: int|
                    0 <= j < now.list.len() && #[trigger] now.list[j].target_index as usize == index;
                if j < before.list.len() {
                    assert(before.list[j].target_index as usize == index);
                    assert(has_target(before.list, index));
                }
            }
            assert forall|i: int, j: int| 0 <= i < j < now.list.len() implies #[trigger] now.list[i].target_index
                != #[trigger] now.list[j].target_index by {
                if j < before.list.len() {
                    assert(before.list[i].target_index != before.list[j].target_index);
                } else {
                    if now.list[i].target_index == w.target_index {
                        assert(before.list[i].target_index as usize == taken);
                        assert(has_target(before.list, taken));
                    }
                }
            }
        }
    } else {
        assert forall|index: usize| has_target(now.list, index) implies now.positions.dom().contains(
            index,
        ) by {}
    }
}

/// What is read from more children holds what was read from fewer.
pub proof fn lemma_weights_grow(children: Seq<StructureView>, n: int, m: int)
    requires
        0 <= n <= m <= children.len(),
        weights_among(children, m) is Ok,
    ensures
        weights_among(children, n) is Ok,
        weights_among(children, n)->Ok_0.list.len() <= weights_among(children, m)->Ok_0.list.len(),
        forall|j: int|
            0 <= j < weights_among(children, n)->Ok_0.list.len() ==> weights_among(
                children,
                n,
            )->Ok_0.list[j] == weights_among(children, m)->Ok_0.list[j],
    decreases m - n,
{
    if n < m {
        lemma_weights_grow(children, n, m - 1);
    }
}

/// A second morph weight of a target index is refused: where two
/// MorphWeight structures of a node have the same target index and all is
/// well before the second, the morph weights of the node fail at the second,
/// with the target index.
pub proof fn lemma_duplicate_morph_target(children: Seq<StructureView>, i: int, j: int)
    requires
        0 <= i < j < children.len(),
        children[i].tag == "MorphWeight"@,
        children[j].tag == "MorphWeight"@,
        morph_weight_of(children[i]) is Ok,
        morph_weight_of(children[j]) is Ok,
        morph_weight_of(children[i])->Ok_0.target_index == morph_weight_of(
            children[j],
        )->Ok_0.target_index,
        weights_among(children, j) is Ok,
    ensures
        weights_among(children, children.len() as int) == Err::<Weights, ErrorView>(
            ErrorView::DuplicateMorphTarget {
                index: morph_weight_of(children[j])->Ok_0.target_index as usize,
            },
        ),
{
    let taken = morph_weight_of(children[j])->Ok_0.target_index as usize;
    lemma_weights_grow(children, i + 1, j);
    lemma_weights_grow(children, i, i + 1);
    let first = weights_among(children, i + 1)->Ok_0;
    let before = weights_among(children, i)->Ok_0;
    assert(first.list[before.list.len() as int].target_index as usize == taken);
    let later = weights_among(children, j)->Ok_0;
    assert(later.list[before.list.len() as int].target_index as usize == taken);
    assert(has_target(later.list, taken));
    lemma_morph_targets_distinct(children, j);
    crate::nodes::lemma_weights_fail(children, j + 1, children.len() as int);
}

/// Whether a node fills every material slot that a geometry uses.
pub open spec fn covers(geometry: GeometryObjectView, slots: Map<usize, usize>) -> bool {
    forall|i: int, k: int|
        0 <= i < geometry.meshes.len() && 0 <= k < geometry.meshes[i].materials.len()
            ==> slots.dom().contains(#[trigger] geometry.meshes[i].materials[k] as usize)
}

/// No slot among the first of a mesh is empty exactly if the node fills each
/// of them; and a slot that is found empty is one of them, and is empty.
pub proof fn lemma_empty_slot(used: Seq<u32>, n: int, slots: Map<usize, usize>)
    requires
        0 <= n <= used.len(),
    ensures
        empty_slot(used, n, slots) is None <==> forall|k: int|
            0 <= k < n ==> slots.dom().contains(#[trigger] used[k] as usize),
        empty_slot(used, n, slots) is Some ==> exists|k: int|
            0 <= k < n && #[trigger] used[k] == empty_slot(used, n, slots)->Some_0
                && !slots.dom().contains(used[k] as usize),
    decreases n,
{
    if n > 0 {
        lemma_empty_slot(used, n - 1, slots);
        if empty_slot(used, n - 1, slots) is Some {
            let k = choose|k: int|
                0 <= k < n - 1 && #[trigger] used[k] == empty_slot(used, n - 1, slots)->Some_0
                    && !slots.dom().contains(used[k] as usize);
            assert(used[k] == empty_slot(used, n, slots)->Some_0);
        } else if !slots.dom().contains(used[n - 1] as usize) {
            assert(used[n - 1] == empty_slot(used, n, slots)->Some_0);
        }
    }
}

/// No slot of the first meshes is uncovered exactly if the node fills each
/// slot that they use; and a slot that is found uncovered is used by one of
/// them, and is empty.
pub proof fn lemma_uncovered_slot(meshes: Seq<MeshView>, n: int, slots: Map<usize, usize>)
    requires
        0 <= n <= meshes.len(),
    ensures
        uncovered_slot(meshes, n, slots) is None <==> forall|i: int, k: int|
            0 <= i < n && 0 <= k < meshes[i].materials.len() ==> slots.dom().contains(
                #[trigger] meshes[i].materials[k] as usize,
            ),
        uncovered_slot(meshes, n, slots) is Some ==> exists|i: int, k: int|
            0 <= i < n && 0 <= k < meshes[i].materials.len() && #[trigger] meshes[i].materials[k]
                == uncovered_slot(meshes, n, slots)->Some_0 && !slots.dom().contains(
                meshes[i].materials[k] as usize,
            ),
    decreases n,
{
    if n > 0 {
        lemma_uncovered_slot(meshes, n - 1, slots);
        let used = meshes[n - 1].materials;
        lemma_empty_slot(used, used.len() as int, slots);
        if uncovered_slot(meshes, n - 1, slots) is Some {
            let (i, k) = choose|i: int, k: int|
                0 <= i < n - 1 && 0 <= k < meshes[i].materials.len() && #[trigger] meshes[i].materials[k]
                    == uncovered_slot(meshes, n - 1, slots)->Some_0 && !slots.dom().contains(
                    meshes[i].materials[k] as usize,
                );
            assert(meshes[i].materials[k] == uncovered_slot(meshes, n, slots)->Some_0);
        } else if empty_slot(used, used.len() as int, slots) is Some {
            let k = choose|k: int|
                0 <= k < used.len() && #[trigger] used[k] == empty_slot(
                    used,
                    used.len() as int,
                    slots,
                )->Some_0 && !slots.dom().contains(used[k] as usize);
            assert(meshes[n - 1].materials[k] == uncovered_slot(meshes, n, slots)->Some_0);
        } else {
            assert forall|i: int, k: int|
                0 <= i < n && 0 <= k < meshes[i].materials.len() implies slots.dom().contains(
                #[trigger] meshes[i].materials[k] as usize,
            ) by {
                if i == n - 1 {
                    assert(slots.dom().contains(used[k] as usize));
                }
            }
        }
    }
}

/// The coverage of a geometry: the check passes exactly if the node fills
/// every material slot that an index array of the geometry uses, and where
/// it fails it names a slot that the geometry uses and the node leaves empty.
pub proof fn lemma_coverage(geometry: GeometryObjectView, slots: Map<usize, usize>)
    ensures
        covered(geometry, slots) is Ok <==> covers(geometry, slots),
        covered(geometry, slots) is Err ==> exists|i: int, k: int|
            0 <= i < geometry.meshes.len() && 0 <= k < geometry.meshes[i].materials.len()
                && covered(geometry, slots) == Err::<(), ErrorView>(
                ErrorView::UnresolvedMaterialSlot {
                    index: #[trigger] geometry.meshes[i].materials[k] as usize,
                },
            ) && !slots.dom().contains(geometry.meshes[i].materials[k] as usize),
{
    lemma_uncovered_slot(geometry.meshes, geometry.meshes.len() as int, slots);
    if covered(geometry, slots) is Err {
        let meshes = geometry.meshes;
        let n = meshes.len() as int;
        let (i, k) = choose|i: int, k: int|
            0 <= i < n && 0 <= k < meshes[i].materials.len() && #[trigger] meshes[i].materials[k]
                == uncovered_slot(meshes, n, slots)->Some_0 && !slots.dom().contains(
                meshes[i].materials[k] as usize,
            );
        assert(covered(geometry, slots) == Err::<(), ErrorView>(
            ErrorView::UnresolvedMaterialSlot { index: geometry.meshes[i].materials[k] as usize },
        ));
    }
}

/// Sharing: two nodes that refer to an object by the same name hold the
/// same key, the key of the one entry that the table has for the name.
pub proof fn lemma_same_reference_same_object<V>(
    a: StructureView,
    b: StructureView,
    table: TableView<V>,
    name: Seq<char>,
)
    requires
        table.wf(),
        object_key_of(a, table) is Ok,
        object_key_of(b, table) is Ok,
        reference_of(child_of(a, "ObjectRef"@)->Some_0) == Ok::<Seq<char>, ErrorView>(name),
        reference_of(child_of(b, "ObjectRef"@)->Some_0) == Ok::<Seq<char>, ErrorView>(name),
    ensures
        object_key_of(a, table) == object_key_of(b, table),
        object_key_of(a, table)->Ok_0 < table.objects.len(),
        table.names[object_key_of(a, table)->Ok_0 as int] == Some(name),
        forall|j: int|
            0 <= j < table.names.len() && table.names[j] == Some(name) ==> j == object_key_of(
                a,
                table,
            )->Ok_0,
{
    lemma_resolved_in_table(table, name);
    let key = object_key_of(a, table)->Ok_0;
    assert forall|j: int| 0 <= j < table.names.len() && table.names[j] == Some(name) implies j
        == key by {
        crate::table::lemma_one_entry_per_name(table, name, j, key as int);
    }
}

/// The two curves of a track that was read have the same number of keys,
/// and its target is the target at the position that the track states.
pub proof fn lemma_track_balanced(s: StructureView, targets: Seq<TrackTarget>, path: Seq<usize>)
    requires
        track_of(s, targets, path) is Ok,
    ensures
        track_of(s, targets, path)->Ok_0.balanced(),
        target_position_of(s) is Ok,
        target_position_of(s)->Ok_0 < targets.len(),
        track_of(s, targets, path)->Ok_0.target == targets[target_position_of(s)->Ok_0 as int],
{
}

/// A track whose curves differ in their number of keys is refused: where
/// the target of a track is one of its node and both of its curves are read,
/// the track fails with the two numbers of keys if they differ.
pub proof fn lemma_key_count_mismatch(s: StructureView, targets: Seq<TrackTarget>, path: Seq<usize>)
    requires
        target_position_of(s) is Ok,
        target_position_of(s)->Ok_0 < targets.len(),
        child_of(s, "Time"@) is Some,
        child_of(s, "Value"@) is Some,
        crate::animation::time_curve_of(child_of(s, "Time"@)->Some_0) is Ok,
        crate::animation::value_curve_of(child_of(s, "Value"@)->Some_0) is Ok,
        crate::animation::time_curve_of(child_of(s, "Time"@)->Some_0)->Ok_0.key_count()
            != crate::animation::value_curve_of(child_of(s, "Value"@)->Some_0)->Ok_0.key_count(),
    ensures
        track_of(s, targets, path) == Err::<TrackView, ErrorView>(
            ErrorView::KeyCountMismatch {
                time_keys: crate::animation::time_curve_of(
                    child_of(s, "Time"@)->Some_0,
                )->Ok_0.key_count() as usize,
                value_keys: crate::animation::value_curve_of(
                    child_of(s, "Value"@)->Some_0,
                )->Ok_0.key_count() as usize,
            },
        ),
{
}

/// Every target of a node is a transformation or a morph weight of the
/// node: its position is below the number of those of its sort.
pub proof fn lemma_targets_in_range(children: Seq<StructureView>, n: int, morphs: bool, p: int)
    requires
        0 <= n <= children.len() <= usize::MAX,
        0 <= p < targets_among(children, n, morphs).len(),
    ensures
        match targets_among(children, n, morphs)[p] {
            TrackTarget::Transformation(k) => k < transformations_among(children, n),
            TrackTarget::MorphWeight(k) => morphs && k < morph_weights_among(children, n),
        },
    decreases n,
{
    lemma_counts_bounded(children, n);
    if n > 0 {
        lemma_counts_bounded(children, n - 1);
        let before = targets_among(children, n - 1, morphs);
        if p < before.len() {
            lemma_targets_in_range(children, n - 1, morphs, p);
        }
    }
}

/// There are no more transformations and morph weights among some children
/// than there are children.
pub proof fn lemma_counts_bounded(children: Seq<StructureView>, n: int)
    requires
        0 <= n <= children.len(),
    ensures
        transformations_among(children, n) + morph_weights_among(children, n) <= n,
    decreases n,
{
    if n > 0 {
        lemma_counts_bounded(children, n - 1);
    }
}

/// The transformations that were read are as many as the transformation
/// structures.
pub proof fn lemma_transformations_counted(s: StructureView)
    requires
        transformations_of(s) is Ok,
    ensures
        transformations_of(s)->Ok_0.len() == transformations_among(
            s.children,
            s.children.len() as int,
        ),
{
    lemma_collect_len(
        s.children,
        s.children.len() as int,
        transformations_wanted(),
        crate::transformations::transformation_reader(),
    );
    lemma_wanted_transformations(s.children, s.children.len() as int);
}

/// The wanted ones among the children, where transformations are wanted,
/// are the transformations.
pub proof fn lemma_wanted_transformations(children: Seq<StructureView>, n: int)
    requires
        0 <= n <= children.len(),
    ensures
        wanted_among(children, n, transformations_wanted()) == transformations_among(children, n),
    decreases n,
{
    if n > 0 {
        lemma_wanted_transformations(children, n - 1);
    }
}

/// A MorphWeight structure is no transformation.
pub proof fn lemma_morph_weight_is_no_transformation(s: StructureView)
    requires
        s.tag == "MorphWeight"@,
    ensures
        !is_transformation(s),
{
    reveal_strlit("MorphWeight");
    reveal_strlit("Transform");
    reveal_strlit("Translation");
    reveal_strlit("Rotation");
    reveal_strlit("Scale");
    assert("MorphWeight"@.len() != "Transform"@.len());
    assert("MorphWeight"@[0] != "Translation"@[0]);
    assert("MorphWeight"@.len() != "Rotation"@.len());
    assert("MorphWeight"@.len() != "Scale"@.len());
}

/// The morph weights that were read are as many as the MorphWeight
/// structures.
pub proof fn lemma_weights_counted(children: Seq<StructureView>, n: int)
    requires
        0 <= n <= children.len(),
        weights_among(children, n) is Ok,
    ensures
        weights_among(children, n)->Ok_0.list.len() == morph_weights_among(children, n),
    decreases n,
{
    if n > 0 {
        lemma_weights_counted(children, n - 1);
        if children[n - 1].tag == "MorphWeight"@ {
            lemma_morph_weight_is_no_transformation(children[n - 1]);
        }
    }
}

/// Whether a track is sound in its node: its curves have the same number of
/// keys, and its target is a transformation or a morph weight of the node.
pub open spec fn track_sound(track: TrackView, node: NodeView) -> bool {
    &&& track.balanced()
    &&& match track.target {
        TrackTarget::Transformation(k) => k < node.transformations.len(),
        TrackTarget::MorphWeight(k) => node.detail matches NodeDetail::Geometry {
            morph_weights,
            ..
        } && k < morph_weights.len(),
    }
}

/// Whether a node is sound by itself: its tracks are sound, its morph
/// weights have distinct targets, and it fills every material slot that its
/// geometry uses.
pub open spec fn node_sound(node: NodeView, objects: SharedObjectsView) -> bool {
    &&& forall|a: int, t: int|
        0 <= a < node.animations.len() && 0 <= t < node.animations[a].tracks.len()
            ==> track_sound(#[trigger] node.animations[a].tracks[t], node)
    &&& node.detail matches NodeDetail::Geometry { geometry, materials, morph_weights, .. }
        ==> {
        &&& targets_distinct(morph_weights)
        &&& geometry < objects.geometries.objects.len()
        &&& covers(objects.geometries.objects[geometry as int], materials)
    }
}

/// Whether a node and every node below it is sound.
pub open spec fn tree_sound(node: NodeView, objects: SharedObjectsView) -> bool
    decreases node, 0int,
{
    node_sound(node, objects) && trees_sound(node.children, node.children.len() as int, objects)
}

/// Whether the first `n` nodes of a list and every node below them are
/// sound.
pub open spec fn trees_sound(nodes: Seq<NodeView>, n: int, objects: SharedObjectsView) -> bool
    decreases nodes, n,
{
    if n <= 0 || n > nodes.len() {
        true
    } else {
        trees_sound(nodes, n - 1, objects) && tree_sound(nodes[n - 1], objects)
    }
}

/// Every track of the animations that were read for a node is balanced, and
/// its target is one of the targets of the node.
pub proof fn lemma_animations_sound(
    s: StructureView,
    targets: Seq<TrackTarget>,
    path: Seq<usize>,
    n: int,
    a: int,
    t: int,
)
    requires
        0 <= n <= s.children.len(),
        collect(s.children, n, tagged("Animation"@), animation_reader(targets, path)) is Ok,
        0 <= a < collect(
            s.children,
            n,
            tagged("Animation"@),
            animation_reader(targets, path),
        )->Ok_0.len(),
        0 <= t < collect(
            s.children,
            n,
            tagged("Animation"@),
            animation_reader(targets, path),
        )->Ok_0[a].tracks.len(),
    ensures
        collect(
            s.children,
            n,
            tagged("Animation"@),
            animation_reader(targets, path),
        )->Ok_0[a].tracks[t].balanced(),
        targets.contains(
            collect(
                s.children,
                n,
                tagged("Animation"@),
                animation_reader(targets, path),
            )->Ok_0[a].tracks[t].target,
        ),
    decreases n,
{
    let before = collect(
        s.children,
        n - 1,
        tagged("Animation"@),
        animation_reader(targets, path),
    )->Ok_0;
    if a < before.len() {
        lemma_animations_sound(s, targets, path, n - 1, a, t);
    } else {
        let c = s.children[n - 1];
        crate::animation::lemma_tracks_sound(c, targets, path, c.children.len() as int, t);
    }
}

/// A node that was built is sound by itself.
pub proof fn lemma_node_sound(s: StructureView, path: Seq<usize>, objects: SharedObjectsView)
    requires
        objects.wf(),
        s.children.len() <= usize::MAX,
        node_of(s, path, objects) is Ok,
    ensures
        node_sound(node_of(s, path, objects)->Ok_0, objects),
{
    let node = node_of(s, path, objects)->Ok_0;
    let morphs = s.tag == "GeometryNode"@;
    let targets = targets_of(s, morphs);
    let n = s.children.len() as int;
    lemma_transformations_counted(s);
    assert forall|a: int, t: int|
        0 <= a < node.animations.len() && 0 <= t < node.animations[a].tracks.len() implies track_sound(
        #[trigger] node.animations[a].tracks[t],
        node,
    ) by {
        lemma_animations_sound(s, targets, path, n, a, t);
        let track = node.animations[a].tracks[t];
        let p = choose|p: int| 0 <= p < targets.len() && targets[p] == track.target;
        lemma_targets_in_range(s.children, n, morphs, p);
        if morphs {
            lemma_weights_counted(s.children, n);
        }
    }
    if morphs {
        lemma_morph_targets_distinct(s.children, n);
        lemma_object_key_in_table(s, objects.geometries);
        let detail = geometry_detail_of(s, objects)->Ok_0;
        lemma_coverage(
            objects.geometries.objects[detail->Geometry_geometry as int],
            detail->Geometry_materials,
        );
    }
}

/// A node that was built is sound, and so is every node below it.
pub proof fn lemma_tree_sound(s: StructureView, path: Seq<usize>, objects: SharedObjectsView)
    requires
        objects.wf(),
        fits(s),
        node_of(s, path, objects) is Ok,
    ensures
        tree_sound(node_of(s, path, objects)->Ok_0, objects),
    decreases s, 0int,
{
    lemma_node_sound(s, path, objects);
    lemma_trees_sound(s.children, s.children.len() as int, path, objects);
}

/// The nodes that were built from a list are sound.
pub proof fn lemma_trees_sound(
    children: Seq<StructureView>,
    n: int,
    path: Seq<usize>,
    objects: SharedObjectsView,
)
    requires
        objects.wf(),
        0 <= n <= children.len(),
        all_fit(children, n),
        nodes_among(children, n, path, objects) is Ok,
    ensures
        trees_sound(
            nodes_among(children, n, path, objects)->Ok_0,
            nodes_among(children, n, path, objects)->Ok_0.len() as int,
            objects,
        ),
    decreases children, n,
{
    if n > 0 {
        let before = nodes_among(children, n - 1, path, objects)->Ok_0;
        lemma_trees_sound(children, n - 1, path, objects);
        if is_node(children[n - 1]) {
            let node = node_of(children[n - 1], path.push((n - 1) as usize), objects)->Ok_0;
            lemma_tree_sound(children[n - 1], path.push((n - 1) as usize), objects);
            lemma_sound_prefix(before, before.push(node), before.len() as int, objects);
        }
    }
}

/// Whether the first nodes of a list are sound depends on those nodes alone.
pub proof fn lemma_sound_prefix(
    a: Seq<NodeView>,
    b: Seq<NodeView>,
    n: int,
    objects: SharedObjectsView,
)
    requires
        0 <= n <= a.len(),
        n <= b.len(),
        forall|i: int| 0 <= i < n ==> a[i] == b[i],
    ensures
        trees_sound(a, n, objects) == trees_sound(b, n, objects),
    decreases n,
{
    if n > 0 {
        lemma_sound_prefix(a, b, n - 1, objects);
    }
}

/// Every scene that is assembled is sound: in every node, each track has
/// as many time keys as value keys and animates a transformation or a morph
/// weight of the node, no two morph weights have the same target, and every
/// material slot that the geometry uses is filled.
pub proof fn lemma_scene_sound(forest: Seq<StructureView>)
    requires
        forest.len() <= usize::MAX,
        all_fit(forest, forest.len() as int),
        scene_of(forest) is Ok,
    ensures
        trees_sound(
            scene_of(forest)->Ok_0.roots,
            scene_of(forest)->Ok_0.roots.len() as int,
            scene_of(forest)->Ok_0.objects,
        ),
{
    let n = forest.len() as int;
    lemma_objects_wf(forest, n);
    lemma_trees_sound(forest, n, Seq::empty(), objects_among(forest, n)->Ok_0);
}

/// The node structure at a path of a forest: the path holds the position of
/// each ancestor of the node, and last its own, among the structures of its
/// parent.
pub open spec fn node_at(forest: Seq<StructureView>, path: Seq<usize>) -> Option<StructureView>
    decreases path.len(),
{
    if path.len() == 0 || path[0] >= forest.len() || !is_node(forest[path[0] as int]) {
        None
    } else if path.len() == 1 {
        Some(forest[path[0] as int])
    } else {
        node_at(forest[path[0] as int].children, path.drop_first())
    }
}

/// The number of node structures among the first `n` structures of a list.
pub open spec fn nodes_before(forest: Seq<StructureView>, n: int) -> nat
    decreases n,
{
    if n <= 0 || n > forest.len() {
        0
    } else if is_node(forest[n - 1]) {
        nodes_before(forest, n - 1) + 1
    } else {
        nodes_before(forest, n - 1)
    }
}

/// The node that was built for the node structure at a path: in each list
/// of nodes it stands behind the nodes of the node structures before it.
pub open spec fn built_at(
    nodes: Seq<NodeView>,
    forest: Seq<StructureView>,
    path: Seq<usize>,
) -> NodeView
    recommends
        node_at(forest, path) is Some,
    decreases path.len(),
{
    if path.len() == 0 {
        arbitrary()
    } else if path.len() == 1 {
        nodes[nodes_before(forest, path[0] as int) as int]
    } else {
        built_at(
            nodes[nodes_before(forest, path[0] as int) as int].children,
            forest[path[0] as int].children,
            path.drop_first(),
        )
    }
}

/// The nodes of all structures hold the nodes of the first.
pub proof fn lemma_nodes_grow(
    children: Seq<StructureView>,
    n: int,
    m: int,
    path: Seq<usize>,
    objects: SharedObjectsView,
)
    requires
        0 <= n <= m <= children.len(),
        nodes_among(children, m, path, objects) is Ok,
    ensures
        nodes_among(children, n, path, objects) is Ok,
        nodes_among(children, n, path, objects)->Ok_0.len() == nodes_before(children, n),
        nodes_before(children, n) <= nodes_among(children, m, path, objects)->Ok_0.len(),
        forall|k: int|
            0 <= k < nodes_before(children, n) ==> nodes_among(children, n, path, objects)->Ok_0[k]
                == nodes_among(children, m, path, objects)->Ok_0[k],
    decreases m,
{
    if m > 0 {
        if n < m {
            lemma_nodes_grow(children, n, m - 1, path, objects);
        }
        lemma_nodes_grow(children, m - 1, m - 1, path, objects);
    }
}

/// The nodes keep the order of the document: the node structure at position
/// `i` is built, with its position added to the path, into the node that
/// follows the nodes of the node structures before it.
pub proof fn lemma_nodes_keep_order(
    children: Seq<StructureView>,
    path: Seq<usize>,
    objects: SharedObjectsView,
    i: int,
)
    requires
        0 <= i < children.len(),
        is_node(children[i]),
        nodes_among(children, children.len() as int, path, objects) is Ok,
    ensures
        nodes_before(children, i) < nodes_among(
            children,
            children.len() as int,
            path,
            objects,
        )->Ok_0.len(),
        node_of(children[i], path.push(i as usize), objects) == Ok::<NodeView, ErrorView>(
            nodes_among(children, children.len() as int, path, objects)->Ok_0[nodes_before(
                children,
                i,
            ) as int],
        ),
{
    lemma_nodes_grow(children, i + 1, children.len() as int, path, objects);
    lemma_nodes_grow(children, i, i + 1, path, objects);
}

/// Every node structure of a list, at whatever depth, is built, with its
/// path, into the node that stands for it.
pub proof fn lemma_node_built(
    children: Seq<StructureView>,
    prefix: Seq<usize>,
    objects: SharedObjectsView,
    path: Seq<usize>,
)
    requires
        nodes_among(children, children.len() as int, prefix, objects) is Ok,
        node_at(children, path) is Some,
    ensures
        node_of(node_at(children, path)->Some_0, prefix + path, objects) == Ok::<
            NodeView,
            ErrorView,
        >(
            built_at(
                nodes_among(children, children.len() as int, prefix, objects)->Ok_0,
                children,
                path,
            ),
        ),
    decreases path.len(),
{
    let i = path[0] as int;
    lemma_nodes_keep_order(children, prefix, objects, i);
    if path.len() == 1 {
        assert(prefix + path =~= prefix.push(path[0]));
    } else {
        let rest = path.drop_first();
        lemma_node_built(children[i].children, prefix.push(path[0]), objects, rest);
        assert(prefix.push(path[0]) + rest =~= prefix + path);
    }
}

/// The roots of the scene of a document, and the objects that its nodes
/// refer to.
pub open spec fn roots_of(forest: Seq<StructureView>) -> Seq<NodeView> {
    scene_of(forest)->Ok_0.roots
}

/// In an assembled document every node structure, at whatever depth, is
/// built into the node that stands for it in the scene.
pub proof fn lemma_document_node(forest: Seq<StructureView>, path: Seq<usize>)
    requires
        scene_of(forest) is Ok,
        node_at(forest, path) is Some,
    ensures
        node_of(node_at(forest, path)->Some_0, path, scene_of(forest)->Ok_0.objects) == Ok::<
            NodeView,
            ErrorView,
        >(built_at(roots_of(forest), forest, path)),
{
    let objects = objects_among(forest, forest.len() as int)->Ok_0;
    lemma_node_built(forest, Seq::empty(), objects, path);
    assert(Seq::<usize>::empty() + path =~= path);
}

/// The order of the transformations of a document: a node at whatever depth
/// holds, for each transformation structure, the transformation that the
/// structure is classified as, behind those of the transformation structures
/// before it. So a node with two transformation structures holds the first
/// before the second, and they are applied in that order.
pub proof fn lemma_document_transformations(forest: Seq<StructureView>, path: Seq<usize>, i: int)
    requires
        scene_of(forest) is Ok,
        node_at(forest, path) is Some,
        0 <= i < node_at(forest, path)->Some_0.children.len(),
        is_transformation(node_at(forest, path)->Some_0.children[i]),
    ensures
        built_at(roots_of(forest), forest, path).transformations.len() == transformations_among(
            node_at(forest, path)->Some_0.children,
            node_at(forest, path)->Some_0.children.len() as int,
        ),
        transformations_among(node_at(forest, path)->Some_0.children, i) < built_at(
            roots_of(forest),
            forest,
            path,
        ).transformations.len(),
        crate::transformations::transformation_of(node_at(forest, path)->Some_0.children[i])
            == Ok::<crate::structure::TransformationView, ErrorView>(
            built_at(roots_of(forest), forest, path).transformations[transformations_among(
                node_at(forest, path)->Some_0.children,
                i,
            ) as int],
        ),
{
    let s = node_at(forest, path)->Some_0;
    lemma_document_node(forest, path);
    lemma_transformations_counted(s);
    crate::gather::lemma_collect_keeps_order(
        s.children,
        s.children.len() as int,
        transformations_wanted(),
        crate::transformations::transformation_reader(),
        i,
    );
    lemma_wanted_transformations(s.children, i);
}

/// The category, the kind and the values that a transformation is read back
/// as.
pub open spec fn read_back(t: crate::structure::TransformationView) -> Option<
    (crate::error::Category, Seq<char>, Seq<crate::scalar::Scalar>),
> {
    match t {
        crate::structure::TransformationView::Transform(_) => None,
        crate::structure::TransformationView::Translation(v) => Some(
            (crate::error::Category::Translation, v.kind_text(), v.args()),
        ),
        crate::structure::TransformationView::Rotation(v) => Some(
            (crate::error::Category::Rotation, v.kind_text(), v.args()),
        ),
        crate::structure::TransformationView::Scale(v) => Some(
            (crate::error::Category::Scale, v.kind_text(), v.args()),
        ),
    }
}

/// The category of a kind-tagged transformation structure.
pub open spec fn category_of(s: StructureView) -> Option<crate::error::Category> {
    if s.tag == "Translation"@ {
        Some(crate::error::Category::Translation)
    } else if s.tag == "Rotation"@ {
        Some(crate::error::Category::Rotation)
    } else if s.tag == "Scale"@ {
        Some(crate::error::Category::Scale)
    } else {
        None
    }
}

/// A kind-tagged transformation that was read is read back as it was
/// written: with the category of its structure, the kind of its structure,
/// and the values of its structure, as many as they were.
pub proof fn lemma_transformation_round_trip(s: StructureView)
    requires
        category_of(s) is Some,
        crate::transformations::transformation_of(s) is Ok,
    ensures
        read_back(crate::transformations::transformation_of(s)->Ok_0) == Some(
            (
                category_of(s)->Some_0,
                crate::transformations::kind_of(s, category_of(s)->Some_0)->Ok_0,
                crate::lookup::values_of(s)->Ok_0,
            ),
        ),
{
    reveal_strlit("Transform");
    reveal_strlit("Translation");
    reveal_strlit("Rotation");
    reveal_strlit("Scale");
    assert("Transform"@.len() != "Translation"@.len());
    assert("Transform"@.len() != "Rotation"@.len());
    assert("Transform"@.len() != "Scale"@.len());
    assert("Translation"@.len() != "Rotation"@.len());
    assert("Translation"@.len() != "Scale"@.len());
    assert("Rotation"@.len() != "Scale"@.len());
    let category = category_of(s)->Some_0;
    let kind = crate::transformations::kind_of(s, category)->Ok_0;
    let args = crate::lookup::values_of(s)->Ok_0;
    crate::classify::lemma_classification_round_trip(category, kind, args);
}

/// Classification in a document loses nothing: the variant that a node at
/// whatever depth holds for a kind-tagged transformation structure is read
/// back with the category, the kind and the values of that structure.
pub proof fn lemma_document_classification(forest: Seq<StructureView>, path: Seq<usize>, i: int)
    requires
        scene_of(forest) is Ok,
        node_at(forest, path) is Some,
        0 <= i < node_at(forest, path)->Some_0.children.len(),
        category_of(node_at(forest, path)->Some_0.children[i]) is Some,
    ensures
        read_back(
            built_at(roots_of(forest), forest, path).transformations[transformations_among(
                node_at(forest, path)->Some_0.children,
                i,
            ) as int],
        ) == Some(
            (
                category_of(node_at(forest, path)->Some_0.children[i])->Some_0,
                crate::transformations::kind_of(
                    node_at(forest, path)->Some_0.children[i],
                    category_of(node_at(forest, path)->Some_0.children[i])->Some_0,
                )->Ok_0,
                crate::lookup::values_of(node_at(forest, path)->Some_0.children[i])->Ok_0,
            ),
        ),
{
    lemma_document_transformations(forest, path, i);
    lemma_transformation_round_trip(node_at(forest, path)->Some_0.children[i]);
}

/// The curves of a track that was read are read back as they were written:
/// each with the kind of its structure and with the values of its Key
/// structures.
pub proof fn lemma_curves_round_trip(s: StructureView, targets: Seq<TrackTarget>, path: Seq<usize>)
    requires
        track_of(s, targets, path) is Ok,
    ensures
        track_of(s, targets, path)->Ok_0.time.kind_text() == crate::animation::curve_kind_of(
            child_of(s, "Time"@)->Some_0,
            crate::error::Category::Time,
        )->Ok_0,
        track_of(s, targets, path)->Ok_0.time.args() == crate::animation::channels_of(
            child_of(s, "Time"@)->Some_0,
        )->Ok_0.values,
        track_of(s, targets, path)->Ok_0.value.kind_text() == crate::animation::curve_kind_of(
            child_of(s, "Value"@)->Some_0,
            crate::error::Category::Value,
        )->Ok_0,
        track_of(s, targets, path)->Ok_0.value.args() == crate::animation::channels_of(
            child_of(s, "Value"@)->Some_0,
        )->Ok_0.values,
{
    let time = child_of(s, "Time"@)->Some_0;
    let value = child_of(s, "Value"@)->Some_0;
    crate::classify::lemma_classification_round_trip(
        crate::error::Category::Time,
        crate::animation::curve_kind_of(time, crate::error::Category::Time)->Ok_0,
        crate::animation::channels_of(time)->Ok_0.values,
    );
    crate::classify::lemma_classification_round_trip(
        crate::error::Category::Value,
        crate::animation::curve_kind_of(value, crate::error::Category::Value)->Ok_0,
        crate::animation::channels_of(value)->Ok_0.values,
    );
}

/// The key of the object that a node refers to.
pub open spec fn object_key(detail: NodeDetail) -> Option<usize> {
    match detail {
        NodeDetail::Geometry { geometry, .. } => Some(geometry),
        NodeDetail::Camera { camera } => Some(camera),
        NodeDetail::Light { light, .. } => Some(light),
        _ => None,
    }
}

/// The name of the object that a node structure refers to.
pub open spec fn object_name(s: StructureView) -> Option<Seq<char>> {
    match child_of(s, "ObjectRef"@) {
        None => None,
        Some(c) => match reference_of(c) {
            Ok(name) => Some(name),
            Err(_) => None,
        },
    }
}

/// Resolution in a document is idempotent: two nodes of one type, at
/// whatever depth, that refer to an object by the same name hold the same
/// key. However often a name is resolved, it leads to the one object that
/// the document declares under it.
pub proof fn lemma_document_sharing(forest: Seq<StructureView>, first: Seq<usize>, second: Seq<usize>)
    requires
        scene_of(forest) is Ok,
        node_at(forest, first) is Some,
        node_at(forest, second) is Some,
        node_at(forest, first)->Some_0.tag == node_at(forest, second)->Some_0.tag,
        object_name(node_at(forest, first)->Some_0) is Some,
        object_name(node_at(forest, first)->Some_0) == object_name(
            node_at(forest, second)->Some_0,
        ),
    ensures
        object_key(built_at(roots_of(forest), forest, first).detail) == object_key(
            built_at(roots_of(forest), forest, second).detail,
        ),
{
    lemma_document_node(forest, first);
    lemma_document_node(forest, second);
}

/// The material slots of a node hold, for each MaterialRef structure, the
/// key that the name of the structure resolves to.
pub proof fn lemma_slot_resolved<V>(
    children: Seq<StructureView>,
    n: int,
    materials: TableView<V>,
    i: int,
)
    requires
        0 <= i < n <= children.len(),
        children[i].tag == "MaterialRef"@,
        slots_among(children, n, materials) is Ok,
    ensures
        crate::nodes::slot_entry_of(children[i], materials) is Ok,
        slots_among(children, n, materials)->Ok_0.dom().contains(
            crate::nodes::slot_entry_of(children[i], materials)->Ok_0.0,
        ),
        slots_among(children, n, materials)->Ok_0[crate::nodes::slot_entry_of(
            children[i],
            materials,
        )->Ok_0.0] == materials.resolved(reference_of(children[i])->Ok_0)->Ok_0,
    decreases n,
{
    if i < n - 1 {
        lemma_slot_resolved(children, n - 1, materials, i);
    }
}

/// Two material references of a document that carry the same name are
/// resolved to the same key, in one node or in two, at whatever depth.
pub proof fn lemma_document_materials(
    forest: Seq<StructureView>,
    first: Seq<usize>,
    i: int,
    second: Seq<usize>,
    j: int,
)
    requires
        scene_of(forest) is Ok,
        node_at(forest, first) is Some,
        node_at(forest, second) is Some,
        node_at(forest, first)->Some_0.tag == "GeometryNode"@,
        node_at(forest, second)->Some_0.tag == "GeometryNode"@,
        0 <= i < node_at(forest, first)->Some_0.children.len(),
        0 <= j < node_at(forest, second)->Some_0.children.len(),
        node_at(forest, first)->Some_0.children[i].tag == "MaterialRef"@,
        node_at(forest, second)->Some_0.children[j].tag == "MaterialRef"@,
        reference_of(node_at(forest, first)->Some_0.children[i]) == reference_of(
            node_at(forest, second)->Some_0.children[j],
        ),
    ensures
        ({
            let objects = scene_of(forest)->Ok_0.objects;
            let a = node_at(forest, first)->Some_0;
            let b = node_at(forest, second)->Some_0;
            let slot_a = crate::nodes::slot_entry_of(a.children[i], objects.materials)->Ok_0.0;
            let slot_b = crate::nodes::slot_entry_of(b.children[j], objects.materials)->Ok_0.0;
            &&& built_at(roots_of(forest), forest, first).detail is Geometry
            &&& built_at(roots_of(forest), forest, second).detail is Geometry
            &&& built_at(roots_of(forest), forest, first).detail->Geometry_materials[slot_a]
                == built_at(roots_of(forest), forest, second).detail->Geometry_materials[slot_b]
        }),
{
    let objects = scene_of(forest)->Ok_0.objects;
    let a = node_at(forest, first)->Some_0;
    let b = node_at(forest, second)->Some_0;
    lemma_document_node(forest, first);
    lemma_document_node(forest, second);
    lemma_slot_resolved(a.children, a.children.len() as int, objects.materials, i);
    lemma_slot_resolved(b.children, b.children.len() as int, objects.materials, j);
}

/// Whether at most one of the four tables declares an object under a name.
pub open spec fn declared_once(objects: SharedObjectsView, name: Seq<char>) -> bool {
    let g = objects.geometries.key_of(name) is Some;
    let c = objects.cameras.key_of(name) is Some;
    let l = objects.lights.key_of(name) is Some;
    let m = objects.materials.key_of(name) is Some;
    !(g && c) && !(g && l) && !(g && m) && !(c && l) && !(c && m) && !(l && m)
}

/// A name is declared once in the whole document: the tables of a document
/// hold at most one object under it, of whatever type.
pub proof fn lemma_declared_once(forest: Seq<StructureView>, n: int, name: Seq<char>)
    requires
        0 <= n <= forest.len(),
        objects_among(forest, n) is Ok,
    ensures
        declared_once(objects_among(forest, n)->Ok_0, name),
    decreases n,
{
    if n > 0 {
        lemma_declared_once(forest, n - 1, name);
        let before = objects_among(forest, n - 1)->Ok_0;
        let s = forest[n - 1];
        if s.tag == "GeometryObject"@ {
            let object = crate::objects::geometry_object_of(s)->Ok_0;
            crate::table::lemma_key_after(before.geometries, s.name, object, name);
        } else if s.tag == "CameraObject"@ {
            let object = crate::objects::camera_object_of(s)->Ok_0;
            crate::table::lemma_key_after(before.cameras, s.name, object, name);
        } else if s.tag == "LightObject"@ {
            let object = crate::objects::light_object_of(s)->Ok_0;
            crate::table::lemma_key_after(before.lights, s.name, object, name);
        } else if s.tag == "Material"@ {
            let object = crate::objects::material_of(s)->Ok_0;
            crate::table::lemma_key_after(before.materials, s.name, object, name);
        }
    }
}

/// A reference of a node: the one to its object, or the one of the
/// MaterialRef structure at a position among its children.
pub enum Reference {
    Object,
    Material(int),
}

/// The identity of a shared object: its table and its key.
pub enum Identity {
    Geometry(usize),
    Camera(usize),
    Light(usize),
    Material(usize),
}

/// The name that a reference of a node structure carries.
pub open spec fn reference_name(s: StructureView, r: Reference) -> Option<Seq<char>> {
    match r {
        Reference::Object => if s.tag == "GeometryNode"@ || s.tag == "CameraNode"@ || s.tag
            == "LightNode"@ {
            object_name(s)
        } else {
            None
        },
        Reference::Material(i) => if s.tag == "GeometryNode"@ && 0 <= i < s.children.len()
            && s.children[i].tag == "MaterialRef"@ {
            match reference_of(s.children[i]) {
                Ok(name) => Some(name),
                Err(_) => None,
            }
        } else {
            None
        },
    }
}

/// The identity that a node holds for a reference of its structure.
pub open spec fn identity_of(
    node: NodeView,
    s: StructureView,
    objects: SharedObjectsView,
    r: Reference,
) -> Identity {
    match r {
        Reference::Object => match node.detail {
            NodeDetail::Geometry { geometry, .. } => Identity::Geometry(geometry),
            NodeDetail::Camera { camera } => Identity::Camera(camera),
            NodeDetail::Light { light, .. } => Identity::Light(light),
            _ => arbitrary(),
        },
        Reference::Material(i) => Identity::Material(
            node.detail->Geometry_materials[crate::nodes::slot_entry_of(
                s.children[i],
                objects.materials,
            )->Ok_0.0],
        ),
    }
}

/// Whether an identity is the object that the tables hold under a name.
pub open spec fn is_object_of(identity: Identity, objects: SharedObjectsView, name: Seq<char>) -> bool {
    match identity {
        Identity::Geometry(key) => objects.geometries.key_of(name) == Some(key),
        Identity::Camera(key) => objects.cameras.key_of(name) == Some(key),
        Identity::Light(key) => objects.lights.key_of(name) == Some(key),
        Identity::Material(key) => objects.materials.key_of(name) == Some(key),
    }
}

/// The types of node that refer to an object have tags of their own.
pub proof fn lemma_node_tags_differ()
    ensures
        "GeometryNode"@ != "CameraNode"@,
        "GeometryNode"@ != "LightNode"@,
        "CameraNode"@ != "LightNode"@,
{
    reveal_strlit("GeometryNode");
    reveal_strlit("CameraNode");
    reveal_strlit("LightNode");
    assert("GeometryNode"@.len() != "CameraNode"@.len());
    assert("GeometryNode"@.len() != "LightNode"@.len());
    assert("CameraNode"@.len() != "LightNode"@.len());
}

/// What a node holds for a reference is the object that the tables hold
/// under the name of the reference.
pub proof fn lemma_reference_resolved(
    s: StructureView,
    path: Seq<usize>,
    objects: SharedObjectsView,
    r: Reference,
)
    requires
        node_of(s, path, objects) is Ok,
        reference_name(s, r) is Some,
    ensures
        is_object_of(
            identity_of(node_of(s, path, objects)->Ok_0, s, objects, r),
            objects,
            reference_name(s, r)->Some_0,
        ),
{
    lemma_node_tags_differ();
    match r {
        Reference::Object => {},
        Reference::Material(i) => {
            lemma_slot_resolved(s.children, s.children.len() as int, objects.materials, i);
        },
    }
}

/// One identity for one name: two references of an assembled document that
/// carry the same name, to an object or to a material, in one node or in
/// two, at whatever depth, are resolved to the same entry of the same
/// table. Resolving a name again gives what it gave, never a second copy.
pub proof fn lemma_one_identity(
    forest: Seq<StructureView>,
    first: Seq<usize>,
    r1: Reference,
    second: Seq<usize>,
    r2: Reference,
)
    requires
        scene_of(forest) is Ok,
        node_at(forest, first) is Some,
        node_at(forest, second) is Some,
        reference_name(node_at(forest, first)->Some_0, r1) is Some,
        reference_name(node_at(forest, first)->Some_0, r1) == reference_name(
            node_at(forest, second)->Some_0,
            r2,
        ),
    ensures
        identity_of(
            built_at(roots_of(forest), forest, first),
            node_at(forest, first)->Some_0,
            scene_of(forest)->Ok_0.objects,
            r1,
        ) == identity_of(
            built_at(roots_of(forest), forest, second),
            node_at(forest, second)->Some_0,
            scene_of(forest)->Ok_0.objects,
            r2,
        ),
        is_object_of(
            identity_of(
                built_at(roots_of(forest), forest, first),
                node_at(forest, first)->Some_0,
                scene_of(forest)->Ok_0.objects,
                r1,
            ),
            scene_of(forest)->Ok_0.objects,
            reference_name(node_at(forest, first)->Some_0, r1)->Some_0,
        ),
{
    let objects = scene_of(forest)->Ok_0.objects;
    let name = reference_name(node_at(forest, first)->Some_0, r1)->Some_0;
    lemma_document_node(forest, first);
    lemma_document_node(forest, second);
    lemma_reference_resolved(node_at(forest, first)->Some_0, first, objects, r1);
    lemma_reference_resolved(node_at(forest, second)->Some_0, second, objects, r2);
    lemma_declared_once(forest, forest.len() as int, name);
}

/// There are no fewer transformations among more children than among fewer.
pub proof fn lemma_transformations_grow(children: Seq<StructureView>, n: int, m: int)
    requires
        0 <= n <= m <= children.len(),
    ensures
        transformations_among(children, n) <= transformations_among(children, m),
    decreases m - n,
{
    if n < m {
        lemma_transformations_grow(children, n, m - 1);
    }
}

/// A node with exactly two transformation structures, at whatever depth of
/// an assembled document, holds exactly the two transformations that they
/// are classified as, the first of the document first: the first is applied
/// first.
pub proof fn lemma_document_two_transformations(
    forest: Seq<StructureView>,
    path: Seq<usize>,
    i: int,
    j: int,
)
    requires
        scene_of(forest) is Ok,
        node_at(forest, path) is Some,
        0 <= i < j < node_at(forest, path)->Some_0.children.len(),
        is_transformation(node_at(forest, path)->Some_0.children[i]),
        is_transformation(node_at(forest, path)->Some_0.children[j]),
        transformations_among(
            node_at(forest, path)->Some_0.children,
            node_at(forest, path)->Some_0.children.len() as int,
        ) == 2,
    ensures
        crate::transformations::transformation_of(node_at(forest, path)->Some_0.children[i]) is Ok,
        crate::transformations::transformation_of(node_at(forest, path)->Some_0.children[j]) is Ok,
        built_at(roots_of(forest), forest, path).transformations == seq![
            crate::transformations::transformation_of(
                node_at(forest, path)->Some_0.children[i],
            )->Ok_0,
            crate::transformations::transformation_of(
                node_at(forest, path)->Some_0.children[j],
            )->Ok_0,
        ],
{
    let children = node_at(forest, path)->Some_0.children;
    let n = children.len() as int;
    lemma_document_transformations(forest, path, i);
    lemma_document_transformations(forest, path, j);
    lemma_transformations_grow(children, 0, i);
    lemma_transformations_grow(children, i + 1, j);
    lemma_transformations_grow(children, j + 1, n);
    assert(transformations_among(children, i) == 0);
    assert(transformations_among(children, j) == 1);
    assert(built_at(roots_of(forest), forest, path).transformations =~= seq![
        crate::transformations::transformation_of(children[i])->Ok_0,
        crate::transformations::transformation_of(children[j])->Ok_0,
    ]);
}

/// The place of a kind-tagged structure in a node: a transformation at a
/// position among the children of the node, or the time or the value curve
/// of the track at a position among the children of the animation at a
/// position among the children of the node.
pub enum Place {
    Transformation(int),
    Time(int, int),
    Value(int, int),
}

/// The Track structure at a position in the animation at a position.
pub open spec fn track_at(s: StructureView, a: int, t: int) -> Option<StructureView> {
    if 0 <= a < s.children.len() && s.children[a].tag == "Animation"@ && 0 <= t
        < s.children[a].children.len() && s.children[a].children[t].tag == "Track"@ {
        Some(s.children[a].children[t])
    } else {
        None
    }
}

/// The kind-tagged structure at a place of a node structure.
pub open spec fn substructure_at(s: StructureView, place: Place) -> Option<StructureView> {
    match place {
        Place::Transformation(i) => if 0 <= i < s.children.len() && category_of(s.children[i])
            is Some {
            Some(s.children[i])
        } else {
            None
        },
        Place::Time(a, t) => match track_at(s, a, t) {
            Some(track) => child_of(track, "Time"@),
            None => None,
        },
        Place::Value(a, t) => match track_at(s, a, t) {
            Some(track) => child_of(track, "Value"@),
            None => None,
        },
    }
}

/// What the structure at a place states: its category, its kind, and its
/// values in their order.
pub open spec fn stated_at(s: StructureView, place: Place) -> (
    crate::error::Category,
    Seq<char>,
    Seq<crate::scalar::Scalar>,
) {
    let c = substructure_at(s, place)->Some_0;
    match place {
        Place::Transformation(_) => (
            category_of(c)->Some_0,
            crate::transformations::kind_of(c, category_of(c)->Some_0)->Ok_0,
            crate::lookup::values_of(c)->Ok_0,
        ),
        Place::Time(_, _) => (
            crate::error::Category::Time,
            crate::animation::curve_kind_of(c, crate::error::Category::Time)->Ok_0,
            crate::animation::channels_of(c)->Ok_0.values,
        ),
        Place::Value(_, _) => (
            crate::error::Category::Value,
            crate::animation::curve_kind_of(c, crate::error::Category::Value)->Ok_0,
            crate::animation::channels_of(c)->Ok_0.values,
        ),
    }
}

/// The track that a node holds for the Track structure at a position in the
/// animation at a position.
pub open spec fn track_stored(node: NodeView, s: StructureView, a: int, t: int) -> TrackView {
    node.animations[wanted_among(s.children, a, tagged("Animation"@)) as int].tracks[wanted_among(
        s.children[a].children,
        t,
        tagged("Track"@),
    ) as int]
}

/// The category, the kind and the values that the variant is read back as
/// which a node holds for the structure at a place.
pub open spec fn stored_at(node: NodeView, s: StructureView, place: Place) -> (
    crate::error::Category,
    Seq<char>,
    Seq<crate::scalar::Scalar>,
) {
    match place {
        Place::Transformation(i) => read_back(
            node.transformations[transformations_among(s.children, i) as int],
        )->Some_0,
        Place::Time(a, t) => (
            crate::error::Category::Time,
            track_stored(node, s, a, t).time.kind_text(),
            track_stored(node, s, a, t).time.args(),
        ),
        Place::Value(a, t) => (
            crate::error::Category::Value,
            track_stored(node, s, a, t).value.kind_text(),
            track_stored(node, s, a, t).value.args(),
        ),
    }
}

/// The track that a node holds for a Track structure is the track that the
/// structure is read as.
pub proof fn lemma_track_stored(
    s: StructureView,
    path: Seq<usize>,
    objects: SharedObjectsView,
    a: int,
    t: int,
)
    requires
        node_of(s, path, objects) is Ok,
        track_at(s, a, t) is Some,
    ensures
        track_of(
            track_at(s, a, t)->Some_0,
            targets_of(s, s.tag == "GeometryNode"@),
            path,
        ) == Ok::<TrackView, ErrorView>(track_stored(node_of(s, path, objects)->Ok_0, s, a, t)),
{
    let targets = targets_of(s, s.tag == "GeometryNode"@);
    crate::gather::lemma_collect_keeps_order(
        s.children,
        s.children.len() as int,
        tagged("Animation"@),
        animation_reader(targets, path),
        a,
    );
    let animation = s.children[a];
    crate::gather::lemma_collect_keeps_order(
        animation.children,
        animation.children.len() as int,
        tagged("Track"@),
        crate::animation::track_reader(targets, path),
        t,
    );
}

/// Classification in a document loses nothing, whatever the category: for
/// every kind-tagged structure of a node at whatever depth (a translation,
/// a rotation, a scale, or the time or the value curve of a track) the
/// variant that the node holds is read back with the category of the
/// structure, with its kind, and with its values, as many as they were.
pub proof fn lemma_document_round_trip(forest: Seq<StructureView>, path: Seq<usize>, place: Place)
    requires
        scene_of(forest) is Ok,
        node_at(forest, path) is Some,
        substructure_at(node_at(forest, path)->Some_0, place) is Some,
    ensures
        stored_at(built_at(roots_of(forest), forest, path), node_at(forest, path)->Some_0, place)
            == stated_at(node_at(forest, path)->Some_0, place),
        stored_at(
            built_at(roots_of(forest), forest, path),
            node_at(forest, path)->Some_0,
            place,
        ).2.len() == stated_at(node_at(forest, path)->Some_0, place).2.len(),
{
    let s = node_at(forest, path)->Some_0;
    let objects = scene_of(forest)->Ok_0.objects;
    lemma_document_node(forest, path);
    match place {
        Place::Transformation(i) => {
            lemma_document_classification(forest, path, i);
        },
        Place::Time(a, t) => {
            lemma_track_stored(s, path, objects, a, t);
            lemma_curves_round_trip(
                track_at(s, a, t)->Some_0,
                targets_of(s, s.tag == "GeometryNode"@),
                path,
            );
        },
        Place::Value(a, t) => {
            lemma_track_stored(s, path, objects, a, t);
            lemma_curves_round_trip(
                track_at(s, a, t)->Some_0,
                targets_of(s, s.tag == "GeometryNode"@),
                path,
            );
        },
    }
}

} // verus!
