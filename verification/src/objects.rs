//! The shared objects of a document: geometries, cameras, lights and
//! materials, each read from its structure.

use vstd::prelude::*;
use crate::animation::{animations_of, read_animations, read_targets, targets_of};
use crate::classify::arity_mismatch;
use crate::error::{AssemblyError, ErrorView};
use crate::gather::{collect, lemma_collect_fails, lemma_tabulate_fails, tabulate, tagged};
use crate::lookup::{
    bool_property, child, child_of, index_property, malformed, malformed_structure, property,
    property_bool, property_index, property_of, property_text, text, text_of, text_property,
    values, values_of,
};
use crate::scalar::Scalar;
use crate::sparse::{SparseIndexMap, MAX_INDEX};
use crate::structure::{
    Atten, AttenView, AttenuationCurve, AttenuationKind, CameraObject, CameraObjectView, Color,
    GeometricPrimitive, GeometryObject, GeometryObjectView, LightObject, LightObjectView,
    LightType, Material, MaterialView, Mesh, MeshView, Morph, MorphView, Texture, TextureView,
};
use crate::table::{name_text, SharedTable, TableView};
use crate::text::text_eq;
use crate::transformations::{read_transformations, transformations_of};
use crate::tree::{forest_view, lemma_children_view, Structure, StructureView};

verus! {

/// The attribute that a structure is the value of.
pub open spec fn attribute_of(s: StructureView) -> Result<Seq<char>, ErrorView> {
    match text_property(s, "attrib"@) {
        Err(e) => Err(e),
        Ok(None) => Err(malformed(s)),
        Ok(Some(attrib)) => Ok(attrib),
    }
}

/// The parameter that a Param structure is.
pub open spec fn param_of(s: StructureView) -> Result<(Seq<char>, Scalar), ErrorView> {
    match attribute_of(s) {
        Err(e) => Err(e),
        Ok(attrib) => match values_of(s) {
            Err(e) => Err(e),
            Ok(v) => if v.len() == 1 {
                Ok((attrib, v[0]))
            } else {
                Err(arity_mismatch(1, v))
            },
        },
    }
}

/// The color that a Color structure is: of three values or of four.
pub open spec fn color_of(s: StructureView) -> Result<(Seq<char>, Color), ErrorView> {
    match attribute_of(s) {
        Err(e) => Err(e),
        Ok(attrib) => match values_of(s) {
            Err(e) => Err(e),
            Ok(v) => if v.len() == 3 {
                Ok((attrib, Color::Rgb(v[0], v[1], v[2])))
            } else if v.len() == 4 {
                Ok((attrib, Color::Rgba(v[0], v[1], v[2], v[3])))
            } else {
                Err(arity_mismatch(3, v))
            },
        },
    }
}

/// The texture that a Texture structure is. The tracks of its animations
/// animate its transformations; where one of them fails for its target, the
/// failure names no node.
pub open spec fn texture_of(s: StructureView) -> Result<(Seq<char>, TextureView), ErrorView> {
    match attribute_of(s) {
        Err(e) => Err(e),
        Ok(attrib) => match index_property(s, "texcoord"@, 0) {
            Err(e) => Err(e),
            Ok(texcoord) => match text_of(s) {
                Err(e) => Err(e),
                Ok(file_name) => match transformations_of(s) {
                    Err(e) => Err(e),
                    Ok(transformations) => match animations_of(
                        s,
                        targets_of(s, false),
                        Seq::empty(),
                    ) {
                        Err(e) => Err(e),
                        Ok(animation) => Ok(
                            (
                                attrib,
                                TextureView { texcoord, file_name, transformations, animation },
                            ),
                        ),
                    },
                },
            },
        },
    }
}

/// How a parameter is read.
pub open spec fn param_reader() -> spec_fn(StructureView) -> Result<(Seq<char>, Scalar), ErrorView> {
    |c: StructureView| param_of(c)
}

/// How a color is read.
pub open spec fn color_reader() -> spec_fn(StructureView) -> Result<(Seq<char>, Color), ErrorView> {
    |c: StructureView| color_of(c)
}

/// How a texture is read.
pub open spec fn texture_reader() -> spec_fn(StructureView) -> Result<
    (Seq<char>, TextureView),
    ErrorView,
> {
    |c: StructureView| texture_of(c)
}

/// The parameters of a structure.
pub open spec fn params_of(s: StructureView) -> Result<TableView<Scalar>, ErrorView> {
    tabulate(s.children, s.children.len() as int, tagged("Param"@), param_reader())
}

/// The colors of a structure.
pub open spec fn colors_of(s: StructureView) -> Result<TableView<Color>, ErrorView> {
    tabulate(s.children, s.children.len() as int, tagged("Color"@), color_reader())
}

/// The textures of a structure.
pub open spec fn textures_of(s: StructureView) -> Result<TableView<TextureView>, ErrorView> {
    tabulate(s.children, s.children.len() as int, tagged("Texture"@), texture_reader())
}

/// The name that a structure shows, where it has a Name structure.
pub open spec fn name_of(s: StructureView) -> Result<Option<Seq<char>>, ErrorView> {
    match child_of(s, "Name"@) {
        None => Ok(None),
        Some(c) => match text_of(c) {
            Err(e) => Err(e),
            Ok(name) => Ok(Some(name)),
        },
    }
}

/// The truth value of a property, or `absent` where the structure lacks the
/// property.
pub open spec fn flag_of(s: StructureView, key: Seq<char>, absent: bool) -> Result<bool, ErrorView> {
    match bool_property(s, key) {
        Err(e) => Err(e),
        Ok(Some(b)) => Ok(b),
        Ok(None) => Ok(absent),
    }
}

/// The primitive of a mesh: triangles, where the mesh states none.
pub open spec fn primitive_of(s: StructureView) -> Result<GeometricPrimitive, ErrorView> {
    match text_property(s, "primitive"@) {
        Err(e) => Err(e),
        Ok(None) => Ok(GeometricPrimitive::Triangles),
        Ok(Some(p)) => if p == "points"@ {
            Ok(GeometricPrimitive::Points)
        } else if p == "lines"@ {
            Ok(GeometricPrimitive::Lines)
        } else if p == "line_strip"@ {
            Ok(GeometricPrimitive::LineStrip)
        } else if p == "triangles"@ {
            Ok(GeometricPrimitive::Triangles)
        } else if p == "triangle_strip"@ {
            Ok(GeometricPrimitive::TriangleStrip)
        } else if p == "quads"@ {
            Ok(GeometricPrimitive::Quads)
        } else {
            Err(malformed(s))
        },
    }
}

/// The material slot that an index array uses: slot `0`, where it states
/// none.
pub open spec fn slot_of(s: StructureView) -> Result<u32, ErrorView> {
    index_property(s, "material"@, 0)
}

/// How the material slot of an index array is read.
pub open spec fn slot_reader() -> spec_fn(StructureView) -> Result<u32, ErrorView> {
    |c: StructureView| slot_of(c)
}

/// The mesh that a Mesh structure is.
pub open spec fn mesh_of(s: StructureView) -> Result<MeshView, ErrorView> {
    match index_property(s, "lod"@, 0) {
        Err(e) => Err(e),
        Ok(lod) => match primitive_of(s) {
            Err(e) => Err(e),
            Ok(primitive) => match collect(
                s.children,
                s.children.len() as int,
                tagged("IndexArray"@),
                slot_reader(),
            ) {
                Err(e) => Err(e),
                Ok(materials) => Ok(MeshView { lod, primitive, materials }),
            },
        },
    }
}

/// How a mesh is read.
pub open spec fn mesh_reader() -> spec_fn(StructureView) -> Result<MeshView, ErrorView> {
    |c: StructureView| mesh_of(c)
}

/// The index of the morph target that a relative morph target builds on.
pub open spec fn base_of(s: StructureView) -> Result<Option<u32>, ErrorView> {
    if property_of(s, "base"@) is None {
        Ok(None)
    } else {
        match index_property(s, "base"@, 0) {
            Err(e) => Err(e),
            Ok(base) => Ok(Some(base)),
        }
    }
}

/// The morph target that a Morph structure is.
pub open spec fn morph_of(s: StructureView) -> Result<MorphView, ErrorView> {
    match index_property(s, "index"@, 0) {
        Err(e) => Err(e),
        Ok(index) => match base_of(s) {
            Err(e) => Err(e),
            Ok(base_target_index) => match name_of(s) {
                Err(e) => Err(e),
                Ok(name) => Ok(MorphView { index, base_target_index, name }),
            },
        },
    }
}

/// How a morph target is read.
pub open spec fn morph_reader() -> spec_fn(StructureView) -> Result<MorphView, ErrorView> {
    |c: StructureView| morph_of(c)
}

/// The position of each of the first `n` keys of a list, under the key. There
/// is none where a key is above the largest index of a sparse map, or stands
/// in the list twice.
pub open spec fn positions_among(keys: Seq<u32>, n: int) -> Option<Map<usize, usize>>
    decreases n,
{
    if n <= 0 || n > keys.len() {
        Some(Map::empty())
    } else {
        match positions_among(keys, n - 1) {
            None => None,
            Some(before) => if keys[n - 1] > MAX_INDEX || before.dom().contains(
                keys[n - 1] as usize,
            ) {
                None
            } else {
                Some(before.insert(keys[n - 1] as usize, (n - 1) as usize))
            },
        }
    }
}

/// The levels of detail of the meshes of a list.
pub open spec fn levels_of(meshes: Seq<MeshView>) -> Seq<u32> {
    meshes.map_values(|m: MeshView| m.lod)
}

/// The target indices of the morphs of a list.
pub open spec fn targets_of_morphs(morphs: Seq<MorphView>) -> Seq<u32> {
    morphs.map_values(|m: MorphView| m.index)
}

/// The positions of the keys of a list, under the keys, or the failure of
/// the structure that holds a key twice.
pub open spec fn positions_of(s: StructureView, keys: Seq<u32>) -> Result<
    Map<usize, usize>,
    ErrorView,
> {
    match positions_among(keys, keys.len() as int) {
        Some(positions) => Ok(positions),
        None => Err(malformed(s)),
    }
}

/// Where a key stands in the positions of a list, it stands in the list,
/// at that position and at no other.
pub proof fn lemma_positions(keys: Seq<u32>, n: int)
    requires
        0 <= n <= keys.len() <= usize::MAX,
        positions_among(keys, n) is Some,
    ensures
        forall|i: int|
            0 <= i < n ==> positions_among(keys, n)->Some_0.dom().contains(
                #[trigger] keys[i] as usize,
            ) && positions_among(keys, n)->Some_0[keys[i] as usize] == i,
        forall|key: usize| #[trigger]
            positions_among(keys, n)->Some_0.dom().contains(key) ==> positions_among(
                keys,
                n,
            )->Some_0[key] < n && keys[positions_among(keys, n)->Some_0[key] as int] as usize == key,
    decreases n,
{
    if n > 0 {
        lemma_positions(keys, n - 1);
        let before = positions_among(keys, n - 1)->Some_0;
        assert forall|i: int| 0 <= i < n - 1 implies #[trigger] keys[i] as usize != keys[n
            - 1] as usize by {
            assert(before.dom().contains(keys[i] as usize));
        }
    }
}

/// The geometry that a GeometryObject structure is. A geometry is visible,
/// casts shadows and is drawn with motion blur unless it says otherwise. It
/// has at most one mesh for a level of detail and at most one morph for a
/// target index.
pub open spec fn geometry_object_of(s: StructureView) -> Result<GeometryObjectView, ErrorView> {
    match flag_of(s, "visible"@, true) {
        Err(e) => Err(e),
        Ok(visible) => match flag_of(s, "shadow"@, true) {
            Err(e) => Err(e),
            Ok(casts_shadows) => match flag_of(s, "motion_blur"@, true) {
                Err(e) => Err(e),
                Ok(motion_blur) => match collect(
                    s.children,
                    s.children.len() as int,
                    tagged("Mesh"@),
                    mesh_reader(),
                ) {
                    Err(e) => Err(e),
                    Ok(meshes) => match positions_of(s, levels_of(meshes)) {
                        Err(e) => Err(e),
                        Ok(levels) => match collect(
                            s.children,
                            s.children.len() as int,
                            tagged("Morph"@),
                            morph_reader(),
                        ) {
                            Err(e) => Err(e),
                            Ok(morphs) => match positions_of(s, targets_of_morphs(morphs)) {
                                Err(e) => Err(e),
                                Ok(targets) => Ok(
                                    GeometryObjectView {
                                        visible,
                                        casts_shadows,
                                        motion_blur,
                                        meshes,
                                        levels,
                                        morphs,
                                        targets,
                                    },
                                ),
                            },
                        },
                    },
                },
            },
        },
    }
}

/// The camera that a CameraObject structure is.
pub open spec fn camera_object_of(s: StructureView) -> Result<CameraObjectView, ErrorView> {
    match params_of(s) {
        Err(e) => Err(e),
        Ok(params) => match colors_of(s) {
            Err(e) => Err(e),
            Ok(colors) => match textures_of(s) {
                Err(e) => Err(e),
                Ok(textures) => Ok(CameraObjectView { params, colors, textures }),
            },
        },
    }
}

/// The type of a light, which a light object has to state.
pub open spec fn light_type_of(s: StructureView) -> Result<LightType, ErrorView> {
    match text_property(s, "type"@) {
        Err(e) => Err(e),
        Ok(None) => Err(malformed(s)),
        Ok(Some(t)) => if t == "infinite"@ {
            Ok(LightType::Infinite)
        } else if t == "point"@ {
            Ok(LightType::Point)
        } else if t == "spot"@ {
            Ok(LightType::Spot)
        } else {
            Err(malformed(s))
        },
    }
}

/// The input of an attenuation function: the distance, where it states
/// none.
pub open spec fn attenuation_kind_of(s: StructureView) -> Result<AttenuationKind, ErrorView> {
    match text_property(s, "kind"@) {
        Err(e) => Err(e),
        Ok(None) => Ok(AttenuationKind::Distance),
        Ok(Some(k)) => if k == "distance"@ {
            Ok(AttenuationKind::Distance)
        } else if k == "angle"@ {
            Ok(AttenuationKind::Angle)
        } else if k == "cos_angle"@ {
            Ok(AttenuationKind::CosAngle)
        } else {
            Err(malformed(s))
        },
    }
}

/// The curve of an attenuation function: linear, where it states none.
pub open spec fn attenuation_curve_of(s: StructureView) -> Result<AttenuationCurve, ErrorView> {
    match text_property(s, "curve"@) {
        Err(e) => Err(e),
        Ok(None) => Ok(AttenuationCurve::Linear),
        Ok(Some(c)) => if c == "linear"@ {
            Ok(AttenuationCurve::Linear)
        } else if c == "smooth"@ {
            Ok(AttenuationCurve::Cubic)
        } else if c == "inverse"@ {
            Ok(AttenuationCurve::Inverse)
        } else if c == "inverse_square"@ {
            Ok(AttenuationCurve::InverseSquare)
        } else {
            Err(malformed(s))
        },
    }
}

/// The attenuation function that an Atten structure is.
pub open spec fn atten_of(s: StructureView) -> Result<AttenView, ErrorView> {
    match attenuation_kind_of(s) {
        Err(e) => Err(e),
        Ok(kind) => match attenuation_curve_of(s) {
            Err(e) => Err(e),
            Ok(curve) => match params_of(s) {
                Err(e) => Err(e),
                Ok(params) => Ok(AttenView { kind, curve, params }),
            },
        },
    }
}

/// How an attenuation function is read.
pub open spec fn atten_reader() -> spec_fn(StructureView) -> Result<AttenView, ErrorView> {
    |c: StructureView| atten_of(c)
}

/// The light that a LightObject structure is. A light casts shadows unless
/// it says otherwise.
pub open spec fn light_object_of(s: StructureView) -> Result<LightObjectView, ErrorView> {
    match light_type_of(s) {
        Err(e) => Err(e),
        Ok(light_type) => match flag_of(s, "shadow"@, true) {
            Err(e) => Err(e),
            Ok(casts_shadows) => match colors_of(s) {
                Err(e) => Err(e),
                Ok(colors) => match params_of(s) {
                    Err(e) => Err(e),
                    Ok(params) => match textures_of(s) {
                        Err(e) => Err(e),
                        Ok(textures) => match collect(
                            s.children,
                            s.children.len() as int,
                            tagged("Atten"@),
                            atten_reader(),
                        ) {
                            Err(e) => Err(e),
                            Ok(attenuations) => Ok(
                                LightObjectView {
                                    light_type,
                                    casts_shadows,
                                    colors,
                                    params,
                                    textures,
                                    attenuations,
                                },
                            ),
                        },
                    },
                },
            },
        },
    }
}

/// The material that a Material structure is. A material has one side
/// unless it says otherwise.
pub open spec fn material_of(s: StructureView) -> Result<MaterialView, ErrorView> {
    match flag_of(s, "two_sided"@, false) {
        Err(e) => Err(e),
        Ok(two_sided) => match name_of(s) {
            Err(e) => Err(e),
            Ok(name) => match colors_of(s) {
                Err(e) => Err(e),
                Ok(color) => match params_of(s) {
                    Err(e) => Err(e),
                    Ok(param) => match textures_of(s) {
                        Err(e) => Err(e),
                        Ok(texture) => Ok(MaterialView { two_sided, name, color, param, texture }),
                    },
                },
            },
        },
    }
}

fn read_attribute(s: &Structure) -> (r: Result<String, AssemblyError>)
    ensures
        match r {
            Ok(attrib) => attribute_of(s@) == Ok::<Seq<char>, ErrorView>(attrib@),
            Err(e) => attribute_of(s@) == Err::<Seq<char>, ErrorView>(e@),
        },
{
    match property_text(s, "attrib") {
        Err(e) => Err(e),
        Ok(None) => Err(malformed_structure(s)),
        Ok(Some(attrib)) => Ok(attrib.clone()),
    }
}

fn read_param(s: &Structure) -> (r: Result<(String, Scalar), AssemblyError>)
    ensures
        match r {
            Ok((attrib, value)) => param_of(s@) == Ok::<(Seq<char>, Scalar), ErrorView>(
                (attrib@, value),
            ),
            Err(e) => param_of(s@) == Err::<(Seq<char>, Scalar), ErrorView>(e@),
        },
{
    let attrib = match read_attribute(s) {
        Ok(attrib) => attrib,
        Err(e) => {
            return Err(e);
        },
    };
    let v = match values(s) {
        Ok(v) => v,
        Err(e) => {
            return Err(e);
        },
    };
    if v.len() == 1 {
        Ok((attrib, v[0]))
    } else {
        Err(AssemblyError::ArityMismatch { expected: 1, actual: v.len() })
    }
}

fn read_color(s: &Structure) -> (r: Result<(String, Color), AssemblyError>)
    ensures
        match r {
            Ok((attrib, value)) => color_of(s@) == Ok::<(Seq<char>, Color), ErrorView>(
                (attrib@, value),
            ),
            Err(e) => color_of(s@) == Err::<(Seq<char>, Color), ErrorView>(e@),
        },
{
    let attrib = match read_attribute(s) {
        Ok(attrib) => attrib,
        Err(e) => {
            return Err(e);
        },
    };
    let v = match values(s) {
        Ok(v) => v,
        Err(e) => {
            return Err(e);
        },
    };
    if v.len() == 3 {
        Ok((attrib, Color::Rgb(v[0], v[1], v[2])))
    } else if v.len() == 4 {
        Ok((attrib, Color::Rgba(v[0], v[1], v[2], v[3])))
    } else {
        Err(AssemblyError::ArityMismatch { expected: 3, actual: v.len() })
    }
}

fn read_texture(s: &Structure) -> (r: Result<(String, Texture), AssemblyError>)
    ensures
        match r {
            Ok((attrib, value)) => texture_of(s@) == Ok::<(Seq<char>, TextureView), ErrorView>(
                (attrib@, value@),
            ),
            Err(e) => texture_of(s@) == Err::<(Seq<char>, TextureView), ErrorView>(e@),
        },
{
    let attrib = match read_attribute(s) {
        Ok(attrib) => attrib,
        Err(e) => {
            return Err(e);
        },
    };
    let texcoord = match property_index(s, "texcoord", 0) {
        Ok(texcoord) => texcoord,
        Err(e) => {
            return Err(e);
        },
    };
    let file_name = match text(s) {
        Ok(file_name) => file_name.clone(),
        Err(e) => {
            return Err(e);
        },
    };
    let transformations = match read_transformations(s) {
        Ok(transformations) => transformations,
        Err(e) => {
            return Err(e);
        },
    };
    let targets = read_targets(s, false);
    let path: Vec<usize> = Vec::new();
    assert(path@ =~= Seq::empty());
    let animation = match read_animations(s, &targets, &path) {
        Ok(animation) => animation,
        Err(e) => {
            return Err(e);
        },
    };
    Ok((attrib, Texture { texcoord, file_name, transformations, animation }))
}

/// Reads the parameters of a structure.
pub fn read_params(s: &Structure) -> (r: Result<SharedTable<Scalar>, AssemblyError>)
    ensures
        match r {
            Ok(table) => params_of(s@) == Ok::<TableView<Scalar>, ErrorView>(table@),
            Err(e) => params_of(s@) == Err::<TableView<Scalar>, ErrorView>(e@),
        },
{
    proof {
        lemma_children_view(*s);
    }
    let mut table: SharedTable<Scalar> = SharedTable::new();
    let mut i: usize = 0;
    while i < s.children.len()
        invariant
            i <= s.children.len(),
            s@.children == forest_view(s.children@),
            tabulate(s@.children, i as int, tagged("Param"@), param_reader()) == Ok::<
                TableView<Scalar>,
                ErrorView,
            >(table@),
        decreases s.children.len() - i,
    {
        let c = &s.children[i];
        assert(s@.children[i as int] == c@);
        if text_eq(c.tag.as_str(), "Param") {
            let entered = match read_param(c) {
                Err(e) => Err(e),
                Ok((attrib, value)) => table.insert(Some(attrib), value),
            };
            if let Err(e) = entered {
                proof {
                    lemma_tabulate_fails(
                        s@.children,
                        i + 1,
                        s@.children.len() as int,
                        tagged("Param"@),
                        param_reader(),
                    );
                }
                return Err(e);
            }
        }
        i += 1;
    }
    Ok(table)
}

/// Reads the colors of a structure.
pub fn read_colors(s: &Structure) -> (r: Result<SharedTable<Color>, AssemblyError>)
    ensures
        match r {
            Ok(table) => colors_of(s@) == Ok::<TableView<Color>, ErrorView>(table@),
            Err(e) => colors_of(s@) == Err::<TableView<Color>, ErrorView>(e@),
        },
{
    proof {
        lemma_children_view(*s);
    }
    let mut table: SharedTable<Color> = SharedTable::new();
    let mut i: usize = 0;
    while i < s.children.len()
        invariant
            i <= s.children.len(),
            s@.children == forest_view(s.children@),
            tabulate(s@.children, i as int, tagged("Color"@), color_reader()) == Ok::<
                TableView<Color>,
                ErrorView,
            >(table@),
        decreases s.children.len() - i,
    {
        let c = &s.children[i];
        assert(s@.children[i as int] == c@);
        if text_eq(c.tag.as_str(), "Color") {
            let entered = match read_color(c) {
                Err(e) => Err(e),
                Ok((attrib, value)) => table.insert(Some(attrib), value),
            };
            if let Err(e) = entered {
                proof {
                    lemma_tabulate_fails(
                        s@.children,
                        i + 1,
                        s@.children.len() as int,
                        tagged("Color"@),
                        color_reader(),
                    );
                }
                return Err(e);
            }
        }
        i += 1;
    }
    Ok(table)
}

/// Reads the textures of a structure.
pub fn read_textures(s: &Structure) -> (r: Result<SharedTable<Texture>, AssemblyError>)
    ensures
        match r {
            Ok(table) => textures_of(s@) == Ok::<TableView<TextureView>, ErrorView>(table@),
            Err(e) => textures_of(s@) == Err::<TableView<TextureView>, ErrorView>(e@),
        },
{
    proof {
        lemma_children_view(*s);
    }
    let mut table: SharedTable<Texture> = SharedTable::new();
    let mut i: usize = 0;
    while i < s.children.len()
        invariant
            i <= s.children.len(),
            s@.children == forest_view(s.children@),
            tabulate(s@.children, i as int, tagged("Texture"@), texture_reader()) == Ok::<
                TableView<TextureView>,
                ErrorView,
            >(table@),
        decreases s.children.len() - i,
    {
        let c = &s.children[i];
        assert(s@.children[i as int] == c@);
        if text_eq(c.tag.as_str(), "Texture") {
            let entered = match read_texture(c) {
                Err(e) => Err(e),
                Ok((attrib, value)) => table.insert(Some(attrib), value),
            };
            if let Err(e) = entered {
                proof {
                    lemma_tabulate_fails(
                        s@.children,
                        i + 1,
                        s@.children.len() as int,
                        tagged("Texture"@),
                        texture_reader(),
                    );
                }
                return Err(e);
            }
        }
        i += 1;
    }
    Ok(table)
}

/// Reads the name that a structure shows.
pub fn read_name(s: &Structure) -> (r: Result<Option<String>, AssemblyError>)
    ensures
        match r {
            Ok(name) => name_of(s@) == Ok::<Option<Seq<char>>, ErrorView>(name_text(name)),
            Err(e) => name_of(s@) == Err::<Option<Seq<char>>, ErrorView>(e@),
        },
{
    match child(s, "Name") {
        None => Ok(None),
        Some(c) => match text(c) {
            Err(e) => Err(e),
            Ok(name) => Ok(Some(name.clone())),
        },
    }
}

/// Reads a truth value that has a default.
pub fn read_flag(s: &Structure, key: &str, absent: bool) -> (r: Result<bool, AssemblyError>)
    ensures
        match r {
            Ok(b) => flag_of(s@, key@, absent) == Ok::<bool, ErrorView>(b),
            Err(e) => flag_of(s@, key@, absent) == Err::<bool, ErrorView>(e@),
        },
{
    match property_bool(s, key) {
        Err(e) => Err(e),
        Ok(Some(b)) => Ok(b),
        Ok(None) => Ok(absent),
    }
}

fn read_primitive(s: &Structure) -> (r: Result<GeometricPrimitive, AssemblyError>)
    ensures
        match r {
            Ok(p) => primitive_of(s@) == Ok::<GeometricPrimitive, ErrorView>(p),
            Err(e) => primitive_of(s@) == Err::<GeometricPrimitive, ErrorView>(e@),
        },
{
    match property_text(s, "primitive") {
        Err(e) => Err(e),
        Ok(None) => Ok(GeometricPrimitive::Triangles),
        Ok(Some(p)) => if text_eq(p.as_str(), "points") {
            Ok(GeometricPrimitive::Points)
        } else if text_eq(p.as_str(), "lines") {
            Ok(GeometricPrimitive::Lines)
        } else if text_eq(p.as_str(), "line_strip") {
            Ok(GeometricPrimitive::LineStrip)
        } else if text_eq(p.as_str(), "triangles") {
            Ok(GeometricPrimitive::Triangles)
        } else if text_eq(p.as_str(), "triangle_strip") {
            Ok(GeometricPrimitive::TriangleStrip)
        } else if text_eq(p.as_str(), "quads") {
            Ok(GeometricPrimitive::Quads)
        } else {
            Err(malformed_structure(s))
        },
    }
}

fn read_slots(s: &Structure) -> (r: Result<Vec<u32>, AssemblyError>)
    ensures
        match r {
            Ok(list) => collect(
                s@.children,
                s@.children.len() as int,
                tagged("IndexArray"@),
                slot_reader(),
            ) == Ok::<Seq<u32>, ErrorView>(list@),
            Err(e) => collect(
                s@.children,
                s@.children.len() as int,
                tagged("IndexArray"@),
                slot_reader(),
            ) == Err::<Seq<u32>, ErrorView>(e@),
        },
{
    proof {
        lemma_children_view(*s);
    }
    let mut list: Vec<u32> = Vec::new();
    let mut i: usize = 0;
    while i < s.children.len()
        invariant
            i <= s.children.len(),
            s@.children == forest_view(s.children@),
            collect(s@.children, i as int, tagged("IndexArray"@), slot_reader()) == Ok::<
                Seq<u32>,
                ErrorView,
            >(list@),
        decreases s.children.len() - i,
    {
        let c = &s.children[i];
        assert(s@.children[i as int] == c@);
        if text_eq(c.tag.as_str(), "IndexArray") {
            match property_index(c, "material", 0) {
                Err(e) => {
                    proof {
                        lemma_collect_fails(
                            s@.children,
                            i + 1,
                            s@.children.len() as int,
                            tagged("IndexArray"@),
                            slot_reader(),
                        );
                    }
                    return Err(e);
                },
                Ok(index) => {
                    list.push(index);
                },
            }
        }
        i += 1;
    }
    Ok(list)
}

fn read_mesh(s: &Structure) -> (r: Result<Mesh, AssemblyError>)
    ensures
        crate::error::result_view(r) == mesh_of(s@),
{
    let lod = match property_index(s, "lod", 0) {
        Ok(lod) => lod,
        Err(e) => {
            return Err(e);
        },
    };
    let primitive = match read_primitive(s) {
        Ok(primitive) => primitive,
        Err(e) => {
            return Err(e);
        },
    };
    let materials = match read_slots(s) {
        Ok(materials) => materials,
        Err(e) => {
            return Err(e);
        },
    };
    Ok(Mesh { lod, primitive, materials })
}

fn read_base(s: &Structure) -> (r: Result<Option<u32>, AssemblyError>)
    ensures
        match r {
            Ok(base) => base_of(s@) == Ok::<Option<u32>, ErrorView>(base),
            Err(e) => base_of(s@) == Err::<Option<u32>, ErrorView>(e@),
        },
{
    if property(s, "base").is_none() {
        return Ok(None);
    }
    match property_index(s, "base", 0) {
        Err(e) => Err(e),
        Ok(base) => Ok(Some(base)),
    }
}

fn read_morph(s: &Structure) -> (r: Result<Morph, AssemblyError>)
    ensures
        crate::error::result_view(r) == morph_of(s@),
{
    let index = match property_index(s, "index", 0) {
        Ok(index) => index,
        Err(e) => {
            return Err(e);
        },
    };
    let base_target_index = match read_base(s) {
        Ok(base) => base,
        Err(e) => {
            return Err(e);
        },
    };
    let name = match read_name(s) {
        Ok(name) => name,
        Err(e) => {
            return Err(e);
        },
    };
    Ok(Morph { index, base_target_index, name })
}

/// Reads the meshes of a geometry.
fn read_meshes(s: &Structure) -> (r: Result<Vec<Mesh>, AssemblyError>)
    ensures
        match r {
            Ok(list) => collect(s@.children, s@.children.len() as int, tagged("Mesh"@), mesh_reader())
                == Ok::<Seq<MeshView>, ErrorView>(list@.map_values(|x: Mesh| x@)),
            Err(e) => collect(s@.children, s@.children.len() as int, tagged("Mesh"@), mesh_reader())
                == Err::<Seq<MeshView>, ErrorView>(e@),
        },
{
    proof {
        lemma_children_view(*s);
    }
    let mut list: Vec<Mesh> = Vec::new();
    let mut i: usize = 0;
    assert(list@.map_values(|x: Mesh| x@) =~= Seq::empty());
    while i < s.children.len()
        invariant
            i <= s.children.len(),
            s@.children == forest_view(s.children@),
            collect(s@.children, i as int, tagged("Mesh"@), mesh_reader()) == Ok::<
                Seq<MeshView>,
                ErrorView,
            >(list@.map_values(|x: Mesh| x@)),
        decreases s.children.len() - i,
    {
        let c = &s.children[i];
        assert(s@.children[i as int] == c@);
        if text_eq(c.tag.as_str(), "Mesh") {
            match read_mesh(c) {
                Err(e) => {
                    proof {
                        lemma_collect_fails(
                            s@.children,
                            i + 1,
                            s@.children.len() as int,
                            tagged("Mesh"@),
                            mesh_reader(),
                        );
                    }
                    return Err(e);
                },
                Ok(x) => {
                    proof {
                        let f = |x: Mesh| x@;
                        assert(list@.push(x).map_values(f) =~= list@.map_values(f).push(x@));
                    }
                    list.push(x);
                },
            }
        }
        i += 1;
    }
    Ok(list)
}

/// Reads the morph targets of a geometry.
fn read_morphs(s: &Structure) -> (r: Result<Vec<Morph>, AssemblyError>)
    ensures
        match r {
            Ok(list) => collect(s@.children, s@.children.len() as int, tagged("Morph"@), morph_reader())
                == Ok::<Seq<MorphView>, ErrorView>(list@.map_values(|x: Morph| x@)),
            Err(e) => collect(s@.children, s@.children.len() as int, tagged("Morph"@), morph_reader())
                == Err::<Seq<MorphView>, ErrorView>(e@),
        },
{
    proof {
        lemma_children_view(*s);
    }
    let mut list: Vec<Morph> = Vec::new();
    let mut i: usize = 0;
    assert(list@.map_values(|x: Morph| x@) =~= Seq::empty());
    while i < s.children.len()
        invariant
            i <= s.children.len(),
            s@.children == forest_view(s.children@),
            collect(s@.children, i as int, tagged("Morph"@), morph_reader()) == Ok::<
                Seq<MorphView>,
                ErrorView,
            >(list@.map_values(|x: Morph| x@)),
        decreases s.children.len() - i,
    {
        let c = &s.children[i];
        assert(s@.children[i as int] == c@);
        if text_eq(c.tag.as_str(), "Morph") {
            match read_morph(c) {
                Err(e) => {
                    proof {
                        lemma_collect_fails(
                            s@.children,
                            i + 1,
                            s@.children.len() as int,
                            tagged("Morph"@),
                            morph_reader(),
                        );
                    }
                    return Err(e);
                },
                Ok(x) => {
                    proof {
                        let f = |x: Morph| x@;
                        assert(list@.push(x).map_values(f) =~= list@.map_values(f).push(x@));
                    }
                    list.push(x);
                },
            }
        }
        i += 1;
    }
    Ok(list)
}

fn index_positions(s: &Structure, keys: &Vec<u32>) -> (r: Result<SparseIndexMap, AssemblyError>)
    ensures
        match r {
            Ok(positions) => positions_of(s@, keys@) == Ok::<Map<usize, usize>, ErrorView>(
                positions@,
            ),
            Err(e) => positions_of(s@, keys@) == Err::<Map<usize, usize>, ErrorView>(e@),
        },
{
    let mut positions = SparseIndexMap::new();
    let mut i: usize = 0;
    while i < keys.len()
        invariant
            i <= keys.len(),
            positions_among(keys@, i as int) == Some(positions@),
        decreases keys.len() - i,
    {
        if positions.insert(keys[i] as usize, i).is_err() {
            proof {
                lemma_positions_fail(keys@, i + 1, keys@.len() as int);
            }
            return Err(malformed_structure(s));
        }
        i += 1;
    }
    Ok(positions)
}

/// The positions of some keys are those of all of them, where there are
/// none.
pub proof fn lemma_positions_fail(keys: Seq<u32>, n: int, m: int)
    requires
        0 <= n <= m <= keys.len(),
        positions_among(keys, n) is None,
    ensures
        positions_among(keys, m) is None,
    decreases m - n,
{
    if n < m {
        lemma_positions_fail(keys, n, m - 1);
    }
}

fn mesh_levels(meshes: &Vec<Mesh>) -> (levels: Vec<u32>)
    ensures
        levels@ == levels_of(meshes@.map_values(|m: Mesh| m@)),
{
    let mut levels: Vec<u32> = Vec::new();
    let mut i: usize = 0;
    while i < meshes.len()
        invariant
            i <= meshes.len(),
            levels@.len() == i,
            forall|j: int| 0 <= j < i ==> levels@[j] == meshes@[j].lod,
        decreases meshes.len() - i,
    {
        levels.push(meshes[i].lod);
        i += 1;
    }
    assert(levels@ =~= levels_of(meshes@.map_values(|m: Mesh| m@)));
    levels
}

fn morph_targets(morphs: &Vec<Morph>) -> (targets: Vec<u32>)
    ensures
        targets@ == targets_of_morphs(morphs@.map_values(|m: Morph| m@)),
{
    let mut targets: Vec<u32> = Vec::new();
    let mut i: usize = 0;
    while i < morphs.len()
        invariant
            i <= morphs.len(),
            targets@.len() == i,
            forall|j: int| 0 <= j < i ==> targets@[j] == morphs@[j].index,
        decreases morphs.len() - i,
    {
        targets.push(morphs[i].index);
        i += 1;
    }
    assert(targets@ =~= targets_of_morphs(morphs@.map_values(|m: Morph| m@)));
    targets
}

/// Reads a geometry object.
pub fn read_geometry_object(s: &Structure) -> (r: Result<GeometryObject, AssemblyError>)
    ensures
        crate::error::result_view(r) == geometry_object_of(s@),
{
    let visible = match read_flag(s, "visible", true) {
        Ok(b) => b,
        Err(e) => {
            return Err(e);
        },
    };
    let casts_shadows = match read_flag(s, "shadow", true) {
        Ok(b) => b,
        Err(e) => {
            return Err(e);
        },
    };
    let motion_blur = match read_flag(s, "motion_blur", true) {
        Ok(b) => b,
        Err(e) => {
            return Err(e);
        },
    };
    let meshes = match read_meshes(s) {
        Ok(meshes) => meshes,
        Err(e) => {
            return Err(e);
        },
    };
    let levels = match index_positions(s, &mesh_levels(&meshes)) {
        Ok(levels) => levels,
        Err(e) => {
            return Err(e);
        },
    };
    let morphs = match read_morphs(s) {
        Ok(morphs) => morphs,
        Err(e) => {
            return Err(e);
        },
    };
    let targets = match index_positions(s, &morph_targets(&morphs)) {
        Ok(targets) => targets,
        Err(e) => {
            return Err(e);
        },
    };
    Ok(GeometryObject { visible, casts_shadows, motion_blur, meshes, levels, morphs, targets })
}

/// Reads a camera object.
pub fn read_camera_object(s: &Structure) -> (r: Result<CameraObject, AssemblyError>)
    ensures
        crate::error::result_view(r) == camera_object_of(s@),
{
    let params = match read_params(s) {
        Ok(params) => params,
        Err(e) => {
            return Err(e);
        },
    };
    let colors = match read_colors(s) {
        Ok(colors) => colors,
        Err(e) => {
            return Err(e);
        },
    };
    let textures = match read_textures(s) {
        Ok(textures) => textures,
        Err(e) => {
            return Err(e);
        },
    };
    Ok(CameraObject { params, colors, textures })
}

fn read_light_type(s: &Structure) -> (r: Result<LightType, AssemblyError>)
    ensures
        match r {
            Ok(t) => light_type_of(s@) == Ok::<LightType, ErrorView>(t),
            Err(e) => light_type_of(s@) == Err::<LightType, ErrorView>(e@),
        },
{
    match property_text(s, "type") {
        Err(e) => Err(e),
        Ok(None) => Err(malformed_structure(s)),
        Ok(Some(t)) => if text_eq(t.as_str(), "infinite") {
            Ok(LightType::Infinite)
        } else if text_eq(t.as_str(), "point") {
            Ok(LightType::Point)
        } else if text_eq(t.as_str(), "spot") {
            Ok(LightType::Spot)
        } else {
            Err(malformed_structure(s))
        },
    }
}

fn read_attenuation_kind(s: &Structure) -> (r: Result<AttenuationKind, AssemblyError>)
    ensures
        match r {
            Ok(k) => attenuation_kind_of(s@) == Ok::<AttenuationKind, ErrorView>(k),
            Err(e) => attenuation_kind_of(s@) == Err::<AttenuationKind, ErrorView>(e@),
        },
{
    match property_text(s, "kind") {
        Err(e) => Err(e),
        Ok(None) => Ok(AttenuationKind::Distance),
        Ok(Some(k)) => if text_eq(k.as_str(), "distance") {
            Ok(AttenuationKind::Distance)
        } else if text_eq(k.as_str(), "angle") {
            Ok(AttenuationKind::Angle)
        } else if text_eq(k.as_str(), "cos_angle") {
            Ok(AttenuationKind::CosAngle)
        } else {
            Err(malformed_structure(s))
        },
    }
}

fn read_attenuation_curve(s: &Structure) -> (r: Result<AttenuationCurve, AssemblyError>)
    ensures
        match r {
            Ok(c) => attenuation_curve_of(s@) == Ok::<AttenuationCurve, ErrorView>(c),
            Err(e) => attenuation_curve_of(s@) == Err::<AttenuationCurve, ErrorView>(e@),
        },
{
    match property_text(s, "curve") {
        Err(e) => Err(e),
        Ok(None) => Ok(AttenuationCurve::Linear),
        Ok(Some(c)) => if text_eq(c.as_str(), "linear") {
            Ok(AttenuationCurve::Linear)
        } else if text_eq(c.as_str(), "smooth") {
            Ok(AttenuationCurve::Cubic)
        } else if text_eq(c.as_str(), "inverse") {
            Ok(AttenuationCurve::Inverse)
        } else if text_eq(c.as_str(), "inverse_square") {
            Ok(AttenuationCurve::InverseSquare)
        } else {
            Err(malformed_structure(s))
        },
    }
}

fn read_atten(s: &Structure) -> (r: Result<Atten, AssemblyError>)
    ensures
        crate::error::result_view(r) == atten_of(s@),
{
    let kind = match read_attenuation_kind(s) {
        Ok(kind) => kind,
        Err(e) => {
            return Err(e);
        },
    };
    let curve = match read_attenuation_curve(s) {
        Ok(curve) => curve,
        Err(e) => {
            return Err(e);
        },
    };
    let params = match read_params(s) {
        Ok(params) => params,
        Err(e) => {
            return Err(e);
        },
    };
    Ok(Atten { kind, curve, params })
}

/// Reads the attenuation functions of a light.
fn read_attens(s: &Structure) -> (r: Result<Vec<Atten>, AssemblyError>)
    ensures
        match r {
            Ok(list) => collect(s@.children, s@.children.len() as int, tagged("Atten"@), atten_reader())
                == Ok::<Seq<AttenView>, ErrorView>(list@.map_values(|x: Atten| x@)),
            Err(e) => collect(s@.children, s@.children.len() as int, tagged("Atten"@), atten_reader())
                == Err::<Seq<AttenView>, ErrorView>(e@),
        },
{
    proof {
        lemma_children_view(*s);
    }
    let mut list: Vec<Atten> = Vec::new();
    let mut i: usize = 0;
    assert(list@.map_values(|x: Atten| x@) =~= Seq::empty());
    while i < s.children.len()
        invariant
            i <= s.children.len(),
            s@.children == forest_view(s.children@),
            collect(s@.children, i as int, tagged("Atten"@), atten_reader()) == Ok::<
                Seq<AttenView>,
                ErrorView,
            >(list@.map_values(|x: Atten| x@)),
        decreases s.children.len() - i,
    {
        let c = &s.children[i];
        assert(s@.children[i as int] == c@);
        if text_eq(c.tag.as_str(), "Atten") {
            match read_atten(c) {
                Err(e) => {
                    proof {
                        lemma_collect_fails(
                            s@.children,
                            i + 1,
                            s@.children.len() as int,
                            tagged("Atten"@),
                            atten_reader(),
                        );
                    }
                    return Err(e);
                },
                Ok(x) => {
                    proof {
                        let f = |x: Atten| x@;
                        assert(list@.push(x).map_values(f) =~= list@.map_values(f).push(x@));
                    }
                    list.push(x);
                },
            }
        }
        i += 1;
    }
    Ok(list)
}

/// Reads a light object.
pub fn read_light_object(s: &Structure) -> (r: Result<LightObject, AssemblyError>)
    ensures
        crate::error::result_view(r) == light_object_of(s@),
{
    let light_type = match read_light_type(s) {
        Ok(t) => t,
        Err(e) => {
            return Err(e);
        },
    };
    let casts_shadows = match read_flag(s, "shadow", true) {
        Ok(b) => b,
        Err(e) => {
            return Err(e);
        },
    };
    let colors = match read_colors(s) {
        Ok(colors) => colors,
        Err(e) => {
            return Err(e);
        },
    };
    let params = match read_params(s) {
        Ok(params) => params,
        Err(e) => {
            return Err(e);
        },
    };
    let textures = match read_textures(s) {
        Ok(textures) => textures,
        Err(e) => {
            return Err(e);
        },
    };
    let attenuations = match read_attens(s) {
        Ok(attenuations) => attenuations,
        Err(e) => {
            return Err(e);
        },
    };
    Ok(LightObject { light_type, casts_shadows, colors, params, textures, attenuations })
}

/// Reads a material.
pub fn read_material(s: &Structure) -> (r: Result<Material, AssemblyError>)
    ensures
        crate::error::result_view(r) == material_of(s@),
{
    let two_sided = match read_flag(s, "two_sided", false) {
        Ok(b) => b,
        Err(e) => {
            return Err(e);
        },
    };
    let name = match read_name(s) {
        Ok(name) => name,
        Err(e) => {
            return Err(e);
        },
    };
    let color = match read_colors(s) {
        Ok(color) => color,
        Err(e) => {
            return Err(e);
        },
    };
    let param = match read_params(s) {
        Ok(param) => param,
        Err(e) => {
            return Err(e);
        },
    };
    let texture = match read_textures(s) {
        Ok(texture) => texture,
        Err(e) => {
            return Err(e);
        },
    };
    Ok(Material { two_sided, name, color, param, texture })
}

/// The four tables of the shared objects of a document.
#[derive(PartialEq, Eq, Debug)]
pub struct SharedObjects {
    pub geometries: SharedTable<GeometryObject>,
    pub cameras: SharedTable<CameraObject>,
    pub lights: SharedTable<LightObject>,
    pub materials: SharedTable<Material>,
}

/// The mathematical value of [`SharedObjects`].
pub struct SharedObjectsView {
    pub geometries: TableView<GeometryObjectView>,
    pub cameras: TableView<CameraObjectView>,
    pub lights: TableView<LightObjectView>,
    pub materials: TableView<MaterialView>,
}

impl SharedObjectsView {
    /// The tables without objects.
    pub open spec fn empty() -> SharedObjectsView {
        SharedObjectsView {
            geometries: TableView::empty(),
            cameras: TableView::empty(),
            lights: TableView::empty(),
            materials: TableView::empty(),
        }
    }

    /// The invariant of the tables.
    pub open spec fn wf(self) -> bool {
        &&& self.geometries.wf()
        &&& self.cameras.wf()
        &&& self.lights.wf()
        &&& self.materials.wf()
    }

    /// Whether an object of any type is declared under this name.
    pub open spec fn declares(self, name: Seq<char>) -> bool {
        ||| self.geometries.key_of(name) is Some
        ||| self.cameras.key_of(name) is Some
        ||| self.lights.key_of(name) is Some
        ||| self.materials.key_of(name) is Some
    }

    /// What the tables answer to the declaration of an object: nothing, or
    /// that its name is taken, by an object of whatever type.
    pub open spec fn free(self, name: Option<Seq<char>>) -> Result<(), ErrorView> {
        if name is Some && self.declares(name->Some_0) {
            Err(ErrorView::DuplicateObjectName { name: name->Some_0 })
        } else {
            Ok(())
        }
    }

    /// The number of objects in the tables.
    pub open spec fn len(self) -> nat {
        self.geometries.names.len() + self.cameras.names.len() + self.lights.names.len()
            + self.materials.names.len()
    }
}

impl View for SharedObjects {
    type V = SharedObjectsView;

    open spec fn view(&self) -> SharedObjectsView {
        SharedObjectsView {
            geometries: self.geometries@,
            cameras: self.cameras@,
            lights: self.lights@,
            materials: self.materials@,
        }
    }
}

impl SharedObjects {
    /// The invariant of the tables.
    pub open spec fn wf(&self) -> bool {
        self@.wf()
    }

    /// Whether an object of any type is declared under this name.
    pub fn declares(&self, name: &str) -> (taken: bool)
        ensures
            taken == self@.declares(name@),
    {
        self.geometries.resolve(name).is_ok() || self.cameras.resolve(name).is_ok()
            || self.lights.resolve(name).is_ok() || self.materials.resolve(name).is_ok()
    }

    /// Tables without objects.
    pub fn new() -> (objects: SharedObjects)
        ensures
            objects.wf(),
            objects@ == SharedObjectsView::empty(),
    {
        SharedObjects {
            geometries: SharedTable::new(),
            cameras: SharedTable::new(),
            lights: SharedTable::new(),
            materials: SharedTable::new(),
        }
    }
}

} // verus!
