//! The structures of an OpenGEX document, as the assembled scene holds them.
//!
//! Numbers are held as [`Scalar`] values. Where a structure refers to a shared
//! object, to a transformation or to a morph weight, it holds a key: the
//! position of the target in the table or list that owns it.

use vstd::prelude::*;
use crate::scalar::Scalar;
use crate::sparse::SparseIndexMap;
use crate::table::{name_text, SharedTable, TableView};

verus! {

/// The Name structure holds the name of a node, morph target, material, or
/// animation clip.
pub type Name = String;

/// The value of a Param structure.
pub type Param = Scalar;

/// The Translation structure holds a translation in one of several variants,
/// one for each kind.
#[derive(Clone, Copy, PartialEq, Eq, Structural, Debug)]
pub enum Translation {
    /// The translation occurs along only the X axis.
    X(Scalar),
    /// The translation occurs along only the Y axis.
    Y(Scalar),
    /// The translation occurs along only the Z axis.
    Z(Scalar),
    /// The translation occurs along all three coordinate axes.
    Xyz(Scalar, Scalar, Scalar),
}

/// The Rotation structure holds a rotation in one of several variants, one
/// for each kind.
#[derive(Clone, Copy, PartialEq, Eq, Structural, Debug)]
pub enum Rotation {
    /// The rotation occurs about the X axis.
    X(Scalar),
    /// The rotation occurs about the Y axis.
    Y(Scalar),
    /// The rotation occurs about the Z axis.
    Z(Scalar),
    /// The rotation occurs about an arbitrary axis: the angle, then the X, Y
    /// and Z components of the axis.
    Axis(Scalar, Scalar, Scalar, Scalar),
    /// The rotation is given by a quaternion.
    Quaternion(Scalar, Scalar, Scalar, Scalar),
}

/// The Scale structure holds a scale in one of several variants, one for each
/// kind.
#[derive(Clone, Copy, PartialEq, Eq, Structural, Debug)]
pub enum Scale {
    /// The scaling occurs along only the X axis.
    X(Scalar),
    /// The scaling occurs along only the Y axis.
    Y(Scalar),
    /// The scaling occurs along only the Z axis.
    Z(Scalar),
    /// The scaling occurs along all three coordinate axes.
    Xyz(Scalar, Scalar, Scalar),
}

/// The Transform structure holds one 4 x 4 transformation matrix: its sixteen
/// entries in the order of the document.
#[derive(Clone, Copy, PartialEq, Eq, Debug)]
pub struct Transform(pub [Scalar; 16]);

/// Any of the four transformation structures.
#[derive(Clone, Copy, PartialEq, Eq, Debug)]
pub enum Transformation {
    Transform(Transform),
    Translation(Translation),
    Rotation(Rotation),
    Scale(Scale),
}

/// The mathematical value of a [`Transformation`].
pub enum TransformationView {
    Transform(Seq<Scalar>),
    Translation(Translation),
    Rotation(Rotation),
    Scale(Scale),
}

impl View for Transformation {
    type V = TransformationView;

    open spec fn view(&self) -> TransformationView {
        match *self {
            Transformation::Transform(t) => TransformationView::Transform(t.0@),
            Transformation::Translation(t) => TransformationView::Translation(t),
            Transformation::Rotation(r) => TransformationView::Rotation(r),
            Transformation::Scale(s) => TransformationView::Scale(s),
        }
    }
}

/// The Time structure holds the key times of an animation track, one entry
/// for each key.
#[derive(Clone, PartialEq, Eq, Debug)]
pub enum Time {
    /// The times are interpolated linearly.
    Linear(Vec<Scalar>),
    /// The times are interpolated on a Bezier curve. Each key holds its
    /// value, its incoming control point and its outgoing control point.
    Bezier(Vec<(Scalar, Scalar, Scalar)>),
}

/// The mathematical value of a [`Time`].
pub enum TimeView {
    Linear(Seq<Scalar>),
    Bezier(Seq<(Scalar, Scalar, Scalar)>),
}

impl View for Time {
    type V = TimeView;

    open spec fn view(&self) -> TimeView {
        match *self {
            Time::Linear(keys) => TimeView::Linear(keys@),
            Time::Bezier(keys) => TimeView::Bezier(keys@),
        }
    }
}

/// The Value structure holds the key values of an animation track, one entry
/// for each key.
#[derive(Clone, PartialEq, Eq, Debug)]
pub enum Value {
    /// The values are not interpolated: each holds until the next key time.
    Constant(Vec<Scalar>),
    /// The values are interpolated linearly.
    Linear(Vec<Scalar>),
    /// The values are interpolated on a Bezier curve. Each key holds its
    /// value, its incoming control point and its outgoing control point.
    Bezier(Vec<(Scalar, Scalar, Scalar)>),
    /// The values are interpolated on a tension-continuity-bias spline. Each
    /// key holds its value, tension, continuity and bias.
    Tcb(Vec<(Scalar, Scalar, Scalar, Scalar)>),
}

/// The mathematical value of a [`Value`].
pub enum ValueView {
    Constant(Seq<Scalar>),
    Linear(Seq<Scalar>),
    Bezier(Seq<(Scalar, Scalar, Scalar)>),
    Tcb(Seq<(Scalar, Scalar, Scalar, Scalar)>),
}

impl View for Value {
    type V = ValueView;

    open spec fn view(&self) -> ValueView {
        match *self {
            Value::Constant(keys) => ValueView::Constant(keys@),
            Value::Linear(keys) => ValueView::Linear(keys@),
            Value::Bezier(keys) => ValueView::Bezier(keys@),
            Value::Tcb(keys) => ValueView::Tcb(keys@),
        }
    }
}

impl TimeView {
    /// The number of keys of the curve.
    pub open spec fn key_count(self) -> nat {
        match self {
            TimeView::Linear(keys) => keys.len(),
            TimeView::Bezier(keys) => keys.len(),
        }
    }
}

impl ValueView {
    /// The number of keys of the curve.
    pub open spec fn key_count(self) -> nat {
        match self {
            ValueView::Constant(keys) => keys.len(),
            ValueView::Linear(keys) => keys.len(),
            ValueView::Bezier(keys) => keys.len(),
            ValueView::Tcb(keys) => keys.len(),
        }
    }
}

impl Time {
    /// The number of keys of the curve.
    pub fn key_count(&self) -> (n: usize)
        ensures
            n == self@.key_count(),
    {
        match self {
            Time::Linear(keys) => keys.len(),
            Time::Bezier(keys) => keys.len(),
        }
    }
}

impl Value {
    /// The number of keys of the curve.
    pub fn key_count(&self) -> (n: usize)
        ensures
            n == self@.key_count(),
    {
        match self {
            Value::Constant(keys) => keys.len(),
            Value::Linear(keys) => keys.len(),
            Value::Bezier(keys) => keys.len(),
            Value::Tcb(keys) => keys.len(),
        }
    }
}

/// A Color structure holds an RGB or an RGBA color.
#[derive(Clone, Copy, PartialEq, Eq, Structural, Debug)]
pub enum Color {
    Rgb(Scalar, Scalar, Scalar),
    Rgba(Scalar, Scalar, Scalar, Scalar),
}

impl View for Color {
    type V = Color;

    open spec fn view(&self) -> Color {
        *self
    }
}

/// The parameters of a structure, each under the name of its attribute.
pub type ParamMap = SharedTable<Param>;

/// The colors of a structure, each under the name of its attribute.
pub type ColorMap = SharedTable<Color>;

/// A MorphWeight structure holds the weight of one morph target of the
/// geometry of its node. Within one node no two morph weights have the same
/// target index.
#[derive(Clone, Copy, PartialEq, Eq, Structural, Debug)]
pub struct MorphWeight {
    pub target_index: u32,
    pub weight: Scalar,
}

/// What a track animates: a transformation or a morph weight of its node,
/// by its position in the list of the node.
#[derive(Clone, Copy, PartialEq, Eq, Structural, Debug)]
pub enum TrackTarget {
    Transformation(usize),
    MorphWeight(usize),
}

/// The Track structure holds the keys of the animation of one target. Its
/// two curves have the same number of keys.
#[derive(Clone, PartialEq, Eq, Debug)]
pub struct Track {
    pub target: TrackTarget,
    pub time: Time,
    pub value: Value,
}

/// The mathematical value of a [`Track`].
pub struct TrackView {
    pub target: TrackTarget,
    pub time: TimeView,
    pub value: ValueView,
}

impl View for Track {
    type V = TrackView;

    open spec fn view(&self) -> TrackView {
        TrackView { target: self.target, time: self.time@, value: self.value@ }
    }
}

impl TrackView {
    /// Whether each time key has its value key.
    pub open spec fn balanced(self) -> bool {
        self.time.key_count() == self.value.key_count()
    }
}

/// The Animation structure holds the animation of one node for one clip.
/// Where `begin` or `end` is absent, the animation begins with the earliest
/// and ends with the latest key of its tracks.
#[derive(Clone, PartialEq, Eq, Debug)]
pub struct Animation {
    pub clip: u32,
    pub begin: Option<Scalar>,
    pub end: Option<Scalar>,
    pub tracks: Vec<Track>,
}

/// The mathematical value of an [`Animation`].
pub struct AnimationView {
    pub clip: u32,
    pub begin: Option<Scalar>,
    pub end: Option<Scalar>,
    pub tracks: Seq<TrackView>,
}

impl View for Animation {
    type V = AnimationView;

    open spec fn view(&self) -> AnimationView {
        AnimationView {
            clip: self.clip,
            begin: self.begin,
            end: self.end,
            tracks: self.tracks@.map_values(|t: Track| t@),
        }
    }
}

/// The geometric primitives of a mesh.
#[derive(Clone, Copy, PartialEq, Eq, Structural, Debug)]
pub enum GeometricPrimitive {
    Points,
    Lines,
    LineStrip,
    Triangles,
    TriangleStrip,
    Quads,
}

impl Default for GeometricPrimitive {
    fn default() -> (primitive: GeometricPrimitive)
        ensures
            primitive == GeometricPrimitive::Triangles,
    {
        GeometricPrimitive::Triangles
    }
}

/// A Mesh structure holds one mesh of a geometry, for one level of detail.
/// `materials` holds the material slot of each of its index arrays.
#[derive(Clone, PartialEq, Eq, Debug)]
pub struct Mesh {
    pub lod: u32,
    pub primitive: GeometricPrimitive,
    pub materials: Vec<u32>,
}

/// The mathematical value of a [`Mesh`].
pub struct MeshView {
    pub lod: u32,
    pub primitive: GeometricPrimitive,
    pub materials: Seq<u32>,
}

impl View for Mesh {
    type V = MeshView;

    open spec fn view(&self) -> MeshView {
        MeshView { lod: self.lod, primitive: self.primitive, materials: self.materials@ }
    }
}

/// The Morph structure holds what is known of one morph target of a
/// geometry.
#[derive(Clone, PartialEq, Eq, Debug)]
pub struct Morph {
    pub index: u32,
    pub base_target_index: Option<u32>,
    pub name: Option<Name>,
}

/// The mathematical value of a [`Morph`].
pub struct MorphView {
    pub index: u32,
    pub base_target_index: Option<u32>,
    pub name: Option<Seq<char>>,
}

impl View for Morph {
    type V = MorphView;

    open spec fn view(&self) -> MorphView {
        MorphView {
            index: self.index,
            base_target_index: self.base_target_index,
            name: name_text(self.name),
        }
    }
}

/// The GeometryObject structure holds a geometry. Any number of geometry
/// nodes refer to one geometry object.
///
/// A geometry has one mesh for each of its levels of detail and one morph
/// for each of its target indices: `levels` holds, under a level of detail,
/// the position of its mesh in `meshes`, and `targets` holds, under a target
/// index, the position of its morph in `morphs`.
#[derive(PartialEq, Eq, Debug)]
pub struct GeometryObject {
    pub visible: bool,
    pub casts_shadows: bool,
    pub motion_blur: bool,
    pub meshes: Vec<Mesh>,
    pub levels: SparseIndexMap,
    pub morphs: Vec<Morph>,
    pub targets: SparseIndexMap,
}

/// The mathematical value of a [`GeometryObject`].
pub struct GeometryObjectView {
    pub visible: bool,
    pub casts_shadows: bool,
    pub motion_blur: bool,
    pub meshes: Seq<MeshView>,
    pub levels: Map<usize, usize>,
    pub morphs: Seq<MorphView>,
    pub targets: Map<usize, usize>,
}

impl View for GeometryObject {
    type V = GeometryObjectView;

    open spec fn view(&self) -> GeometryObjectView {
        GeometryObjectView {
            visible: self.visible,
            casts_shadows: self.casts_shadows,
            motion_blur: self.motion_blur,
            meshes: self.meshes@.map_values(|m: Mesh| m@),
            levels: self.levels@,
            morphs: self.morphs@.map_values(|m: Morph| m@),
            targets: self.targets@,
        }
    }
}

/// The CameraObject structure holds a camera.
#[derive(PartialEq, Eq, Debug)]
pub struct CameraObject {
    pub params: ParamMap,
    pub colors: ColorMap,
    pub textures: SharedTable<Texture>,
}

/// The mathematical value of a [`CameraObject`].
pub struct CameraObjectView {
    pub params: TableView<Scalar>,
    pub colors: TableView<Color>,
    pub textures: TableView<TextureView>,
}

impl View for CameraObject {
    type V = CameraObjectView;

    open spec fn view(&self) -> CameraObjectView {
        CameraObjectView { params: self.params@, colors: self.colors@, textures: self.textures@ }
    }
}

/// The types of light that a light object emits.
#[derive(Clone, Copy, PartialEq, Eq, Structural, Debug)]
pub enum LightType {
    /// The source is infinitely far away; its rays are parallel.
    Infinite,
    /// The source is a point that radiates in all directions.
    Point,
    /// The source is a point that radiates in a cone of directions.
    Spot,
}

/// The input of an attenuation function.
#[derive(Clone, Copy, PartialEq, Eq, Structural, Debug)]
pub enum AttenuationKind {
    /// The distance from the light.
    Distance,
    /// The angle between the negative z axis and the direction to the point.
    Angle,
    /// The cosine of that angle.
    CosAngle,
}

/// The curve of an attenuation function.
#[derive(Clone, Copy, PartialEq, Eq, Structural, Debug)]
pub enum AttenuationCurve {
    Linear,
    /// The cubic smooth step function.
    Cubic,
    Inverse,
    InverseSquare,
}

/// The Atten structure holds one attenuation function of a light object.
#[derive(PartialEq, Eq, Debug)]
pub struct Atten {
    pub kind: AttenuationKind,
    pub curve: AttenuationCurve,
    pub params: ParamMap,
}

/// The mathematical value of an [`Atten`].
pub struct AttenView {
    pub kind: AttenuationKind,
    pub curve: AttenuationCurve,
    pub params: TableView<Scalar>,
}

impl View for Atten {
    type V = AttenView;

    open spec fn view(&self) -> AttenView {
        AttenView { kind: self.kind, curve: self.curve, params: self.params@ }
    }
}

/// The LightObject structure holds a light. Any number of light nodes refer
/// to one light object.
#[derive(PartialEq, Eq, Debug)]
pub struct LightObject {
    pub light_type: LightType,
    pub casts_shadows: bool,
    pub colors: ColorMap,
    pub params: ParamMap,
    pub textures: SharedTable<Texture>,
    pub attenuations: Vec<Atten>,
}

/// The mathematical value of a [`LightObject`].
pub struct LightObjectView {
    pub light_type: LightType,
    pub casts_shadows: bool,
    pub colors: TableView<Color>,
    pub params: TableView<Scalar>,
    pub textures: TableView<TextureView>,
    pub attenuations: Seq<AttenView>,
}

impl View for LightObject {
    type V = LightObjectView;

    open spec fn view(&self) -> LightObjectView {
        LightObjectView {
            light_type: self.light_type,
            casts_shadows: self.casts_shadows,
            colors: self.colors@,
            params: self.params@,
            textures: self.textures@,
            attenuations: self.attenuations@.map_values(|a: Atten| a@),
        }
    }
}

/// The Texture structure holds one texture map: the file of the map, the
/// set of texture coordinates that it is read with, the transformations of
/// those coordinates, and the animations of the transformations.
#[derive(Clone, PartialEq, Eq, Debug)]
pub struct Texture {
    pub texcoord: u32,
    pub file_name: String,
    pub transformations: Vec<Transformation>,
    pub animation: Vec<Animation>,
}

/// The mathematical value of a [`Texture`].
pub struct TextureView {
    pub texcoord: u32,
    pub file_name: Seq<char>,
    pub transformations: Seq<TransformationView>,
    pub animation: Seq<AnimationView>,
}

impl View for Texture {
    type V = TextureView;

    open spec fn view(&self) -> TextureView {
        TextureView {
            texcoord: self.texcoord,
            file_name: self.file_name@,
            transformations: transformation_views(self.transformations@),
            animation: animation_views(self.animation@),
        }
    }
}

/// The Material structure holds a material. Geometry nodes refer to
/// materials by the slots of their geometry.
#[derive(PartialEq, Eq, Debug)]
pub struct Material {
    pub two_sided: bool,
    pub name: Option<Name>,
    pub color: ColorMap,
    pub param: ParamMap,
    pub texture: SharedTable<Texture>,
}

/// The mathematical value of a [`Material`].
pub struct MaterialView {
    pub two_sided: bool,
    pub name: Option<Seq<char>>,
    pub color: TableView<Color>,
    pub param: TableView<Scalar>,
    pub texture: TableView<TextureView>,
}

impl View for Material {
    type V = MaterialView;

    open spec fn view(&self) -> MaterialView {
        MaterialView {
            two_sided: self.two_sided,
            name: name_text(self.name),
            color: self.color@,
            param: self.param@,
            texture: self.texture@,
        }
    }
}

/// A Node structure is a node of a scene without an object.
#[derive(PartialEq, Eq, Debug)]
pub struct Node {
    /// The name that the node shows.
    pub name: Option<Name>,
    /// The name that the document declares the node under.
    pub iden: Option<Name>,
    pub transformations: Vec<Transformation>,
    pub animations: Vec<Animation>,
    pub children: Vec<Nodes>,
}

/// A BoneNode structure is one bone of a skeleton.
#[derive(PartialEq, Eq, Debug)]
pub struct BoneNode {
    /// The name that the node shows.
    pub name: Option<Name>,
    /// The name that the document declares the node under.
    pub iden: Option<Name>,
    pub transformations: Vec<Transformation>,
    pub animations: Vec<Animation>,
    pub children: Vec<Nodes>,
}

/// A GeometryNode structure is a node that shows a geometry.
///
/// `geometry` is the key of its geometry object. `materials` holds, under
/// the index of a material slot, the key of the material of that slot; every
/// slot that an index array of the geometry uses has one.
#[derive(PartialEq, Eq, Debug)]
pub struct GeometryNode {
    /// The name that the node shows.
    pub name: Option<Name>,
    /// The name that the document declares the node under.
    pub iden: Option<Name>,
    pub transformations: Vec<Transformation>,
    pub animations: Vec<Animation>,
    pub children: Vec<Nodes>,
    /// Whether the geometry is visible, where the node says so.
    pub visible: Option<bool>,
    /// Whether the geometry casts shadows, where the node says so.
    pub casts_shadows: Option<bool>,
    /// Whether the geometry is drawn with motion blur, where the node says so.
    pub motion_blur: Option<bool>,
    pub geometry: usize,
    pub materials: SparseIndexMap,
    pub morph_weights: Vec<MorphWeight>,
}

/// A CameraNode structure is a node that holds a camera. `camera` is the key
/// of its camera object.
#[derive(PartialEq, Eq, Debug)]
pub struct CameraNode {
    /// The name that the node shows.
    pub name: Option<Name>,
    /// The name that the document declares the node under.
    pub iden: Option<Name>,
    pub transformations: Vec<Transformation>,
    pub animations: Vec<Animation>,
    pub children: Vec<Nodes>,
    pub camera: usize,
}

/// A LightNode structure is a node that holds a light. `light` is the key of
/// its light object.
#[derive(PartialEq, Eq, Debug)]
pub struct LightNode {
    /// The name that the node shows.
    pub name: Option<Name>,
    /// The name that the document declares the node under.
    pub iden: Option<Name>,
    pub transformations: Vec<Transformation>,
    pub animations: Vec<Animation>,
    pub children: Vec<Nodes>,
    /// Whether the light is visible, where the node says so.
    pub visible: Option<bool>,
    /// Whether the light casts shadows, where the node says so.
    pub casts_shadows: Option<bool>,
    pub light: usize,
}

/// A node of any type.
#[derive(PartialEq, Eq, Debug)]
pub enum Nodes {
    Node(Node),
    BoneNode(BoneNode),
    GeometryNode(GeometryNode),
    CameraNode(CameraNode),
    LightNode(LightNode),
}

/// What a node has beside the parts that all nodes have.
pub enum NodeDetail {
    Node,
    Bone,
    Geometry {
        visible: Option<bool>,
        casts_shadows: Option<bool>,
        motion_blur: Option<bool>,
        geometry: usize,
        materials: Map<usize, usize>,
        morph_weights: Seq<MorphWeight>,
    },
    Camera { camera: usize },
    Light { visible: Option<bool>, casts_shadows: Option<bool>, light: usize },
}

/// The mathematical value of a node of any type.
pub struct NodeView {
    pub name: Option<Seq<char>>,
    pub iden: Option<Seq<char>>,
    pub transformations: Seq<TransformationView>,
    pub animations: Seq<AnimationView>,
    pub children: Seq<NodeView>,
    pub detail: NodeDetail,
}

/// The values of the transformations of a list.
pub open spec fn transformation_views(list: Seq<Transformation>) -> Seq<TransformationView> {
    list.map_values(|t: Transformation| t@)
}

/// The values of the animations of a list.
pub open spec fn animation_views(list: Seq<Animation>) -> Seq<AnimationView> {
    list.map_values(|a: Animation| a@)
}

impl View for Nodes {
    type V = NodeView;

    open spec fn view(&self) -> NodeView
        decreases self, 0int,
    {
        match *self {
            Nodes::Node(n) => NodeView {
                name: name_text(n.name),
                iden: name_text(n.iden),
                transformations: transformation_views(n.transformations@),
                animations: animation_views(n.animations@),
                children: first_node_views(n.children@, n.children@.len() as int),
                detail: NodeDetail::Node,
            },
            Nodes::BoneNode(n) => NodeView {
                name: name_text(n.name),
                iden: name_text(n.iden),
                transformations: transformation_views(n.transformations@),
                animations: animation_views(n.animations@),
                children: first_node_views(n.children@, n.children@.len() as int),
                detail: NodeDetail::Bone,
            },
            Nodes::GeometryNode(n) => NodeView {
                name: name_text(n.name),
                iden: name_text(n.iden),
                transformations: transformation_views(n.transformations@),
                animations: animation_views(n.animations@),
                children: first_node_views(n.children@, n.children@.len() as int),
                detail: NodeDetail::Geometry {
                    visible: n.visible,
                    casts_shadows: n.casts_shadows,
                    motion_blur: n.motion_blur,
                    geometry: n.geometry,
                    materials: n.materials@,
                    morph_weights: n.morph_weights@,
                },
            },
            Nodes::CameraNode(n) => NodeView {
                name: name_text(n.name),
                iden: name_text(n.iden),
                transformations: transformation_views(n.transformations@),
                animations: animation_views(n.animations@),
                children: first_node_views(n.children@, n.children@.len() as int),
                detail: NodeDetail::Camera { camera: n.camera },
            },
            Nodes::LightNode(n) => NodeView {
                name: name_text(n.name),
                iden: name_text(n.iden),
                transformations: transformation_views(n.transformations@),
                animations: animation_views(n.animations@),
                children: first_node_views(n.children@, n.children@.len() as int),
                detail: NodeDetail::Light {
                    visible: n.visible,
                    casts_shadows: n.casts_shadows,
                    light: n.light,
                },
            },
        }
    }
}

/// The values of the first `n` nodes of a list.
pub open spec fn first_node_views(nodes: Seq<Nodes>, n: int) -> Seq<NodeView>
    decreases nodes, n,
{
    if n <= 0 || n > nodes.len() {
        Seq::empty()
    } else {
        first_node_views(nodes, n - 1).push(nodes[n - 1]@)
    }
}

/// The values of the nodes of a list.
pub open spec fn node_views(nodes: Seq<Nodes>) -> Seq<NodeView> {
    nodes.map_values(|n: Nodes| n@)
}

/// The values of the first nodes of a list are the first values of the
/// list.
pub proof fn lemma_first_node_views(nodes: Seq<Nodes>, n: int)
    requires
        0 <= n <= nodes.len(),
    ensures
        first_node_views(nodes, n) == node_views(nodes).take(n),
    decreases n,
{
    if n > 0 {
        lemma_first_node_views(nodes, n - 1);
        assert(node_views(nodes)[n - 1] == nodes[n - 1]@);
        assert(node_views(nodes).take(n - 1).push(nodes[n - 1]@) =~= node_views(nodes).take(n));
    } else {
        assert(first_node_views(nodes, n) =~= node_views(nodes).take(n));
    }
}

/// The values of all nodes of a list.
pub proof fn lemma_node_views(nodes: Seq<Nodes>)
    ensures
        first_node_views(nodes, nodes.len() as int) == node_views(nodes),
{
    lemma_first_node_views(nodes, nodes.len() as int);
    assert(node_views(nodes).take(nodes.len() as int) =~= node_views(nodes));
}

} // verus!
