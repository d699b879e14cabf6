//! In-memory asset records and their well-formedness conditions.
//!
//! Scalars that are floats at runtime (positions, weights, matrix entries)
//! are held as `u32` IEEE-754 bit patterns; the format writes exactly those
//! four bytes, so equality of bit patterns is equality of the encoded data.

use vstd::prelude::*;

verus! {

/// Two float bit patterns, e.g. a texture coordinate.
#[derive(Clone, Copy, Debug, PartialEq, Eq, Structural)]
pub struct Vec2 {
    pub x: u32,
    pub y: u32,
}

/// Three float bit patterns, e.g. a position, normal or Euler rotation.
#[derive(Clone, Copy, Debug, PartialEq, Eq, Structural)]
pub struct Vec3 {
    pub x: u32,
    pub y: u32,
    pub z: u32,
}

/// Four float bit patterns, e.g. skin weights or a matrix row.
#[derive(Clone, Copy, Debug, PartialEq, Eq, Structural)]
pub struct Vec4 {
    pub x: u32,
    pub y: u32,
    pub z: u32,
    pub w: u32,
}

/// A 4x4 float matrix as bit patterns, row-major.
#[derive(Clone, Copy, Debug, PartialEq, Eq, Structural)]
pub struct Mat4 {
    pub r0: Vec4,
    pub r1: Vec4,
    pub r2: Vec4,
    pub r3: Vec4,
}

/// The four joint influences of one skinned vertex.  The format stores each
/// as a single byte, so indices above 255 cannot be represented.
#[derive(Clone, Copy, Debug, PartialEq, Eq, Structural)]
pub struct JointIndices {
    pub a: u8,
    pub b: u8,
    pub c: u8,
    pub d: u8,
}

/// One local-space pose: translation, Euler rotation (applied Z, then Y,
/// then X) and scale, each as three float bit patterns.
#[derive(Clone, Copy, Debug, PartialEq, Eq, Structural)]
pub struct Transform {
    pub translation: Vec3,
    pub rotation: Vec3,
    pub scale: Vec3,
}

/// Which attributes each vertex of a mesh carries.
#[derive(Clone, Copy, Debug, PartialEq, Eq, Structural)]
pub enum VertexType {
    /// Position only.
    Basic,
    /// Position and texture coordinates.
    U,
    /// Position, normal and texture coordinates.
    NU,
    /// Position, normal, texture coordinates, joint influences and weights.
    NUS,
}

/// Vertex of a `Basic` mesh.
#[derive(Clone, Copy, Debug, PartialEq, Eq, Structural)]
pub struct VertexP {
    pub position: Vec3,
}

/// Vertex of a `U` mesh.
#[derive(Clone, Copy, Debug, PartialEq, Eq, Structural)]
pub struct VertexU {
    pub position: Vec3,
    pub uv: Vec2,
}

/// Vertex of an `NU` mesh.
#[derive(Clone, Copy, Debug, PartialEq, Eq, Structural)]
pub struct VertexNU {
    pub position: Vec3,
    pub normal: Vec3,
    pub uv: Vec2,
}

/// Vertex of an `NUS` (skinned) mesh.
#[derive(Clone, Copy, Debug, PartialEq, Eq, Structural)]
pub struct VertexNUS {
    pub position: Vec3,
    pub normal: Vec3,
    pub uv: Vec2,
    pub joints: JointIndices,
    pub weights: Vec4,
}

/// Mathematical value of one joint of a skeleton.
pub struct JointModel {
    pub name: Seq<u8>,
    pub id: int,
    /// Index of the nearest parent; 255 means "none" (the root).
    pub parent: int,
    /// Ancestor chain, farthest (the root) to nearest (the parent).
    pub parents: Seq<int>,
    /// World-space bind pose.
    pub tpose: Mat4,
    /// Bind pose relative to the parent joint.
    pub tpose_local: Mat4,
    /// Inverse-bind matrix.
    pub ibm: Mat4,
}

/// One joint of a decoded skeleton.  Index is identity: joint `i` of a mesh
/// is `joints[i]`, and all references between joints are indices.
#[derive(Debug, PartialEq, Eq)]
pub struct Joint {
    pub name: Vec<u8>,
    pub id: usize,
    /// Nearest parent, or 255 for the root.
    pub parent: usize,
    /// Ancestor chain, farthest to nearest.
    pub parents: Vec<usize>,
    pub tpose: Mat4,
    pub tpose_local: Mat4,
    pub ibm: Mat4,
}

/// A vector of indices, as mathematical integers.
pub open spec fn parents_view(ps: Seq<usize>) -> Seq<int> {
    ps.map_values(|p: usize| p as int)
}

impl View for Joint {
    type V = JointModel;

    open spec fn view(&self) -> JointModel {
        JointModel {
            name: self.name@,
            id: self.id as int,
            parent: self.parent as int,
            parents: parents_view(self.parents@),
            tpose: self.tpose,
            tpose_local: self.tpose_local,
            ibm: self.ibm,
        }
    }
}

/// The mathematical values of a vector of joints.
pub open spec fn joints_view(js: Seq<Joint>) -> Seq<JointModel> {
    js.map_values(|j: Joint| j@)
}

/// Mathematical value of a vertex stream.
pub enum VerticesModel {
    Basic(Seq<VertexP>),
    U(Seq<VertexU>),
    NU(Seq<VertexNU>),
    NUS(Seq<VertexNUS>),
}

/// De-indexed vertex stream of a mesh, one variant per layout.
#[derive(Debug, PartialEq, Eq)]
pub enum VertexData {
    Basic(Vec<VertexP>),
    U(Vec<VertexU>),
    NU(Vec<VertexNU>),
    NUS(Vec<VertexNUS>),
}

impl View for VertexData {
    type V = VerticesModel;

    open spec fn view(&self) -> VerticesModel {
        match self {
            VertexData::Basic(v) => VerticesModel::Basic(v@),
            VertexData::U(v) => VerticesModel::U(v@),
            VertexData::NU(v) => VerticesModel::NU(v@),
            VertexData::NUS(v) => VerticesModel::NUS(v@),
        }
    }
}

/// Number of vertices of a stream.
pub open spec fn vertices_len(v: VerticesModel) -> nat {
    match v {
        VerticesModel::Basic(s) => s.len(),
        VerticesModel::U(s) => s.len(),
        VerticesModel::NU(s) => s.len(),
        VerticesModel::NUS(s) => s.len(),
    }
}

/// Whether a vertex stream carries the attributes of the given layout.
pub open spec fn vertices_match(vt: VertexType, v: VerticesModel) -> bool {
    match vt {
        VertexType::Basic => v is Basic,
        VertexType::U => v is U,
        VertexType::NU => v is NU,
        VertexType::NUS => v is NUS,
    }
}

/// Mathematical value of a mesh record.
pub struct MeshModel {
    pub name: Seq<u8>,
    pub vertex_type: VertexType,
    pub vertices: VerticesModel,
    pub joints: Seq<JointModel>,
}

/// A decoded mesh: name, layout, de-indexed vertices and, for the skinned
/// layout, the skeleton.
#[derive(Debug, PartialEq, Eq)]
pub struct Mesh {
    pub name: Vec<u8>,
    pub vertex_type: VertexType,
    pub vertices: VertexData,
    /// The skeleton; empty unless the layout is `NUS`.
    pub joints: Vec<Joint>,
}

impl View for Mesh {
    type V = MeshModel;

    open spec fn view(&self) -> MeshModel {
        MeshModel {
            name: self.name@,
            vertex_type: self.vertex_type,
            vertices: self.vertices@,
            joints: joints_view(self.joints@),
        }
    }
}

impl Mesh {
    /// Number of vertices of the stream.
    pub fn vertices_len(&self) -> (r: usize)
        ensures
            r == vertices_len(self@.vertices),
    {
        match &self.vertices {
            VertexData::Basic(v) => v.len(),
            VertexData::U(v) => v.len(),
            VertexData::NU(v) => v.len(),
            VertexData::NUS(v) => v.len(),
        }
    }
}

/// Mathematical value of a texture record.
pub struct TextureModel {
    pub name: Seq<u8>,
    pub width: u32,
    pub height: u32,
    /// Row-major pixels, four bytes each; every alpha byte is 255.
    pub rgba: Seq<u8>,
}

/// A decoded texture: opaque RGBA pixels (alpha forced to 255 on decode).
#[derive(Debug, PartialEq, Eq)]
pub struct Texture {
    pub name: Vec<u8>,
    pub width: u32,
    pub height: u32,
    pub rgba: Vec<u8>,
}

impl View for Texture {
    type V = TextureModel;

    open spec fn view(&self) -> TextureModel {
        TextureModel { name: self.name@, width: self.width, height: self.height, rgba: self.rgba@ }
    }
}

/// What the texture encoder starts from: raw opaque RGB pixels, three bytes
/// per pixel, as an image decoder hands them out.
#[derive(Debug, PartialEq, Eq)]
pub struct TextureImage {
    pub name: Vec<u8>,
    pub width: u32,
    pub height: u32,
    pub rgb: Vec<u8>,
}

/// The pose of one joint in one frame.
#[derive(Clone, Copy, Debug, PartialEq, Eq, Structural)]
pub struct AnimationJoint {
    pub pose: Transform,
}

/// One frame: a pose per joint, indexed like the skeleton's joints.
#[derive(Debug, PartialEq, Eq)]
pub struct AnimationFrame {
    pub joints: Vec<AnimationJoint>,
}

/// The transforms of a frame's joints.
pub open spec fn poses_view(js: Seq<AnimationJoint>) -> Seq<Transform> {
    js.map_values(|j: AnimationJoint| j.pose)
}

impl View for AnimationFrame {
    type V = Seq<Transform>;

    open spec fn view(&self) -> Seq<Transform> {
        poses_view(self.joints@)
    }
}

/// The mathematical values of a vector of frames.
pub open spec fn frames_view(fs: Seq<AnimationFrame>) -> Seq<Seq<Transform>> {
    fs.map_values(|f: AnimationFrame| f@)
}

/// Mathematical value of an animation record.
pub struct AnimationModel {
    pub name: Seq<u8>,
    pub joints_length: int,
    /// Frame by frame, a `Transform` per joint.
    pub frames: Seq<Seq<Transform>>,
}

/// A decoded animation.
#[derive(Debug, PartialEq, Eq)]
pub struct Animation {
    pub name: Vec<u8>,
    /// Number of joints each frame poses; must equal the joint count of the
    /// skeleton the animation is bound to.
    pub joints_length: usize,
    pub frames: Vec<AnimationFrame>,
}

impl View for Animation {
    type V = AnimationModel;

    open spec fn view(&self) -> AnimationModel {
        AnimationModel {
            name: self.name@,
            joints_length: self.joints_length as int,
            frames: frames_view(self.frames@),
        }
    }
}

/// The parent index of each joint, in joint order.
pub open spec fn parent_table(js: Seq<JointModel>) -> Seq<int> {
    js.map_values(|j: JointModel| j.parent)
}

/// The ancestor chain of joint `i` under a parent table, farthest to
/// nearest.  A parent entry that is not a strictly smaller index (the 255
/// sentinel in particular) ends the chain.
pub open spec fn ancestor_chain(parents: Seq<int>, i: int) -> Seq<int>
    decreases i,
{
    if 0 <= i < parents.len() && 0 <= parents[i] < i {
        ancestor_chain(parents, parents[i]).push(parents[i])
    } else {
        Seq::empty()
    }
}

/// A well-formed skeleton: fewer than 128 joints; index is identity; joint
/// 0 is the only root (parent sentinel 255) and every other joint's parent
/// is a strictly earlier joint, so the joints form a tree reachable from
/// index 0; each joint's stored ancestor chain is the chain its parent
/// entries induce.
pub open spec fn skeleton_wf(js: Seq<JointModel>) -> bool {
    &&& js.len() < 128
    &&& forall|i: int|
        0 <= i < js.len() ==> {
            &&& (#[trigger] js[i]).id == i
            &&& (i == 0 ==> js[i].parent == 255)
            &&& (i > 0 ==> 0 <= js[i].parent < i)
            &&& js[i].parents == ancestor_chain(parent_table(js), i)
        }
}

/// Joint-hierarchy invariant of a well-formed skeleton: every ancestor
/// chain starts at the root (joint 0, whose parent is the 255 sentinel),
/// is at most `i` long (so at most the joint count), steps from each entry
/// to a child of it, and ends at the joint's immediate parent.
pub proof fn lemma_ancestor_chain(js: Seq<JointModel>, i: int)
    requires
        skeleton_wf(js),
        0 <= i < js.len(),
    ensures
        js[i].parents.len() <= i,
        i == 0 ==> js[i].parents.len() == 0,
        i > 0 ==> js[i].parents.len() >= 1 && js[i].parents[0] == 0 && js[0].parent == 255
            && js[i].parents.last() == js[i].parent,
        forall|k: int| 0 <= k < js[i].parents.len() ==> 0 <= #[trigger] js[i].parents[k] < i,
        forall|k: int|
            0 <= k && k + 1 < js[i].parents.len() ==> js[#[trigger] js[i].parents[k + 1]].parent
                == js[i].parents[k],
    decreases i,
{
    let pt = parent_table(js);
    assert(pt.len() == js.len());
    assert(forall|k: int| 0 <= k < js.len() ==> pt[k] == (#[trigger] js[k]).parent);
    if i == 0 {
        assert(js[0].parents == ancestor_chain(pt, 0));
        assert(ancestor_chain(pt, 0) =~= Seq::<int>::empty());
    } else {
        let p = js[i].parent;
        assert(0 <= p < i);
        assert(pt[i] == p);
        assert(js[i].parents == ancestor_chain(pt, p).push(p));
        lemma_ancestor_chain(js, p);
        assert(js[p].parents == ancestor_chain(pt, p));
        let chain = js[i].parents;
        let pchain = js[p].parents;
        assert(chain == pchain.push(p));
        assert(chain.len() == pchain.len() + 1);
        assert(chain.last() == p);
        if p == 0 {
            assert(pchain.len() == 0);
            assert(chain[0] == p);
        } else {
            assert(chain[0] == pchain[0]);
        }
        assert forall|k: int| 0 <= k < chain.len() implies 0 <= #[trigger] chain[k] < i by {
            if k < pchain.len() {
                assert(chain[k] == pchain[k]);
            } else {
                assert(chain[k] == p);
            }
        }
        assert forall|k: int| 0 <= k && k + 1 < chain.len() implies js[#[trigger] chain[k
            + 1]].parent == chain[k] by {
            if k + 1 < pchain.len() {
                assert(chain[k + 1] == pchain[k + 1] && chain[k] == pchain[k]);
            } else {
                assert(chain[k + 1] == p);
                assert(chain[k] == pchain.last());
                assert(js[p].parents.last() == js[p].parent);
            }
        }
    }
}

} // verus!
