//! The wire format, as specification functions over byte sequences.
//!
//! A compiled blob is a concatenation of records, each `tag byte, payload,
//! "END"`.  Strings are raw bytes closed by a `#` sentinel; integers and
//! float bit patterns are four big-endian bytes.

use vstd::prelude::*;

use crate::model::{
    vertices_len, vertices_match, AnimationModel, JointIndices, JointModel, Mat4, MeshModel,
    TextureModel, Transform, Vec2, Vec3, Vec4, VertexNU, VertexNUS, VertexP, VertexType, VertexU,
    VerticesModel,
};

verus! {

/// String terminator `#`.
pub const STRING_END: u8 = 35;

/// Record tag of a mesh, `M`.
pub const TAG_MESH: u8 = 77;

/// Record tag of a texture, `I`.
pub const TAG_TEXTURE: u8 = 73;

/// Record tag of an animation, `A`.
pub const TAG_ANIMATION: u8 = 65;

/// "No parent" / "chain finished" marker in joint-index bytes.
pub const NO_PARENT: u8 = 255;

/// Exclusive upper bound on the number of joints of one skeleton.
pub const MAX_JOINTS: usize = 128;

/// The three bytes of the `END` record marker.
pub open spec fn end_marker() -> Seq<u8> {
    seq![69u8, 78u8, 68u8]
}

/// A `u32` as four big-endian bytes.  Opaque: proofs above the byte level
/// treat the four bytes as one chunk.
#[verifier::opaque]
pub open spec fn enc_u32(v: u32) -> Seq<u8> {
    seq![
        ((v >> 24) & 0xff) as u8,
        ((v >> 16) & 0xff) as u8,
        ((v >> 8) & 0xff) as u8,
        (v & 0xff) as u8,
    ]
}

/// Four big-endian bytes as a `u32`.
pub open spec fn u32_of_be(b0: u8, b1: u8, b2: u8, b3: u8) -> u32 {
    (((b0 as u32) << 24) | ((b1 as u32) << 16) | ((b2 as u32) << 8) | (b3 as u32)) as u32
}

/// Four bytes, always: the one fact about `enc_u32` that stays visible
/// while the function is opaque.
pub broadcast proof fn lemma_enc_u32_len(v: u32)
    ensures
        #[trigger] enc_u32(v).len() == 4,
{
    reveal(enc_u32);
}

/// Reading back the four bytes of `enc_u32` gives the value again.
pub proof fn lemma_u32_roundtrip(v: u32)
    ensures
        u32_of_be(
            ((v >> 24) & 0xff) as u8,
            ((v >> 16) & 0xff) as u8,
            ((v >> 8) & 0xff) as u8,
            (v & 0xff) as u8,
        ) == v,
{
    assert((((((v >> 24) & 0xff) as u8) as u32) << 24) | (((((v >> 16) & 0xff) as u8) as u32)
        << 16) | (((((v >> 8) & 0xff) as u8) as u32) << 8) | (((v & 0xff) as u8) as u32) == v)
        by (bit_vector);
}

/// A string: its bytes, then the `#` sentinel.
pub open spec fn enc_string(s: Seq<u8>) -> Seq<u8> {
    s.push(STRING_END)
}

/// Whether a byte sequence may stand as a string payload: it must not
/// contain the sentinel itself.
pub open spec fn string_ok(s: Seq<u8>) -> bool {
    forall|i: int| 0 <= i < s.len() ==> s[i] != STRING_END
}

/// Two float bit patterns, eight bytes.
pub open spec fn enc_vec2(v: Vec2) -> Seq<u8> {
    enc_u32(v.x) + enc_u32(v.y)
}

/// Three float bit patterns, twelve bytes.
pub open spec fn enc_vec3(v: Vec3) -> Seq<u8> {
    enc_u32(v.x) + enc_u32(v.y) + enc_u32(v.z)
}

/// Four float bit patterns, sixteen bytes.
pub open spec fn enc_vec4(v: Vec4) -> Seq<u8> {
    enc_u32(v.x) + enc_u32(v.y) + enc_u32(v.z) + enc_u32(v.w)
}

/// A 4x4 matrix, row-major, sixty-four bytes.
pub open spec fn enc_mat4(m: Mat4) -> Seq<u8> {
    enc_vec4(m.r0) + enc_vec4(m.r1) + enc_vec4(m.r2) + enc_vec4(m.r3)
}

/// One byte at position `i`, if there is one.
pub open spec fn dec_u8(s: Seq<u8>, i: int) -> Option<(u8, int)> {
    if 0 <= i && i + 1 <= s.len() {
        Some((s[i], i + 1))
    } else {
        None
    }
}

/// Four big-endian bytes at position `i`.  Opaque, like [`enc_u32`].
#[verifier::opaque]
pub open spec fn dec_u32(s: Seq<u8>, i: int) -> Option<(u32, int)> {
    if 0 <= i && i + 4 <= s.len() {
        Some((u32_of_be(s[i], s[i + 1], s[i + 2], s[i + 3]), i + 4))
    } else {
        None
    }
}

/// The bytes from position `i` up to (and consuming) the next `#` sentinel.
/// Fails when the buffer ends before a sentinel appears.
pub open spec fn dec_string(s: Seq<u8>, i: int) -> Option<(Seq<u8>, int)>
    decreases s.len() - i,
{
    if 0 <= i && i < s.len() {
        if s[i] == STRING_END {
            Some((Seq::empty(), i + 1))
        } else {
            match dec_string(s, i + 1) {
                Some((t, j)) => Some((seq![s[i]] + t, j)),
                None => None,
            }
        }
    } else {
        None
    }
}

/// The three `END` bytes at position `i`.
pub open spec fn dec_end(s: Seq<u8>, i: int) -> Option<int> {
    if 0 <= i && i + 3 <= s.len() && s[i] == 69 && s[i + 1] == 78 && s[i + 2] == 68 {
        Some(i + 3)
    } else {
        None
    }
}

/// Two float bit patterns.
pub open spec fn dec_vec2(s: Seq<u8>, i: int) -> Option<(Vec2, int)> {
    match dec_u32(s, i) {
        Some((x, i1)) => match dec_u32(s, i1) {
            Some((y, i2)) => Some((Vec2 { x, y }, i2)),
            None => None,
        },
        None => None,
    }
}

/// Three float bit patterns.
pub open spec fn dec_vec3(s: Seq<u8>, i: int) -> Option<(Vec3, int)> {
    match dec_u32(s, i) {
        Some((x, i1)) => match dec_u32(s, i1) {
            Some((y, i2)) => match dec_u32(s, i2) {
                Some((z, i3)) => Some((Vec3 { x, y, z }, i3)),
                None => None,
            },
            None => None,
        },
        None => None,
    }
}

/// Four float bit patterns.
pub open spec fn dec_vec4(s: Seq<u8>, i: int) -> Option<(Vec4, int)> {
    match dec_u32(s, i) {
        Some((x, i1)) => match dec_u32(s, i1) {
            Some((y, i2)) => match dec_u32(s, i2) {
                Some((z, i3)) => match dec_u32(s, i3) {
                    Some((w, i4)) => Some((Vec4 { x, y, z, w }, i4)),
                    None => None,
                },
                None => None,
            },
            None => None,
        },
        None => None,
    }
}

/// A row-major 4x4 matrix.
pub open spec fn dec_mat4(s: Seq<u8>, i: int) -> Option<(Mat4, int)> {
    match dec_vec4(s, i) {
        Some((r0, i1)) => match dec_vec4(s, i1) {
            Some((r1, i2)) => match dec_vec4(s, i2) {
                Some((r2, i3)) => match dec_vec4(s, i3) {
                    Some((r3, i4)) => Some((Mat4 { r0, r1, r2, r3 }, i4)),
                    None => None,
                },
                None => None,
            },
            None => None,
        },
        None => None,
    }
}

/// The four joint-influence bytes of one skinned vertex.
pub open spec fn dec_joint_indices(s: Seq<u8>, i: int) -> Option<(JointIndices, int)> {
    if 0 <= i && i + 4 <= s.len() {
        Some((JointIndices { a: s[i], b: s[i + 1], c: s[i + 2], d: s[i + 3] }, i + 4))
    } else {
        None
    }
}

// ----- encoding of records -----
/// The tag string naming a vertex layout.
pub open spec fn vt_tag(vt: VertexType) -> Seq<u8> {
    match vt {
        VertexType::Basic => seq![66u8, 97u8, 115u8, 105u8, 99u8],  // "Basic"
        VertexType::U => seq![85u8],  // "U"
        VertexType::NU => seq![78u8, 85u8],  // "NU"
        VertexType::NUS => seq![78u8, 85u8, 83u8],  // "NUS"
    }
}

/// Vertex of a `Basic` mesh: position.
pub open spec fn enc_vertex_p(v: VertexP) -> Seq<u8> {
    enc_vec3(v.position)
}

/// Vertex of a `U` mesh: position, texture coordinates.
pub open spec fn enc_vertex_u(v: VertexU) -> Seq<u8> {
    enc_vec3(v.position) + enc_vec2(v.uv)
}

/// Vertex of an `NU` mesh: position, normal, texture coordinates.
pub open spec fn enc_vertex_nu(v: VertexNU) -> Seq<u8> {
    enc_vec3(v.position) + enc_vec3(v.normal) + enc_vec2(v.uv)
}

/// The four joint influences, one byte each.
pub open spec fn enc_joint_indices(v: JointIndices) -> Seq<u8> {
    seq![v.a, v.b, v.c, v.d]
}

/// Vertex of an `NUS` mesh: position, normal, texture coordinates, joint
/// influences, weights.
pub open spec fn enc_vertex_nus(v: VertexNUS) -> Seq<u8> {
    enc_vec3(v.position) + enc_vec3(v.normal) + enc_vec2(v.uv) + enc_joint_indices(v.joints)
        + enc_vec4(v.weights)
}

/// A stream of `Basic` vertices.
pub open spec fn enc_vertices_p(s: Seq<VertexP>) -> Seq<u8>
    decreases s.len(),
{
    if s.len() == 0 {
        Seq::empty()
    } else {
        enc_vertex_p(s[0]) + enc_vertices_p(s.drop_first())
    }
}

/// A stream of `U` vertices.
pub open spec fn enc_vertices_u(s: Seq<VertexU>) -> Seq<u8>
    decreases s.len(),
{
    if s.len() == 0 {
        Seq::empty()
    } else {
        enc_vertex_u(s[0]) + enc_vertices_u(s.drop_first())
    }
}

/// A stream of `NU` vertices.
pub open spec fn enc_vertices_nu(s: Seq<VertexNU>) -> Seq<u8>
    decreases s.len(),
{
    if s.len() == 0 {
        Seq::empty()
    } else {
        enc_vertex_nu(s[0]) + enc_vertices_nu(s.drop_first())
    }
}

/// A stream of `NUS` vertices.
pub open spec fn enc_vertices_nus(s: Seq<VertexNUS>) -> Seq<u8>
    decreases s.len(),
{
    if s.len() == 0 {
        Seq::empty()
    } else {
        enc_vertex_nus(s[0]) + enc_vertices_nus(s.drop_first())
    }
}

/// The whole vertex stream, field order fixed by the layout.
pub open spec fn enc_vertices(v: VerticesModel) -> Seq<u8> {
    match v {
        VerticesModel::Basic(s) => enc_vertices_p(s),
        VerticesModel::U(s) => enc_vertices_u(s),
        VerticesModel::NU(s) => enc_vertices_nu(s),
        VerticesModel::NUS(s) => enc_vertices_nus(s),
    }
}

/// A transform: translation, rotation, scale, three floats each.
pub open spec fn enc_transform(t: Transform) -> Seq<u8> {
    enc_vec3(t.translation) + enc_vec3(t.rotation) + enc_vec3(t.scale)
}

/// An ancestor chain as bytes, one per index (the 255 sentinel follows
/// separately).
pub open spec fn enc_parent_chain(ps: Seq<int>) -> Seq<u8> {
    ps.map_values(|p: int| p as u8)
}

/// One joint: name, parent byte, ancestor chain closed by the 255
/// sentinel, then world bind, local bind and inverse-bind matrices.
pub open spec fn enc_joint(j: JointModel) -> Seq<u8> {
    enc_string(j.name) + seq![j.parent as u8] + enc_parent_chain(j.parents) + seq![
        NO_PARENT,
    ] + enc_mat4(j.tpose) + enc_mat4(j.tpose_local) + enc_mat4(j.ibm)
}

/// Each joint of a skeleton in turn.
pub open spec fn enc_joints(js: Seq<JointModel>) -> Seq<u8>
    decreases js.len(),
{
    if js.len() == 0 {
        Seq::empty()
    } else {
        enc_joint(js[0]) + enc_joints(js.drop_first())
    }
}

/// A skeleton: joint count byte, then each joint.
pub open spec fn enc_skeleton(js: Seq<JointModel>) -> Seq<u8> {
    seq![js.len() as u8] + enc_joints(js)
}

/// A mesh record's payload, between the tag byte and `END`.
pub open spec fn enc_mesh_body(m: MeshModel) -> Seq<u8> {
    enc_string(m.name) + enc_string(vt_tag(m.vertex_type)) + enc_u32(
        vertices_len(m.vertices) as u32,
    ) + enc_vertices(m.vertices) + (if m.vertex_type is NUS {
        enc_skeleton(m.joints)
    } else {
        Seq::empty()
    })
}

/// A whole mesh record, tag to `END`.
pub open spec fn enc_mesh(m: MeshModel) -> Seq<u8> {
    seq![TAG_MESH] + enc_mesh_body(m) + end_marker()
}

/// A texture record's payload, between the tag byte and `END`.
pub open spec fn enc_texture_body(name: Seq<u8>, width: u32, height: u32, rgb: Seq<u8>) -> Seq<
    u8,
> {
    enc_string(name) + enc_u32(width) + enc_u32(height) + rgb
}

/// A whole texture record: tag, name, width, height, raw RGB bytes, `END`.
pub open spec fn enc_texture(name: Seq<u8>, width: u32, height: u32, rgb: Seq<u8>) -> Seq<u8> {
    seq![TAG_TEXTURE] + enc_texture_body(name, width, height, rgb) + end_marker()
}

/// One frame: each joint's transform in turn.
pub open spec fn enc_frame(f: Seq<Transform>) -> Seq<u8>
    decreases f.len(),
{
    if f.len() == 0 {
        Seq::empty()
    } else {
        enc_transform(f[0]) + enc_frame(f.drop_first())
    }
}

/// Each frame of an animation in turn.
pub open spec fn enc_frames(fs: Seq<Seq<Transform>>) -> Seq<u8>
    decreases fs.len(),
{
    if fs.len() == 0 {
        Seq::empty()
    } else {
        enc_frame(fs[0]) + enc_frames(fs.drop_first())
    }
}

/// An animation record's payload, between the tag byte and `END`.
pub open spec fn enc_animation_body(a: AnimationModel) -> Seq<u8> {
    enc_string(a.name) + seq![a.joints_length as u8] + enc_u32(a.frames.len() as u32)
        + enc_frames(a.frames)
}

/// A whole animation record: tag, name, joint count byte, frame count,
/// each frame's transforms, `END`.
pub open spec fn enc_animation(a: AnimationModel) -> Seq<u8> {
    seq![TAG_ANIMATION] + enc_animation_body(a) + end_marker()
}

// ----- decoding of records -----
/// A transform: translation, rotation, scale.
pub open spec fn dec_transform(s: Seq<u8>, i: int) -> Option<(Transform, int)> {
    match dec_vec3(s, i) {
        Some((translation, i1)) => match dec_vec3(s, i1) {
            Some((rotation, i2)) => match dec_vec3(s, i2) {
                Some((scale, i3)) => Some((Transform { translation, rotation, scale }, i3)),
                None => None,
            },
            None => None,
        },
        None => None,
    }
}

/// Vertex of a `Basic` mesh.
pub open spec fn dec_vertex_p(s: Seq<u8>, i: int) -> Option<(VertexP, int)> {
    match dec_vec3(s, i) {
        Some((position, j)) => Some((VertexP { position }, j)),
        None => None,
    }
}

/// Vertex of a `U` mesh.
pub open spec fn dec_vertex_u(s: Seq<u8>, i: int) -> Option<(VertexU, int)> {
    match dec_vec3(s, i) {
        Some((position, i1)) => match dec_vec2(s, i1) {
            Some((uv, i2)) => Some((VertexU { position, uv }, i2)),
            None => None,
        },
        None => None,
    }
}

/// Vertex of an `NU` mesh.
pub open spec fn dec_vertex_nu(s: Seq<u8>, i: int) -> Option<(VertexNU, int)> {
    match dec_vec3(s, i) {
        Some((position, i1)) => match dec_vec3(s, i1) {
            Some((normal, i2)) => match dec_vec2(s, i2) {
                Some((uv, i3)) => Some((VertexNU { position, normal, uv }, i3)),
                None => None,
            },
            None => None,
        },
        None => None,
    }
}

/// Vertex of an `NUS` mesh.
pub open spec fn dec_vertex_nus(s: Seq<u8>, i: int) -> Option<(VertexNUS, int)> {
    match dec_vec3(s, i) {
        Some((position, i1)) => match dec_vec3(s, i1) {
            Some((normal, i2)) => match dec_vec2(s, i2) {
                Some((uv, i3)) => match dec_joint_indices(s, i3) {
                    Some((joints, i4)) => match dec_vec4(s, i4) {
                        Some((weights, i5)) => Some(
                            (VertexNUS { position, normal, uv, joints, weights }, i5),
                        ),
                        None => None,
                    },
                    None => None,
                },
                None => None,
            },
            None => None,
        },
        None => None,
    }
}

/// `n` vertices of a `Basic` stream.
pub open spec fn dec_vertices_p(s: Seq<u8>, i: int, n: nat) -> Option<(Seq<VertexP>, int)>
    decreases n,
{
    if n == 0 {
        Some((Seq::empty(), i))
    } else {
        match dec_vertex_p(s, i) {
            Some((v, j)) => match dec_vertices_p(s, j, (n - 1) as nat) {
                Some((vs, k)) => Some((seq![v] + vs, k)),
                None => None,
            },
            None => None,
        }
    }
}

/// `n` vertices of a `U` stream.
pub open spec fn dec_vertices_u(s: Seq<u8>, i: int, n: nat) -> Option<(Seq<VertexU>, int)>
    decreases n,
{
    if n == 0 {
        Some((Seq::empty(), i))
    } else {
        match dec_vertex_u(s, i) {
            Some((v, j)) => match dec_vertices_u(s, j, (n - 1) as nat) {
                Some((vs, k)) => Some((seq![v] + vs, k)),
                None => None,
            },
            None => None,
        }
    }
}

/// `n` vertices of an `NU` stream.
pub open spec fn dec_vertices_nu(s: Seq<u8>, i: int, n: nat) -> Option<(Seq<VertexNU>, int)>
    decreases n,
{
    if n == 0 {
        Some((Seq::empty(), i))
    } else {
        match dec_vertex_nu(s, i) {
            Some((v, j)) => match dec_vertices_nu(s, j, (n - 1) as nat) {
                Some((vs, k)) => Some((seq![v] + vs, k)),
                None => None,
            },
            None => None,
        }
    }
}

/// `n` vertices of an `NUS` stream.
pub open spec fn dec_vertices_nus(s: Seq<u8>, i: int, n: nat) -> Option<(Seq<VertexNUS>, int)>
    decreases n,
{
    if n == 0 {
        Some((Seq::empty(), i))
    } else {
        match dec_vertex_nus(s, i) {
            Some((v, j)) => match dec_vertices_nus(s, j, (n - 1) as nat) {
                Some((vs, k)) => Some((seq![v] + vs, k)),
                None => None,
            },
            None => None,
        }
    }
}

/// `n` vertices of the given layout.
pub open spec fn dec_vertices(s: Seq<u8>, i: int, vt: VertexType, n: nat) -> Option<
    (VerticesModel, int),
> {
    match vt {
        VertexType::Basic => match dec_vertices_p(s, i, n) {
            Some((vs, j)) => Some((VerticesModel::Basic(vs), j)),
            None => None,
        },
        VertexType::U => match dec_vertices_u(s, i, n) {
            Some((vs, j)) => Some((VerticesModel::U(vs), j)),
            None => None,
        },
        VertexType::NU => match dec_vertices_nu(s, i, n) {
            Some((vs, j)) => Some((VerticesModel::NU(vs), j)),
            None => None,
        },
        VertexType::NUS => match dec_vertices_nus(s, i, n) {
            Some((vs, j)) => Some((VerticesModel::NUS(vs), j)),
            None => None,
        },
    }
}

/// Ancestor-chain bytes up to (and consuming) the 255 sentinel.
pub open spec fn dec_parents(s: Seq<u8>, i: int) -> Option<(Seq<int>, int)>
    decreases s.len() - i,
{
    if 0 <= i && i < s.len() {
        if s[i] == NO_PARENT {
            Some((Seq::empty(), i + 1))
        } else {
            match dec_parents(s, i + 1) {
                Some((ps, j)) => Some((seq![s[i] as int] + ps, j)),
                None => None,
            }
        }
    } else {
        None
    }
}

/// One joint, given its position `id` in the skeleton.
pub open spec fn dec_joint(s: Seq<u8>, i: int, id: int) -> Option<(JointModel, int)> {
    match dec_string(s, i) {
        Some((name, i1)) => match dec_u8(s, i1) {
            Some((parent, i2)) => match dec_parents(s, i2) {
                Some((parents, i3)) => match dec_mat4(s, i3) {
                    Some((tpose, i4)) => match dec_mat4(s, i4) {
                        Some((tpose_local, i5)) => match dec_mat4(s, i5) {
                            Some((ibm, i6)) => Some(
                                (
                                    JointModel {
                                        name,
                                        id,
                                        parent: parent as int,
                                        parents,
                                        tpose,
                                        tpose_local,
                                        ibm,
                                    },
                                    i6,
                                ),
                            ),
                            None => None,
                        },
                        None => None,
                    },
                    None => None,
                },
                None => None,
            },
            None => None,
        },
        None => None,
    }
}

/// `n` joints, ids counted up from `id`.
pub open spec fn dec_joints(s: Seq<u8>, i: int, n: nat, id: int) -> Option<(Seq<JointModel>, int)>
    decreases n,
{
    if n == 0 {
        Some((Seq::empty(), i))
    } else {
        match dec_joint(s, i, id) {
            Some((j, k)) => match dec_joints(s, k, (n - 1) as nat, id + 1) {
                Some((js, l)) => Some((seq![j] + js, l)),
                None => None,
            },
            None => None,
        }
    }
}

/// The layout a tag string names, if any.
pub open spec fn vt_of_tag(t: Seq<u8>) -> Option<VertexType> {
    if t == vt_tag(VertexType::Basic) {
        Some(VertexType::Basic)
    } else if t == vt_tag(VertexType::U) {
        Some(VertexType::U)
    } else if t == vt_tag(VertexType::NU) {
        Some(VertexType::NU)
    } else if t == vt_tag(VertexType::NUS) {
        Some(VertexType::NUS)
    } else {
        None
    }
}

/// A vertex-layout tag string, resolved to the layout it names.
pub open spec fn dec_vertex_type(s: Seq<u8>, i: int) -> Option<(VertexType, int)> {
    match dec_string(s, i) {
        Some((tag, j)) => match vt_of_tag(tag) {
            Some(vt) => Some((vt, j)),
            None => None,
        },
        None => None,
    }
}

/// A skeleton: the joint-count byte (which must stay under the 128
/// ceiling), then that many joints.
pub open spec fn dec_skeleton(s: Seq<u8>, i: int) -> Option<(Seq<JointModel>, int)> {
    match dec_u8(s, i) {
        Some((jn, j)) => if (jn as int) < MAX_JOINTS {
            dec_joints(s, j, jn as nat, 0)
        } else {
            None
        },
        None => None,
    }
}

/// A mesh payload (everything after the tag byte, before `END`).
pub open spec fn dec_mesh_body(s: Seq<u8>, i: int) -> Option<(MeshModel, int)> {
    match dec_string(s, i) {
        Some((name, i1)) => match dec_vertex_type(s, i1) {
            Some((vt, i2)) => match dec_u32(s, i2) {
                Some((count, i3)) => match dec_vertices(s, i3, vt, count as nat) {
                    Some((vertices, i4)) => if vt is NUS {
                        match dec_skeleton(s, i4) {
                            Some((joints, i5)) => Some(
                                (MeshModel { name, vertex_type: vt, vertices, joints }, i5),
                            ),
                            None => None,
                        }
                    } else {
                        Some(
                            (
                                MeshModel { name, vertex_type: vt, vertices, joints: Seq::empty() },
                                i4,
                            ),
                        )
                    },
                    None => None,
                },
                None => None,
            },
            None => None,
        },
        None => None,
    }
}

/// A mesh record after the tag byte: payload, then `END`.
pub open spec fn dec_mesh(s: Seq<u8>, i: int) -> Option<(MeshModel, int)> {
    match dec_mesh_body(s, i) {
        Some((m, j)) => match dec_end(s, j) {
            Some(k) => Some((m, k)),
            None => None,
        },
        None => None,
    }
}

/// `n` RGB byte triples, each widened with an opaque alpha byte.
pub open spec fn dec_pixels(s: Seq<u8>, i: int, n: nat) -> Option<(Seq<u8>, int)>
    decreases n,
{
    if n == 0 {
        Some((Seq::empty(), i))
    } else if 0 <= i && i + 3 <= s.len() {
        match dec_pixels(s, i + 3, (n - 1) as nat) {
            Some((rest, j)) => Some((seq![s[i], s[i + 1], s[i + 2], 255u8] + rest, j)),
            None => None,
        }
    } else {
        None
    }
}

/// The RGBA pixels that decoding raw RGB bytes produces: each byte triple
/// widened with an opaque alpha byte.
pub open spec fn rgba_of(rgb: Seq<u8>) -> Seq<u8>
    decreases rgb.len(),
{
    if rgb.len() < 3 {
        Seq::empty()
    } else {
        seq![rgb[0], rgb[1], rgb[2], 255u8] + rgba_of(rgb.skip(3))
    }
}

/// A texture payload (after the tag byte, before `END`).
pub open spec fn dec_texture_body(s: Seq<u8>, i: int) -> Option<(TextureModel, int)> {
    match dec_string(s, i) {
        Some((name, i1)) => match dec_u32(s, i1) {
            Some((width, i2)) => match dec_u32(s, i2) {
                Some((height, i3)) => match dec_pixels(
                    s,
                    i3,
                    (width as nat) * (height as nat),
                ) {
                    Some((rgba, i4)) => Some((TextureModel { name, width, height, rgba }, i4)),
                    None => None,
                },
                None => None,
            },
            None => None,
        },
        None => None,
    }
}

/// A texture record after the tag byte: payload, then `END`.
pub open spec fn dec_texture(s: Seq<u8>, i: int) -> Option<(TextureModel, int)> {
    match dec_texture_body(s, i) {
        Some((t, j)) => match dec_end(s, j) {
            Some(k) => Some((t, k)),
            None => None,
        },
        None => None,
    }
}

/// `n` transforms: one frame of an animation posing `n` joints.
pub open spec fn dec_frame(s: Seq<u8>, i: int, n: nat) -> Option<(Seq<Transform>, int)>
    decreases n,
{
    if n == 0 {
        Some((Seq::empty(), i))
    } else {
        match dec_transform(s, i) {
            Some((t, j)) => match dec_frame(s, j, (n - 1) as nat) {
                Some((ts, k)) => Some((seq![t] + ts, k)),
                None => None,
            },
            None => None,
        }
    }
}

/// `n` frames of `jl` joints each.
pub open spec fn dec_frames(s: Seq<u8>, i: int, n: nat, jl: nat) -> Option<
    (Seq<Seq<Transform>>, int),
>
    decreases n,
{
    if n == 0 {
        Some((Seq::empty(), i))
    } else {
        match dec_frame(s, i, jl) {
            Some((f, j)) => match dec_frames(s, j, (n - 1) as nat, jl) {
                Some((fs, k)) => Some((seq![f] + fs, k)),
                None => None,
            },
            None => None,
        }
    }
}

/// An animation payload (after the tag byte, before `END`).
pub open spec fn dec_animation_body(s: Seq<u8>, i: int) -> Option<(AnimationModel, int)> {
    match dec_string(s, i) {
        Some((name, i1)) => match dec_u8(s, i1) {
            Some((jl, i2)) => match dec_u32(s, i2) {
                Some((fc, i3)) => match dec_frames(s, i3, fc as nat, jl as nat) {
                    Some((frames, i4)) => Some(
                        (AnimationModel { name, joints_length: jl as int, frames }, i4),
                    ),
                    None => None,
                },
                None => None,
            },
            None => None,
        },
        None => None,
    }
}

/// An animation record after the tag byte: payload, then `END`.
pub open spec fn dec_animation(s: Seq<u8>, i: int) -> Option<(AnimationModel, int)> {
    match dec_animation_body(s, i) {
        Some((a, j)) => match dec_end(s, j) {
            Some(k) => Some((a, k)),
            None => None,
        },
        None => None,
    }
}

/// One decoded record of a blob.
pub enum RecordModel {
    Mesh(MeshModel),
    Texture(TextureModel),
    Animation(AnimationModel),
}

/// One record: a tag byte, then the record it announces.
pub open spec fn dec_record(s: Seq<u8>, i: int) -> Option<(RecordModel, int)> {
    match dec_u8(s, i) {
        Some((tag, j)) => if tag == TAG_MESH {
            match dec_mesh(s, j) {
                Some((m, k)) => Some((RecordModel::Mesh(m), k)),
                None => None,
            }
        } else if tag == TAG_TEXTURE {
            match dec_texture(s, j) {
                Some((t, k)) => Some((RecordModel::Texture(t), k)),
                None => None,
            }
        } else if tag == TAG_ANIMATION {
            match dec_animation(s, j) {
                Some((a, k)) => Some((RecordModel::Animation(a), k)),
                None => None,
            }
        } else {
            None
        },
        None => None,
    }
}

/// A whole blob: records back to back until the buffer ends.
pub open spec fn dec_blob(s: Seq<u8>, i: int) -> Option<Seq<RecordModel>>
    decreases s.len() - i,
{
    if i == s.len() {
        Some(Seq::empty())
    } else if 0 <= i && i < s.len() {
        match dec_record(s, i) {
            Some((r, j)) => if i < j <= s.len() {
                match dec_blob(s, j) {
                    Some(rs) => Some(seq![r] + rs),
                    None => None,
                }
            } else {
                None
            },
            None => None,
        }
    } else {
        None
    }
}

// ----- what the encoder accepts -----
/// A joint the format can hold at position `idx`: its id is its index, the
/// name is sentinel-free, parent fits one byte and no chain entry collides
/// with the 255 chain terminator.
pub open spec fn joint_encodable(j: JointModel, idx: int) -> bool {
    &&& j.id == idx
    &&& string_ok(j.name)
    &&& 0 <= j.parent <= 255
    &&& forall|k: int| 0 <= k < j.parents.len() ==> 0 <= #[trigger] j.parents[k] < 255
}

/// A mesh the format can hold.
pub open spec fn mesh_encodable(m: MeshModel) -> bool {
    &&& string_ok(m.name)
    &&& vertices_match(m.vertex_type, m.vertices)
    &&& vertices_len(m.vertices) <= u32::MAX
    &&& (m.vertex_type is NUS ==> m.joints.len() < MAX_JOINTS)
    &&& (!(m.vertex_type is NUS) ==> m.joints.len() == 0)
    &&& forall|i: int| 0 <= i < m.joints.len() ==> joint_encodable(#[trigger] m.joints[i], i)
}

/// A texture the format can hold: exactly three bytes per pixel.
pub open spec fn texture_encodable(name: Seq<u8>, width: u32, height: u32, rgb: Seq<u8>) -> bool {
    string_ok(name) && rgb.len() == 3 * (width as nat) * (height as nat)
}

/// An animation the format can hold.
pub open spec fn animation_encodable(a: AnimationModel) -> bool {
    &&& string_ok(a.name)
    &&& 0 <= a.joints_length <= 255
    &&& a.frames.len() <= u32::MAX
    &&& forall|f: int| 0 <= f < a.frames.len() ==> (#[trigger] a.frames[f]).len() == a.joints_length
}

} // verus!
