//! The wire contract's round trip: decoding an encoded record yields the
//! record again, byte position by byte position, whatever bytes follow it.
//!
//! Every lemma here is phrased over `pre + encoding + rest`: the decoder,
//! started where the encoding begins, consumes exactly the encoding and
//! returns exactly the encoded value.  The record-level lemmas at the end
//! are the round-trip guarantee itself; the blob-level lemmas add that a
//! blob of several records decodes into those records in order.

use vstd::prelude::*;

use crate::format::{
    dec_end, dec_joint_indices, dec_string, dec_transform, dec_u32, dec_u8, dec_vec2, dec_vec3,
    dec_vec4, dec_vertex_nu, dec_vertex_nus, dec_vertex_p, dec_vertex_u, dec_vertices,
    dec_vertices_nu, dec_vertices_nus, dec_vertices_p, dec_vertices_u, enc_joint_indices,
    enc_mat4, enc_string, enc_transform, enc_u32, enc_vec2, enc_vec3, enc_vec4, enc_vertex_nu,
    enc_vertex_nus, enc_vertex_p, enc_vertex_u, enc_vertices, enc_vertices_nu, enc_vertices_nus,
    enc_vertices_p, enc_vertices_u, end_marker, lemma_u32_roundtrip, string_ok, dec_mat4,
};
use crate::format::{
    dec_joint, dec_joints, dec_mesh_body, dec_parents, dec_record, dec_skeleton, dec_vertex_type,
    enc_joint, enc_joints, enc_mesh, enc_mesh_body, enc_parent_chain, enc_skeleton,
    joint_encodable, mesh_encodable, vt_of_tag, vt_tag, RecordModel, MAX_JOINTS, NO_PARENT,
    TAG_MESH,
};
use crate::model::{AnimationModel, MeshModel, TextureModel};
use crate::assets::{
    blob_animations, blob_meshes, blob_textures, dec_records_upto, record_error_at,
};
use crate::decode::mesh_load_error;
use crate::reader::DecodeError;
use crate::format::dec_blob;
use crate::format::{
    animation_encodable, dec_animation_body, dec_frame, dec_frames, dec_pixels, dec_texture_body,
    enc_animation, enc_animation_body, enc_frame, enc_frames, enc_texture, enc_texture_body,
    rgba_of, texture_encodable, TAG_ANIMATION, TAG_TEXTURE,
};
use crate::model::{
    vertices_len, vertices_match, JointIndices, JointModel, Mat4, Transform, Vec2, Vec3, Vec4,
    VertexNU, VertexNUS, VertexP, VertexType, VertexU, VerticesModel,
};

verus! {

broadcast use crate::format::lemma_enc_u32_len;

/// Plain sequence equality, used to state byte-layout equalities that
/// follow from associativity alone, without element-wise reasoning.
pub open spec fn same_bytes(a: Seq<u8>, b: Seq<u8>) -> bool {
    a == b
}

/// One encoded byte reads back.
pub proof fn lemma_dec_u8_at(pre: Seq<u8>, b: u8, rest: Seq<u8>)
    ensures
        dec_u8(pre + seq![b] + rest, pre.len() as int) == Some((b, pre.len() as int + 1)),
{
    let s = pre + seq![b] + rest;
    assert(s[pre.len() as int] == b);
}

/// An encoded big-endian `u32` reads back.
pub proof fn lemma_dec_u32_at(pre: Seq<u8>, v: u32, rest: Seq<u8>)
    ensures
        dec_u32(pre + enc_u32(v) + rest, pre.len() as int) == Some((v, pre.len() as int + 4)),
{
    reveal(crate::format::enc_u32);
    reveal(crate::format::dec_u32);
    let s = pre + enc_u32(v) + rest;
    let i = pre.len() as int;
    assert(s[i] == enc_u32(v)[0] && s[i + 1] == enc_u32(v)[1] && s[i + 2] == enc_u32(v)[2] && s[i
        + 3] == enc_u32(v)[3]);
    lemma_u32_roundtrip(v);
}

/// An encoded string (sentinel-free payload) reads back.
pub proof fn lemma_dec_string_at(pre: Seq<u8>, v: Seq<u8>, rest: Seq<u8>)
    requires
        string_ok(v),
    ensures
        dec_string(pre + enc_string(v) + rest, pre.len() as int) == Some(
            (v, pre.len() as int + v.len() + 1),
        ),
    decreases v.len(),
{
    let s = pre + enc_string(v) + rest;
    let i = pre.len() as int;
    if v.len() == 0 {
        assert(s[i] == 35);
    } else {
        assert(s[i] == v[0]);
        assert(v[0] != 35);
        let pre2 = pre + seq![v[0]];
        let v2 = v.drop_first();
        assert(string_ok(v2));
        assert(pre2 + enc_string(v2) + rest =~= s);
        lemma_dec_string_at(pre2, v2, rest);
        assert(dec_string(s, i + 1) == Some((v2, pre2.len() as int + v2.len() + 1)));
        assert(seq![v[0]] + v2 =~= v);
    }
}

/// The `END` marker reads back.
pub proof fn lemma_dec_end_at(pre: Seq<u8>, rest: Seq<u8>)
    ensures
        dec_end(pre + end_marker() + rest, pre.len() as int) == Some(pre.len() as int + 3),
{
    let s = pre + end_marker() + rest;
    let i = pre.len() as int;
    assert(s[i] == 69 && s[i + 1] == 78 && s[i + 2] == 68);
}

/// Two encoded float bit patterns read back.
pub proof fn lemma_dec_vec2_at(pre: Seq<u8>, v: Vec2, rest: Seq<u8>)
    ensures
        dec_vec2(pre + enc_vec2(v) + rest, pre.len() as int) == Some((v, pre.len() as int + 8)),
{
    let s = pre + enc_vec2(v) + rest;
    assert(s =~= pre + enc_u32(v.x) + (enc_u32(v.y) + rest));
    lemma_dec_u32_at(pre, v.x, enc_u32(v.y) + rest);
    let pre1 = pre + enc_u32(v.x);
    assert(s =~= pre1 + enc_u32(v.y) + rest);
    lemma_dec_u32_at(pre1, v.y, rest);
}

/// Three encoded float bit patterns read back.
pub proof fn lemma_dec_vec3_at(pre: Seq<u8>, v: Vec3, rest: Seq<u8>)
    ensures
        dec_vec3(pre + enc_vec3(v) + rest, pre.len() as int) == Some((v, pre.len() as int + 12)),
{
    let s = pre + enc_vec3(v) + rest;
    assert(s =~= pre + enc_u32(v.x) + (enc_u32(v.y) + enc_u32(v.z) + rest));
    lemma_dec_u32_at(pre, v.x, enc_u32(v.y) + enc_u32(v.z) + rest);
    let pre1 = pre + enc_u32(v.x);
    assert(s =~= pre1 + enc_u32(v.y) + (enc_u32(v.z) + rest));
    lemma_dec_u32_at(pre1, v.y, enc_u32(v.z) + rest);
    let pre2 = pre1 + enc_u32(v.y);
    assert(s =~= pre2 + enc_u32(v.z) + rest);
    lemma_dec_u32_at(pre2, v.z, rest);
}

/// Four encoded float bit patterns read back.
pub proof fn lemma_dec_vec4_at(pre: Seq<u8>, v: Vec4, rest: Seq<u8>)
    ensures
        dec_vec4(pre + enc_vec4(v) + rest, pre.len() as int) == Some((v, pre.len() as int + 16)),
{
    let s = pre + enc_vec4(v) + rest;
    assert(s =~= pre + enc_u32(v.x) + (enc_u32(v.y) + enc_u32(v.z) + enc_u32(v.w) + rest));
    lemma_dec_u32_at(pre, v.x, enc_u32(v.y) + enc_u32(v.z) + enc_u32(v.w) + rest);
    let pre1 = pre + enc_u32(v.x);
    assert(s =~= pre1 + enc_u32(v.y) + (enc_u32(v.z) + enc_u32(v.w) + rest));
    lemma_dec_u32_at(pre1, v.y, enc_u32(v.z) + enc_u32(v.w) + rest);
    let pre2 = pre1 + enc_u32(v.y);
    assert(s =~= pre2 + enc_u32(v.z) + (enc_u32(v.w) + rest));
    lemma_dec_u32_at(pre2, v.z, enc_u32(v.w) + rest);
    let pre3 = pre2 + enc_u32(v.z);
    assert(s =~= pre3 + enc_u32(v.w) + rest);
    lemma_dec_u32_at(pre3, v.w, rest);
}

/// An encoded row-major matrix reads back.
#[verifier::rlimit(100)]
#[verifier::spinoff_prover]
pub proof fn lemma_dec_mat4_at(pre: Seq<u8>, m: Mat4, rest: Seq<u8>)
    ensures
        dec_mat4(pre + enc_mat4(m) + rest, pre.len() as int) == Some((m, pre.len() as int + 64)),
{
    let e0 = enc_vec4(m.r0);
    let e1 = enc_vec4(m.r1);
    let e2 = enc_vec4(m.r2);
    let e3 = enc_vec4(m.r3);
    let s = pre + enc_mat4(m) + rest;
    vstd::seq_lib::lemma_concat_associative(pre, (e0 + e1) + e2, e3);
    vstd::seq_lib::lemma_concat_associative(pre + ((e0 + e1) + e2), e3, rest);
    vstd::seq_lib::lemma_concat_associative(pre, e0 + e1, e2);
    vstd::seq_lib::lemma_concat_associative(pre + (e0 + e1), e2, e3 + rest);
    vstd::seq_lib::lemma_concat_associative(pre, e0, e1);
    vstd::seq_lib::lemma_concat_associative(pre + e0, e1, e2 + (e3 + rest));
    assert(same_bytes(s, pre + e0 + (e1 + (e2 + (e3 + rest)))));
    lemma_dec_vec4_at(pre, m.r0, e1 + (e2 + (e3 + rest)));
    let pre1 = pre + e0;
    vstd::seq_lib::lemma_concat_associative(pre1, e1, e2 + (e3 + rest));
    assert(same_bytes(s, pre1 + e1 + (e2 + (e3 + rest))));
    lemma_dec_vec4_at(pre1, m.r1, e2 + (e3 + rest));
    let pre2 = pre1 + e1;
    vstd::seq_lib::lemma_concat_associative(pre2, e2, e3 + rest);
    assert(same_bytes(s, pre2 + e2 + (e3 + rest)));
    lemma_dec_vec4_at(pre2, m.r2, e3 + rest);
    let pre3 = pre2 + e2;
    vstd::seq_lib::lemma_concat_associative(pre3, e3, rest);
    assert(same_bytes(s, pre3 + e3 + rest));
    lemma_dec_vec4_at(pre3, m.r3, rest);
}

/// Encoded joint influences read back.
pub proof fn lemma_dec_joint_indices_at(pre: Seq<u8>, v: JointIndices, rest: Seq<u8>)
    ensures
        dec_joint_indices(pre + enc_joint_indices(v) + rest, pre.len() as int) == Some(
            (v, pre.len() as int + 4),
        ),
{
    let s = pre + enc_joint_indices(v) + rest;
    let i = pre.len() as int;
    assert(s[i] == v.a && s[i + 1] == v.b && s[i + 2] == v.c && s[i + 3] == v.d);
}

/// An encoded transform reads back.
#[verifier::rlimit(100)]
#[verifier::spinoff_prover]
pub proof fn lemma_dec_transform_at(pre: Seq<u8>, t: Transform, rest: Seq<u8>)
    ensures
        dec_transform(pre + enc_transform(t) + rest, pre.len() as int) == Some(
            (t, pre.len() as int + 36),
        ),
{
    let s = pre + enc_transform(t) + rest;
    assert(s =~= pre + enc_vec3(t.translation) + (enc_vec3(t.rotation) + enc_vec3(t.scale)
        + rest));
    lemma_dec_vec3_at(pre, t.translation, enc_vec3(t.rotation) + enc_vec3(t.scale) + rest);
    let pre1 = pre + enc_vec3(t.translation);
    assert(s =~= pre1 + enc_vec3(t.rotation) + (enc_vec3(t.scale) + rest));
    lemma_dec_vec3_at(pre1, t.rotation, enc_vec3(t.scale) + rest);
    let pre2 = pre1 + enc_vec3(t.rotation);
    assert(s =~= pre2 + enc_vec3(t.scale) + rest);
    lemma_dec_vec3_at(pre2, t.scale, rest);
}

/// An encoded `Basic` vertex reads back.
pub proof fn lemma_dec_vertex_p_at(pre: Seq<u8>, v: VertexP, rest: Seq<u8>)
    ensures
        dec_vertex_p(pre + enc_vertex_p(v) + rest, pre.len() as int) == Some(
            (v, pre.len() as int + 12),
        ),
{
    lemma_dec_vec3_at(pre, v.position, rest);
}

/// An encoded `U` vertex reads back.
pub proof fn lemma_dec_vertex_u_at(pre: Seq<u8>, v: VertexU, rest: Seq<u8>)
    ensures
        dec_vertex_u(pre + enc_vertex_u(v) + rest, pre.len() as int) == Some(
            (v, pre.len() as int + 20),
        ),
{
    let s = pre + enc_vertex_u(v) + rest;
    assert(s =~= pre + enc_vec3(v.position) + (enc_vec2(v.uv) + rest));
    lemma_dec_vec3_at(pre, v.position, enc_vec2(v.uv) + rest);
    let pre1 = pre + enc_vec3(v.position);
    assert(s =~= pre1 + enc_vec2(v.uv) + rest);
    lemma_dec_vec2_at(pre1, v.uv, rest);
}

/// An encoded `NU` vertex reads back.
pub proof fn lemma_dec_vertex_nu_at(pre: Seq<u8>, v: VertexNU, rest: Seq<u8>)
    ensures
        dec_vertex_nu(pre + enc_vertex_nu(v) + rest, pre.len() as int) == Some(
            (v, pre.len() as int + 32),
        ),
{
    let s = pre + enc_vertex_nu(v) + rest;
    assert(s =~= pre + enc_vec3(v.position) + (enc_vec3(v.normal) + enc_vec2(v.uv) + rest));
    lemma_dec_vec3_at(pre, v.position, enc_vec3(v.normal) + enc_vec2(v.uv) + rest);
    let pre1 = pre + enc_vec3(v.position);
    assert(s =~= pre1 + enc_vec3(v.normal) + (enc_vec2(v.uv) + rest));
    lemma_dec_vec3_at(pre1, v.normal, enc_vec2(v.uv) + rest);
    let pre2 = pre1 + enc_vec3(v.normal);
    assert(s =~= pre2 + enc_vec2(v.uv) + rest);
    lemma_dec_vec2_at(pre2, v.uv, rest);
}

/// An encoded `NUS` vertex reads back.
#[verifier::rlimit(60)]
pub proof fn lemma_dec_vertex_nus_at(pre: Seq<u8>, v: VertexNUS, rest: Seq<u8>)
    ensures
        dec_vertex_nus(pre + enc_vertex_nus(v) + rest, pre.len() as int) == Some(
            (v, pre.len() as int + 52),
        ),
{
    let s = pre + enc_vertex_nus(v) + rest;
    let e1 = enc_vec3(v.position);
    let e2 = enc_vec3(v.normal);
    let e3 = enc_vec2(v.uv);
    let e4 = enc_joint_indices(v.joints);
    let e5 = enc_vec4(v.weights);
    assert(s =~= pre + e1 + (e2 + e3 + e4 + e5 + rest));
    lemma_dec_vec3_at(pre, v.position, e2 + e3 + e4 + e5 + rest);
    let pre1 = pre + e1;
    assert(s =~= pre1 + e2 + (e3 + e4 + e5 + rest));
    lemma_dec_vec3_at(pre1, v.normal, e3 + e4 + e5 + rest);
    let pre2 = pre1 + e2;
    assert(s =~= pre2 + e3 + (e4 + e5 + rest));
    lemma_dec_vec2_at(pre2, v.uv, e4 + e5 + rest);
    let pre3 = pre2 + e3;
    assert(s =~= pre3 + e4 + (e5 + rest));
    lemma_dec_joint_indices_at(pre3, v.joints, e5 + rest);
    let pre4 = pre3 + e4;
    assert(s =~= pre4 + e5 + rest);
    lemma_dec_vec4_at(pre4, v.weights, rest);
}

/// An encoded `Basic` vertex stream reads back, whole.
pub proof fn lemma_dec_vertices_p_at(pre: Seq<u8>, vs: Seq<VertexP>, rest: Seq<u8>)
    ensures
        dec_vertices_p(pre + enc_vertices_p(vs) + rest, pre.len() as int, vs.len()) == Some(
            (vs, pre.len() as int + enc_vertices_p(vs).len()),
        ),
    decreases vs.len(),
{
    let s = pre + enc_vertices_p(vs) + rest;
    if vs.len() == 0 {
        assert(s =~= pre + rest);
        assert(vs =~= Seq::<VertexP>::empty());
    } else {
        let v0 = vs[0];
        let vs2 = vs.drop_first();
        assert(s =~= pre + enc_vertex_p(v0) + (enc_vertices_p(vs2) + rest));
        lemma_dec_vertex_p_at(pre, v0, enc_vertices_p(vs2) + rest);
        let pre1 = pre + enc_vertex_p(v0);
        assert(s =~= pre1 + enc_vertices_p(vs2) + rest);
        lemma_dec_vertices_p_at(pre1, vs2, rest);
        assert(seq![v0] + vs2 =~= vs);
    }
}

/// An encoded `U` vertex stream reads back, whole.
pub proof fn lemma_dec_vertices_u_at(pre: Seq<u8>, vs: Seq<VertexU>, rest: Seq<u8>)
    ensures
        dec_vertices_u(pre + enc_vertices_u(vs) + rest, pre.len() as int, vs.len()) == Some(
            (vs, pre.len() as int + enc_vertices_u(vs).len()),
        ),
    decreases vs.len(),
{
    let s = pre + enc_vertices_u(vs) + rest;
    if vs.len() == 0 {
        assert(s =~= pre + rest);
        assert(vs =~= Seq::<VertexU>::empty());
    } else {
        let v0 = vs[0];
        let vs2 = vs.drop_first();
        assert(s =~= pre + enc_vertex_u(v0) + (enc_vertices_u(vs2) + rest));
        lemma_dec_vertex_u_at(pre, v0, enc_vertices_u(vs2) + rest);
        let pre1 = pre + enc_vertex_u(v0);
        assert(s =~= pre1 + enc_vertices_u(vs2) + rest);
        lemma_dec_vertices_u_at(pre1, vs2, rest);
        assert(seq![v0] + vs2 =~= vs);
    }
}

/// An encoded `NU` vertex stream reads back, whole.
pub proof fn lemma_dec_vertices_nu_at(pre: Seq<u8>, vs: Seq<VertexNU>, rest: Seq<u8>)
    ensures
        dec_vertices_nu(pre + enc_vertices_nu(vs) + rest, pre.len() as int, vs.len()) == Some(
            (vs, pre.len() as int + enc_vertices_nu(vs).len()),
        ),
    decreases vs.len(),
{
    let s = pre + enc_vertices_nu(vs) + rest;
    if vs.len() == 0 {
        assert(s =~= pre + rest);
        assert(vs =~= Seq::<VertexNU>::empty());
    } else {
        let v0 = vs[0];
        let vs2 = vs.drop_first();
        assert(s =~= pre + enc_vertex_nu(v0) + (enc_vertices_nu(vs2) + rest));
        lemma_dec_vertex_nu_at(pre, v0, enc_vertices_nu(vs2) + rest);
        let pre1 = pre + enc_vertex_nu(v0);
        assert(s =~= pre1 + enc_vertices_nu(vs2) + rest);
        lemma_dec_vertices_nu_at(pre1, vs2, rest);
        assert(seq![v0] + vs2 =~= vs);
    }
}

/// An encoded `NUS` vertex stream reads back, whole.
pub proof fn lemma_dec_vertices_nus_at(pre: Seq<u8>, vs: Seq<VertexNUS>, rest: Seq<u8>)
    ensures
        dec_vertices_nus(pre + enc_vertices_nus(vs) + rest, pre.len() as int, vs.len()) == Some(
            (vs, pre.len() as int + enc_vertices_nus(vs).len()),
        ),
    decreases vs.len(),
{
    let s = pre + enc_vertices_nus(vs) + rest;
    if vs.len() == 0 {
        assert(s =~= pre + rest);
        assert(vs =~= Seq::<VertexNUS>::empty());
    } else {
        let v0 = vs[0];
        let vs2 = vs.drop_first();
        assert(s =~= pre + enc_vertex_nus(v0) + (enc_vertices_nus(vs2) + rest));
        lemma_dec_vertex_nus_at(pre, v0, enc_vertices_nus(vs2) + rest);
        let pre1 = pre + enc_vertex_nus(v0);
        assert(s =~= pre1 + enc_vertices_nus(vs2) + rest);
        lemma_dec_vertices_nus_at(pre1, vs2, rest);
        assert(seq![v0] + vs2 =~= vs);
    }
}

/// An encoded vertex stream of any layout reads back, whole.
pub proof fn lemma_dec_vertices_at(pre: Seq<u8>, vt: VertexType, vs: VerticesModel, rest: Seq<u8>)
    requires
        vertices_match(vt, vs),
    ensures
        dec_vertices(pre + enc_vertices(vs) + rest, pre.len() as int, vt, vertices_len(vs))
            == Some((vs, pre.len() as int + enc_vertices(vs).len())),
{
    match vs {
        VerticesModel::Basic(l) => lemma_dec_vertices_p_at(pre, l, rest),
        VerticesModel::U(l) => lemma_dec_vertices_u_at(pre, l, rest),
        VerticesModel::NU(l) => lemma_dec_vertices_nu_at(pre, l, rest),
        VerticesModel::NUS(l) => lemma_dec_vertices_nus_at(pre, l, rest),
    }
}

/// An encoded ancestor chain (with its closing sentinel) reads back.
pub proof fn lemma_dec_parents_at(pre: Seq<u8>, ps: Seq<int>, rest: Seq<u8>)
    requires
        forall|k: int| 0 <= k < ps.len() ==> 0 <= #[trigger] ps[k] < 255,
    ensures
        dec_parents(pre + (enc_parent_chain(ps) + seq![NO_PARENT]) + rest, pre.len() as int)
            == Some((ps, pre.len() as int + ps.len() + 1)),
    decreases ps.len(),
{
    let s = pre + (enc_parent_chain(ps) + seq![NO_PARENT]) + rest;
    let i = pre.len() as int;
    if ps.len() == 0 {
        assert(enc_parent_chain(ps).len() == 0);
        assert(s[i] == NO_PARENT);
    } else {
        assert(enc_parent_chain(ps)[0] == (ps[0]) as u8);
        assert(s[i] == (ps[0]) as u8);
        assert((ps[0]) as u8 != NO_PARENT);
        let pre2 = pre + seq![(ps[0]) as u8];
        let ps2 = ps.drop_first();
        assert(enc_parent_chain(ps2) =~= enc_parent_chain(ps).drop_first());
        assert(pre2 + (enc_parent_chain(ps2) + seq![NO_PARENT]) + rest =~= s);
        lemma_dec_parents_at(pre2, ps2, rest);
        assert(dec_parents(s, i + 1) == Some((ps2, pre2.len() as int + ps2.len() + 1)));
        assert(((ps[0]) as u8) as int == ps[0]);
        assert(seq![s[i] as int] + ps2 =~= ps);
    }
}

/// An encoded joint reads back, with the id its position gives it.
#[verifier::rlimit(100)]
#[verifier::spinoff_prover]
pub proof fn lemma_dec_joint_at(pre: Seq<u8>, j: JointModel, rest: Seq<u8>)
    requires
        joint_encodable(j, j.id),
    ensures
        dec_joint(pre + enc_joint(j) + rest, pre.len() as int, j.id) == Some(
            (j, pre.len() as int + enc_joint(j).len()),
        ),
{
    let e1 = enc_string(j.name);
    let e2: Seq<u8> = seq![(j.parent) as u8];
    let e3 = enc_parent_chain(j.parents) + seq![NO_PARENT];
    let e4 = enc_mat4(j.tpose);
    let e5 = enc_mat4(j.tpose_local);
    let e6 = enc_mat4(j.ibm);
    let s = pre + enc_joint(j) + rest;
    assert(s =~= pre + e1 + (e2 + (e3 + (e4 + (e5 + (e6 + rest))))));
    lemma_dec_string_at(pre, j.name, e2 + (e3 + (e4 + (e5 + (e6 + rest)))));
    let pre1 = pre + e1;
    assert(s =~= pre1 + e2 + (e3 + (e4 + (e5 + (e6 + rest)))));
    lemma_dec_u8_at(pre1, (j.parent) as u8, e3 + (e4 + (e5 + (e6 + rest))));
    assert(((j.parent) as u8) as int == j.parent);
    let pre2 = pre1 + e2;
    assert(s =~= pre2 + e3 + (e4 + (e5 + (e6 + rest))));
    lemma_dec_parents_at(pre2, j.parents, e4 + (e5 + (e6 + rest)));
    let pre3 = pre2 + e3;
    assert(s =~= pre3 + e4 + (e5 + (e6 + rest)));
    lemma_dec_mat4_at(pre3, j.tpose, e5 + (e6 + rest));
    let pre4 = pre3 + e4;
    assert(s =~= pre4 + e5 + (e6 + rest));
    lemma_dec_mat4_at(pre4, j.tpose_local, e6 + rest);
    let pre5 = pre4 + e5;
    assert(s =~= pre5 + e6 + rest);
    lemma_dec_mat4_at(pre5, j.ibm, rest);
}

/// An encoded run of joints reads back, ids counting up from `id`.
pub proof fn lemma_dec_joints_at(pre: Seq<u8>, js: Seq<JointModel>, id: int, rest: Seq<u8>)
    requires
        forall|k: int| 0 <= k < js.len() ==> joint_encodable(#[trigger] js[k], id + k),
    ensures
        dec_joints(pre + enc_joints(js) + rest, pre.len() as int, js.len(), id) == Some(
            (js, pre.len() as int + enc_joints(js).len()),
        ),
    decreases js.len(),
{
    let s = pre + enc_joints(js) + rest;
    if js.len() == 0 {
        assert(s =~= pre + rest);
        assert(js =~= Seq::<JointModel>::empty());
    } else {
        let j0 = js[0];
        let js2 = js.drop_first();
        assert(joint_encodable(j0, id));
        assert(j0.id == id);
        assert(s =~= pre + enc_joint(j0) + (enc_joints(js2) + rest));
        lemma_dec_joint_at(pre, j0, enc_joints(js2) + rest);
        let pre1 = pre + enc_joint(j0);
        assert(s =~= pre1 + enc_joints(js2) + rest);
        assert(forall|k: int|
            0 <= k < js2.len() ==> joint_encodable(#[trigger] js2[k], id + 1 + k));
        lemma_dec_joints_at(pre1, js2, id + 1, rest);
        assert(seq![j0] + js2 =~= js);
    }
}

/// An encoded skeleton (count byte, then the joints) reads back.
pub proof fn lemma_dec_skeleton_at(pre: Seq<u8>, js: Seq<JointModel>, rest: Seq<u8>)
    requires
        js.len() < MAX_JOINTS,
        forall|k: int| 0 <= k < js.len() ==> joint_encodable(#[trigger] js[k], k),
    ensures
        dec_skeleton(pre + enc_skeleton(js) + rest, pre.len() as int) == Some(
            (js, pre.len() as int + enc_skeleton(js).len()),
        ),
{
    let s = pre + enc_skeleton(js) + rest;
    let count: u8 = (js.len()) as u8;
    assert(s =~= pre + seq![count] + (enc_joints(js) + rest));
    lemma_dec_u8_at(pre, count, enc_joints(js) + rest);
    assert((count as int) < MAX_JOINTS);
    let pre1 = pre + seq![count];
    assert(s =~= pre1 + enc_joints(js) + rest);
    lemma_dec_joints_at(pre1, js, 0, rest);
    assert(count as nat == js.len());
}

/// An encoded layout tag string reads back to its layout.
pub proof fn lemma_dec_vertex_type_at(pre: Seq<u8>, vt: VertexType, rest: Seq<u8>)
    ensures
        dec_vertex_type(pre + enc_string(vt_tag(vt)) + rest, pre.len() as int) == Some(
            (vt, pre.len() as int + vt_tag(vt).len() + 1),
        ),
{
    assert(string_ok(vt_tag(vt))) by {
        match vt {
            VertexType::Basic => {},
            VertexType::U => {},
            VertexType::NU => {},
            VertexType::NUS => {},
        }
    }
    lemma_dec_string_at(pre, vt_tag(vt), rest);
    assert(vt_of_tag(vt_tag(vt)) == Some(vt)) by {
        match vt {
            VertexType::Basic => {},
            VertexType::U => {
                assert(vt_tag(VertexType::U) != vt_tag(VertexType::Basic));
            },
            VertexType::NU => {
                assert(vt_tag(VertexType::NU) != vt_tag(VertexType::Basic));
                assert(vt_tag(VertexType::NU) != vt_tag(VertexType::U));
            },
            VertexType::NUS => {
                assert(vt_tag(VertexType::NUS) != vt_tag(VertexType::Basic));
                assert(vt_tag(VertexType::NUS) != vt_tag(VertexType::U));
                assert(vt_tag(VertexType::NUS) != vt_tag(VertexType::NU));
            },
        }
    }
}

/// An encoded mesh payload reads back.
#[verifier::rlimit(100)]
#[verifier::spinoff_prover]
pub proof fn lemma_dec_mesh_body_at(pre: Seq<u8>, m: MeshModel, rest: Seq<u8>)
    requires
        mesh_encodable(m),
    ensures
        dec_mesh_body(pre + enc_mesh_body(m) + rest, pre.len() as int) == Some(
            (m, pre.len() as int + enc_mesh_body(m).len()),
        ),
{
    let e1 = enc_string(m.name);
    let e2 = enc_string(vt_tag(m.vertex_type));
    let e3 = enc_u32(vertices_len(m.vertices) as u32);
    let e4 = enc_vertices(m.vertices);
    let e5: Seq<u8> = if m.vertex_type is NUS {
        enc_skeleton(m.joints)
    } else {
        Seq::empty()
    };
    let s = pre + enc_mesh_body(m) + rest;
    assert(s =~= pre + e1 + (e2 + (e3 + (e4 + (e5 + rest)))));
    lemma_dec_string_at(pre, m.name, e2 + (e3 + (e4 + (e5 + rest))));
    let pre1 = pre + e1;
    assert(s =~= pre1 + e2 + (e3 + (e4 + (e5 + rest))));
    lemma_dec_vertex_type_at(pre1, m.vertex_type, e3 + (e4 + (e5 + rest)));
    let pre2 = pre1 + e2;
    assert(s =~= pre2 + e3 + (e4 + (e5 + rest)));
    lemma_dec_u32_at(pre2, vertices_len(m.vertices) as u32, e4 + (e5 + rest));
    assert((vertices_len(m.vertices) as u32) as nat == vertices_len(m.vertices));
    let pre3 = pre2 + e3;
    assert(s =~= pre3 + e4 + (e5 + rest));
    lemma_dec_vertices_at(pre3, m.vertex_type, m.vertices, e5 + rest);
    let pre4 = pre3 + e4;
    if m.vertex_type is NUS {
        assert(s =~= pre4 + e5 + rest);
        lemma_dec_skeleton_at(pre4, m.joints, rest);
    } else {
        assert(m.joints =~= Seq::<JointModel>::empty());
        assert(pre4 + e5 =~= pre4);
    }
}

/// An encoded mesh record (tag to `END`) reads back as one record.
pub proof fn lemma_dec_record_mesh_at(pre: Seq<u8>, m: MeshModel, rest: Seq<u8>)
    requires
        mesh_encodable(m),
    ensures
        dec_record(pre + enc_mesh(m) + rest, pre.len() as int) == Some(
            (RecordModel::Mesh(m), pre.len() as int + enc_mesh(m).len()),
        ),
{
    let s = pre + enc_mesh(m) + rest;
    let body = enc_mesh_body(m);
    assert(s =~= pre + seq![TAG_MESH] + (body + (end_marker() + rest)));
    lemma_dec_u8_at(pre, TAG_MESH, body + (end_marker() + rest));
    let pre1 = pre + seq![TAG_MESH];
    assert(s =~= pre1 + body + (end_marker() + rest));
    lemma_dec_mesh_body_at(pre1, m, end_marker() + rest);
    let pre2 = pre1 + body;
    assert(s =~= pre2 + end_marker() + rest);
    lemma_dec_end_at(pre2, rest);
}

/// The round trip of a mesh: decoding its encoding yields every field of
/// the mesh again, and consumes exactly the record's bytes.
pub proof fn lemma_mesh_roundtrip(m: MeshModel)
    requires
        mesh_encodable(m),
    ensures
        dec_record(enc_mesh(m), 0) == Some((RecordModel::Mesh(m), enc_mesh(m).len() as int)),
{
    assert(Seq::<u8>::empty() + enc_mesh(m) + Seq::<u8>::empty() =~= enc_mesh(m));
    lemma_dec_record_mesh_at(Seq::empty(), m, Seq::empty());
}

/// Encoded raw RGB bytes read back as opaque RGBA pixels.
pub proof fn lemma_dec_pixels_at(pre: Seq<u8>, rgb: Seq<u8>, n: nat, rest: Seq<u8>)
    requires
        rgb.len() == 3 * n,
    ensures
        dec_pixels(pre + rgb + rest, pre.len() as int, n) == Some(
            (rgba_of(rgb), pre.len() as int + rgb.len()),
        ),
    decreases n,
{
    let s = pre + rgb + rest;
    let i = pre.len() as int;
    if n == 0 {
        assert(rgba_of(rgb) =~= Seq::<u8>::empty());
    } else {
        assert(s[i] == rgb[0] && s[i + 1] == rgb[1] && s[i + 2] == rgb[2]);
        let rgb2 = rgb.skip(3);
        let pre2 = pre + seq![rgb[0], rgb[1], rgb[2]];
        assert(pre2 + rgb2 + rest =~= s);
        lemma_dec_pixels_at(pre2, rgb2, (n - 1) as nat, rest);
        assert(dec_pixels(s, i + 3, (n - 1) as nat) == Some(
            (rgba_of(rgb2), pre2.len() as int + rgb2.len()),
        ));
        assert(seq![s[i], s[i + 1], s[i + 2], 255u8] + rgba_of(rgb2) =~= rgba_of(rgb));
    }
}

/// An encoded texture payload reads back.
pub proof fn lemma_dec_texture_body_at(
    pre: Seq<u8>,
    name: Seq<u8>,
    width: u32,
    height: u32,
    rgb: Seq<u8>,
    rest: Seq<u8>,
)
    requires
        texture_encodable(name, width, height, rgb),
    ensures
        dec_texture_body(pre + enc_texture_body(name, width, height, rgb) + rest, pre.len() as int)
            == Some(
            (
                TextureModel { name, width, height, rgba: rgba_of(rgb) },
                pre.len() as int + enc_texture_body(name, width, height, rgb).len(),
            ),
        ),
{
    let e1 = enc_string(name);
    let e2 = enc_u32(width);
    let e3 = enc_u32(height);
    let s = pre + enc_texture_body(name, width, height, rgb) + rest;
    assert(s =~= pre + e1 + (e2 + (e3 + (rgb + rest))));
    lemma_dec_string_at(pre, name, e2 + (e3 + (rgb + rest)));
    let pre1 = pre + e1;
    assert(s =~= pre1 + e2 + (e3 + (rgb + rest)));
    lemma_dec_u32_at(pre1, width, e3 + (rgb + rest));
    let pre2 = pre1 + e2;
    assert(s =~= pre2 + e3 + (rgb + rest));
    lemma_dec_u32_at(pre2, height, rgb + rest);
    let pre3 = pre2 + e3;
    assert(s =~= pre3 + rgb + rest);
    assert(3 * ((width as nat) * (height as nat)) == 3 * (width as nat) * (height as nat))
        by (nonlinear_arith);
    lemma_dec_pixels_at(pre3, rgb, (width as nat) * (height as nat), rest);
}

/// An encoded texture record (tag to `END`) reads back as one record.
pub proof fn lemma_dec_record_texture_at(
    pre: Seq<u8>,
    name: Seq<u8>,
    width: u32,
    height: u32,
    rgb: Seq<u8>,
    rest: Seq<u8>,
)
    requires
        texture_encodable(name, width, height, rgb),
    ensures
        dec_record(pre + enc_texture(name, width, height, rgb) + rest, pre.len() as int) == Some(
            (
                RecordModel::Texture(TextureModel { name, width, height, rgba: rgba_of(rgb) }),
                pre.len() as int + enc_texture(name, width, height, rgb).len(),
            ),
        ),
{
    let s = pre + enc_texture(name, width, height, rgb) + rest;
    let body = enc_texture_body(name, width, height, rgb);
    assert(s =~= pre + seq![TAG_TEXTURE] + (body + (end_marker() + rest)));
    lemma_dec_u8_at(pre, TAG_TEXTURE, body + (end_marker() + rest));
    let pre1 = pre + seq![TAG_TEXTURE];
    assert(s =~= pre1 + body + (end_marker() + rest));
    lemma_dec_texture_body_at(pre1, name, width, height, rgb, end_marker() + rest);
    let pre2 = pre1 + body;
    assert(s =~= pre2 + end_marker() + rest);
    lemma_dec_end_at(pre2, rest);
}

/// The round trip of a texture: decoding its encoding yields the name and
/// dimensions again, and the pixels with every alpha byte opaque.
pub proof fn lemma_texture_roundtrip(name: Seq<u8>, width: u32, height: u32, rgb: Seq<u8>)
    requires
        texture_encodable(name, width, height, rgb),
    ensures
        dec_record(enc_texture(name, width, height, rgb), 0) == Some(
            (
                RecordModel::Texture(TextureModel { name, width, height, rgba: rgba_of(rgb) }),
                enc_texture(name, width, height, rgb).len() as int,
            ),
        ),
{
    assert(Seq::<u8>::empty() + enc_texture(name, width, height, rgb) + Seq::<u8>::empty()
        =~= enc_texture(name, width, height, rgb));
    lemma_dec_record_texture_at(Seq::empty(), name, width, height, rgb, Seq::empty());
}

/// An encoded frame reads back, whole.
pub proof fn lemma_dec_frame_at(pre: Seq<u8>, f: Seq<Transform>, rest: Seq<u8>)
    ensures
        dec_frame(pre + enc_frame(f) + rest, pre.len() as int, f.len()) == Some(
            (f, pre.len() as int + enc_frame(f).len()),
        ),
    decreases f.len(),
{
    let s = pre + enc_frame(f) + rest;
    if f.len() == 0 {
        assert(s =~= pre + rest);
        assert(f =~= Seq::<Transform>::empty());
    } else {
        let t0 = f[0];
        let f2 = f.drop_first();
        assert(s =~= pre + enc_transform(t0) + (enc_frame(f2) + rest));
        lemma_dec_transform_at(pre, t0, enc_frame(f2) + rest);
        let pre1 = pre + enc_transform(t0);
        assert(s =~= pre1 + enc_frame(f2) + rest);
        lemma_dec_frame_at(pre1, f2, rest);
        assert(seq![t0] + f2 =~= f);
    }
}

/// An encoded run of frames reads back, whole.
pub proof fn lemma_dec_frames_at(pre: Seq<u8>, fs: Seq<Seq<Transform>>, jl: nat, rest: Seq<u8>)
    requires
        forall|k: int| 0 <= k < fs.len() ==> (#[trigger] fs[k]).len() == jl,
    ensures
        dec_frames(pre + enc_frames(fs) + rest, pre.len() as int, fs.len(), jl) == Some(
            (fs, pre.len() as int + enc_frames(fs).len()),
        ),
    decreases fs.len(),
{
    let s = pre + enc_frames(fs) + rest;
    if fs.len() == 0 {
        assert(s =~= pre + rest);
        assert(fs =~= Seq::<Seq<Transform>>::empty());
    } else {
        let f0 = fs[0];
        let fs2 = fs.drop_first();
        assert(f0.len() == jl);
        assert(s =~= pre + enc_frame(f0) + (enc_frames(fs2) + rest));
        lemma_dec_frame_at(pre, f0, enc_frames(fs2) + rest);
        let pre1 = pre + enc_frame(f0);
        assert(s =~= pre1 + enc_frames(fs2) + rest);
        lemma_dec_frames_at(pre1, fs2, jl, rest);
        assert(seq![f0] + fs2 =~= fs);
    }
}

/// An encoded animation payload reads back.
pub proof fn lemma_dec_animation_body_at(pre: Seq<u8>, a: AnimationModel, rest: Seq<u8>)
    requires
        animation_encodable(a),
    ensures
        dec_animation_body(pre + enc_animation_body(a) + rest, pre.len() as int) == Some(
            (a, pre.len() as int + enc_animation_body(a).len()),
        ),
{
    let e1 = enc_string(a.name);
    let e2: Seq<u8> = seq![(a.joints_length) as u8];
    let e3 = enc_u32(a.frames.len() as u32);
    let e4 = enc_frames(a.frames);
    let s = pre + enc_animation_body(a) + rest;
    assert(s =~= pre + e1 + (e2 + (e3 + (e4 + rest))));
    lemma_dec_string_at(pre, a.name, e2 + (e3 + (e4 + rest)));
    let pre1 = pre + e1;
    assert(s =~= pre1 + e2 + (e3 + (e4 + rest)));
    lemma_dec_u8_at(pre1, (a.joints_length) as u8, e3 + (e4 + rest));
    assert(((a.joints_length) as u8) as int == a.joints_length);
    let pre2 = pre1 + e2;
    assert(s =~= pre2 + e3 + (e4 + rest));
    lemma_dec_u32_at(pre2, a.frames.len() as u32, e4 + rest);
    assert((a.frames.len() as u32) as nat == a.frames.len());
    let pre3 = pre2 + e3;
    assert(s =~= pre3 + e4 + rest);
    lemma_dec_frames_at(pre3, a.frames, a.joints_length as nat, rest);
}

/// An encoded animation record (tag to `END`) reads back as one record.
pub proof fn lemma_dec_record_animation_at(pre: Seq<u8>, a: AnimationModel, rest: Seq<u8>)
    requires
        animation_encodable(a),
    ensures
        dec_record(pre + enc_animation(a) + rest, pre.len() as int) == Some(
            (RecordModel::Animation(a), pre.len() as int + enc_animation(a).len()),
        ),
{
    let s = pre + enc_animation(a) + rest;
    let body = enc_animation_body(a);
    assert(s =~= pre + seq![TAG_ANIMATION] + (body + (end_marker() + rest)));
    lemma_dec_u8_at(pre, TAG_ANIMATION, body + (end_marker() + rest));
    let pre1 = pre + seq![TAG_ANIMATION];
    assert(s =~= pre1 + body + (end_marker() + rest));
    lemma_dec_animation_body_at(pre1, a, end_marker() + rest);
    let pre2 = pre1 + body;
    assert(s =~= pre2 + end_marker() + rest);
    lemma_dec_end_at(pre2, rest);
}

/// The round trip of an animation: decoding its encoding yields the name,
/// joint count and every frame's transforms again.
pub proof fn lemma_animation_roundtrip(a: AnimationModel)
    requires
        animation_encodable(a),
    ensures
        dec_record(enc_animation(a), 0) == Some(
            (RecordModel::Animation(a), enc_animation(a).len() as int),
        ),
{
    assert(Seq::<u8>::empty() + enc_animation(a) + Seq::<u8>::empty() =~= enc_animation(a));
    lemma_dec_record_animation_at(Seq::empty(), a, Seq::empty());
}

/// A blob of exactly two records decodes into those two records.
pub proof fn lemma_dec_blob_pair(b1: Seq<u8>, r1: RecordModel, b2: Seq<u8>, r2: RecordModel)
    requires
        b1.len() >= 1,
        b2.len() >= 1,
        dec_record(b1 + b2, 0) == Some((r1, b1.len() as int)),
        dec_record(b1 + b2, b1.len() as int) == Some((r2, (b1 + b2).len() as int)),
    ensures
        dec_blob(b1 + b2, 0) == Some(seq![r1, r2]),
{
    let s = b1 + b2;
    assert(dec_blob(s, s.len() as int) == Some(Seq::<RecordModel>::empty()));
    assert(dec_blob(s, b1.len() as int) == Some(seq![r2] + Seq::<RecordModel>::empty()));
    assert(dec_blob(s, 0) == Some(seq![r1] + (seq![r2] + Seq::<RecordModel>::empty())));
    assert(seq![r1] + (seq![r2] + Seq::<RecordModel>::empty()) =~= seq![r1, r2]);
}

/// Tag dispatch: a blob holding a texture record immediately followed by a
/// mesh record decodes into exactly that one texture and that one mesh.
pub proof fn lemma_blob_texture_then_mesh(
    name: Seq<u8>,
    width: u32,
    height: u32,
    rgb: Seq<u8>,
    m: MeshModel,
)
    requires
        texture_encodable(name, width, height, rgb),
        mesh_encodable(m),
    ensures
        ({
            let tm = TextureModel { name, width, height, rgba: rgba_of(rgb) };
            let rs = seq![RecordModel::Texture(tm), RecordModel::Mesh(m)];
            &&& dec_blob(enc_texture(name, width, height, rgb) + enc_mesh(m), 0) == Some(rs)
            &&& blob_meshes(rs) == seq![m]
            &&& blob_textures(rs) == seq![tm]
            &&& blob_animations(rs) == Seq::<AnimationModel>::empty()
        }),
{
    let tm = TextureModel { name, width, height, rgba: rgba_of(rgb) };
    let b1 = enc_texture(name, width, height, rgb);
    let b2 = enc_mesh(m);
    let s = b1 + b2;
    assert(Seq::<u8>::empty() + b1 + b2 =~= s);
    lemma_dec_record_texture_at(Seq::empty(), name, width, height, rgb, b2);
    assert(b1 + b2 + Seq::<u8>::empty() =~= s);
    lemma_dec_record_mesh_at(b1, m, Seq::empty());
    lemma_dec_blob_pair(b1, RecordModel::Texture(tm), b2, RecordModel::Mesh(m));
    let rs = seq![RecordModel::Texture(tm), RecordModel::Mesh(m)];
    lemma_blob_extract_pair(RecordModel::Texture(tm), RecordModel::Mesh(m));
}

/// Tag dispatch, the other order: a mesh record immediately followed by a
/// texture record decodes into the same one mesh and one texture.
pub proof fn lemma_blob_mesh_then_texture(
    m: MeshModel,
    name: Seq<u8>,
    width: u32,
    height: u32,
    rgb: Seq<u8>,
)
    requires
        mesh_encodable(m),
        texture_encodable(name, width, height, rgb),
    ensures
        ({
            let tm = TextureModel { name, width, height, rgba: rgba_of(rgb) };
            let rs = seq![RecordModel::Mesh(m), RecordModel::Texture(tm)];
            &&& dec_blob(enc_mesh(m) + enc_texture(name, width, height, rgb), 0) == Some(rs)
            &&& blob_meshes(rs) == seq![m]
            &&& blob_textures(rs) == seq![tm]
            &&& blob_animations(rs) == Seq::<AnimationModel>::empty()
        }),
{
    let tm = TextureModel { name, width, height, rgba: rgba_of(rgb) };
    let b1 = enc_mesh(m);
    let b2 = enc_texture(name, width, height, rgb);
    let s = b1 + b2;
    assert(Seq::<u8>::empty() + b1 + b2 =~= s);
    lemma_dec_record_mesh_at(Seq::empty(), m, b2);
    assert(b1 + b2 + Seq::<u8>::empty() =~= s);
    lemma_dec_record_texture_at(b1, name, width, height, rgb, Seq::empty());
    lemma_dec_blob_pair(b1, RecordModel::Mesh(m), b2, RecordModel::Texture(tm));
    lemma_blob_extract_pair(RecordModel::Mesh(m), RecordModel::Texture(tm));
}

/// What each store receives from a two-record blob.
pub proof fn lemma_blob_extract_pair(r1: RecordModel, r2: RecordModel)
    ensures
        blob_meshes(seq![r1, r2]) == (match r1 {
            RecordModel::Mesh(m) => seq![m],
            _ => Seq::empty(),
        }) + (match r2 {
            RecordModel::Mesh(m) => seq![m],
            _ => Seq::empty(),
        }),
        blob_textures(seq![r1, r2]) == (match r1 {
            RecordModel::Texture(t) => seq![t],
            _ => Seq::empty(),
        }) + (match r2 {
            RecordModel::Texture(t) => seq![t],
            _ => Seq::empty(),
        }),
        blob_animations(seq![r1, r2]) == (match r1 {
            RecordModel::Animation(a) => seq![a],
            _ => Seq::empty(),
        }) + (match r2 {
            RecordModel::Animation(a) => seq![a],
            _ => Seq::empty(),
        }),
{
    let rs = seq![r1, r2];
    assert(rs.drop_first() =~= seq![r2]);
    assert(seq![r2].drop_first() =~= Seq::<RecordModel>::empty());
    assert(blob_meshes(Seq::<RecordModel>::empty()) == Seq::<MeshModel>::empty());
    assert(blob_textures(Seq::<RecordModel>::empty()) == Seq::<TextureModel>::empty());
    assert(blob_animations(Seq::<RecordModel>::empty()) == Seq::<AnimationModel>::empty());
    assert(blob_meshes(seq![r2]) =~= (match r2 {
        RecordModel::Mesh(m) => seq![m],
        _ => Seq::empty(),
    }));
    assert(blob_textures(seq![r2]) =~= (match r2 {
        RecordModel::Texture(t) => seq![t],
        _ => Seq::empty(),
    }));
    assert(blob_animations(seq![r2]) =~= (match r2 {
        RecordModel::Animation(a) => seq![a],
        _ => Seq::empty(),
    }));
    assert(blob_meshes(rs) =~= (match r1 {
        RecordModel::Mesh(m) => seq![m],
        _ => Seq::empty(),
    }) + (match r2 {
        RecordModel::Mesh(m) => seq![m],
        _ => Seq::empty(),
    }));
    assert(blob_textures(rs) =~= (match r1 {
        RecordModel::Texture(t) => seq![t],
        _ => Seq::empty(),
    }) + (match r2 {
        RecordModel::Texture(t) => seq![t],
        _ => Seq::empty(),
    }));
    assert(blob_animations(rs) =~= (match r1 {
        RecordModel::Animation(a) => seq![a],
        _ => Seq::empty(),
    }) + (match r2 {
        RecordModel::Animation(a) => seq![a],
        _ => Seq::empty(),
    }));
}

/// Corruption detection: mutating the three bytes where a mesh record's
/// `END` marker belongs (to anything but `END`), or truncating the record
/// just before them, makes decoding fail -- even though the whole payload
/// before the marker still reads back, which is what lets the decoder
/// report the corrupted asset by name.
pub proof fn lemma_mesh_corruption(m: MeshModel, b0: u8, b1: u8, b2: u8)
    requires
        mesh_encodable(m),
        !(b0 == 69 && b1 == 78 && b2 == 68),
    ensures
        ({
            let tagged_body = seq![TAG_MESH] + enc_mesh_body(m);
            &&& tagged_body + seq![b0, b1, b2] == enc_mesh(m).take(
                enc_mesh(m).len() - 3,
            ) + seq![b0, b1, b2]
            &&& dec_mesh_body(tagged_body + seq![b0, b1, b2], 1) == Some(
                (m, tagged_body.len() as int),
            )
            &&& dec_end(tagged_body + seq![b0, b1, b2], tagged_body.len() as int) is None
            &&& dec_record(tagged_body + seq![b0, b1, b2], 0) is None
            &&& dec_mesh_body(tagged_body, 1) == Some((m, tagged_body.len() as int))
            &&& dec_record(tagged_body, 0) is None
        }),
{
    let tagged_body = seq![TAG_MESH] + enc_mesh_body(m);
    let body = enc_mesh_body(m);
    assert(enc_mesh(m).take(enc_mesh(m).len() - 3) =~= tagged_body);
    let s1 = tagged_body + seq![b0, b1, b2];
    assert(s1 =~= Seq::<u8>::empty() + seq![TAG_MESH] + (body + seq![b0, b1, b2]));
    lemma_dec_u8_at(Seq::empty(), TAG_MESH, body + seq![b0, b1, b2]);
    assert(s1 =~= seq![TAG_MESH] + body + seq![b0, b1, b2]);
    lemma_dec_mesh_body_at(seq![TAG_MESH], m, seq![b0, b1, b2]);
    let e = tagged_body.len() as int;
    assert(s1[e] == b0 && s1[e + 1] == b1 && s1[e + 2] == b2);
    assert(dec_end(s1, e) is None);
    let s2 = tagged_body;
    assert(s2 =~= Seq::<u8>::empty() + seq![TAG_MESH] + (body + Seq::<u8>::empty()));
    lemma_dec_u8_at(Seq::empty(), TAG_MESH, body + Seq::<u8>::empty());
    assert(s2 =~= seq![TAG_MESH] + body + Seq::<u8>::empty());
    lemma_dec_mesh_body_at(seq![TAG_MESH], m, Seq::empty());
    assert(dec_end(s2, s2.len() as int) is None);
}

/// What a whole-blob load must report for a mesh record whose three `END`
/// bytes were overwritten: the only failure position a load can name in
/// such a blob is the record's start (nothing before it decodes), no
/// record reaches the stores, and the error is corruption naming the
/// mesh.
pub proof fn lemma_corrupt_mesh_blob_error(
    m: MeshModel,
    b0: u8,
    b1: u8,
    b2: u8,
    e: DecodeError,
    p: int,
)
    requires
        mesh_encodable(m),
        !(b0 == 69 && b1 == 78 && b2 == 68),
        record_error_at(seq![TAG_MESH] + enc_mesh_body(m) + seq![b0, b1, b2], p, e),
        dec_records_upto(seq![TAG_MESH] + enc_mesh_body(m) + seq![b0, b1, b2], 0, p) is Some,
    ensures
        p == 0,
        dec_records_upto(seq![TAG_MESH] + enc_mesh_body(m) + seq![b0, b1, b2], 0, 0) == Some(
            Seq::<RecordModel>::empty(),
        ),
        e matches DecodeError::Corrupt { name } && name@ == m.name,
{
    let s = seq![TAG_MESH] + enc_mesh_body(m) + seq![b0, b1, b2];
    lemma_mesh_corruption(m, b0, b1, b2);
    assert(s == (seq![TAG_MESH] + enc_mesh_body(m)) + seq![b0, b1, b2]);
    assert(dec_record(s, 0) is None);
    if p != 0 {
        assert(dec_records_upto(s, 0, p) is None);
    }
    assert(s[0] == TAG_MESH);
    assert(dec_u8(s, 0) == Some((TAG_MESH, 1int)));
    assert(mesh_load_error(s, 1, e));
}

/// The same, for a mesh record truncated just before its `END` marker.
pub proof fn lemma_truncated_mesh_blob_error(m: MeshModel, e: DecodeError, p: int)
    requires
        mesh_encodable(m),
        record_error_at(seq![TAG_MESH] + enc_mesh_body(m), p, e),
        dec_records_upto(seq![TAG_MESH] + enc_mesh_body(m), 0, p) is Some,
    ensures
        p == 0,
        dec_records_upto(seq![TAG_MESH] + enc_mesh_body(m), 0, 0) == Some(
            Seq::<RecordModel>::empty(),
        ),
        e matches DecodeError::Corrupt { name } && name@ == m.name,
{
    let s = seq![TAG_MESH] + enc_mesh_body(m);
    // Any non-END byte triple instantiates the corruption lemma; only its
    // truncation clauses are used here.
    lemma_mesh_corruption(m, 69, 78, 67);
    assert(dec_record(s, 0) is None);
    if p != 0 {
        assert(dec_records_upto(s, 0, p) is None);
    }
    assert(s[0] == TAG_MESH);
    assert(dec_u8(s, 0) == Some((TAG_MESH, 1int)));
    assert(mesh_load_error(s, 1, e));
}

} // verus!
