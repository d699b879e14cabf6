//! Record encoders: the byte-exact producers of the wire format.
//!
//! Each encoder is proved to emit exactly the bytes that the `enc_*`
//! specification functions of [`crate::format`] name, so together with the
//! decoders' contracts the two halves of the wire contract cannot drift
//! apart.

use vstd::prelude::*;

use crate::format::{
    animation_encodable, enc_animation, enc_frame, enc_frames, enc_joint, enc_joints, enc_mesh,
    enc_string, enc_texture, enc_transform, enc_vertices_nu, enc_vertices_nus, enc_vertices_p,
    enc_vertices_u, joint_encodable, mesh_encodable, texture_encodable, vt_tag, NO_PARENT,
    TAG_ANIMATION, TAG_MESH, TAG_TEXTURE,
};
use crate::model::{
    frames_view, joints_view, vertices_len, Animation, AnimationFrame, Joint, Mesh, TextureImage,
    Transform, VertexData, VertexNU, VertexNUS, VertexP, VertexType, VertexU,
};
use crate::writer::Writer;

verus! {

broadcast use crate::format::lemma_enc_u32_len;

/// Writes the layout tag string of a vertex type.
fn write_vt_tag(w: &mut Writer, vt: VertexType)
    ensures
        final(w).0@ == old(w).0@ + enc_string(vt_tag(vt)),
{
    match vt {
        VertexType::Basic => {
            w.0.push(66);
            w.0.push(97);
            w.0.push(115);
            w.0.push(105);
            w.0.push(99);
            w.0.push(35);
        },
        VertexType::U => {
            w.0.push(85);
            w.0.push(35);
        },
        VertexType::NU => {
            w.0.push(78);
            w.0.push(85);
            w.0.push(35);
        },
        VertexType::NUS => {
            w.0.push(78);
            w.0.push(85);
            w.0.push(83);
            w.0.push(35);
        },
    }
    assert(w.0@ =~= old(w).0@ + enc_string(vt_tag(vt)));
}

/// Writes the three `END` bytes that close a record.
fn write_end(w: &mut Writer)
    ensures
        final(w).0@ == old(w).0@ + crate::format::end_marker(),
{
    w.0.push(69);
    w.0.push(78);
    w.0.push(68);
    assert(w.0@ =~= old(w).0@ + crate::format::end_marker());
}

/// Writes a `Basic` vertex stream.
fn write_vertices_p(w: &mut Writer, vs: &Vec<VertexP>)
    ensures
        final(w).0@ == old(w).0@ + enc_vertices_p(vs@),
{
    proof {
        assert(vs@.skip(0) =~= vs@);
    }
    let mut k: usize = 0;
    while k < vs.len()
        invariant
            k <= vs@.len(),
            w.0@ + enc_vertices_p(vs@.skip(k as int)) == old(w).0@ + enc_vertices_p(vs@),
        decreases vs@.len() - k,
    {
        proof {
            assert(vs@.skip(k as int).drop_first() =~= vs@.skip(k + 1));
            assert(vs@.skip(k as int)[0] == vs@[k as int]);
        }
        w.append_vec3_f32(vs[k].position);
        proof {
            assert(w.0@ + enc_vertices_p(vs@.skip(k + 1)) =~= old(w).0@ + enc_vertices_p(vs@));
        }
        k = k + 1;
    }
    proof {
        assert(vs@.skip(vs@.len() as int) =~= Seq::<VertexP>::empty());
        assert(w.0@ =~= old(w).0@ + enc_vertices_p(vs@));
    }
}

/// Writes a `U` vertex stream.
fn write_vertices_u(w: &mut Writer, vs: &Vec<VertexU>)
    ensures
        final(w).0@ == old(w).0@ + enc_vertices_u(vs@),
{
    proof {
        assert(vs@.skip(0) =~= vs@);
    }
    let mut k: usize = 0;
    while k < vs.len()
        invariant
            k <= vs@.len(),
            w.0@ + enc_vertices_u(vs@.skip(k as int)) == old(w).0@ + enc_vertices_u(vs@),
        decreases vs@.len() - k,
    {
        proof {
            assert(vs@.skip(k as int).drop_first() =~= vs@.skip(k + 1));
            assert(vs@.skip(k as int)[0] == vs@[k as int]);
        }
        w.append_vec3_f32(vs[k].position);
        w.append_vec2_f32(vs[k].uv);
        proof {
            assert(w.0@ + enc_vertices_u(vs@.skip(k + 1)) =~= old(w).0@ + enc_vertices_u(vs@));
        }
        k = k + 1;
    }
    proof {
        assert(vs@.skip(vs@.len() as int) =~= Seq::<VertexU>::empty());
        assert(w.0@ =~= old(w).0@ + enc_vertices_u(vs@));
    }
}

/// Writes an `NU` vertex stream.
fn write_vertices_nu(w: &mut Writer, vs: &Vec<VertexNU>)
    ensures
        final(w).0@ == old(w).0@ + enc_vertices_nu(vs@),
{
    proof {
        assert(vs@.skip(0) =~= vs@);
    }
    let mut k: usize = 0;
    while k < vs.len()
        invariant
            k <= vs@.len(),
            w.0@ + enc_vertices_nu(vs@.skip(k as int)) == old(w).0@ + enc_vertices_nu(vs@),
        decreases vs@.len() - k,
    {
        proof {
            assert(vs@.skip(k as int).drop_first() =~= vs@.skip(k + 1));
            assert(vs@.skip(k as int)[0] == vs@[k as int]);
        }
        w.append_vec3_f32(vs[k].position);
        w.append_vec3_f32(vs[k].normal);
        w.append_vec2_f32(vs[k].uv);
        proof {
            assert(w.0@ + enc_vertices_nu(vs@.skip(k + 1)) =~= old(w).0@ + enc_vertices_nu(vs@));
        }
        k = k + 1;
    }
    proof {
        assert(vs@.skip(vs@.len() as int) =~= Seq::<VertexNU>::empty());
        assert(w.0@ =~= old(w).0@ + enc_vertices_nu(vs@));
    }
}

/// Writes an `NUS` vertex stream.
fn write_vertices_nus(w: &mut Writer, vs: &Vec<VertexNUS>)
    ensures
        final(w).0@ == old(w).0@ + enc_vertices_nus(vs@),
{
    proof {
        assert(vs@.skip(0) =~= vs@);
    }
    let mut k: usize = 0;
    while k < vs.len()
        invariant
            k <= vs@.len(),
            w.0@ + enc_vertices_nus(vs@.skip(k as int)) == old(w).0@ + enc_vertices_nus(vs@),
        decreases vs@.len() - k,
    {
        proof {
            assert(vs@.skip(k as int).drop_first() =~= vs@.skip(k + 1));
            assert(vs@.skip(k as int)[0] == vs@[k as int]);
        }
        w.append_vec3_f32(vs[k].position);
        w.append_vec3_f32(vs[k].normal);
        w.append_vec2_f32(vs[k].uv);
        w.append_joints(vs[k].joints);
        w.append_vec4_f32(vs[k].weights);
        proof {
            assert(w.0@ + enc_vertices_nus(vs@.skip(k + 1)) =~= old(w).0@ + enc_vertices_nus(
                vs@,
            ));
        }
        k = k + 1;
    }
    proof {
        assert(vs@.skip(vs@.len() as int) =~= Seq::<VertexNUS>::empty());
        assert(w.0@ =~= old(w).0@ + enc_vertices_nus(vs@));
    }
}

/// Writes one joint of a skeleton.
#[verifier::rlimit(60)]
fn write_joint(w: &mut Writer, j: &Joint)
    requires
        joint_encodable(j@, j@.id),
    ensures
        final(w).0@ == old(w).0@ + enc_joint(j@),
{
    let ghost chain = crate::format::enc_parent_chain(j@.parents);
    w.append_string(j.name.as_slice());
    w.0.push(j.parent as u8);
    let mut k: usize = 0;
    while k < j.parents.len()
        invariant
            k <= j.parents@.len(),
            joint_encodable(j@, j@.id),
            chain == crate::format::enc_parent_chain(j@.parents),
            w.0@ == old(w).0@ + enc_string(j@.name) + seq![(j@.parent) as u8] + chain.subrange(
                0,
                k as int,
            ),
        decreases j.parents@.len() - k,
    {
        proof {
            assert(j@.parents[k as int] == j.parents@[k as int] as int);
            assert(0 <= j@.parents[k as int] < 255);
            assert(chain[k as int] == (j@.parents[k as int]) as u8);
            assert(chain.subrange(0, k + 1) =~= chain.subrange(0, k as int) + seq![
                chain[k as int],
            ]);
        }
        w.0.push(j.parents[k] as u8);
        proof {
            assert(w.0@ =~= old(w).0@ + enc_string(j@.name) + seq![(j@.parent) as u8]
                + chain.subrange(0, k + 1));
        }
        k = k + 1;
    }
    proof {
        assert(chain.subrange(0, chain.len() as int) =~= chain);
    }
    w.0.push(NO_PARENT);
    w.append_mat4x4(&j.tpose);
    w.append_mat4x4(&j.tpose_local);
    w.append_mat4x4(&j.ibm);
    assert(w.0@ =~= old(w).0@ + enc_joint(j@));
}

/// Writes every joint of a skeleton in turn.
fn write_joints(w: &mut Writer, js: &Vec<Joint>)
    requires
        forall|i: int| 0 <= i < js@.len() ==> joint_encodable(#[trigger] joints_view(js@)[i], i),
    ensures
        final(w).0@ == old(w).0@ + enc_joints(joints_view(js@)),
{
    let ghost jm = joints_view(js@);
    proof {
        assert(jm.skip(0) =~= jm);
    }
    let mut k: usize = 0;
    while k < js.len()
        invariant
            k <= js@.len(),
            jm == joints_view(js@),
            forall|i: int| 0 <= i < js@.len() ==> joint_encodable(#[trigger] jm[i], i),
            w.0@ + enc_joints(jm.skip(k as int)) == old(w).0@ + enc_joints(jm),
        decreases js@.len() - k,
    {
        proof {
            assert(jm.skip(k as int).drop_first() =~= jm.skip(k + 1));
            assert(jm.skip(k as int)[0] == jm[k as int]);
            assert(jm[k as int] == js@[k as int]@);
            assert(joint_encodable(js@[k as int]@, k as int));
            assert(js@[k as int]@.id == k as int);
        }
        write_joint(w, &js[k]);
        proof {
            assert(w.0@ + enc_joints(jm.skip(k + 1)) =~= old(w).0@ + enc_joints(jm));
        }
        k = k + 1;
    }
    proof {
        assert(jm.skip(jm.len() as int) =~= Seq::<crate::model::JointModel>::empty());
        assert(w.0@ =~= old(w).0@ + enc_joints(jm));
    }
}

/// Writes one frame: each joint's transform.
fn write_transform(w: &mut Writer, t: &Transform)
    ensures
        final(w).0@ == old(w).0@ + enc_transform(*t),
{
    w.append_vec3_f32(t.translation);
    w.append_vec3_f32(t.rotation);
    w.append_vec3_f32(t.scale);
    assert(w.0@ =~= old(w).0@ + enc_transform(*t));
}

/// Writes one animation frame.
fn write_frame(w: &mut Writer, f: &AnimationFrame)
    ensures
        final(w).0@ == old(w).0@ + enc_frame(f@),
{
    let ghost fm = f@;
    proof {
        assert(fm.skip(0) =~= fm);
    }
    let mut k: usize = 0;
    while k < f.joints.len()
        invariant
            k <= f.joints@.len(),
            fm == f@,
            fm.len() == f.joints@.len(),
            w.0@ + enc_frame(fm.skip(k as int)) == old(w).0@ + enc_frame(fm),
        decreases f.joints@.len() - k,
    {
        proof {
            assert(fm.skip(k as int).drop_first() =~= fm.skip(k + 1));
            assert(fm.skip(k as int)[0] == fm[k as int]);
            assert(fm[k as int] == f.joints@[k as int].pose);
        }
        write_transform(w, &f.joints[k].pose);
        proof {
            assert(w.0@ + enc_frame(fm.skip(k + 1)) =~= old(w).0@ + enc_frame(fm));
        }
        k = k + 1;
    }
    proof {
        assert(fm.skip(fm.len() as int) =~= Seq::<Transform>::empty());
        assert(w.0@ =~= old(w).0@ + enc_frame(fm));
    }
}

/// Writes every frame of an animation in turn.
fn write_frames(w: &mut Writer, fs: &Vec<AnimationFrame>)
    ensures
        final(w).0@ == old(w).0@ + enc_frames(frames_view(fs@)),
{
    let ghost fm = frames_view(fs@);
    proof {
        assert(fm.skip(0) =~= fm);
    }
    let mut k: usize = 0;
    while k < fs.len()
        invariant
            k <= fs@.len(),
            fm == frames_view(fs@),
            w.0@ + enc_frames(fm.skip(k as int)) == old(w).0@ + enc_frames(fm),
        decreases fs@.len() - k,
    {
        proof {
            assert(fm.skip(k as int).drop_first() =~= fm.skip(k + 1));
            assert(fm.skip(k as int)[0] == fm[k as int]);
            assert(fm[k as int] == fs@[k as int]@);
        }
        write_frame(w, &fs[k]);
        proof {
            assert(w.0@ + enc_frames(fm.skip(k + 1)) =~= old(w).0@ + enc_frames(fm));
        }
        k = k + 1;
    }
    proof {
        assert(fm.skip(fm.len() as int) =~= Seq::<Seq<Transform>>::empty());
        assert(w.0@ =~= old(w).0@ + enc_frames(fm));
    }
}

/// Emits the whole mesh record: tag, name, layout tag, vertex count, the
/// vertex stream and, for the skinned layout, the skeleton, closed by
/// `END`.
pub fn encode_mesh(m: &Mesh) -> (r: Vec<u8>)
    requires
        mesh_encodable(m@),
    ensures
        r@ == enc_mesh(m@),
{
    let mut w = Writer::new();
    w.0.push(TAG_MESH);
    w.append_string(m.name.as_slice());
    write_vt_tag(&mut w, m.vertex_type);
    let count = m.vertices_len();
    w.append_u32(count as u32);
    match &m.vertices {
        VertexData::Basic(vs) => write_vertices_p(&mut w, vs),
        VertexData::U(vs) => write_vertices_u(&mut w, vs),
        VertexData::NU(vs) => write_vertices_nu(&mut w, vs),
        VertexData::NUS(vs) => write_vertices_nus(&mut w, vs),
    }
    match m.vertex_type {
        VertexType::NUS => {
            w.0.push(m.joints.len() as u8);
            write_joints(&mut w, &m.joints);
        },
        _ => {
            proof {
                assert(m@.joints.len() == 0);
            }
        },
    }
    write_end(&mut w);
    proof {
        assert(w.0@ =~= enc_mesh(m@));
    }
    w.0
}

/// Emits the whole texture record: tag, name, width, height and the raw
/// RGB bytes, closed by `END`.
pub fn encode_texture(img: &TextureImage) -> (r: Vec<u8>)
    requires
        texture_encodable(img.name@, img.width, img.height, img.rgb@),
    ensures
        r@ == enc_texture(img.name@, img.width, img.height, img.rgb@),
{
    let mut w = Writer::new();
    w.0.push(TAG_TEXTURE);
    w.append_string(img.name.as_slice());
    w.append_u32(img.width);
    w.append_u32(img.height);
    w.append_bytes(img.rgb.as_slice());
    write_end(&mut w);
    proof {
        assert(w.0@ =~= enc_texture(img.name@, img.width, img.height, img.rgb@));
    }
    w.0
}

/// Emits the whole animation record: tag, name, joint count, frame count
/// and every frame's transforms, closed by `END`.
pub fn encode_animation(a: &Animation) -> (r: Vec<u8>)
    requires
        animation_encodable(a@),
    ensures
        r@ == enc_animation(a@),
{
    let mut w = Writer::new();
    w.0.push(TAG_ANIMATION);
    w.append_string(a.name.as_slice());
    w.0.push(a.joints_length as u8);
    w.append_u32(a.frames.len() as u32);
    write_frames(&mut w, &a.frames);
    write_end(&mut w);
    proof {
        assert(w.0@ =~= enc_animation(a@));
    }
    w.0
}

} // verus!
