//! Record decoders: meshes, textures, animations and their parts.
//!
//! Each decoder is proved equivalent to the corresponding `dec_*`
//! specification function of [`crate::format`]: it returns `Ok` exactly
//! when the bytes at the cursor form a record, and then returns exactly the
//! record the specification names.

use vstd::prelude::*;

use crate::format::{
    dec_animation, dec_animation_body, dec_end, dec_frame, dec_frames, dec_joint, dec_joints, dec_mesh, dec_mesh_body, dec_parents,
    dec_pixels, dec_skeleton, dec_string, dec_texture, dec_texture_body, dec_transform, dec_u8,
    dec_vertex_type, dec_vertices_nu, dec_vertices_nus, dec_vertices_p,
    dec_vertices_u, vt_of_tag, vt_tag, MAX_JOINTS, NO_PARENT,
};
use crate::model::{
    AnimationModel, TextureModel,
    frames_view, joints_view, parents_view, poses_view, Animation, AnimationFrame, AnimationJoint, Joint, Mesh, Texture,
    Transform, VertexData, VertexNU, VertexNUS, VertexP, VertexType, VertexU,
};
use crate::reader::{DecodeError, Reader};

verus! {

broadcast use crate::format::lemma_enc_u32_len;

/// What a failed mesh load says of its error: when everything up to the
/// `END` marker still reads back, the failure is the marker itself, and
/// the error is corruption naming the mesh.
pub open spec fn mesh_load_error(s: Seq<u8>, i: int, e: DecodeError) -> bool {
    match dec_mesh_body(s, i) {
        Some((bm, j)) => dec_end(s, j) is None && (e matches DecodeError::Corrupt { name }
            && name@ == bm.name),
        None => true,
    }
}

/// What a failed texture load says of its error, like [`mesh_load_error`].
pub open spec fn texture_load_error(s: Seq<u8>, i: int, e: DecodeError) -> bool {
    match dec_texture_body(s, i) {
        Some((bt, j)) => dec_end(s, j) is None && (e matches DecodeError::Corrupt { name }
            && name@ == bt.name),
        None => true,
    }
}

/// What a failed animation load says of its error, like
/// [`mesh_load_error`].
pub open spec fn animation_load_error(s: Seq<u8>, i: int, e: DecodeError) -> bool {
    match dec_animation_body(s, i) {
        Some((ba, j)) => dec_end(s, j) is None && (e matches DecodeError::Corrupt { name }
            && name@ == ba.name),
        None => true,
    }
}

impl Transform {
    /// Reads one transform: translation, rotation, scale.
    pub fn read(reader: &mut Reader) -> (r: Result<Transform, DecodeError>)
        requires
            old(reader).wf(),
        ensures
            final(reader).wf(),
            final(reader).data@ == old(reader).data@,
            old(reader).pos <= final(reader).pos,
            match r {
                Ok(t) => dec_transform(old(reader).data@, old(reader).pos as int) == Some(
                    (t, final(reader).pos as int),
                ),
                Err(e) => dec_transform(old(reader).data@, old(reader).pos as int) is None
                    && e is UnexpectedEnd,
            },
    {
        let translation = match reader.read_vec3() {
            Ok(v) => v,
            Err(e) => {
                return Err(e);
            },
        };
        let rotation = match reader.read_vec3() {
            Ok(v) => v,
            Err(e) => {
                return Err(e);
            },
        };
        let scale = match reader.read_vec3() {
            Ok(v) => v,
            Err(e) => {
                return Err(e);
            },
        };
        Ok(Transform { translation, rotation, scale })
    }
}

impl VertexType {
    /// Reads the vertex-layout tag string of a mesh record.
    pub fn read(reader: &mut Reader) -> (r: Result<VertexType, DecodeError>)
        requires
            old(reader).wf(),
        ensures
            final(reader).wf(),
            final(reader).data@ == old(reader).data@,
            old(reader).pos <= final(reader).pos,
            match r {
                Ok(vt) => dec_vertex_type(old(reader).data@, old(reader).pos as int) == Some(
                    (vt, final(reader).pos as int),
                ),
                Err(e) => dec_vertex_type(old(reader).data@, old(reader).pos as int) is None
                    && match dec_string(old(reader).data@, old(reader).pos as int) {
                    Some((t, _)) => e matches DecodeError::InvalidVertexType { text } && text@ == t,
                    None => e is UnexpectedEnd,
                },
            },
    {
        let tag = match reader.read_string() {
            Ok(v) => v,
            Err(e) => {
                return Err(e);
            },
        };
        let n = tag.len();
        if n == 5 && tag[0] == 66 && tag[1] == 97 && tag[2] == 115 && tag[3] == 105 && tag[4]
            == 99 {
            proof {
                assert(tag@ =~= vt_tag(VertexType::Basic));
            }
            Ok(VertexType::Basic)
        } else if n == 1 && tag[0] == 85 {
            proof {
                assert(tag@ =~= vt_tag(VertexType::U));
            }
            Ok(VertexType::U)
        } else if n == 2 && tag[0] == 78 && tag[1] == 85 {
            proof {
                assert(tag@ =~= vt_tag(VertexType::NU));
            }
            Ok(VertexType::NU)
        } else if n == 3 && tag[0] == 78 && tag[1] == 85 && tag[2] == 83 {
            proof {
                assert(tag@ =~= vt_tag(VertexType::NUS));
            }
            Ok(VertexType::NUS)
        } else {
            proof {
                assert(vt_of_tag(tag@) is None) by {
                    if tag@ == vt_tag(VertexType::Basic) {
                        assert(tag@.len() == 5 && tag@[0] == 66 && tag@[1] == 97 && tag@[2] == 115
                            && tag@[3] == 105 && tag@[4] == 99);
                    }
                    if tag@ == vt_tag(VertexType::U) {
                        assert(tag@.len() == 1 && tag@[0] == 85);
                    }
                    if tag@ == vt_tag(VertexType::NU) {
                        assert(tag@.len() == 2 && tag@[0] == 78 && tag@[1] == 85);
                    }
                    if tag@ == vt_tag(VertexType::NUS) {
                        assert(tag@.len() == 3 && tag@[0] == 78 && tag@[1] == 85 && tag@[2] == 83);
                    }
                }
            }
            Err(DecodeError::InvalidVertexType { text: tag })
        }
    }
}

/// Reads ancestor-chain bytes up to the 255 sentinel, widening each to an
/// index.
fn read_parents(reader: &mut Reader) -> (r: Result<Vec<usize>, DecodeError>)
    requires
        old(reader).wf(),
    ensures
        final(reader).wf(),
        final(reader).data@ == old(reader).data@,
        old(reader).pos <= final(reader).pos,
        match r {
            Ok(v) => dec_parents(old(reader).data@, old(reader).pos as int) == Some(
                (parents_view(v@), final(reader).pos as int),
            ),
            Err(e) => dec_parents(old(reader).data@, old(reader).pos as int) is None
                && e is UnexpectedEnd,
        },
{
    let ghost s = reader.data@;
    let ghost start = reader.pos;
    let mut res: Vec<usize> = Vec::new();
    loop
        invariant
            reader.wf(),
            reader.data@ == s,
            old(reader).data@ == s,
            old(reader).pos == start,
            start <= reader.pos,
            match dec_parents(s, reader.pos as int) {
                Some((ps, j)) => dec_parents(s, start as int) == Some::<(Seq<int>, int)>(
                    (parents_view(res@) + ps, j),
                ),
                None => dec_parents(s, start as int) is None,
            },
        decreases s.len() - reader.pos,
    {
        let ghost pos0 = reader.pos;
        let b = match reader.read_u8() {
            Ok(b) => b,
            Err(e) => {
                return Err(e);
            },
        };
        if b == NO_PARENT {
            proof {
                assert(parents_view(res@) + Seq::<int>::empty() =~= parents_view(res@));
            }
            return Ok(res);
        }
        proof {
            let m = parents_view(res@);
            match dec_parents(s, reader.pos as int) {
                Some((ps, j)) => {
                    assert(m + (seq![s[pos0 as int] as int] + ps) =~= (m + seq![
                        s[pos0 as int] as int,
                    ]) + ps);
                    assert(parents_view(res@ + seq![b as usize]) =~= m + seq![
                        s[pos0 as int] as int,
                    ]);
                },
                None => {},
            }
        }
        res.push(b as usize);
    }
}

/// Reads one joint, at position `id` of its skeleton.
fn read_joint(reader: &mut Reader, id: usize) -> (r: Result<Joint, DecodeError>)
    requires
        old(reader).wf(),
    ensures
        final(reader).wf(),
        final(reader).data@ == old(reader).data@,
        old(reader).pos <= final(reader).pos,
        match r {
            Ok(j) => dec_joint(old(reader).data@, old(reader).pos as int, id as int) == Some(
                (j@, final(reader).pos as int),
            ),
            Err(e) => dec_joint(old(reader).data@, old(reader).pos as int, id as int) is None
                && e is UnexpectedEnd,
        },
{
    let name = match reader.read_string() {
        Ok(v) => v,
        Err(e) => {
            return Err(e);
        },
    };
    let parent = match reader.read_u8() {
        Ok(v) => v,
        Err(e) => {
            return Err(e);
        },
    };
    let parents = match read_parents(reader) {
        Ok(v) => v,
        Err(e) => {
            return Err(e);
        },
    };
    let tpose = match reader.read_mat4x4() {
        Ok(v) => v,
        Err(e) => {
            return Err(e);
        },
    };
    let tpose_local = match reader.read_mat4x4() {
        Ok(v) => v,
        Err(e) => {
            return Err(e);
        },
    };
    let ibm = match reader.read_mat4x4() {
        Ok(v) => v,
        Err(e) => {
            return Err(e);
        },
    };
    Ok(Joint { name, id, parent: parent as usize, parents, tpose, tpose_local, ibm })
}

impl Joint {
    /// Reads a whole skeleton: the joint-count byte, then that many
    /// joints.  A count of 128 or more is rejected.
    #[verifier::rlimit(60)]
    pub fn read(reader: &mut Reader) -> (r: Result<Vec<Joint>, DecodeError>)
        requires
            old(reader).wf(),
        ensures
            final(reader).wf(),
            final(reader).data@ == old(reader).data@,
            old(reader).pos <= final(reader).pos,
            match r {
                Ok(js) => dec_skeleton(old(reader).data@, old(reader).pos as int) == Some(
                    (joints_view(js@), final(reader).pos as int),
                ) && js@.len() < MAX_JOINTS,
                Err(e) => dec_skeleton(old(reader).data@, old(reader).pos as int) is None && match
                    dec_u8(old(reader).data@, old(reader).pos as int) {
                    Some((jn, _)) => if (jn as int) < MAX_JOINTS {
                        e is UnexpectedEnd
                    } else {
                        e matches DecodeError::TooManyJoints { count } && count == jn
                    },
                    None => e is UnexpectedEnd,
                },
            },
    {
        let ghost s = reader.data@;
        let jn = match reader.read_u8() {
            Ok(v) => v,
            Err(e) => {
                return Err(e);
            },
        };
        if !((jn as usize) < MAX_JOINTS) {
            return Err(DecodeError::TooManyJoints { count: jn });
        }
        let ghost start = reader.pos;
        let n = jn as usize;
        let mut js: Vec<Joint> = Vec::new();
        let mut k: usize = 0;
        while k < n
            invariant
                reader.wf(),
                reader.data@ == s,
                old(reader).data@ == s,
                old(reader).pos <= start <= reader.pos,
                dec_u8(s, old(reader).pos as int) == Some::<(u8, int)>((jn, start as int)),
                (jn as int) < MAX_JOINTS,
                k <= n,
                n == jn as usize,
                js@.len() == k,
                match dec_joints(s, reader.pos as int, (n - k) as nat, k as int) {
                    Some((vs, end)) => dec_joints(s, start as int, n as nat, 0) == Some::<
                        (Seq<crate::model::JointModel>, int),
                    >((joints_view(js@) + vs, end)),
                    None => dec_joints(s, start as int, n as nat, 0) is None,
                },
            decreases n - k,
        {
            let ghost pos0 = reader.pos;
            let j = match read_joint(reader, k) {
                Ok(v) => v,
                Err(e) => {
                    return Err(e);
                },
            };
            proof {
                let m = joints_view(js@);
                match dec_joints(s, reader.pos as int, (n - k - 1) as nat, k + 1) {
                    Some((vs, end)) => {
                        assert(m + (seq![j@] + vs) =~= (m + seq![j@]) + vs);
                        assert(joints_view(js@ + seq![j]) =~= m + seq![j@]);
                    },
                    None => {},
                }
            }
            js.push(j);
            k = k + 1;
        }
        proof {
            assert(joints_view(js@) + Seq::<crate::model::JointModel>::empty() =~= joints_view(
                js@,
            ));
        }
        Ok(js)
    }
}

/// Reads `n` vertices of the `Basic` layout.
fn read_vertices_p(reader: &mut Reader, n: usize) -> (r: Result<Vec<VertexP>, DecodeError>)
    requires
        old(reader).wf(),
    ensures
        final(reader).wf(),
        final(reader).data@ == old(reader).data@,
        old(reader).pos <= final(reader).pos,
        match r {
            Ok(v) => dec_vertices_p(old(reader).data@, old(reader).pos as int, n as nat)
                == Some((v@, final(reader).pos as int)),
            Err(e) => dec_vertices_p(old(reader).data@, old(reader).pos as int, n as nat)
                is None && e is UnexpectedEnd,
        },
{
    let ghost s = reader.data@;
    let ghost start = reader.pos;
    let mut res: Vec<VertexP> = Vec::new();
    let mut k: usize = 0;
    while k < n
        invariant
            reader.wf(),
            reader.data@ == s,
            old(reader).data@ == s,
            old(reader).pos == start,
            start <= reader.pos,
            k <= n,
            res@.len() == k,
            match dec_vertices_p(s, reader.pos as int, (n - k) as nat) {
                Some((vs, end)) => dec_vertices_p(s, start as int, n as nat) == Some::<
                    (Seq<VertexP>, int),
                >((res@ + vs, end)),
                None => dec_vertices_p(s, start as int, n as nat) is None,
            },
        decreases n - k,
    {
        let position = match reader.read_vec3() {
            Ok(x) => x,
            Err(e) => {
                return Err(e);
            },
        };
        let v = VertexP { position };
        proof {
            match dec_vertices_p(s, reader.pos as int, (n - k - 1) as nat) {
                Some((vs, end)) => {
                    assert(res@ + (seq![v] + vs) =~= (res@ + seq![v]) + vs);
                },
                None => {},
            }
        }
        res.push(v);
        k = k + 1;
    }
    proof {
        assert(res@ + Seq::<VertexP>::empty() =~= res@);
    }
    Ok(res)
}

/// Reads `n` vertices of the `U` layout.
fn read_vertices_u(reader: &mut Reader, n: usize) -> (r: Result<Vec<VertexU>, DecodeError>)
    requires
        old(reader).wf(),
    ensures
        final(reader).wf(),
        final(reader).data@ == old(reader).data@,
        old(reader).pos <= final(reader).pos,
        match r {
            Ok(v) => dec_vertices_u(old(reader).data@, old(reader).pos as int, n as nat)
                == Some((v@, final(reader).pos as int)),
            Err(e) => dec_vertices_u(old(reader).data@, old(reader).pos as int, n as nat)
                is None && e is UnexpectedEnd,
        },
{
    let ghost s = reader.data@;
    let ghost start = reader.pos;
    let mut res: Vec<VertexU> = Vec::new();
    let mut k: usize = 0;
    while k < n
        invariant
            reader.wf(),
            reader.data@ == s,
            old(reader).data@ == s,
            old(reader).pos == start,
            start <= reader.pos,
            k <= n,
            res@.len() == k,
            match dec_vertices_u(s, reader.pos as int, (n - k) as nat) {
                Some((vs, end)) => dec_vertices_u(s, start as int, n as nat) == Some::<
                    (Seq<VertexU>, int),
                >((res@ + vs, end)),
                None => dec_vertices_u(s, start as int, n as nat) is None,
            },
        decreases n - k,
    {
        let position = match reader.read_vec3() {
            Ok(x) => x,
            Err(e) => {
                return Err(e);
            },
        };
        let uv = match reader.read_vec2() {
            Ok(x) => x,
            Err(e) => {
                return Err(e);
            },
        };
        let v = VertexU { position, uv };
        proof {
            match dec_vertices_u(s, reader.pos as int, (n - k - 1) as nat) {
                Some((vs, end)) => {
                    assert(res@ + (seq![v] + vs) =~= (res@ + seq![v]) + vs);
                },
                None => {},
            }
        }
        res.push(v);
        k = k + 1;
    }
    proof {
        assert(res@ + Seq::<VertexU>::empty() =~= res@);
    }
    Ok(res)
}

/// Reads `n` vertices of the `NU` layout.
fn read_vertices_nu(reader: &mut Reader, n: usize) -> (r: Result<Vec<VertexNU>, DecodeError>)
    requires
        old(reader).wf(),
    ensures
        final(reader).wf(),
        final(reader).data@ == old(reader).data@,
        old(reader).pos <= final(reader).pos,
        match r {
            Ok(v) => dec_vertices_nu(old(reader).data@, old(reader).pos as int, n as nat)
                == Some((v@, final(reader).pos as int)),
            Err(e) => dec_vertices_nu(old(reader).data@, old(reader).pos as int, n as nat)
                is None && e is UnexpectedEnd,
        },
{
    let ghost s = reader.data@;
    let ghost start = reader.pos;
    let mut res: Vec<VertexNU> = Vec::new();
    let mut k: usize = 0;
    while k < n
        invariant
            reader.wf(),
            reader.data@ == s,
            old(reader).data@ == s,
            old(reader).pos == start,
            start <= reader.pos,
            k <= n,
            res@.len() == k,
            match dec_vertices_nu(s, reader.pos as int, (n - k) as nat) {
                Some((vs, end)) => dec_vertices_nu(s, start as int, n as nat) == Some::<
                    (Seq<VertexNU>, int),
                >((res@ + vs, end)),
                None => dec_vertices_nu(s, start as int, n as nat) is None,
            },
        decreases n - k,
    {
        let position = match reader.read_vec3() {
            Ok(x) => x,
            Err(e) => {
                return Err(e);
            },
        };
        let normal = match reader.read_vec3() {
            Ok(x) => x,
            Err(e) => {
                return Err(e);
            },
        };
        let uv = match reader.read_vec2() {
            Ok(x) => x,
            Err(e) => {
                return Err(e);
            },
        };
        let v = VertexNU { position, normal, uv };
        proof {
            match dec_vertices_nu(s, reader.pos as int, (n - k - 1) as nat) {
                Some((vs, end)) => {
                    assert(res@ + (seq![v] + vs) =~= (res@ + seq![v]) + vs);
                },
                None => {},
            }
        }
        res.push(v);
        k = k + 1;
    }
    proof {
        assert(res@ + Seq::<VertexNU>::empty() =~= res@);
    }
    Ok(res)
}

/// Reads `n` vertices of the `NUS` layout.
fn read_vertices_nus(reader: &mut Reader, n: usize) -> (r: Result<Vec<VertexNUS>, DecodeError>)
    requires
        old(reader).wf(),
    ensures
        final(reader).wf(),
        final(reader).data@ == old(reader).data@,
        old(reader).pos <= final(reader).pos,
        match r {
            Ok(v) => dec_vertices_nus(old(reader).data@, old(reader).pos as int, n as nat)
                == Some((v@, final(reader).pos as int)),
            Err(e) => dec_vertices_nus(old(reader).data@, old(reader).pos as int, n as nat)
                is None && e is UnexpectedEnd,
        },
{
    let ghost s = reader.data@;
    let ghost start = reader.pos;
    let mut res: Vec<VertexNUS> = Vec::new();
    let mut k: usize = 0;
    while k < n
        invariant
            reader.wf(),
            reader.data@ == s,
            old(reader).data@ == s,
            old(reader).pos == start,
            start <= reader.pos,
            k <= n,
            res@.len() == k,
            match dec_vertices_nus(s, reader.pos as int, (n - k) as nat) {
                Some((vs, end)) => dec_vertices_nus(s, start as int, n as nat) == Some::<
                    (Seq<VertexNUS>, int),
                >((res@ + vs, end)),
                None => dec_vertices_nus(s, start as int, n as nat) is None,
            },
        decreases n - k,
    {
        let position = match reader.read_vec3() {
            Ok(x) => x,
            Err(e) => {
                return Err(e);
            },
        };
        let normal = match reader.read_vec3() {
            Ok(x) => x,
            Err(e) => {
                return Err(e);
            },
        };
        let uv = match reader.read_vec2() {
            Ok(x) => x,
            Err(e) => {
                return Err(e);
            },
        };
        let joints = match reader.read_joints() {
            Ok(x) => x,
            Err(e) => {
                return Err(e);
            },
        };
        let weights = match reader.read_vec4() {
            Ok(x) => x,
            Err(e) => {
                return Err(e);
            },
        };
        let v = VertexNUS { position, normal, uv, joints, weights };
        proof {
            match dec_vertices_nus(s, reader.pos as int, (n - k - 1) as nat) {
                Some((vs, end)) => {
                    assert(res@ + (seq![v] + vs) =~= (res@ + seq![v]) + vs);
                },
                None => {},
            }
        }
        res.push(v);
        k = k + 1;
    }
    proof {
        assert(res@ + Seq::<VertexNUS>::empty() =~= res@);
    }
    Ok(res)
}

impl Mesh {
    /// Reads a whole mesh record (after the `M` tag byte): name, layout
    /// tag, vertex count, the vertex stream and, for the skinned layout,
    /// the skeleton, closed by `END`.
    pub fn load(reader: &mut Reader) -> (r: Result<Mesh, DecodeError>)
        requires
            old(reader).wf(),
        ensures
            final(reader).wf(),
            final(reader).data@ == old(reader).data@,
            old(reader).pos <= final(reader).pos,
            match r {
                Ok(m) => dec_mesh(old(reader).data@, old(reader).pos as int) == Some(
                    (m@, final(reader).pos as int),
                ),
                Err(e) => dec_mesh(old(reader).data@, old(reader).pos as int) is None
                    && mesh_load_error(old(reader).data@, old(reader).pos as int, e),
            },
    {
        let ghost s = reader.data@;
        let ghost start = reader.pos;
        let name = match reader.read_string() {
            Ok(v) => v,
            Err(e) => {
                return Err(e);
            },
        };
        let vertex_type = match VertexType::read(reader) {
            Ok(v) => v,
            Err(e) => {
                return Err(e);
            },
        };
        let count = match reader.read_u32() {
            Ok(v) => v,
            Err(e) => {
                return Err(e);
            },
        };
        let vertices = match vertex_type {
            VertexType::Basic => match read_vertices_p(reader, count as usize) {
                Ok(v) => VertexData::Basic(v),
                Err(e) => {
                    return Err(e);
                },
            },
            VertexType::U => match read_vertices_u(reader, count as usize) {
                Ok(v) => VertexData::U(v),
                Err(e) => {
                    return Err(e);
                },
            },
            VertexType::NU => match read_vertices_nu(reader, count as usize) {
                Ok(v) => VertexData::NU(v),
                Err(e) => {
                    return Err(e);
                },
            },
            VertexType::NUS => match read_vertices_nus(reader, count as usize) {
                Ok(v) => VertexData::NUS(v),
                Err(e) => {
                    return Err(e);
                },
            },
        };
        let joints = match vertex_type {
            VertexType::NUS => match Joint::read(reader) {
                Ok(v) => v,
                Err(e) => {
                    return Err(e);
                },
            },
            _ => {
                proof {
                    assert(joints_view(Seq::<Joint>::empty()) =~= Seq::<
                        crate::model::JointModel,
                    >::empty());
                }
                Vec::new()
            },
        };
        let m = Mesh { name, vertex_type, vertices, joints };
        match reader.read_end(&m.name) {
            Ok(_) => {},
            Err(e) => {
                return Err(e);
            },
        }
        Ok(m)
    }
}

impl Texture {
    /// Reads a whole texture record (after the `I` tag byte): name, width,
    /// height and width x height RGB triples, each widened with an opaque
    /// alpha byte, closed by `END`.
    pub fn load(reader: &mut Reader) -> (r: Result<Texture, DecodeError>)
        requires
            old(reader).wf(),
        ensures
            final(reader).wf(),
            final(reader).data@ == old(reader).data@,
            old(reader).pos <= final(reader).pos,
            match r {
                Ok(t) => dec_texture(old(reader).data@, old(reader).pos as int) == Some(
                    (t@, final(reader).pos as int),
                ),
                Err(e) => dec_texture(old(reader).data@, old(reader).pos as int) is None
                    && texture_load_error(old(reader).data@, old(reader).pos as int, e),
            },
    {
        let ghost s = reader.data@;
        let name = match reader.read_string() {
            Ok(v) => v,
            Err(e) => {
                return Err(e);
            },
        };
        let width = match reader.read_u32() {
            Ok(v) => v,
            Err(e) => {
                return Err(e);
            },
        };
        let height = match reader.read_u32() {
            Ok(v) => v,
            Err(e) => {
                return Err(e);
            },
        };
        proof {
            assert((width as int) * (height as int) < 0x10000000000000000int) by (nonlinear_arith)
                requires
                    0 <= width as int <= 0xffffffffint,
                    0 <= height as int <= 0xffffffffint,
            ;
        }
        let n: u64 = (width as u64) * (height as u64);
        let ghost pstart = reader.pos;
        let mut rgba: Vec<u8> = Vec::new();
        let mut i: u64 = 0;
        while i < n
            invariant
                reader.wf(),
                reader.data@ == s,
                old(reader).data@ == s,
                old(reader).pos <= pstart <= reader.pos,
                i <= n,
                n == (width as nat) * (height as nat),
                match dec_pixels(s, pstart as int, n as nat) {
                    Some((px, e)) => dec_texture_body(s, old(reader).pos as int) == Some::<
                        (crate::model::TextureModel, int),
                    >((TextureModel { name: name@, width, height, rgba: px }, e)),
                    None => dec_texture_body(s, old(reader).pos as int) is None,
                },
                match dec_pixels(s, reader.pos as int, (n - i) as nat) {
                    Some((rest, end)) => dec_pixels(s, pstart as int, n as nat) == Some::<
                        (Seq<u8>, int),
                    >((rgba@ + rest, end)),
                    None => dec_pixels(s, pstart as int, n as nat) is None,
                },
            decreases n - i,
        {
            let pr = match reader.read_u8() {
                Ok(v) => v,
                Err(e) => {
                    return Err(e);
                },
            };
            let pg = match reader.read_u8() {
                Ok(v) => v,
                Err(e) => {
                    return Err(e);
                },
            };
            let pb = match reader.read_u8() {
                Ok(v) => v,
                Err(e) => {
                    return Err(e);
                },
            };
            proof {
                match dec_pixels(s, reader.pos as int, (n - i - 1) as nat) {
                    Some((rest, end)) => {
                        assert(rgba@ + (seq![pr, pg, pb, 255u8] + rest) =~= (rgba@ + seq![
                            pr,
                            pg,
                            pb,
                            255u8,
                        ]) + rest);
                    },
                    None => {},
                }
            }
            rgba.push(pr);
            rgba.push(pg);
            rgba.push(pb);
            rgba.push(255);
            i = i + 1;
        }
        proof {
            assert(rgba@ + Seq::<u8>::empty() =~= rgba@);
        }
        let t = Texture { name, width, height, rgba };
        match reader.read_end(&t.name) {
            Ok(_) => {},
            Err(e) => {
                return Err(e);
            },
        }
        Ok(t)
    }
}

/// Reads one frame: `jl` transforms, one per joint.
fn read_frame(reader: &mut Reader, jl: usize) -> (r: Result<AnimationFrame, DecodeError>)
    requires
        old(reader).wf(),
    ensures
        final(reader).wf(),
        final(reader).data@ == old(reader).data@,
        old(reader).pos <= final(reader).pos,
        match r {
            Ok(f) => dec_frame(old(reader).data@, old(reader).pos as int, jl as nat) == Some(
                (f@, final(reader).pos as int),
            ),
            Err(e) => dec_frame(old(reader).data@, old(reader).pos as int, jl as nat) is None
                && e is UnexpectedEnd,
        },
{
    let ghost s = reader.data@;
    let ghost start = reader.pos;
    let mut joints: Vec<AnimationJoint> = Vec::new();
    let mut k: usize = 0;
    while k < jl
        invariant
            reader.wf(),
            reader.data@ == s,
            old(reader).data@ == s,
            old(reader).pos == start,
            start <= reader.pos,
            k <= jl,
            joints@.len() == k,
            match dec_frame(s, reader.pos as int, (jl - k) as nat) {
                Some((ts, end)) => dec_frame(s, start as int, jl as nat) == Some::<
                    (Seq<Transform>, int),
                >((poses_view(joints@) + ts, end)),
                None => dec_frame(s, start as int, jl as nat) is None,
            },
        decreases jl - k,
    {
        let pose = match Transform::read(reader) {
            Ok(v) => v,
            Err(e) => {
                return Err(e);
            },
        };
        proof {
            let m = poses_view(joints@);
            match dec_frame(s, reader.pos as int, (jl - k - 1) as nat) {
                Some((ts, end)) => {
                    assert(m + (seq![pose] + ts) =~= (m + seq![pose]) + ts);
                    assert(poses_view(joints@ + seq![AnimationJoint { pose }]) =~= m + seq![pose]);
                },
                None => {},
            }
        }
        joints.push(AnimationJoint { pose });
        k = k + 1;
    }
    proof {
        assert(poses_view(joints@) + Seq::<Transform>::empty() =~= poses_view(joints@));
    }
    Ok(AnimationFrame { joints })
}

impl Animation {
    /// Reads a whole animation record (after the `A` tag byte): name,
    /// joint count, frame count and the frames' transforms, closed by
    /// `END`.
    pub fn load(reader: &mut Reader) -> (r: Result<Animation, DecodeError>)
        requires
            old(reader).wf(),
        ensures
            final(reader).wf(),
            final(reader).data@ == old(reader).data@,
            old(reader).pos <= final(reader).pos,
            match r {
                Ok(a) => dec_animation(old(reader).data@, old(reader).pos as int) == Some(
                    (a@, final(reader).pos as int),
                ),
                Err(e) => dec_animation(old(reader).data@, old(reader).pos as int) is None
                    && animation_load_error(old(reader).data@, old(reader).pos as int, e),
            },
    {
        let ghost s = reader.data@;
        let name = match reader.read_string() {
            Ok(v) => v,
            Err(e) => {
                return Err(e);
            },
        };
        let jl = match reader.read_u8() {
            Ok(v) => v,
            Err(e) => {
                return Err(e);
            },
        };
        let fc = match reader.read_u32() {
            Ok(v) => v,
            Err(e) => {
                return Err(e);
            },
        };
        let joints_length = jl as usize;
        let n = fc as usize;
        let ghost fstart = reader.pos;
        let mut frames: Vec<AnimationFrame> = Vec::new();
        let mut k: usize = 0;
        while k < n
            invariant
                reader.wf(),
                reader.data@ == s,
                old(reader).data@ == s,
                old(reader).pos <= fstart <= reader.pos,
                k <= n,
                joints_length == jl as usize,
                frames@.len() == k,
                match dec_frames(s, fstart as int, n as nat, jl as nat) {
                    Some((fs2, e)) => dec_animation_body(s, old(reader).pos as int) == Some::<
                        (crate::model::AnimationModel, int),
                    >((AnimationModel { name: name@, joints_length: jl as int, frames: fs2 }, e)),
                    None => dec_animation_body(s, old(reader).pos as int) is None,
                },
                match dec_frames(s, reader.pos as int, (n - k) as nat, jl as nat) {
                    Some((fs, end)) => dec_frames(s, fstart as int, n as nat, jl as nat) == Some::<
                        (Seq<Seq<Transform>>, int),
                    >((frames_view(frames@) + fs, end)),
                    None => dec_frames(s, fstart as int, n as nat, jl as nat) is None,
                },
            decreases n - k,
        {
            let f = match read_frame(reader, joints_length) {
                Ok(v) => v,
                Err(e) => {
                    return Err(e);
                },
            };
            proof {
                let m = frames_view(frames@);
                match dec_frames(s, reader.pos as int, (n - k - 1) as nat, jl as nat) {
                    Some((fs, end)) => {
                        assert(m + (seq![f@] + fs) =~= (m + seq![f@]) + fs);
                        assert(frames_view(frames@ + seq![f]) =~= m + seq![f@]);
                    },
                    None => {},
                }
            }
            frames.push(f);
            k = k + 1;
        }
        proof {
            assert(frames_view(frames@) + Seq::<Seq<Transform>>::empty() =~= frames_view(frames@));
        }
        let a = Animation { name, joints_length, frames };
        match reader.read_end(&a.name) {
            Ok(_) => {},
            Err(e) => {
                return Err(e);
            },
        }
        Ok(a)
    }
}

} // verus!
