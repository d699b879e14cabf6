//! Scene extraction: turning a parsed scene graph into encode-ready form.
//!
//! A scene parser reports joints as a graph (each joint lists its
//! children) together with per-joint matrices.  This module inverts the
//! graph to parent pointers, derives each joint's ancestor chain, and
//! assembles a skeleton that satisfies [`crate::model::skeleton_wf`]; it
//! also de-indexes vertex attributes into the flat streams the encoder
//! writes.  Matrix algebra (inverting an inverse-bind matrix, composing a
//! local bind pose) is floating-point work for the caller; everything the
//! extractor decides is exact.

use vstd::prelude::*;

use crate::format::{joint_encodable, string_ok, MAX_JOINTS, NO_PARENT, STRING_END};
use crate::model::{
    ancestor_chain, joints_view, parent_table, parents_view, skeleton_wf, vertices_len,
    vertices_match, Joint, JointIndices, Mat4, Vec2, Vec3, Vec4, VertexData, VertexNU,
    VertexNUS, VertexP, VertexType, VertexU,
};

verus! {

broadcast use crate::format::lemma_enc_u32_len;

/// Why extraction refused a scene.
#[derive(Clone, Copy, Debug, PartialEq, Eq, Structural)]
pub enum ExtractError {
    /// The skeleton has 128 joints or more.
    TooManyJoints,
    /// The joint graph is not a tree rooted at joint 0 with every child
    /// listed after its parent: the named joint's parent entry breaks the
    /// rule.
    BadHierarchy { joint: usize },
    /// A joint name contains the `#` string terminator.
    NameHasSentinel { joint: usize },
    /// The per-joint input vectors do not all have the same length.
    LengthMismatch,
    /// An index of the index buffer points past the attribute arrays.
    IndexOutOfRange { index: usize },
    /// The selected vertex layout needs an attribute the scene export does
    /// not carry.
    MissingAttribute,
}

/// The parent that a child-list graph gives joint `j`, scanning candidate
/// parents from index `i` up: the first joint listing `j` among its
/// children, or 255 when none does.
pub open spec fn graph_parent_from(ch: Seq<Seq<usize>>, j: usize, i: int) -> int
    decreases ch.len() - i,
{
    if 0 <= i && i < ch.len() {
        if ch[i].contains(j) {
            i
        } else {
            graph_parent_from(ch, j, i + 1)
        }
    } else {
        255
    }
}

/// The parent the graph gives joint `j`, or 255 for a root.
pub open spec fn graph_parent(ch: Seq<Seq<usize>>, j: usize) -> int {
    graph_parent_from(ch, j, 0)
}

/// The child lists of a joint graph, as sequences.
pub open spec fn children_view(ch: Seq<Vec<usize>>) -> Seq<Seq<usize>> {
    ch.map_values(|c: Vec<usize>| c@)
}

/// Whether the graph's parent entry for joint `j` keeps the tree shape:
/// joint 0 is the lone root, every later joint's parent strictly earlier.
pub open spec fn graph_entry_ok(ch: Seq<Seq<usize>>, j: int) -> bool {
    if j == 0 {
        graph_parent(ch, 0) == 255
    } else {
        0 <= graph_parent(ch, j as usize) < j
    }
}

/// Whether a parent-table entry keeps the tree shape: joint 0 carries the
/// 255 sentinel, every later joint names a strictly earlier joint.
pub open spec fn table_entry_ok(pt: Seq<u8>, j: int) -> bool {
    if j == 0 {
        pt[0] == NO_PARENT
    } else {
        (pt[j] as int) < j
    }
}

/// Whether a vector holds a value.
fn list_contains(v: &Vec<usize>, x: usize) -> (r: bool)
    ensures
        r == v@.contains(x),
{
    let mut k: usize = 0;
    while k < v.len()
        invariant
            k <= v@.len(),
            forall|i: int| 0 <= i < k ==> v@[i] != x,
        decreases v@.len() - k,
    {
        if v[k] == x {
            return true;
        }
        k = k + 1;
    }
    false
}

/// Scans every joint's child list for joint `j`: the first joint that
/// lists it is its parent; 255 means `j` is a root.
pub fn get_gltf_node_parent_id(children: &Vec<Vec<usize>>, j: usize) -> (r: u8)
    requires
        children@.len() <= 255,
    ensures
        r as int == graph_parent(children_view(children@), j),
{
    let ghost ch = children_view(children@);
    let mut i: usize = 0;
    while i < children.len()
        invariant
            i <= children@.len(),
            children@.len() <= 255,
            ch == children_view(children@),
            graph_parent(ch, j) == graph_parent_from(ch, j, i as int),
        decreases children@.len() - i,
    {
        if list_contains(&children[i], j) {
            proof {
                assert(ch[i as int] == children@[i as int]@);
            }
            return i as u8;
        }
        proof {
            assert(ch[i as int] == children@[i as int]@);
        }
        i = i + 1;
    }
    255
}

/// Inverts a child-list graph into a parent table, and checks that the
/// table shapes a tree the format can hold: fewer than 128 joints, joint 0
/// the only root, every other joint's parent a strictly earlier joint.
pub fn skeleton_parents(children: &Vec<Vec<usize>>) -> (r: Result<Vec<u8>, ExtractError>)
    ensures
        match r {
            Ok(pt) => children@.len() < MAX_JOINTS && pt@.len() == children@.len() && (forall|
                j: int,
            |
                0 <= j < pt@.len() ==> (#[trigger] pt@[j]) as int == graph_parent(
                    children_view(children@),
                    j as usize,
                )) && (pt@.len() > 0 ==> pt@[0] == NO_PARENT) && (forall|j: int|
                0 < j < pt@.len() ==> ((#[trigger] pt@[j]) as int) < j),
            Err(e) => match e {
                ExtractError::TooManyJoints => children@.len() >= MAX_JOINTS,
                ExtractError::BadHierarchy { joint } => children@.len() < MAX_JOINTS && joint
                    < children@.len() && !graph_entry_ok(children_view(children@), joint as int)
                    && (forall|k: int|
                    0 <= k < joint ==> graph_entry_ok(children_view(children@), k)),
                _ => false,
            },
        },
{
    if !(children.len() < MAX_JOINTS) {
        return Err(ExtractError::TooManyJoints);
    }
    let ghost ch = children_view(children@);
    let mut pt: Vec<u8> = Vec::new();
    let mut j: usize = 0;
    while j < children.len()
        invariant
            j <= children@.len(),
            children@.len() < MAX_JOINTS,
            ch == children_view(children@),
            pt@.len() == j,
            forall|k: int|
                0 <= k < j ==> (#[trigger] pt@[k]) as int == graph_parent(ch, k as usize),
            j > 0 ==> pt@[0] == NO_PARENT,
            forall|k: int| 0 < k < j ==> ((#[trigger] pt@[k]) as int) < k,
            forall|k: int| 0 <= k < j ==> graph_entry_ok(ch, k),
        decreases children@.len() - j,
    {
        let p = get_gltf_node_parent_id(children, j);
        if j == 0 {
            if p != NO_PARENT {
                proof {
                    assert(!graph_entry_ok(ch, 0));
                }
                return Err(ExtractError::BadHierarchy { joint: j });
            }
        } else {
            if p == NO_PARENT || !((p as usize) < j) {
                proof {
                    assert(!graph_entry_ok(ch, j as int));
                }
                return Err(ExtractError::BadHierarchy { joint: j });
            }
        }
        pt.push(p);
        j = j + 1;
    }
    Ok(pt)
}

/// Whether a name is free of the `#` string terminator.
fn name_ok(v: &Vec<u8>) -> (r: bool)
    ensures
        r == string_ok(v@),
{
    let mut k: usize = 0;
    while k < v.len()
        invariant
            k <= v@.len(),
            forall|i: int| 0 <= i < k ==> v@[i] != STRING_END,
        decreases v@.len() - k,
    {
        if v[k] == STRING_END {
            return false;
        }
        k = k + 1;
    }
    true
}

/// Assembles a skeleton from per-joint data and a validated parent table,
/// deriving each joint's ancestor chain (farthest to nearest) by walking
/// parent pointers.  The result is a well-formed skeleton whose joints the
/// format can encode.
pub fn build_skeleton(
    names: &Vec<Vec<u8>>,
    parents: &Vec<u8>,
    tposes: &Vec<Mat4>,
    tposes_local: &Vec<Mat4>,
    ibms: &Vec<Mat4>,
) -> (r: Result<Vec<Joint>, ExtractError>)
    ensures
        match r {
            Ok(js) => js@.len() == names@.len() && skeleton_wf(joints_view(js@)) && (forall|
                i: int,
            |
                0 <= i < js@.len() ==> joint_encodable(#[trigger] joints_view(js@)[i], i)) && (
            forall|i: int|
                0 <= i < js@.len() ==> (#[trigger] js@[i]).name@ == names@[i]@ && js@[i].parent
                    == pt_entry(parents@[i]) && js@[i].tpose == tposes@[i] && js@[i].tpose_local
                    == tposes_local@[i] && js@[i].ibm == ibms@[i]),
            Err(e) => ({
                let n = names@.len();
                let lens_ok = parents@.len() == n && tposes@.len() == n && tposes_local@.len()
                    == n && ibms@.len() == n;
                match e {
                    ExtractError::LengthMismatch => !lens_ok,
                    ExtractError::TooManyJoints => lens_ok && n >= MAX_JOINTS,
                    ExtractError::BadHierarchy { joint } => lens_ok && n < MAX_JOINTS && joint < n
                        && !table_entry_ok(parents@, joint as int) && (forall|k: int|
                        0 <= k < joint ==> table_entry_ok(parents@, k)),
                    ExtractError::NameHasSentinel { joint } => lens_ok && n < MAX_JOINTS && (
                    forall|k: int| 0 <= k < n ==> table_entry_ok(parents@, k)) && joint < n
                        && !string_ok(names@[joint as int]@) && (forall|k: int|
                        0 <= k < joint ==> string_ok(names@[k]@)),
                    _ => false,
                }
            }),
        },
{
    let n = names.len();
    if !(parents.len() == n && tposes.len() == n && tposes_local.len() == n && ibms.len() == n) {
        return Err(ExtractError::LengthMismatch);
    }
    if !(n < MAX_JOINTS) {
        return Err(ExtractError::TooManyJoints);
    }
    let mut j: usize = 0;
    while j < n
        invariant
            j <= n,
            n == names@.len(),
            n == parents@.len(),
            n == tposes@.len(),
            n == tposes_local@.len(),
            n == ibms@.len(),
            n < MAX_JOINTS,
            j > 0 ==> parents@[0] == NO_PARENT,
            forall|k: int| 0 < k < j ==> ((#[trigger] parents@[k]) as int) < k,
            forall|k: int| 0 <= k < j ==> table_entry_ok(parents@, k),
        decreases n - j,
    {
        if j == 0 {
            if parents[0] != NO_PARENT {
                proof {
                    assert(!table_entry_ok(parents@, 0));
                }
                return Err(ExtractError::BadHierarchy { joint: j });
            }
        } else {
            if !((parents[j] as usize) < j) {
                proof {
                    assert(!table_entry_ok(parents@, j as int));
                }
                return Err(ExtractError::BadHierarchy { joint: j });
            }
        }
        j = j + 1;
    }
    let ghost ptm = parents@.map_values(|p: u8| pt_entry(p));
    let mut js: Vec<Joint> = Vec::new();
    let mut i: usize = 0;
    while i < n
        invariant
            i <= n,
            n == names@.len(),
            n == parents@.len(),
            n == tposes@.len(),
            n == tposes_local@.len(),
            n == ibms@.len(),
            n < MAX_JOINTS,
            parents@.len() > 0 ==> parents@[0] == NO_PARENT,
            forall|k: int| 0 < k < n ==> ((#[trigger] parents@[k]) as int) < k,
            forall|k: int| 0 <= k < n ==> table_entry_ok(parents@, k),
            forall|k: int| 0 <= k < i ==> string_ok(names@[k]@),
            ptm == parents@.map_values(|p: u8| pt_entry(p)),
            js@.len() == i,
            forall|k: int|
                0 <= k < i ==> {
                    &&& (#[trigger] js@[k]).id == k
                    &&& js@[k].name@ == names@[k]@
                    &&& string_ok(js@[k].name@)
                    &&& js@[k].parent == pt_entry(parents@[k])
                    &&& js@[k].tpose == tposes@[k]
                    &&& js@[k].tpose_local == tposes_local@[k]
                    &&& js@[k].ibm == ibms@[k]
                    &&& parents_view(js@[k].parents@) == ancestor_chain(ptm, k)
                    &&& forall|q: int|
                        0 <= q < js@[k].parents@.len() ==> (#[trigger] js@[k].parents@[q]) < 255
                },
        decreases n - i,
    {
        if !name_ok(&names[i]) {
            return Err(ExtractError::NameHasSentinel { joint: i });
        }
        let chain = walk_chain(parents, i, Ghost(ptm));
        let name = crate::reader::clone_bytes(&names[i]);
        let joint = Joint {
            name,
            id: i,
            parent: parents[i] as usize,
            parents: chain,
            tpose: tposes[i],
            tpose_local: tposes_local[i],
            ibm: ibms[i],
        };
        proof {
            assert(pt_entry(parents@[i as int]) == (parents@[i as int]) as int);
        }
        js.push(joint);
        i = i + 1;
    }
    proof {
        let jm = joints_view(js@);
        assert(jm.len() == n);
        assert forall|k: int| 0 <= k < n implies {
            &&& (#[trigger] jm[k]).id == k
            &&& (k == 0 ==> jm[k].parent == 255)
            &&& (k > 0 ==> 0 <= jm[k].parent < k)
            &&& jm[k].parents == ancestor_chain(parent_table(jm), k)
            &&& joint_encodable(jm[k], k)
        } by {
            assert(jm[k] == js@[k]@);
            assert(parent_table(jm) =~= ptm);
            assert(jm[k].parents == parents_view(js@[k].parents@));
            lemma_chain_entries_bounded(ptm, k);
        }
        assert(skeleton_wf(jm));
    }
    Ok(js)
}

/// A parent byte as a table entry: the index it names (255 stays 255).
pub open spec fn pt_entry(p: u8) -> int {
    p as int
}

/// Every entry of an ancestor chain under a strictly-decreasing parent
/// table is a valid index below the start.
proof fn lemma_chain_entries_bounded(ptm: Seq<int>, i: int)
    requires
        forall|k: int| 0 < k < ptm.len() ==> #[trigger] ptm[k] < k,
    ensures
        forall|q: int|
            0 <= q < ancestor_chain(ptm, i).len() ==> 0 <= #[trigger] ancestor_chain(ptm, i)[q]
                < ptm.len(),
    decreases i,
{
    if 0 <= i && i < ptm.len() && 0 <= ptm[i] < i {
        lemma_chain_entries_bounded(ptm, ptm[i]);
        let c = ancestor_chain(ptm, i);
        let cp = ancestor_chain(ptm, ptm[i]);
        assert forall|q: int| 0 <= q < c.len() implies 0 <= #[trigger] c[q] < ptm.len() by {
            if q < cp.len() {
                assert(c[q] == cp[q]);
            } else {
                assert(c[q] == ptm[i]);
            }
        }
    }
}

/// Walks parent pointers from joint `i` to the root, collecting the
/// ancestor chain farthest to nearest.
fn walk_chain(parents: &Vec<u8>, i: usize, Ghost(ptm): Ghost<Seq<int>>) -> (r: Vec<usize>)
    requires
        parents@.len() < MAX_JOINTS,
        i < parents@.len(),
        forall|k: int| 0 < k < parents@.len() ==> ((#[trigger] parents@[k]) as int) < k,
        parents@.len() > 0 ==> parents@[0] == NO_PARENT,
        ptm == parents@.map_values(|p: u8| pt_entry(p)),
    ensures
        parents_view(r@) == ancestor_chain(ptm, i as int),
        forall|q: int| 0 <= q < r@.len() ==> (#[trigger] r@[q]) < 255,
{
    let mut rev: Vec<usize> = Vec::new();
    let mut p: usize = parents[i] as usize;
    proof {
        assert(ptm[i as int] == (parents@[i as int]) as int);
        assert(parents_view(rev@) =~= Seq::<int>::empty());
    }
    let ghost cur = i as int;
    while p != 255
        invariant
            parents@.len() < MAX_JOINTS,
            ptm == parents@.map_values(|q: u8| pt_entry(q)),
            ptm.len() == parents@.len(),
            forall|k: int| 0 < k < parents@.len() ==> ((#[trigger] parents@[k]) as int) < k,
            parents@.len() > 0 ==> parents@[0] == NO_PARENT,
            0 <= cur < parents@.len(),
            p == (parents@[cur]) as usize,
            p != 255 ==> (p as int) < cur,
            ancestor_chain(ptm, i as int) == ancestor_chain(ptm, cur) + parents_view(
                rev@,
            ).reverse(),
            forall|q: int| 0 <= q < rev@.len() ==> (#[trigger] rev@[q]) < 255,
        decreases cur,
    {
        proof {
            assert(ptm[cur] == (parents@[cur]) as int);
            assert(ancestor_chain(ptm, cur) == ancestor_chain(ptm, p as int).push(p as int));
            assert(ancestor_chain(ptm, p as int) + parents_view(rev@.push(p)).reverse()
                =~= (ancestor_chain(ptm, p as int).push(p as int)) + parents_view(rev@).reverse());
        }
        rev.push(p);
        proof {
            cur = p as int;
        }
        p = parents[p] as usize;
        proof {
            if p != 255 {
                if cur == 0 {
                    assert(parents@[0] == NO_PARENT);
                    assert(false);
                }
            }
        }
    }
    proof {
        assert(ancestor_chain(ptm, cur) =~= Seq::<int>::empty()) by {
            if 0 <= cur < ptm.len() && 0 <= ptm[cur] < cur {
                assert(ptm[cur] == (parents@[cur]) as int);
                assert((parents@[cur]) as int == 255);
            }
        }
        assert(ancestor_chain(ptm, i as int) == parents_view(rev@).reverse());
    }
    let mut chain: Vec<usize> = Vec::new();
    let mut k: usize = rev.len();
    while k > 0
        invariant
            k <= rev@.len(),
            chain@.len() == rev@.len() - k,
            forall|q: int| 0 <= q < chain@.len() ==> #[trigger] chain@[q] == rev@[rev@.len() - 1
                - q],
            forall|q: int| 0 <= q < rev@.len() ==> (#[trigger] rev@[q]) < 255,
        decreases k,
    {
        k = k - 1;
        chain.push(rev[k]);
    }
    proof {
        assert(parents_view(chain@) =~= parents_view(rev@).reverse());
    }
    chain
}

/// De-indexes a `Basic` stream: one output vertex per index occurrence.
pub fn deindex_basic(indices: &Vec<u32>, positions: &Vec<Vec3>) -> (r: Result<
    Vec<VertexP>,
    ExtractError,
>)
    ensures
        match r {
            Ok(vs) => vs@.len() == indices@.len() && (forall|k: int|
                0 <= k < vs@.len() ==> (#[trigger] indices@[k]) < positions@.len()) && (forall|
                k: int,
            |
                0 <= k < vs@.len() ==> (#[trigger] vs@[k]) == (VertexP {
                    position: positions@[indices@[k] as int],
                })),
            Err(e) => (e matches ExtractError::IndexOutOfRange { index } && exists|k: int|
                0 <= k < indices@.len() && (#[trigger] indices@[k]) as int == index
                    && index >= positions@.len()),
        },
{
    let mut vs: Vec<VertexP> = Vec::new();
    let mut k: usize = 0;
    while k < indices.len()
        invariant
            k <= indices@.len(),
            vs@.len() == k,
            forall|q: int| 0 <= q < k ==> (#[trigger] indices@[q]) < positions@.len(),
            forall|q: int|
                0 <= q < k ==> (#[trigger] vs@[q]) == (VertexP {
                    position: positions@[indices@[q] as int],
                }),
        decreases indices@.len() - k,
    {
        let idx = indices[k] as usize;
        if !(idx < positions.len()) {
            return Err(ExtractError::IndexOutOfRange { index: idx });
        }
        vs.push(VertexP { position: positions[idx] });
        proof {
            assert(idx as int == indices@[k as int] as int);
            assert(vs@[k as int] == (VertexP { position: positions@[indices@[k as int] as int] }));
        }
        k = k + 1;
    }
    Ok(vs)
}

/// De-indexes a `U` stream: one output vertex per index occurrence.
pub fn deindex_u(indices: &Vec<u32>, positions: &Vec<Vec3>, uvs: &Vec<Vec2>) -> (r: Result<
    Vec<VertexU>,
    ExtractError,
>)
    ensures
        match r {
            Ok(vs) => vs@.len() == indices@.len() && (forall|k: int|
                0 <= k < vs@.len() ==> (#[trigger] indices@[k]) < positions@.len()
                    && indices@[k] < uvs@.len()) && (forall|k: int|
                0 <= k < vs@.len() ==> (#[trigger] vs@[k]) == (VertexU {
                    position: positions@[indices@[k] as int],
                    uv: uvs@[indices@[k] as int],
                })),
            Err(e) => (e matches ExtractError::IndexOutOfRange { index } && exists|k: int|
                0 <= k < indices@.len() && (#[trigger] indices@[k]) as int == index && (index
                    >= positions@.len() || index >= uvs@.len())),
        },
{
    let mut vs: Vec<VertexU> = Vec::new();
    let mut k: usize = 0;
    while k < indices.len()
        invariant
            k <= indices@.len(),
            vs@.len() == k,
            forall|q: int|
                0 <= q < k ==> (#[trigger] indices@[q]) < positions@.len() && indices@[q]
                    < uvs@.len(),
            forall|q: int|
                0 <= q < k ==> (#[trigger] vs@[q]) == (VertexU {
                    position: positions@[indices@[q] as int],
                    uv: uvs@[indices@[q] as int],
                }),
        decreases indices@.len() - k,
    {
        let idx = indices[k] as usize;
        if !(idx < positions.len() && idx < uvs.len()) {
            return Err(ExtractError::IndexOutOfRange { index: idx });
        }
        vs.push(VertexU { position: positions[idx], uv: uvs[idx] });
        k = k + 1;
    }
    Ok(vs)
}

/// De-indexes an `NU` stream: one output vertex per index occurrence.
pub fn deindex_nu(
    indices: &Vec<u32>,
    positions: &Vec<Vec3>,
    normals: &Vec<Vec3>,
    uvs: &Vec<Vec2>,
) -> (r: Result<Vec<VertexNU>, ExtractError>)
    ensures
        match r {
            Ok(vs) => vs@.len() == indices@.len() && (forall|k: int|
                0 <= k < vs@.len() ==> (#[trigger] indices@[k]) < positions@.len()
                    && indices@[k] < normals@.len() && indices@[k] < uvs@.len()) && (forall|
                k: int,
            |
                0 <= k < vs@.len() ==> (#[trigger] vs@[k]) == (VertexNU {
                    position: positions@[indices@[k] as int],
                    normal: normals@[indices@[k] as int],
                    uv: uvs@[indices@[k] as int],
                })),
            Err(e) => (e matches ExtractError::IndexOutOfRange { index } && exists|k: int|
                0 <= k < indices@.len() && (#[trigger] indices@[k]) as int == index && (index
                    >= positions@.len() || index >= normals@.len() || index >= uvs@.len())),
        },
{
    let mut vs: Vec<VertexNU> = Vec::new();
    let mut k: usize = 0;
    while k < indices.len()
        invariant
            k <= indices@.len(),
            vs@.len() == k,
            forall|q: int|
                0 <= q < k ==> (#[trigger] indices@[q]) < positions@.len() && indices@[q]
                    < normals@.len() && indices@[q] < uvs@.len(),
            forall|q: int|
                0 <= q < k ==> (#[trigger] vs@[q]) == (VertexNU {
                    position: positions@[indices@[q] as int],
                    normal: normals@[indices@[q] as int],
                    uv: uvs@[indices@[q] as int],
                }),
        decreases indices@.len() - k,
    {
        let idx = indices[k] as usize;
        if !(idx < positions.len() && idx < normals.len() && idx < uvs.len()) {
            return Err(ExtractError::IndexOutOfRange { index: idx });
        }
        vs.push(VertexNU { position: positions[idx], normal: normals[idx], uv: uvs[idx] });
        k = k + 1;
    }
    Ok(vs)
}

/// De-indexes an `NUS` (skinned) stream: one output vertex per index
/// occurrence.
pub fn deindex_nus(
    indices: &Vec<u32>,
    positions: &Vec<Vec3>,
    normals: &Vec<Vec3>,
    uvs: &Vec<Vec2>,
    joints: &Vec<JointIndices>,
    weights: &Vec<Vec4>,
) -> (r: Result<Vec<VertexNUS>, ExtractError>)
    ensures
        match r {
            Ok(vs) => vs@.len() == indices@.len() && (forall|k: int|
                0 <= k < vs@.len() ==> (#[trigger] indices@[k]) < positions@.len()
                    && indices@[k] < normals@.len() && indices@[k] < uvs@.len() && indices@[k]
                    < joints@.len() && indices@[k] < weights@.len()) && (forall|k: int|
                0 <= k < vs@.len() ==> (#[trigger] vs@[k]) == (VertexNUS {
                    position: positions@[indices@[k] as int],
                    normal: normals@[indices@[k] as int],
                    uv: uvs@[indices@[k] as int],
                    joints: joints@[indices@[k] as int],
                    weights: weights@[indices@[k] as int],
                })),
            Err(e) => (e matches ExtractError::IndexOutOfRange { index } && exists|k: int|
                0 <= k < indices@.len() && (#[trigger] indices@[k]) as int == index && (index
                    >= positions@.len() || index >= normals@.len() || index >= uvs@.len() || index
                    >= joints@.len() || index >= weights@.len())),
        },
{
    let mut vs: Vec<VertexNUS> = Vec::new();
    let mut k: usize = 0;
    while k < indices.len()
        invariant
            k <= indices@.len(),
            vs@.len() == k,
            forall|q: int|
                0 <= q < k ==> (#[trigger] indices@[q]) < positions@.len() && indices@[q]
                    < normals@.len() && indices@[q] < uvs@.len() && indices@[q] < joints@.len()
                    && indices@[q] < weights@.len(),
            forall|q: int|
                0 <= q < k ==> (#[trigger] vs@[q]) == (VertexNUS {
                    position: positions@[indices@[q] as int],
                    normal: normals@[indices@[q] as int],
                    uv: uvs@[indices@[q] as int],
                    joints: joints@[indices@[q] as int],
                    weights: weights@[indices@[q] as int],
                }),
        decreases indices@.len() - k,
    {
        let idx = indices[k] as usize;
        if !(idx < positions.len() && idx < normals.len() && idx < uvs.len() && idx
            < joints.len() && idx < weights.len()) {
            return Err(ExtractError::IndexOutOfRange { index: idx });
        }
        vs.push(
            VertexNUS {
                position: positions[idx],
                normal: normals[idx],
                uv: uvs[idx],
                joints: joints[idx],
                weights: weights[idx],
            },
        );
        k = k + 1;
    }
    Ok(vs)
}

/// Builds the vertex stream the configured layout asks for, failing fast
/// when the scene export lacks a required attribute.  On success the
/// stream matches the layout and holds one vertex per index occurrence.
pub fn build_vertex_data(
    vertex_type: VertexType,
    indices: &Vec<u32>,
    positions: &Vec<Vec3>,
    normals: Option<&Vec<Vec3>>,
    uvs: Option<&Vec<Vec2>>,
    joints: Option<&Vec<JointIndices>>,
    weights: Option<&Vec<Vec4>>,
) -> (r: Result<VertexData, ExtractError>)
    ensures
        match r {
            Ok(vd) => vertices_match(vertex_type, vd@) && vertices_len(vd@) == indices@.len(),
            Err(e) => match e {
                ExtractError::MissingAttribute => (match vertex_type {
                    VertexType::Basic => false,
                    VertexType::U => uvs is None,
                    VertexType::NU => normals is None || uvs is None,
                    VertexType::NUS => normals is None || uvs is None || joints is None
                        || weights is None,
                }),
                ExtractError::IndexOutOfRange { index } => exists|k: int|
                    0 <= k < indices@.len() && (#[trigger] indices@[k]) as int == index && (index
                        >= positions@.len() || (match vertex_type {
                        VertexType::Basic => false,
                        VertexType::U => uvs matches Some(u) && index >= u@.len(),
                        VertexType::NU => (normals matches Some(nr) && index >= nr@.len()) || (
                        uvs matches Some(u) && index >= u@.len()),
                        VertexType::NUS => (normals matches Some(nr) && index >= nr@.len()) || (
                        uvs matches Some(u) && index >= u@.len()) || (joints matches Some(ji)
                            && index >= ji@.len()) || (weights matches Some(w) && index
                            >= w@.len()),
                    })),
                _ => false,
            },
        },
{
    match vertex_type {
        VertexType::Basic => match deindex_basic(indices, positions) {
            Ok(vs) => Ok(VertexData::Basic(vs)),
            Err(e) => Err(e),
        },
        VertexType::U => match uvs {
            Some(u) => match deindex_u(indices, positions, u) {
                Ok(vs) => Ok(VertexData::U(vs)),
                Err(e) => Err(e),
            },
            None => Err(ExtractError::MissingAttribute),
        },
        VertexType::NU => match (normals, uvs) {
            (Some(n), Some(u)) => match deindex_nu(indices, positions, n, u) {
                Ok(vs) => Ok(VertexData::NU(vs)),
                Err(e) => Err(e),
            },
            _ => Err(ExtractError::MissingAttribute),
        },
        VertexType::NUS => match (normals, uvs, joints, weights) {
            (Some(n), Some(u), Some(j), Some(w)) => match deindex_nus(
                indices,
                positions,
                n,
                u,
                j,
                w,
            ) {
                Ok(vs) => Ok(VertexData::NUS(vs)),
                Err(e) => Err(e),
            },
            _ => Err(ExtractError::MissingAttribute),
        },
    }
}

} // verus!
