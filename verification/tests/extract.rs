//! Scene-extraction tests: graph inversion, ancestor chains, the joint
//! hierarchy invariant, and vertex de-indexing.

use nexodia::assets::Assets;
use nexodia::encode::encode_mesh;
use nexodia::extract::{
    build_skeleton, build_vertex_data, deindex_basic, get_gltf_node_parent_id, skeleton_parents,
    ExtractError,
};
use nexodia::model::{Mat4, Mesh, Vec2, Vec3, Vec4, VertexData, VertexType};

fn identity() -> Mat4 {
    let one = 1.0f32.to_bits();
    Mat4 {
        r0: Vec4 { x: one, y: 0, z: 0, w: 0 },
        r1: Vec4 { x: 0, y: one, z: 0, w: 0 },
        r2: Vec4 { x: 0, y: 0, z: one, w: 0 },
        r3: Vec4 { x: 0, y: 0, z: 0, w: one },
    }
}

/// root (0) -> spine (1) -> arm (2), and root -> leg (3).
fn graph() -> Vec<Vec<usize>> {
    vec![vec![1, 3], vec![2], vec![], vec![]]
}

#[test]
fn parent_scan_finds_the_listing_joint() {
    let g = graph();
    assert_eq!(get_gltf_node_parent_id(&g, 0), 255);
    assert_eq!(get_gltf_node_parent_id(&g, 1), 0);
    assert_eq!(get_gltf_node_parent_id(&g, 2), 1);
    assert_eq!(get_gltf_node_parent_id(&g, 3), 0);
}

#[test]
fn skeleton_parents_inverts_the_graph() {
    let pt = skeleton_parents(&graph()).expect("the graph is a rooted tree");
    assert_eq!(pt, vec![255, 0, 1, 0]);
}

#[test]
fn skeleton_parents_rejects_a_childless_root_set() {
    // Joint 1 lists joint 0: joint 0 would have a parent.
    let g = vec![vec![], vec![0]];
    match skeleton_parents(&g) {
        Err(ExtractError::BadHierarchy { joint }) => assert_eq!(joint, 0),
        other => panic!("expected a hierarchy error, got {:?}", other),
    }
}

#[test]
fn skeleton_parents_rejects_a_second_root() {
    // Joint 1 is listed by nobody: a second root.
    let g = vec![vec![], vec![]];
    match skeleton_parents(&g) {
        Err(ExtractError::BadHierarchy { joint }) => assert_eq!(joint, 1),
        other => panic!("expected a hierarchy error, got {:?}", other),
    }
}

#[test]
fn built_skeleton_has_chains_to_the_root() {
    let pt = skeleton_parents(&graph()).expect("the graph is a rooted tree");
    let names: Vec<Vec<u8>> =
        vec![b"root".to_vec(), b"spine".to_vec(), b"arm".to_vec(), b"leg".to_vec()];
    let mats = vec![identity(), identity(), identity(), identity()];
    let js = build_skeleton(&names, &pt, &mats, &mats, &mats).expect("a valid table builds");
    assert_eq!(js.len(), 4);
    // The joint hierarchy invariant, concretely: every chain walks from the
    // root to the joint's immediate parent, within joint-count steps.
    for (i, j) in js.iter().enumerate() {
        assert_eq!(j.id, i);
        assert!(j.parents.len() <= i);
        if i == 0 {
            assert_eq!(j.parent, 255);
            assert!(j.parents.is_empty());
        } else {
            assert_eq!(j.parents[0], 0);
            assert_eq!(*j.parents.last().unwrap(), j.parent);
            for w in j.parents.windows(2) {
                assert_eq!(js[w[1]].parent, w[0]);
            }
        }
    }
    assert_eq!(js[2].parents, vec![0, 1]);
}

#[test]
fn decoded_skeleton_keeps_the_hierarchy() {
    let pt = skeleton_parents(&graph()).expect("the graph is a rooted tree");
    let names: Vec<Vec<u8>> =
        vec![b"root".to_vec(), b"spine".to_vec(), b"arm".to_vec(), b"leg".to_vec()];
    let mats = vec![identity(), identity(), identity(), identity()];
    let js = build_skeleton(&names, &pt, &mats, &mats, &mats).expect("a valid table builds");
    let mesh = Mesh {
        name: b"hero".to_vec(),
        vertex_type: VertexType::NUS,
        vertices: VertexData::NUS(vec![]),
        joints: js,
    };
    let mut assets = Assets::new();
    assets.load(encode_mesh(&mesh)).expect("valid mesh record must load");
    let decoded = assets.get_mesh(&b"hero".to_vec()).expect("name is registered");
    assert_eq!(*decoded, mesh);
    for (i, j) in decoded.joints.iter().enumerate() {
        assert!(j.parents.len() <= i);
        if i > 0 {
            assert_eq!(*j.parents.last().unwrap(), j.parent);
        }
    }
}

#[test]
fn deindex_expands_without_dedup() {
    let positions = vec![
        Vec3 { x: 1, y: 0, z: 0 },
        Vec3 { x: 2, y: 0, z: 0 },
        Vec3 { x: 3, y: 0, z: 0 },
    ];
    let indices = vec![0, 1, 2, 2, 1, 0];
    let vs = deindex_basic(&indices, &positions).expect("indices are in range");
    assert_eq!(vs.len(), 6);
    assert_eq!(vs[0].position, positions[0]);
    assert_eq!(vs[3].position, positions[2]);
    assert_eq!(vs[5].position, positions[0]);
}

#[test]
fn deindex_rejects_out_of_range_indices() {
    let positions = vec![Vec3 { x: 1, y: 0, z: 0 }];
    match deindex_basic(&vec![0, 3], &positions) {
        Err(ExtractError::IndexOutOfRange { index }) => assert_eq!(index, 3),
        other => panic!("expected an index error, got {:?}", other),
    }
}

#[test]
fn missing_attribute_is_fatal() {
    let positions = vec![Vec3 { x: 1, y: 0, z: 0 }];
    let uvs: Vec<Vec2> = vec![Vec2 { x: 0, y: 0 }];
    match build_vertex_data(VertexType::NU, &vec![0], &positions, None, Some(&uvs), None, None) {
        Err(ExtractError::MissingAttribute) => {},
        other => panic!("expected a missing-attribute error, got {:?}", other),
    }
}

#[test]
fn build_vertex_data_picks_the_layout() {
    let positions = vec![Vec3 { x: 1, y: 0, z: 0 }];
    let uvs = vec![Vec2 { x: 7, y: 9 }];
    let vd = build_vertex_data(
        VertexType::U,
        &vec![0, 0],
        &positions,
        None,
        Some(&uvs),
        None,
        None,
    )
        .expect("all attributes of the U layout are present");
    match vd {
        VertexData::U(vs) => {
            assert_eq!(vs.len(), 2);
            assert_eq!(vs[0].uv, uvs[0]);
        },
        other => panic!("expected a U stream, got {:?}", other),
    }
}
