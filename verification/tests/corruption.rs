//! Corruption detection and the other fatal load errors.

use nexodia::assets::Assets;
use nexodia::encode::{encode_animation, encode_mesh, encode_texture};
use nexodia::model::{
    Animation, AnimationFrame, AnimationJoint, Mesh, TextureImage, Transform, Vec3, VertexData,
    VertexP, VertexType,
};
use nexodia::reader::DecodeError;

fn small_mesh() -> Mesh {
    Mesh {
        name: b"crate".to_vec(),
        vertex_type: VertexType::Basic,
        vertices: VertexData::Basic(vec![VertexP {
            position: Vec3 { x: 0, y: 0, z: 0 },
        }]),
        joints: vec![],
    }
}

fn zero_transform() -> Transform {
    let z = Vec3 { x: 0, y: 0, z: 0 };
    Transform { translation: z, rotation: z, scale: z }
}

#[test]
fn mutated_end_marker_is_corruption_with_name() {
    let mut blob = encode_mesh(&small_mesh());
    let n = blob.len();
    blob[n - 3] = b'X';
    blob[n - 2] = b'Y';
    blob[n - 1] = b'Z';
    let mut assets = Assets::new();
    match assets.load(blob) {
        Err(DecodeError::Corrupt { name }) => assert_eq!(name, b"crate".to_vec()),
        other => panic!("expected corruption naming the mesh, got {:?}", other),
    }
}

#[test]
fn truncated_end_marker_is_corruption_with_name() {
    let mut blob = encode_mesh(&small_mesh());
    blob.truncate(blob.len() - 3);
    let mut assets = Assets::new();
    match assets.load(blob) {
        Err(DecodeError::Corrupt { name }) => assert_eq!(name, b"crate".to_vec()),
        other => panic!("expected corruption naming the mesh, got {:?}", other),
    }
}

#[test]
fn mutated_texture_end_marker_is_corruption() {
    let img = TextureImage { name: b"skin".to_vec(), width: 1, height: 1, rgb: vec![1, 2, 3] };
    let mut blob = encode_texture(&img);
    let n = blob.len();
    blob[n - 2] = 0;
    let mut assets = Assets::new();
    match assets.load(blob) {
        Err(DecodeError::Corrupt { name }) => assert_eq!(name, b"skin".to_vec()),
        other => panic!("expected corruption naming the texture, got {:?}", other),
    }
}

#[test]
fn mutated_animation_end_marker_is_corruption() {
    let anim = Animation {
        name: b"walk".to_vec(),
        joints_length: 1,
        frames: vec![AnimationFrame { joints: vec![AnimationJoint { pose: zero_transform() }] }],
    };
    let mut blob = encode_animation(&anim);
    let n = blob.len();
    blob[n - 1] = b'!';
    let mut assets = Assets::new();
    match assets.load(blob) {
        Err(DecodeError::Corrupt { name }) => assert_eq!(name, b"walk".to_vec()),
        other => panic!("expected corruption naming the animation, got {:?}", other),
    }
}

#[test]
fn unknown_tag_is_invalid_asset_type() {
    let mut assets = Assets::new();
    match assets.load(vec![b'Q']) {
        Err(DecodeError::InvalidAssetType { tag }) => assert_eq!(tag, b'Q'),
        other => panic!("expected an invalid-asset-type error, got {:?}", other),
    }
}

#[test]
fn unknown_vertex_layout_is_invalid_vertex_type() {
    // M, name "m", layout tag "XYZ" -- no such layout.
    let blob = b"Mm#XYZ#".to_vec();
    let mut assets = Assets::new();
    match assets.load(blob) {
        Err(DecodeError::InvalidVertexType { text }) => assert_eq!(text, b"XYZ".to_vec()),
        other => panic!("expected an invalid-vertex-type error, got {:?}", other),
    }
}

#[test]
fn truncated_value_is_unexpected_end() {
    // M, name "m", layout "Basic", then only two of the four count bytes.
    let blob = b"Mm#Basic#\x00\x00".to_vec();
    let mut assets = Assets::new();
    match assets.load(blob) {
        Err(DecodeError::UnexpectedEnd) => {},
        other => panic!("expected an unexpected-end error, got {:?}", other),
    }
}

#[test]
fn oversized_skeleton_is_too_many_joints() {
    // M, name "m", layout "NUS", zero vertices, then a 128-joint count.
    let mut blob = b"Mm#NUS#\x00\x00\x00\x00".to_vec();
    blob.push(128);
    let mut assets = Assets::new();
    match assets.load(blob) {
        Err(DecodeError::TooManyJoints { count }) => assert_eq!(count, 128),
        other => panic!("expected a too-many-joints error, got {:?}", other),
    }
}

#[test]
fn error_aborts_the_load() {
    // A valid mesh followed by garbage: the load as a whole fails.
    let mut blob = encode_mesh(&small_mesh());
    blob.push(b'?');
    let mut assets = Assets::new();
    assert!(assets.load(blob).is_err());
}
