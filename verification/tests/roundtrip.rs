//! Round-trip tests: encoding an asset and decoding the bytes reproduces
//! every field, to float bit-equality.

use nexodia::assets::Assets;
use nexodia::encode::{encode_animation, encode_mesh, encode_texture};
use nexodia::model::{
    Animation, AnimationFrame, AnimationJoint, Joint, JointIndices, Mat4, Mesh, Texture,
    TextureImage, Transform, Vec2, Vec3, Vec4, VertexData, VertexNU, VertexNUS, VertexP, VertexU,
    VertexType,
};
use nexodia::reader::Reader;
use nexodia::writer::Writer;

fn v2(x: f32, y: f32) -> Vec2 {
    Vec2 { x: x.to_bits(), y: y.to_bits() }
}

fn v3(x: f32, y: f32, z: f32) -> Vec3 {
    Vec3 { x: x.to_bits(), y: y.to_bits(), z: z.to_bits() }
}

fn v4(x: f32, y: f32, z: f32, w: f32) -> Vec4 {
    Vec4 { x: x.to_bits(), y: y.to_bits(), z: z.to_bits(), w: w.to_bits() }
}

fn mat(d: f32) -> Mat4 {
    Mat4 {
        r0: v4(d, 0.0, 0.0, 0.0),
        r1: v4(0.0, d, 0.0, 0.0),
        r2: v4(0.0, 0.0, d, 0.0),
        r3: v4(0.25, -1.5, 3.75, 1.0),
    }
}

fn skinned_mesh() -> Mesh {
    let root = Joint {
        name: b"root".to_vec(),
        id: 0,
        parent: 255,
        parents: vec![],
        tpose: mat(1.0),
        tpose_local: mat(1.0),
        ibm: mat(-1.0),
    };
    let child = Joint {
        name: b"arm".to_vec(),
        id: 1,
        parent: 0,
        parents: vec![0],
        tpose: mat(2.0),
        tpose_local: mat(0.5),
        ibm: mat(-2.0),
    };
    Mesh {
        name: b"hero".to_vec(),
        vertex_type: VertexType::NUS,
        vertices: VertexData::NUS(vec![
            VertexNUS {
                position: v3(0.0, 1.0, 2.0),
                normal: v3(0.0, 1.0, 0.0),
                uv: v2(0.5, 0.5),
                joints: JointIndices { a: 0, b: 1, c: 0, d: 0 },
                weights: v4(0.75, 0.25, 0.0, 0.0),
            },
            VertexNUS {
                position: v3(-1.0, 0.125, 8.5),
                normal: v3(0.0, 0.0, -1.0),
                uv: v2(1.0, 0.0),
                joints: JointIndices { a: 1, b: 0, c: 0, d: 0 },
                weights: v4(1.0, 0.0, 0.0, 0.0),
            },
        ]),
        joints: vec![root, child],
    }
}

fn sample_animation() -> Animation {
    let f0 = AnimationFrame {
        joints: vec![
            AnimationJoint {
                pose: Transform {
                    translation: v3(0.0, 0.0, 0.0),
                    rotation: v3(0.0, 0.0, 0.0),
                    scale: v3(1.0, 1.0, 1.0),
                },
            },
            AnimationJoint {
                pose: Transform {
                    translation: v3(0.0, 1.0, 0.0),
                    rotation: v3(0.5, 0.0, 0.0),
                    scale: v3(1.0, 1.0, 1.0),
                },
            },
        ],
    };
    let f1 = AnimationFrame {
        joints: vec![
            AnimationJoint {
                pose: Transform {
                    translation: v3(0.0, 0.0, 2.0),
                    rotation: v3(0.0, 0.25, 0.0),
                    scale: v3(2.0, 2.0, 2.0),
                },
            },
            AnimationJoint {
                pose: Transform {
                    translation: v3(0.0, -1.0, 0.0),
                    rotation: v3(0.0, 0.0, 1.5),
                    scale: v3(1.0, 0.5, 1.0),
                },
            },
        ],
    };
    Animation { name: b"walk".to_vec(), joints_length: 2, frames: vec![f0, f1] }
}

#[test]
fn mesh_roundtrip_skinned() {
    let mesh = skinned_mesh();
    let bytes = encode_mesh(&mesh);
    let mut assets = Assets::new();
    assets.load(bytes).expect("valid mesh record must load");
    assert_eq!(assets.meshes.len(), 1);
    assert_eq!(assets.meshes[0], mesh);
}

#[test]
fn mesh_roundtrip_basic() {
    let mesh = Mesh {
        name: b"tri".to_vec(),
        vertex_type: VertexType::Basic,
        vertices: VertexData::Basic(vec![
            VertexP { position: v3(0.0, 0.0, 0.0) },
            VertexP { position: v3(1.0, 0.0, 0.0) },
            VertexP { position: v3(0.0, 1.0, 0.0) },
        ]),
        joints: vec![],
    };
    let bytes = encode_mesh(&mesh);
    let mut assets = Assets::new();
    assets.load(bytes).expect("valid mesh record must load");
    assert_eq!(assets.meshes[0], mesh);
}

#[test]
fn mesh_roundtrip_u() {
    let mesh = Mesh {
        name: b"quad".to_vec(),
        vertex_type: VertexType::U,
        vertices: VertexData::U(vec![VertexU { position: v3(3.5, -2.0, 0.0), uv: v2(0.0, 1.0) }]),
        joints: vec![],
    };
    let bytes = encode_mesh(&mesh);
    let mut assets = Assets::new();
    assets.load(bytes).expect("valid mesh record must load");
    assert_eq!(assets.meshes[0], mesh);
}

#[test]
fn mesh_roundtrip_nu() {
    let mesh = Mesh {
        name: b"terrain".to_vec(),
        vertex_type: VertexType::NU,
        vertices: VertexData::NU(vec![VertexNU {
            position: v3(0.0, 0.5, 1.0),
            normal: v3(0.0, 1.0, 0.0),
            uv: v2(0.25, 0.75),
        }]),
        joints: vec![],
    };
    let bytes = encode_mesh(&mesh);
    let mut assets = Assets::new();
    assets.load(bytes).expect("valid mesh record must load");
    assert_eq!(assets.meshes[0], mesh);
}

#[test]
fn texture_roundtrip() {
    let img = TextureImage {
        name: b"grass".to_vec(),
        width: 2,
        height: 1,
        rgb: vec![10, 20, 30, 40, 50, 60],
    };
    let bytes = encode_texture(&img);
    let mut assets = Assets::new();
    assets.load(bytes).expect("valid texture record must load");
    let expected = Texture {
        name: b"grass".to_vec(),
        width: 2,
        height: 1,
        rgba: vec![10, 20, 30, 255, 40, 50, 60, 255],
    };
    assert_eq!(assets.textures[0], expected);
}

#[test]
fn animation_roundtrip() {
    let anim = sample_animation();
    let bytes = encode_animation(&anim);
    let mut assets = Assets::new();
    assets.load(bytes).expect("valid animation record must load");
    assert_eq!(assets.animations[0], anim);
}

#[test]
fn writer_encodes_big_endian() {
    let mut w = Writer::new();
    w.append_u32(0x01020304);
    assert_eq!(w.0, vec![1, 2, 3, 4]);
}

#[test]
fn writer_float_bits_match_std_encoding() {
    let mut w = Writer::new();
    w.append_f32(1.5f32.to_bits());
    assert_eq!(w.0, 1.5f32.to_be_bytes().to_vec());
}

#[test]
fn writer_string_appends_sentinel() {
    let mut w = Writer::new();
    w.append_string(b"cube");
    assert_eq!(w.0, b"cube#".to_vec());
}

#[test]
fn writer_joints_narrowed_to_bytes() {
    let mut w = Writer::new();
    w.append_joints(JointIndices { a: 3, b: 1, c: 0, d: 2 });
    assert_eq!(w.0, vec![3, 1, 0, 2]);
}

#[test]
fn reader_primitives() {
    let mut r = Reader::new(vec![b'a', b'b', b'#', 0, 0, 1, 0, 7]);
    assert!(!r.finished());
    let s = r.read_string().expect("string closed by sentinel");
    assert_eq!(s, b"ab".to_vec());
    let v = r.read_u32().expect("four bytes left");
    assert_eq!(v, 256);
    let b = r.read_u8().expect("one byte left");
    assert_eq!(b, 7);
    assert!(r.finished());
}

#[test]
fn reader_read_end_accepts_marker() {
    let mut r = Reader::new(vec![69, 78, 68]);
    r.read_end(&b"asset".to_vec()).expect("marker is END");
    assert!(r.finished());
}

#[test]
fn mesh_record_bytes_are_exact() {
    // One Basic vertex at (1.0, 2.0, 3.0): tag, "v#", "Basic#", count 1,
    // three big-endian floats, END.
    let mesh = Mesh {
        name: b"v".to_vec(),
        vertex_type: VertexType::Basic,
        vertices: VertexData::Basic(vec![VertexP { position: v3(1.0, 2.0, 3.0) }]),
        joints: vec![],
    };
    let mut expected = Vec::new();
    expected.push(b'M');
    expected.extend_from_slice(b"v#");
    expected.extend_from_slice(b"Basic#");
    expected.extend_from_slice(&1u32.to_be_bytes());
    expected.extend_from_slice(&1.0f32.to_be_bytes());
    expected.extend_from_slice(&2.0f32.to_be_bytes());
    expected.extend_from_slice(&3.0f32.to_be_bytes());
    expected.extend_from_slice(b"END");
    assert_eq!(encode_mesh(&mesh), expected);
}

#[test]
fn texture_record_bytes_are_exact() {
    let img = TextureImage { name: b"t".to_vec(), width: 1, height: 1, rgb: vec![7, 8, 9] };
    let mut expected = Vec::new();
    expected.push(b'I');
    expected.extend_from_slice(b"t#");
    expected.extend_from_slice(&1u32.to_be_bytes());
    expected.extend_from_slice(&1u32.to_be_bytes());
    expected.extend_from_slice(&[7, 8, 9]);
    expected.extend_from_slice(b"END");
    assert_eq!(encode_texture(&img), expected);
}
