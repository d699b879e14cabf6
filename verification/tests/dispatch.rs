//! Tag dispatch: a blob holding several records, in any order, decodes
//! into all of them, each reachable by name in its own store.

use nexodia::assets::Assets;
use nexodia::encode::{encode_mesh, encode_texture};
use nexodia::model::{Mesh, TextureImage, Vec3, VertexData, VertexP, VertexType};

fn small_mesh(name: &[u8]) -> Mesh {
    Mesh {
        name: name.to_vec(),
        vertex_type: VertexType::Basic,
        vertices: VertexData::Basic(vec![VertexP {
            position: Vec3 { x: 1.0f32.to_bits(), y: 0, z: 0 },
        }]),
        joints: vec![],
    }
}

fn small_texture(name: &[u8]) -> TextureImage {
    TextureImage { name: name.to_vec(), width: 1, height: 1, rgb: vec![9, 8, 7] }
}

#[test]
fn texture_then_mesh() {
    let mut blob = encode_texture(&small_texture(b"skin"));
    blob.extend_from_slice(&encode_mesh(&small_mesh(b"body")));
    let mut assets = Assets::new();
    assets.load(blob).expect("two valid records must load");
    assert_eq!(assets.textures.len(), 1);
    assert_eq!(assets.meshes.len(), 1);
    assert!(assets.get_texture(&b"skin".to_vec()).is_some());
    assert!(assets.get_mesh(&b"body".to_vec()).is_some());
}

#[test]
fn mesh_then_texture() {
    let mut blob = encode_mesh(&small_mesh(b"body"));
    blob.extend_from_slice(&encode_texture(&small_texture(b"skin")));
    let mut assets = Assets::new();
    assets.load(blob).expect("two valid records must load");
    assert!(assets.get_texture(&b"skin".to_vec()).is_some());
    assert!(assets.get_mesh(&b"body".to_vec()).is_some());
}

#[test]
fn lookup_misses_are_none() {
    let mut assets = Assets::new();
    assets.load(encode_mesh(&small_mesh(b"body"))).expect("valid record must load");
    assert!(assets.get_mesh(&b"nobody".to_vec()).is_none());
    assert!(assets.get_texture(&b"body".to_vec()).is_none());
    assert!(assets.get_animation(&b"body".to_vec()).is_none());
}

#[test]
fn repeated_loads_append() {
    let mut assets = Assets::new();
    assets.load(encode_mesh(&small_mesh(b"a"))).expect("valid record must load");
    assets.load(encode_mesh(&small_mesh(b"b"))).expect("valid record must load");
    assert_eq!(assets.meshes.len(), 2);
    assert!(assets.get_mesh(&b"a".to_vec()).is_some());
    assert!(assets.get_mesh(&b"b".to_vec()).is_some());
}

#[test]
fn lookup_returns_first_match() {
    let mut assets = Assets::new();
    let mut first = small_mesh(b"dup");
    first.vertex_type = VertexType::Basic;
    assets.load(encode_mesh(&first)).expect("valid record must load");
    assets.load(encode_mesh(&small_mesh(b"dup"))).expect("valid record must load");
    let found = assets.get_mesh(&b"dup".to_vec()).expect("name is registered");
    assert_eq!(*found, assets.meshes[0]);
}
