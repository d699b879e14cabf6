//! The asset registry: loads compiled blobs and answers name lookups.
//!
//! Loading walks the blob record by record, dispatching on the tag byte;
//! an unknown tag or a corrupt record aborts the load.  Loading is
//! append-only: repeated loads add to the collections.

use vstd::prelude::*;

use crate::decode::{animation_load_error, mesh_load_error, texture_load_error};
use crate::format::{
    dec_blob, dec_record, dec_u8, RecordModel, TAG_ANIMATION, TAG_MESH, TAG_TEXTURE,
};
use crate::model::{
    Animation, AnimationModel, Mesh, MeshModel, Texture, TextureModel,
};
use crate::reader::{DecodeError, Reader};

verus! {

broadcast use crate::format::lemma_enc_u32_len;

/// The meshes among a blob's records, in blob order.
pub open spec fn blob_meshes(rs: Seq<RecordModel>) -> Seq<MeshModel>
    decreases rs.len(),
{
    if rs.len() == 0 {
        Seq::empty()
    } else {
        let rest = blob_meshes(rs.drop_first());
        match rs[0] {
            RecordModel::Mesh(m) => seq![m] + rest,
            _ => rest,
        }
    }
}

/// The textures among a blob's records, in blob order.
pub open spec fn blob_textures(rs: Seq<RecordModel>) -> Seq<TextureModel>
    decreases rs.len(),
{
    if rs.len() == 0 {
        Seq::empty()
    } else {
        let rest = blob_textures(rs.drop_first());
        match rs[0] {
            RecordModel::Texture(t) => seq![t] + rest,
            _ => rest,
        }
    }
}

/// The animations among a blob's records, in blob order.
pub open spec fn blob_animations(rs: Seq<RecordModel>) -> Seq<AnimationModel>
    decreases rs.len(),
{
    if rs.len() == 0 {
        Seq::empty()
    } else {
        let rest = blob_animations(rs.drop_first());
        match rs[0] {
            RecordModel::Animation(a) => seq![a] + rest,
            _ => rest,
        }
    }
}

/// Appending one record extends each extraction by that record alone.
pub proof fn lemma_blob_extract_push(rs: Seq<RecordModel>, r: RecordModel)
    ensures
        blob_meshes(rs.push(r)) == blob_meshes(rs) + (match r {
            RecordModel::Mesh(m) => seq![m],
            _ => Seq::empty(),
        }),
        blob_textures(rs.push(r)) == blob_textures(rs) + (match r {
            RecordModel::Texture(t) => seq![t],
            _ => Seq::empty(),
        }),
        blob_animations(rs.push(r)) == blob_animations(rs) + (match r {
            RecordModel::Animation(a) => seq![a],
            _ => Seq::empty(),
        }),
    decreases rs.len(),
{
    if rs.len() == 0 {
        assert(rs.push(r).drop_first() =~= Seq::<RecordModel>::empty());
        assert(blob_meshes(Seq::<RecordModel>::empty()) == Seq::<MeshModel>::empty());
        assert(blob_textures(Seq::<RecordModel>::empty()) == Seq::<TextureModel>::empty());
        assert(blob_animations(Seq::<RecordModel>::empty()) == Seq::<AnimationModel>::empty());
        assert(blob_meshes(rs.push(r)) =~= blob_meshes(rs) + (match r {
            RecordModel::Mesh(m) => seq![m],
            _ => Seq::empty(),
        }));
        assert(blob_textures(rs.push(r)) =~= blob_textures(rs) + (match r {
            RecordModel::Texture(t) => seq![t],
            _ => Seq::empty(),
        }));
        assert(blob_animations(rs.push(r)) =~= blob_animations(rs) + (match r {
            RecordModel::Animation(a) => seq![a],
            _ => Seq::empty(),
        }));
    } else {
        assert(rs.push(r).drop_first() =~= rs.drop_first().push(r));
        lemma_blob_extract_push(rs.drop_first(), r);
        assert(rs.push(r)[0] == rs[0]);
        assert(blob_meshes(rs.push(r)) =~= blob_meshes(rs) + (match r {
            RecordModel::Mesh(m) => seq![m],
            _ => Seq::empty(),
        }));
        assert(blob_textures(rs.push(r)) =~= blob_textures(rs) + (match r {
            RecordModel::Texture(t) => seq![t],
            _ => Seq::empty(),
        }));
        assert(blob_animations(rs.push(r)) =~= blob_animations(rs) + (match r {
            RecordModel::Animation(a) => seq![a],
            _ => Seq::empty(),
        }));
    }
}

/// The records a run of valid records decodes to between two positions:
/// `Some` exactly when records fill `[i, j)` back to back.
pub open spec fn dec_records_upto(s: Seq<u8>, i: int, j: int) -> Option<Seq<RecordModel>>
    decreases j - i,
{
    if i == j {
        Some(Seq::empty())
    } else if 0 <= i && i < j {
        match dec_record(s, i) {
            Some((r, k)) => if i < k <= j {
                match dec_records_upto(s, k, j) {
                    Some(rs) => Some(seq![r] + rs),
                    None => None,
                }
            } else {
                None
            },
            None => None,
        }
    } else {
        None
    }
}

/// A valid run extends by the record decoded at its end.
proof fn lemma_dec_records_upto_extend(s: Seq<u8>, i: int, j: int, r: RecordModel, k: int)
    requires
        dec_records_upto(s, i, j) is Some,
        dec_record(s, j) == Some((r, k)),
        j < k,
    ensures
        match dec_records_upto(s, i, j) {
            Some(rs) => dec_records_upto(s, i, k) == Some(rs.push(r)),
            None => false,
        },
    decreases j - i,
{
    if i == j {
        assert(dec_records_upto(s, k, k) == Some(Seq::<RecordModel>::empty()));
        assert(seq![r] + Seq::<RecordModel>::empty() =~= Seq::<RecordModel>::empty().push(r));
    } else {
        match dec_record(s, i) {
            Some((r0, m)) => {
                lemma_dec_records_upto_extend(s, m, j, r, k);
                match dec_records_upto(s, m, j) {
                    Some(rs2) => {
                        assert(seq![r0] + rs2.push(r) =~= (seq![r0] + rs2).push(r));
                    },
                    None => {
                        assert(false);
                    },
                }
            },
            None => {
                assert(false);
            },
        }
    }
}

/// What a failed load says of the record starting at position `p`: the
/// record does not decode, and the error is what the tag byte there
/// determines -- an unknown tag comes back verbatim in
/// `InvalidAssetType`, and a record whose payload reads back but whose
/// `END` marker is mangled or missing comes back as `Corrupt` naming that
/// asset (the per-record conditions of [`crate::decode`]).
pub open spec fn record_error_at(s: Seq<u8>, p: int, e: DecodeError) -> bool {
    &&& 0 <= p < s.len()
    &&& dec_record(s, p) is None
    &&& match dec_u8(s, p) {
        Some((tag, q)) => if tag == TAG_MESH {
            mesh_load_error(s, q, e)
        } else if tag == TAG_TEXTURE {
            texture_load_error(s, q, e)
        } else if tag == TAG_ANIMATION {
            animation_load_error(s, q, e)
        } else {
            e matches DecodeError::InvalidAssetType { tag: t } && t == tag
        },
        None => false,
    }
}

/// The mathematical values of a vector of meshes.
pub open spec fn meshes_view(ms: Seq<Mesh>) -> Seq<MeshModel> {
    ms.map_values(|m: Mesh| m@)
}

/// The mathematical values of a vector of textures.
pub open spec fn textures_view(ts: Seq<Texture>) -> Seq<TextureModel> {
    ts.map_values(|t: Texture| t@)
}

/// The mathematical values of a vector of animations.
pub open spec fn animations_view(xs: Seq<Animation>) -> Seq<AnimationModel> {
    xs.map_values(|a: Animation| a@)
}

/// Whether `post`'s three stores hold exactly `pre`'s entries followed by
/// the records of `rs`, each in its own store, in order.
pub open spec fn stores_extend(pre: Assets, post: Assets, rs: Seq<RecordModel>) -> bool {
    &&& meshes_view(post.meshes@) == meshes_view(pre.meshes@) + blob_meshes(rs)
    &&& textures_view(post.textures@) == textures_view(pre.textures@) + blob_textures(rs)
    &&& animations_view(post.animations@) == animations_view(pre.animations@) + blob_animations(
        rs,
    )
}

/// Name-keyed stores of every decoded mesh, texture and animation.
pub struct Assets {
    pub meshes: Vec<Mesh>,
    pub textures: Vec<Texture>,
    pub animations: Vec<Animation>,
}

impl Assets {
    /// An empty registry.
    pub fn new() -> (r: Assets)
        ensures
            meshes_view(r.meshes@) == Seq::<MeshModel>::empty(),
            textures_view(r.textures@) == Seq::<TextureModel>::empty(),
            animations_view(r.animations@) == Seq::<AnimationModel>::empty(),
    {
        proof {
            assert(meshes_view(Seq::<Mesh>::empty()) =~= Seq::<MeshModel>::empty());
            assert(textures_view(Seq::<Texture>::empty()) =~= Seq::<TextureModel>::empty());
            assert(animations_view(Seq::<Animation>::empty()) =~= Seq::<AnimationModel>::empty());
        }
        Assets { meshes: Vec::new(), textures: Vec::new(), animations: Vec::new() }
    }

    /// Decodes a whole compiled blob into the registry, record by record.
    /// Succeeds exactly when the bytes form a valid blob, and then adds
    /// precisely the blob's records, in order, to the three stores.  A
    /// failed load aborts at the first bad record: the stores hold exactly
    /// the records before it, and the error is what that record's bytes
    /// determine -- `InvalidAssetType` with the unknown tag byte, or, when
    /// everything up to the record's `END` marker still reads back,
    /// `Corrupt` naming the asset whose marker was mangled or cut off.
    #[verifier::rlimit(100)]
    pub fn load(&mut self, data: Vec<u8>) -> (r: Result<(), DecodeError>)
        ensures
            match r {
                Ok(_) => match dec_blob(data@, 0) {
                    Some(rs) => stores_extend(*old(self), *final(self), rs),
                    None => false,
                },
                Err(e) => dec_blob(data@, 0) is None && (exists|p: int|
                    #[trigger] record_error_at(data@, p, e) && (match dec_records_upto(
                        data@,
                        0,
                        p,
                    ) {
                        Some(rs) => stores_extend(*old(self), *final(self), rs),
                        None => false,
                    })),
            },
    {
        let ghost s = data@;
        let mut reader = Reader::new(data);
        let ghost mut done: Seq<RecordModel> = Seq::empty();
        proof {
            assert(meshes_view(old(self).meshes@) + blob_meshes(done) =~= meshes_view(
                old(self).meshes@,
            ));
            assert(textures_view(old(self).textures@) + blob_textures(done) =~= textures_view(
                old(self).textures@,
            ));
            assert(animations_view(old(self).animations@) + blob_animations(done)
                =~= animations_view(old(self).animations@));
        }
        while !reader.finished()
            invariant
                reader.wf(),
                reader.data@ == s,
                s == data@,
                match dec_blob(s, reader.pos as int) {
                    Some(rest) => dec_blob(s, 0) == Some(done + rest),
                    None => dec_blob(s, 0) is None,
                },
                dec_records_upto(s, 0, reader.pos as int) == Some(done),
                stores_extend(*old(self), *self, done),
            decreases s.len() - reader.pos,
        {
            let ghost pos0 = reader.pos;
            match self.load_record(&mut reader) {
                Ok(_) => {},
                Err(e) => {
                    proof {
                        assert(dec_blob(s, pos0 as int) is None);
                        assert(record_error_at(data@, pos0 as int, e));
                    }
                    return Err(e);
                },
            }
            proof {
                match dec_record(s, pos0 as int) {
                    Some((rec, j)) => {
                        self.push_step_proof(s, pos0 as int, rec, j, done);
                        lemma_dec_records_upto_extend(s, 0, pos0 as int, rec, j);
                        lemma_blob_extract_push(done, rec);
                        assert(meshes_view(old(self).meshes@) + blob_meshes(done) + (match rec {
                            RecordModel::Mesh(m) => seq![m],
                            _ => Seq::<MeshModel>::empty(),
                        }) =~= meshes_view(old(self).meshes@) + blob_meshes(done.push(rec)));
                        assert(textures_view(old(self).textures@) + blob_textures(done) + (
                        match rec {
                            RecordModel::Texture(t) => seq![t],
                            _ => Seq::<TextureModel>::empty(),
                        }) =~= textures_view(old(self).textures@) + blob_textures(done.push(rec)));
                        assert(animations_view(old(self).animations@) + blob_animations(done) + (
                        match rec {
                            RecordModel::Animation(a) => seq![a],
                            _ => Seq::<AnimationModel>::empty(),
                        }) =~= animations_view(old(self).animations@) + blob_animations(
                            done.push(rec),
                        ));
                        done = done.push(rec);
                    },
                    None => {
                        assert(false);
                    },
                }
            }
        }
        proof {
            assert(done + Seq::<RecordModel>::empty() =~= done);
        }
        Ok(())
    }

    /// Decodes one record at the cursor (tag byte and all) into the
    /// registry.
    #[verifier::rlimit(60)]
    fn load_record(&mut self, reader: &mut Reader) -> (r: Result<(), DecodeError>)
        requires
            old(reader).wf(),
            old(reader).pos < old(reader).data@.len(),
        ensures
            final(reader).wf(),
            final(reader).data@ == old(reader).data@,
            match r {
                Ok(_) => match dec_record(old(reader).data@, old(reader).pos as int) {
                    Some((rec, j)) => {
                        &&& final(reader).pos == j
                        &&& old(reader).pos < j
                        &&& meshes_view(final(self).meshes@) == meshes_view(old(self).meshes@) + (
                        match rec {
                            RecordModel::Mesh(m) => seq![m],
                            _ => Seq::<MeshModel>::empty(),
                        })
                        &&& textures_view(final(self).textures@) == textures_view(
                            old(self).textures@,
                        ) + (match rec {
                            RecordModel::Texture(t) => seq![t],
                            _ => Seq::<TextureModel>::empty(),
                        })
                        &&& animations_view(final(self).animations@) == animations_view(
                            old(self).animations@,
                        ) + (match rec {
                            RecordModel::Animation(a) => seq![a],
                            _ => Seq::<AnimationModel>::empty(),
                        })
                    },
                    None => false,
                },
                Err(e) => {
                    &&& final(self).meshes@ == old(self).meshes@
                    &&& final(self).textures@ == old(self).textures@
                    &&& final(self).animations@ == old(self).animations@
                    &&& record_error_at(old(reader).data@, old(reader).pos as int, e)
                },
            },
    {
        let ghost s = reader.data@;
        let ghost pos0 = reader.pos;
        let tag = match reader.read_u8() {
            Ok(v) => v,
            Err(e) => {
                return Err(e);
            },
        };
        if tag == TAG_MESH {
            let m = match Mesh::load(reader) {
                Ok(v) => v,
                Err(e) => {
                    return Err(e);
                },
            };
            proof {
                assert(dec_record(s, pos0 as int) == Some(
                    (RecordModel::Mesh(m@), reader.pos as int),
                ));
                assert(meshes_view(self.meshes@ + seq![m]) =~= meshes_view(self.meshes@) + seq![
                    m@,
                ]);
                assert(textures_view(self.textures@) + Seq::<TextureModel>::empty()
                    =~= textures_view(self.textures@));
                assert(animations_view(self.animations@) + Seq::<AnimationModel>::empty()
                    =~= animations_view(self.animations@));
            }
            self.meshes.push(m);
            Ok(())
        } else if tag == TAG_TEXTURE {
            let t = match Texture::load(reader) {
                Ok(v) => v,
                Err(e) => {
                    return Err(e);
                },
            };
            proof {
                assert(dec_record(s, pos0 as int) == Some(
                    (RecordModel::Texture(t@), reader.pos as int),
                ));
                assert(textures_view(self.textures@ + seq![t]) =~= textures_view(self.textures@)
                    + seq![t@]);
                assert(meshes_view(self.meshes@) + Seq::<MeshModel>::empty() =~= meshes_view(
                    self.meshes@,
                ));
                assert(animations_view(self.animations@) + Seq::<AnimationModel>::empty()
                    =~= animations_view(self.animations@));
            }
            self.textures.push(t);
            Ok(())
        } else if tag == TAG_ANIMATION {
            let a = match Animation::load(reader) {
                Ok(v) => v,
                Err(e) => {
                    return Err(e);
                },
            };
            proof {
                assert(dec_record(s, pos0 as int) == Some(
                    (RecordModel::Animation(a@), reader.pos as int),
                ));
                assert(animations_view(self.animations@ + seq![a]) =~= animations_view(
                    self.animations@,
                ) + seq![a@]);
                assert(meshes_view(self.meshes@) + Seq::<MeshModel>::empty() =~= meshes_view(
                    self.meshes@,
                ));
                assert(textures_view(self.textures@) + Seq::<TextureModel>::empty()
                    =~= textures_view(self.textures@));
            }
            self.animations.push(a);
            Ok(())
        } else {
            proof {
                assert(dec_record(s, pos0 as int) is None);
            }
            Err(DecodeError::InvalidAssetType { tag })
        }
    }

    /// Steps the blob relation past one decoded record.
    proof fn push_step_proof(
        &self,
        s: Seq<u8>,
        i: int,
        r: RecordModel,
        j: int,
        done: Seq<RecordModel>,
    )
        requires
            0 <= i < s.len(),
            i < j <= s.len(),
            dec_record(s, i) == Some((r, j)),
            match dec_blob(s, i) {
                Some(rest) => dec_blob(s, 0) == Some(done + rest),
                None => dec_blob(s, 0) is None,
            },
        ensures
            match dec_blob(s, j) {
                Some(rest) => dec_blob(s, 0) == Some(done.push(r) + rest),
                None => dec_blob(s, 0) is None,
            },
    {
        match dec_blob(s, j) {
            Some(rest) => {
                assert(dec_blob(s, i) == Some(seq![r] + rest));
                assert(done + (seq![r] + rest) =~= done.push(r) + rest);
            },
            None => {
                assert(dec_blob(s, i) is None);
            },
        }
    }

    /// The first mesh with the given name, if one is registered.
    pub fn get_mesh(&self, name: &Vec<u8>) -> (r: Option<&Mesh>)
        ensures
            match r {
                Some(m) => exists|i: int|
                    {
                        &&& 0 <= i < self.meshes@.len()
                        &&& (#[trigger] self.meshes@[i])@.name == name@
                        &&& m == self.meshes@[i]
                        &&& forall|k: int| 0 <= k < i ==> (#[trigger] self.meshes@[k])@.name
                            != name@
                    },
                None => forall|i: int|
                    0 <= i < self.meshes@.len() ==> (#[trigger] self.meshes@[i])@.name != name@,
            },
    {
        let mut i: usize = 0;
        while i < self.meshes.len()
            invariant
                i <= self.meshes@.len(),
                forall|k: int| 0 <= k < i ==> (#[trigger] self.meshes@[k])@.name != name@,
            decreases self.meshes@.len() - i,
        {
            if bytes_eq(&self.meshes[i].name, name) {
                return Some(&self.meshes[i]);
            }
            i = i + 1;
        }
        None
    }

    /// The first texture with the given name, if one is registered.
    pub fn get_texture(&self, name: &Vec<u8>) -> (r: Option<&Texture>)
        ensures
            match r {
                Some(t) => exists|i: int|
                    {
                        &&& 0 <= i < self.textures@.len()
                        &&& (#[trigger] self.textures@[i])@.name == name@
                        &&& t == self.textures@[i]
                        &&& forall|k: int| 0 <= k < i ==> (#[trigger] self.textures@[k])@.name
                            != name@
                    },
                None => forall|i: int|
                    0 <= i < self.textures@.len() ==> (#[trigger] self.textures@[i])@.name
                        != name@,
            },
    {
        let mut i: usize = 0;
        while i < self.textures.len()
            invariant
                i <= self.textures@.len(),
                forall|k: int| 0 <= k < i ==> (#[trigger] self.textures@[k])@.name != name@,
            decreases self.textures@.len() - i,
        {
            if bytes_eq(&self.textures[i].name, name) {
                return Some(&self.textures[i]);
            }
            i = i + 1;
        }
        None
    }

    /// The first animation with the given name, if one is registered.
    pub fn get_animation(&self, name: &Vec<u8>) -> (r: Option<&Animation>)
        ensures
            match r {
                Some(a) => exists|i: int|
                    {
                        &&& 0 <= i < self.animations@.len()
                        &&& (#[trigger] self.animations@[i])@.name == name@
                        &&& a == self.animations@[i]
                        &&& forall|k: int| 0 <= k < i ==> (#[trigger] self.animations@[k])@.name
                            != name@
                    },
                None => forall|i: int|
                    0 <= i < self.animations@.len() ==> (#[trigger] self.animations@[i])@.name
                        != name@,
            },
    {
        let mut i: usize = 0;
        while i < self.animations.len()
            invariant
                i <= self.animations@.len(),
                forall|k: int| 0 <= k < i ==> (#[trigger] self.animations@[k])@.name != name@,
            decreases self.animations@.len() - i,
        {
            if bytes_eq(&self.animations[i].name, name) {
                return Some(&self.animations[i]);
            }
            i = i + 1;
        }
        None
    }
}

/// Whether two byte vectors hold the same bytes.
pub fn bytes_eq(a: &Vec<u8>, b: &Vec<u8>) -> (r: bool)
    ensures
        r == (a@ == b@),
{
    if a.len() != b.len() {
        return false;
    }
    let mut i: usize = 0;
    while i < a.len()
        invariant
            a@.len() == b@.len(),
            i <= a@.len(),
            forall|k: int| 0 <= k < i ==> a@[k] == b@[k],
        decreases a@.len() - i,
    {
        if a[i] != b[i] {
            return false;
        }
        i = i + 1;
    }
    proof {
        assert(a@ =~= b@);
    }
    true
}

} // verus!
