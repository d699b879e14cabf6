//! Sequential cursor over a compiled blob: the primitive deserializers.
//!
//! Each read either returns the value whose bytes sit at the cursor, moving
//! the cursor past them, or fails leaving the reader untouched.  The
//! contracts tie every read to the matching `dec_*` specification function
//! of [`crate::format`], so record decoders compose them exactly.

use vstd::prelude::*;

use crate::format::{
    dec_end, dec_joint_indices, dec_mat4, dec_string, dec_u32, dec_u8, dec_vec2, dec_vec3,
    dec_vec4, u32_of_be, STRING_END,
};
use crate::model::{JointIndices, Mat4, Vec2, Vec3, Vec4};

verus! {

broadcast use crate::format::lemma_enc_u32_len;

/// Why a load failed.  Every error aborts the load of the whole blob: the
/// format has no recovery or skip mechanism.
#[derive(Debug)]
pub enum DecodeError {
    /// The blob ended in the middle of a value.
    UnexpectedEnd,
    /// The `END` marker of the named asset was missing or mangled.
    Corrupt { name: Vec<u8> },
    /// A record started with a tag other than `M`, `I` or `A`.
    InvalidAssetType { tag: u8 },
    /// A mesh named a vertex layout other than `Basic`, `U`, `NU`, `NUS`.
    InvalidVertexType { text: Vec<u8> },
    /// A skeleton declared 128 joints or more.
    TooManyJoints { count: u8 },
}

/// Sequential reader: an immutable byte buffer and a cursor.
pub struct Reader {
    pub data: Vec<u8>,
    pub pos: usize,
}

impl Reader {
    /// The cursor never passes the end of the buffer.
    pub open spec fn wf(self) -> bool {
        self.pos <= self.data@.len()
    }

    /// A reader over the given bytes, cursor at the start.
    pub fn new(data: Vec<u8>) -> (r: Reader)
        ensures
            r.data@ == data@,
            r.pos == 0,
            r.wf(),
    {
        Reader { data, pos: 0 }
    }

    /// Whether the whole buffer has been consumed.
    pub fn finished(&self) -> (r: bool)
        ensures
            r == (self.pos >= self.data@.len()),
    {
        self.pos >= self.data.len()
    }

    /// Reads one byte.
    pub fn read_u8(&mut self) -> (r: Result<u8, DecodeError>)
        requires
            old(self).wf(),
        ensures
            final(self).wf(),
            final(self).data@ == old(self).data@,
            old(self).pos <= final(self).pos,
            match r {
                Ok(v) => dec_u8(old(self).data@, old(self).pos as int) == Some(
                    (v, final(self).pos as int),
                ),
                Err(e) => dec_u8(old(self).data@, old(self).pos as int) is None && final(self).pos
                    == old(self).pos && e is UnexpectedEnd,
            },
    {
        if self.pos < self.data.len() {
            let v = self.data[self.pos];
            self.pos = self.pos + 1;
            Ok(v)
        } else {
            Err(DecodeError::UnexpectedEnd)
        }
    }

    /// Reads a big-endian `u32`.
    pub fn read_u32(&mut self) -> (r: Result<u32, DecodeError>)
        requires
            old(self).wf(),
        ensures
            final(self).wf(),
            final(self).data@ == old(self).data@,
            old(self).pos <= final(self).pos,
            match r {
                Ok(v) => dec_u32(old(self).data@, old(self).pos as int) == Some(
                    (v, final(self).pos as int),
                ),
                Err(e) => dec_u32(old(self).data@, old(self).pos as int) is None && final(self).pos
                    == old(self).pos && e is UnexpectedEnd,
            },
    {
        proof {
            reveal(crate::format::dec_u32);
        }
        if self.data.len() - self.pos >= 4 {
            let b0 = self.data[self.pos];
            let b1 = self.data[self.pos + 1];
            let b2 = self.data[self.pos + 2];
            let b3 = self.data[self.pos + 3];
            let v = ((b0 as u32) << 24u32) | ((b1 as u32) << 16u32) | ((b2 as u32) << 8u32) | (
            b3 as u32);
            self.pos = self.pos + 4;
            assert(v == u32_of_be(b0, b1, b2, b3));
            Ok(v)
        } else {
            Err(DecodeError::UnexpectedEnd)
        }
    }

    /// Reads one float bit pattern (four big-endian bytes).
    pub fn read_f32(&mut self) -> (r: Result<u32, DecodeError>)
        requires
            old(self).wf(),
        ensures
            final(self).wf(),
            final(self).data@ == old(self).data@,
            old(self).pos <= final(self).pos,
            match r {
                Ok(v) => dec_u32(old(self).data@, old(self).pos as int) == Some(
                    (v, final(self).pos as int),
                ),
                Err(e) => dec_u32(old(self).data@, old(self).pos as int) is None && final(self).pos
                    == old(self).pos && e is UnexpectedEnd,
            },
    {
        self.read_u32()
    }

    /// Reads bytes up to the next `#` sentinel, consuming the sentinel.
    pub fn read_string(&mut self) -> (r: Result<Vec<u8>, DecodeError>)
        requires
            old(self).wf(),
        ensures
            final(self).wf(),
            final(self).data@ == old(self).data@,
            old(self).pos <= final(self).pos,
            match r {
                Ok(v) => dec_string(old(self).data@, old(self).pos as int) == Some(
                    (v@, final(self).pos as int),
                ),
                Err(e) => dec_string(old(self).data@, old(self).pos as int) is None && final(self).pos == old(self).pos && e is UnexpectedEnd,
            },
    {
        let ghost s = self.data@;
        let start = self.pos;
        let mut j: usize = self.pos;
        let mut res: Vec<u8> = Vec::new();
        loop
            invariant
                old(self).data@ == s,
                old(self).pos == start,
                self.data@ == s,
                start == self.pos,
                start <= j <= s.len(),
                self.wf(),
                match dec_string(s, j as int) {
                    Some((t, k)) => dec_string(s, start as int) == Some::<(Seq<u8>, int)>(
                        (res@ + t, k),
                    ),
                    None => dec_string(s, start as int) is None,
                },
            decreases s.len() - j,
        {
            if j >= self.data.len() {
                return Err(DecodeError::UnexpectedEnd);
            }
            let b = self.data[j];
            if b == STRING_END {
                proof {
                    assert(res@ + Seq::<u8>::empty() =~= res@);
                }
                self.pos = j + 1;
                return Ok(res);
            }
            proof {
                match dec_string(s, j + 1) {
                    Some((t, k)) => {
                        assert(res@ + (seq![s[j as int]] + t) =~= (res@ + seq![s[j as int]]) + t);
                    },
                    None => {},
                }
            }
            res.push(b);
            j = j + 1;
        }
    }

    /// Reads and verifies the three `END` bytes closing the record of the
    /// named asset; a mismatch (or a truncated buffer) is corruption.
    pub fn read_end(&mut self, name: &Vec<u8>) -> (r: Result<(), DecodeError>)
        requires
            old(self).wf(),
        ensures
            final(self).wf(),
            final(self).data@ == old(self).data@,
            old(self).pos <= final(self).pos,
            match r {
                Ok(_) => dec_end(old(self).data@, old(self).pos as int) == Some(
                    final(self).pos as int,
                ),
                Err(e) => dec_end(old(self).data@, old(self).pos as int) is None && final(self).pos
                    == old(self).pos && (e matches DecodeError::Corrupt { name: n } && n@
                    == name@),
            },
    {
        if self.data.len() - self.pos >= 3 {
            let b0 = self.data[self.pos];
            let b1 = self.data[self.pos + 1];
            let b2 = self.data[self.pos + 2];
            if b0 == 69 && b1 == 78 && b2 == 68 {
                self.pos = self.pos + 3;
                return Ok(());
            }
        }
        Err(DecodeError::Corrupt { name: clone_bytes(name) })
    }

    /// Reads the four joint-influence bytes of one skinned vertex.
    pub fn read_joints(&mut self) -> (r: Result<JointIndices, DecodeError>)
        requires
            old(self).wf(),
        ensures
            final(self).wf(),
            final(self).data@ == old(self).data@,
            old(self).pos <= final(self).pos,
            match r {
                Ok(v) => dec_joint_indices(old(self).data@, old(self).pos as int) == Some(
                    (v, final(self).pos as int),
                ),
                Err(e) => dec_joint_indices(old(self).data@, old(self).pos as int) is None && final(self).pos == old(self).pos && e is UnexpectedEnd,
            },
    {
        if self.data.len() - self.pos >= 4 {
            let v = JointIndices {
                a: self.data[self.pos],
                b: self.data[self.pos + 1],
                c: self.data[self.pos + 2],
                d: self.data[self.pos + 3],
            };
            self.pos = self.pos + 4;
            Ok(v)
        } else {
            Err(DecodeError::UnexpectedEnd)
        }
    }

    /// Reads two float bit patterns.
    pub fn read_vec2(&mut self) -> (r: Result<Vec2, DecodeError>)
        requires
            old(self).wf(),
        ensures
            final(self).wf(),
            final(self).data@ == old(self).data@,
            old(self).pos <= final(self).pos,
            match r {
                Ok(v) => dec_vec2(old(self).data@, old(self).pos as int) == Some(
                    (v, final(self).pos as int),
                ),
                Err(e) => dec_vec2(old(self).data@, old(self).pos as int) is None && final(self).pos == old(self).pos && e is UnexpectedEnd,
            },
    {
        let start = self.pos;
        let x = match self.read_f32() {
            Ok(v) => v,
            Err(e) => {
                return Err(e);
            },
        };
        let y = match self.read_f32() {
            Ok(v) => v,
            Err(e) => {
                return Err(self.unread(start, e));
            },
        };
        Ok(Vec2 { x, y })
    }

    /// Reads three float bit patterns.
    pub fn read_vec3(&mut self) -> (r: Result<Vec3, DecodeError>)
        requires
            old(self).wf(),
        ensures
            final(self).wf(),
            final(self).data@ == old(self).data@,
            old(self).pos <= final(self).pos,
            match r {
                Ok(v) => dec_vec3(old(self).data@, old(self).pos as int) == Some(
                    (v, final(self).pos as int),
                ),
                Err(e) => dec_vec3(old(self).data@, old(self).pos as int) is None && final(self).pos == old(self).pos && e is UnexpectedEnd,
            },
    {
        let start = self.pos;
        let x = match self.read_f32() {
            Ok(v) => v,
            Err(e) => {
                return Err(e);
            },
        };
        let y = match self.read_f32() {
            Ok(v) => v,
            Err(e) => {
                return Err(self.unread(start, e));
            },
        };
        let z = match self.read_f32() {
            Ok(v) => v,
            Err(e) => {
                return Err(self.unread(start, e));
            },
        };
        Ok(Vec3 { x, y, z })
    }

    /// Reads four float bit patterns.
    pub fn read_vec4(&mut self) -> (r: Result<Vec4, DecodeError>)
        requires
            old(self).wf(),
        ensures
            final(self).wf(),
            final(self).data@ == old(self).data@,
            old(self).pos <= final(self).pos,
            match r {
                Ok(v) => dec_vec4(old(self).data@, old(self).pos as int) == Some(
                    (v, final(self).pos as int),
                ),
                Err(e) => dec_vec4(old(self).data@, old(self).pos as int) is None && final(self).pos == old(self).pos && e is UnexpectedEnd,
            },
    {
        let start = self.pos;
        let x = match self.read_f32() {
            Ok(v) => v,
            Err(e) => {
                return Err(e);
            },
        };
        let y = match self.read_f32() {
            Ok(v) => v,
            Err(e) => {
                return Err(self.unread(start, e));
            },
        };
        let z = match self.read_f32() {
            Ok(v) => v,
            Err(e) => {
                return Err(self.unread(start, e));
            },
        };
        let w = match self.read_f32() {
            Ok(v) => v,
            Err(e) => {
                return Err(self.unread(start, e));
            },
        };
        Ok(Vec4 { x, y, z, w })
    }

    /// Reads a row-major 4x4 matrix.
    pub fn read_mat4x4(&mut self) -> (r: Result<Mat4, DecodeError>)
        requires
            old(self).wf(),
        ensures
            final(self).wf(),
            final(self).data@ == old(self).data@,
            old(self).pos <= final(self).pos,
            match r {
                Ok(v) => dec_mat4(old(self).data@, old(self).pos as int) == Some(
                    (v, final(self).pos as int),
                ),
                Err(e) => dec_mat4(old(self).data@, old(self).pos as int) is None && final(self).pos == old(self).pos && e is UnexpectedEnd,
            },
    {
        let start = self.pos;
        let r0 = match self.read_vec4() {
            Ok(v) => v,
            Err(e) => {
                return Err(e);
            },
        };
        let r1 = match self.read_vec4() {
            Ok(v) => v,
            Err(e) => {
                return Err(self.unread(start, e));
            },
        };
        let r2 = match self.read_vec4() {
            Ok(v) => v,
            Err(e) => {
                return Err(self.unread(start, e));
            },
        };
        let r3 = match self.read_vec4() {
            Ok(v) => v,
            Err(e) => {
                return Err(self.unread(start, e));
            },
        };
        Ok(Mat4 { r0, r1, r2, r3 })
    }

    /// Rewinds the cursor to where a composite read started, so that a
    /// failing read leaves the reader as it found it.
    fn unread(&mut self, start: usize, e: DecodeError) -> (r: DecodeError)
        requires
            start <= old(self).data@.len(),
        ensures
            final(self).data@ == old(self).data@,
            final(self).pos == start,
            final(self).wf(),
            r == e,
    {
        self.pos = start;
        e
    }
}

/// A fresh vector holding the same bytes.
pub fn clone_bytes(v: &Vec<u8>) -> (r: Vec<u8>)
    ensures
        r@ == v@,
{
    let mut r: Vec<u8> = Vec::new();
    let mut i: usize = 0;
    while i < v.len()
        invariant
            i <= v.len(),
            r@ == v@.subrange(0, i as int),
        decreases v.len() - i,
    {
        r.push(v[i]);
        i = i + 1;
        assert(r@ =~= v@.subrange(0, i as int));
    }
    assert(r@ =~= v@);
    r
}

} // verus!
