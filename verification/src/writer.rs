//! Append-only byte sink: the primitive serializers of the wire format.
//!
//! Writes never fail; each method's contract says exactly which bytes it
//! appends, in terms of the specification functions of [`crate::format`].

use vstd::prelude::*;

use crate::format::{enc_mat4, enc_string, enc_u32, enc_vec2, enc_vec3, enc_vec4, STRING_END};
use crate::model::{JointIndices, Mat4, Vec2, Vec3, Vec4};

verus! {

broadcast use crate::format::lemma_enc_u32_len;

/// Append-only encoder over a growable byte buffer.
pub struct Writer(pub Vec<u8>);

impl Writer {
    /// An empty buffer.
    pub fn new() -> (r: Writer)
        ensures
            r.0@ == Seq::<u8>::empty(),
    {
        Writer(Vec::new())
    }

    /// Appends the string bytes followed by the `#` sentinel.
    pub fn append_string(&mut self, v: &[u8])
        ensures
            final(self).0@ == old(self).0@ + enc_string(v@),
    {
        self.append_bytes(v);
        self.0.push(STRING_END);
        assert(self.0@ =~= old(self).0@ + enc_string(v@));
    }

    /// Appends the bytes as they are.
    pub fn append_bytes(&mut self, v: &[u8])
        ensures
            final(self).0@ == old(self).0@ + v@,
    {
        let mut i: usize = 0;
        while i < v.len()
            invariant
                i <= v.len(),
                self.0@ == old(self).0@ + v@.subrange(0, i as int),
            decreases v.len() - i,
        {
            self.0.push(v[i]);
            i = i + 1;
            assert(self.0@ =~= old(self).0@ + v@.subrange(0, i as int));
        }
        assert(self.0@ =~= old(self).0@ + v@);
    }

    /// Appends a `u32` as four big-endian bytes.
    pub fn append_u32(&mut self, v: u32)
        ensures
            final(self).0@ == old(self).0@ + enc_u32(v),
    {
        proof {
            reveal(crate::format::enc_u32);
            assert((v >> 24) & 0xff < 256 && (v >> 16) & 0xff < 256 && (v >> 8) & 0xff < 256 && v
                & 0xff < 256) by (bit_vector);
        }
        self.0.push(((v >> 24) & 0xff) as u8);
        self.0.push(((v >> 16) & 0xff) as u8);
        self.0.push(((v >> 8) & 0xff) as u8);
        self.0.push((v & 0xff) as u8);
        assert(self.0@ =~= old(self).0@ + enc_u32(v));
    }

    /// Appends one float bit pattern, big-endian: the same four bytes that
    /// `f32::to_be_bytes` would produce for the float with these bits.
    pub fn append_f32(&mut self, bits: u32)
        ensures
            final(self).0@ == old(self).0@ + enc_u32(bits),
    {
        self.append_u32(bits)
    }

    /// Appends two float bit patterns.
    pub fn append_vec2_f32(&mut self, v: Vec2)
        ensures
            final(self).0@ == old(self).0@ + enc_vec2(v),
    {
        self.append_f32(v.x);
        self.append_f32(v.y);
        assert(self.0@ =~= old(self).0@ + enc_vec2(v));
    }

    /// Appends three float bit patterns.
    pub fn append_vec3_f32(&mut self, v: Vec3)
        ensures
            final(self).0@ == old(self).0@ + enc_vec3(v),
    {
        self.append_f32(v.x);
        self.append_f32(v.y);
        self.append_f32(v.z);
        assert(self.0@ =~= old(self).0@ + enc_vec3(v));
    }

    /// Appends four float bit patterns.
    pub fn append_vec4_f32(&mut self, v: Vec4)
        ensures
            final(self).0@ == old(self).0@ + enc_vec4(v),
    {
        self.append_f32(v.x);
        self.append_f32(v.y);
        self.append_f32(v.z);
        self.append_f32(v.w);
        assert(self.0@ =~= old(self).0@ + enc_vec4(v));
    }

    /// Appends the four joint influences of one vertex, one byte each.
    pub fn append_joints(&mut self, v: JointIndices)
        ensures
            final(self).0@ == old(self).0@ + seq![v.a, v.b, v.c, v.d],
    {
        self.0.push(v.a);
        self.0.push(v.b);
        self.0.push(v.c);
        self.0.push(v.d);
        assert(self.0@ =~= old(self).0@ + seq![v.a, v.b, v.c, v.d]);
    }

    /// Appends a 4x4 matrix, row-major.
    pub fn append_mat4x4(&mut self, v: &Mat4)
        ensures
            final(self).0@ == old(self).0@ + enc_mat4(*v),
    {
        self.append_vec4_f32(v.r0);
        self.append_vec4_f32(v.r1);
        self.append_vec4_f32(v.r2);
        self.append_vec4_f32(v.r3);
        assert(self.0@ =~= old(self).0@ + enc_mat4(*v));
    }
}

} // verus!
