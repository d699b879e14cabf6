//! Per-directory compile configuration: one optional text file selecting
//! the vertex layout meshes of that directory compile to.
//!
//! The file holds `key = value` lines; the only key is `VertexType`, whose
//! value names one of the skinnable layouts (`NUS`, `NU`, `U`).  Unknown
//! keys and unknown values are ignored; the last selection wins; with no
//! file or no selection the layout is `Basic`.  A `VertexType` line
//! without an `=` is malformed and fails the parse.

use vstd::prelude::*;

use crate::model::VertexType;

verus! {

/// `=`, the key/value separator.
pub const EQUALS: u8 = 61;

/// `\n`, the line separator.
pub const NEWLINE: u8 = 10;

/// Bytes the parser strips from both ends of keys and values: space, tab
/// and carriage return.
pub open spec fn is_space(b: u8) -> bool {
    b == 32 || b == 9 || b == 13
}

/// A sequence without its leading spaces.
pub open spec fn trim_front(s: Seq<u8>) -> Seq<u8>
    decreases s.len(),
{
    if s.len() > 0 && is_space(s[0]) {
        trim_front(s.drop_first())
    } else {
        s
    }
}

/// A sequence without its trailing spaces.
pub open spec fn trim_back(s: Seq<u8>) -> Seq<u8>
    decreases s.len(),
{
    if s.len() > 0 && is_space(s.last()) {
        trim_back(s.drop_last())
    } else {
        s
    }
}

/// A sequence without leading or trailing spaces.
pub open spec fn trim_spec(s: Seq<u8>) -> Seq<u8> {
    trim_back(trim_front(s))
}

/// The position of the first `b` at or after `i`, or the length when none
/// follows.
pub open spec fn find_byte(s: Seq<u8>, b: u8, i: int) -> int
    decreases s.len() - i,
{
    if 0 <= i && i < s.len() {
        if s[i] == b {
            i
        } else {
            find_byte(s, b, i + 1)
        }
    } else {
        s.len() as int
    }
}

/// The scan never goes backwards: `find_byte` answers at or after its
/// start, and never past the end.
pub proof fn lemma_find_byte_bounds(s: Seq<u8>, b: u8, i: int)
    requires
        0 <= i <= s.len(),
    ensures
        i <= find_byte(s, b, i) <= s.len(),
    decreases s.len() - i,
{
    if i < s.len() && s[i] != b {
        lemma_find_byte_bounds(s, b, i + 1);
    }
}

/// The bytes of the `VertexType` key.
pub open spec fn key_text() -> Seq<u8> {
    seq![86u8, 101u8, 114u8, 116u8, 101u8, 120u8, 84u8, 121u8, 112u8, 101u8]
}

/// What one configuration line does: `Ok(Some(vt))` selects a layout,
/// `Ok(None)` selects nothing (unknown key, unknown value, or no
/// `VertexType` key at all), and `Err(())` marks the malformed case of a
/// `VertexType` key with no `=` after it.
pub open spec fn line_result(line: Seq<u8>) -> Result<Option<VertexType>, ()> {
    let e1 = find_byte(line, EQUALS, 0);
    if e1 == line.len() {
        if trim_spec(line) == key_text() {
            Err(())
        } else {
            Ok(None)
        }
    } else {
        let key = trim_spec(line.take(e1));
        let e2 = find_byte(line, EQUALS, e1 + 1);
        let value = trim_spec(line.subrange(e1 + 1, e2));
        if key == key_text() {
            if value == crate::format::vt_tag(VertexType::NUS) {
                Ok(Some(VertexType::NUS))
            } else if value == crate::format::vt_tag(VertexType::NU) {
                Ok(Some(VertexType::NU))
            } else if value == crate::format::vt_tag(VertexType::U) {
                Ok(Some(VertexType::U))
            } else {
                Ok(None)
            }
        } else {
            Ok(None)
        }
    }
}

/// The layout the lines from position `i` on select, folding over lines
/// with `acc` as the layout chosen so far.
pub open spec fn config_from(text: Seq<u8>, i: int, acc: VertexType) -> Result<VertexType, ()>
    decreases text.len() - i,
        via config_from_decreases
{
    if 0 <= i <= text.len() {
        let e = find_byte(text, NEWLINE, i);
        let line = text.subrange(i, e);
        match line_result(line) {
            Err(x) => Err(x),
            Ok(sel) => {
                let acc2 = match sel {
                    Some(vt) => vt,
                    None => acc,
                };
                if e == text.len() {
                    Ok(acc2)
                } else {
                    config_from(text, e + 1, acc2)
                }
            },
        }
    } else {
        Err(())
    }
}

#[via_fn]
proof fn config_from_decreases(text: Seq<u8>, i: int, acc: VertexType) {
    if 0 <= i <= text.len() {
        lemma_find_byte_bounds(text, NEWLINE, i);
    }
}

/// The layout a whole configuration text selects: `Basic` unless a
/// well-formed `VertexType` line overrides it (the last one wins).
pub open spec fn config_spec(text: Seq<u8>) -> Result<VertexType, ()> {
    config_from(text, 0, VertexType::Basic)
}

/// Why a configuration text failed to parse.
#[derive(Clone, Copy, Debug, PartialEq, Eq, Structural)]
pub enum ConfigError {
    /// A line holds the `VertexType` key but no `=` and hence no value.
    MissingValue,
}

/// Which vertex layout the meshes of one source directory compile to.
#[derive(Clone, Copy, Debug, PartialEq, Eq, Structural)]
pub struct Config {
    pub vertex_type: VertexType,
}

/// The position of the first `b` in `v` at or after `from`, or the length.
fn find_byte_exec(v: &[u8], b: u8, from: usize) -> (r: usize)
    requires
        from <= v@.len(),
    ensures
        r as int == find_byte(v@, b, from as int),
        from <= r <= v@.len(),
        r < v@.len() ==> v@[r as int] == b,
{
    let mut i: usize = from;
    while i < v.len()
        invariant
            from <= i <= v@.len(),
            find_byte(v@, b, from as int) == find_byte(v@, b, i as int),
        decreases v@.len() - i,
    {
        if v[i] == b {
            return i;
        }
        i = i + 1;
    }
    i
}

/// The bounds of `s.subrange(lo, hi)` trimmed of spaces at both ends.
fn trim_bounds(v: &[u8], lo: usize, hi: usize) -> (r: (usize, usize))
    requires
        lo <= hi <= v@.len(),
    ensures
        lo <= r.0 <= r.1 <= hi,
        v@.subrange(r.0 as int, r.1 as int) == trim_spec(v@.subrange(lo as int, hi as int)),
{
    let ghost s = v@.subrange(lo as int, hi as int);
    let mut a: usize = lo;
    while a < hi && is_space_exec(v[a])
        invariant
            lo <= a <= hi <= v@.len(),
            trim_front(v@.subrange(lo as int, hi as int)) == trim_front(
                v@.subrange(a as int, hi as int),
            ),
        decreases hi - a,
    {
        proof {
            let t = v@.subrange(a as int, hi as int);
            assert(t[0] == v@[a as int]);
            assert(t.drop_first() =~= v@.subrange(a + 1, hi as int));
        }
        a = a + 1;
    }
    proof {
        let t = v@.subrange(a as int, hi as int);
        if t.len() > 0 {
            assert(t[0] == v@[a as int]);
        }
        assert(trim_front(t) == t);
    }
    let mut b: usize = hi;
    while b > a && is_space_exec(v[b - 1])
        invariant
            lo <= a <= b <= hi <= v@.len(),
            trim_front(v@.subrange(lo as int, hi as int)) == v@.subrange(a as int, hi as int),
            trim_back(v@.subrange(a as int, hi as int)) == trim_back(
                v@.subrange(a as int, b as int),
            ),
        decreases b,
    {
        proof {
            let t = v@.subrange(a as int, b as int);
            assert(t.last() == v@[b - 1]);
            assert(t.drop_last() =~= v@.subrange(a as int, b - 1));
        }
        b = b - 1;
    }
    proof {
        let t = v@.subrange(a as int, b as int);
        if t.len() > 0 {
            assert(t.last() == v@[b - 1]);
        }
        assert(trim_back(t) == t);
    }
    (a, b)
}

/// Whether the parser strips this byte at key and value edges.
fn is_space_exec(b: u8) -> (r: bool)
    ensures
        r == is_space(b),
{
    b == 32 || b == 9 || b == 13
}

/// Whether `v.subrange(lo, hi)` is exactly the `VertexType` key.
fn range_is_key(v: &[u8], lo: usize, hi: usize) -> (r: bool)
    requires
        lo <= hi <= v@.len(),
    ensures
        r == (v@.subrange(lo as int, hi as int) == key_text()),
{
    if hi - lo != 10 {
        proof {
            assert(v@.subrange(lo as int, hi as int).len() != key_text().len());
        }
        return false;
    }
    let r = v[lo] == 86 && v[lo + 1] == 101 && v[lo + 2] == 114 && v[lo + 3] == 116 && v[lo + 4]
        == 101 && v[lo + 5] == 120 && v[lo + 6] == 84 && v[lo + 7] == 121 && v[lo + 8] == 112
        && v[lo + 9] == 101;
    proof {
        let s = v@.subrange(lo as int, hi as int);
        if r {
            assert(s =~= key_text());
        } else {
            if s == key_text() {
                assert(v@[lo as int] == s[0] && v@[lo as int + 1] == s[1] && v@[lo as int + 2]
                    == s[2] && v@[lo as int + 3] == s[3] && v@[lo as int + 4] == s[4] && v@[lo as int
                    + 5] == s[5] && v@[lo as int + 6] == s[6] && v@[lo as int + 7] == s[7]
                    && v@[lo as int + 8] == s[8] && v@[lo as int + 9] == s[9]);
            }
        }
    }
    r
}

impl Config {
    /// Parses a configuration text (the content of a `compile.conf`
    /// file).  Returns the layout the text selects, or the parse error
    /// exactly when the text holds a malformed `VertexType` line.
    pub fn new(text: &[u8]) -> (r: Result<Config, ConfigError>)
        ensures
            match r {
                Ok(c) => config_spec(text@) == Ok::<VertexType, ()>(c.vertex_type),
                Err(_) => config_spec(text@) is Err,
            },
    {
        let mut acc = VertexType::Basic;
        let mut i: usize = 0;
        loop
            invariant
                i <= text@.len(),
                config_spec(text@) == config_from(text@, i as int, acc),
            decreases text@.len() - i,
        {
            let e = find_byte_exec(text, NEWLINE, i);
            match line_apply(text, i, e) {
                Ok(Some(vt)) => {
                    acc = vt;
                },
                Ok(None) => {},
                Err(_) => {
                    return Err(ConfigError::MissingValue);
                },
            }
            if e == text.len() {
                return Ok(Config { vertex_type: acc });
            }
            i = e + 1;
        }
    }
}

/// Applies one line, `text.subrange(lo, hi)`, as `line_result` reads it.
fn line_apply(text: &[u8], lo: usize, hi: usize) -> (r: Result<Option<VertexType>, ()>)
    requires
        lo <= hi <= text@.len(),
    ensures
        r == line_result(text@.subrange(lo as int, hi as int)),
{
    let ghost line = text@.subrange(lo as int, hi as int);
    let e1 = find_byte_exec(text, EQUALS, lo);
    proof {
        lemma_find_byte_in_subrange(text@, EQUALS, lo as int, hi as int);
    }
    if e1 >= hi {
        // no '=' on this line
        let (ka, kb) = trim_bounds(text, lo, hi);
        if range_is_key(text, ka, kb) {
            return Err(());
        }
        return Ok(None);
    }
    let (ka, kb) = trim_bounds(text, lo, e1);
    proof {
        assert(line.take(find_byte(line, EQUALS, 0)) =~= text@.subrange(lo as int, e1 as int));
    }
    if !range_is_key(text, ka, kb) {
        return Ok(None);
    }
    let e2 = find_byte_exec(text, EQUALS, e1 + 1);
    proof {
        lemma_find_byte_in_subrange_from(text@, EQUALS, lo as int, hi as int, e1 as int + 1);
    }
    let ve = if e2 > hi {
        hi
    } else {
        e2
    };
    let (va, vb) = trim_bounds(text, e1 + 1, ve);
    proof {
        let le1 = find_byte(line, EQUALS, 0);
        let le2 = find_byte(line, EQUALS, le1 + 1);
        assert(line.subrange(le1 + 1, le2) =~= text@.subrange(e1 as int + 1, ve as int));
    }
    let n = vb - va;
    if n == 3 && text[va] == 78 && text[va + 1] == 85 && text[va + 2] == 83 {
        proof {
            assert(text@.subrange(va as int, vb as int) =~= crate::format::vt_tag(
                VertexType::NUS,
            ));
        }
        Ok(Some(VertexType::NUS))
    } else if n == 2 && text[va] == 78 && text[va + 1] == 85 {
        proof {
            assert(text@.subrange(va as int, vb as int) =~= crate::format::vt_tag(VertexType::NU));
        }
        Ok(Some(VertexType::NU))
    } else if n == 1 && text[va] == 85 {
        proof {
            assert(text@.subrange(va as int, vb as int) =~= crate::format::vt_tag(VertexType::U));
        }
        Ok(Some(VertexType::U))
    } else {
        proof {
            let s = text@.subrange(va as int, vb as int);
            if s == crate::format::vt_tag(VertexType::NUS) {
                assert(s.len() == 3 && s[0] == 78 && s[1] == 85 && s[2] == 83);
            }
            if s == crate::format::vt_tag(VertexType::NU) {
                assert(s.len() == 2 && s[0] == 78 && s[1] == 85);
            }
            if s == crate::format::vt_tag(VertexType::U) {
                assert(s.len() == 1 && s[0] == 85);
            }
        }
        Ok(None)
    }
}

/// Searching inside `s.subrange(lo, hi)` agrees with searching `s` from
/// `lo`, as long as the hit (or the miss) stays inside the subrange.
proof fn lemma_find_byte_in_subrange(s: Seq<u8>, b: u8, lo: int, hi: int)
    requires
        0 <= lo <= hi <= s.len(),
    ensures
        ({
            let f = find_byte(s, b, lo);
            let sub = s.subrange(lo, hi);
            (f < hi ==> find_byte(sub, b, 0) == f - lo) && (f >= hi ==> find_byte(sub, b, 0)
                == sub.len())
        }),
{
    lemma_find_byte_in_subrange_from(s, b, lo, hi, lo);
}

/// The generalization of [`lemma_find_byte_in_subrange`] over the scan
/// position.
proof fn lemma_find_byte_in_subrange_from(s: Seq<u8>, b: u8, lo: int, hi: int, i: int)
    requires
        0 <= lo <= i <= hi <= s.len(),
    ensures
        ({
            let f = find_byte(s, b, i);
            let sub = s.subrange(lo, hi);
            (f < hi ==> find_byte(sub, b, i - lo) == f - lo) && (f >= hi ==> find_byte(
                sub,
                b,
                i - lo,
            ) == sub.len())
        }),
    decreases hi - i,
{
    let sub = s.subrange(lo, hi);
    lemma_find_byte_bounds(s, b, i);
    if i < hi {
        assert(sub[i - lo] == s[i]);
        if s[i] != b {
            lemma_find_byte_in_subrange_from(s, b, lo, hi, i + 1);
        }
    }
}

} // verus!
