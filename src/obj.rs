//! The index side of Wavefront OBJ text: what kind a line is, and the
//! corners of a face line.
use vstd::prelude::*;
use crate::model::resolve_index;

verus! {

/// What a line of OBJ text declares, by its first two bytes.
#[derive(Debug, Clone, Copy, PartialEq, Eq, Structural)]
pub enum LineKind {
    /// `f `: a face.
    Face,
    /// `v `: a position.
    Position,
    /// `vn`: a normal.
    Normal,
    /// `vt`: a texture coordinate.
    TexCoord,
    /// `# `: a comment.
    Comment,
    /// Shorter than two bytes.
    Blank,
    /// Anything else.
    Unknown,
}

pub open spec fn kind_of(line: Seq<u8>) -> LineKind {
    if line.len() < 2 {
        LineKind::Blank
    } else if line[0] == 102 && line[1] == 32 {
        LineKind::Face
    } else if line[0] == 118 && line[1] == 32 {
        LineKind::Position
    } else if line[0] == 118 && line[1] == 110 {
        LineKind::Normal
    } else if line[0] == 118 && line[1] == 116 {
        LineKind::TexCoord
    } else if line[0] == 35 && line[1] == 32 {
        LineKind::Comment
    } else {
        LineKind::Unknown
    }
}

/// The kind of an OBJ line.
pub fn line_kind(line: &[u8]) -> (k: LineKind)
    ensures
        k == kind_of(line@),
{
    if line.len() < 2 {
        return LineKind::Blank;
    }
    let a = line[0];
    let b = line[1];
    if a == LOWER_F && b == SPACE {
        LineKind::Face
    } else if a == LOWER_V && b == SPACE {
        LineKind::Position
    } else if a == LOWER_V && b == LOWER_N {
        LineKind::Normal
    } else if a == LOWER_V && b == LOWER_T {
        LineKind::TexCoord
    } else if a == HASH && b == SPACE {
        LineKind::Comment
    } else {
        LineKind::Unknown
    }
}

/// The pieces of `s` between occurrences of `sep`: one more piece than
/// there are separators, empty pieces included.
pub open spec fn split_on(s: Seq<u8>, sep: u8) -> Seq<Seq<u8>>
    decreases s.len(),
{
    if s.len() == 0 {
        seq![Seq::empty()]
    } else {
        let p = split_on(s.drop_last(), sep);
        if s.last() == sep {
            p.push(Seq::empty())
        } else {
            p.update(p.len() - 1, p.last().push(s.last()))
        }
    }
}

proof fn lemma_split_nonempty(s: Seq<u8>, sep: u8)
    ensures
        split_on(s, sep).len() >= 1,
    decreases s.len(),
{
    if s.len() > 0 {
        lemma_split_nonempty(s.drop_last(), sep);
    }
}

pub open spec fn byte_views(v: Seq<Vec<u8>>) -> Seq<Seq<u8>> {
    v.map_values(|b: Vec<u8>| b@)
}

/// Splits `s` at each occurrence of `sep`.
pub fn split_bytes(s: &[u8], sep: u8) -> (r: Vec<Vec<u8>>)
    ensures
        byte_views(r@) == split_on(s@, sep),
{
    let mut out: Vec<Vec<u8>> = Vec::new();
    let mut cur: Vec<u8> = Vec::new();
    let mut i: usize = 0;
    while i < s.len()
        invariant
            i <= s@.len(),
            byte_views(out@).push(cur@) == split_on(s@.take(i as int), sep),
        decreases s@.len() - i,
    {
        let ghost before = byte_views(out@).push(cur@);
        proof {
            assert(s@.take(i + 1).drop_last() == s@.take(i as int));
            lemma_split_nonempty(s@.take(i as int), sep);
        }
        if s[i] == sep {
            out.push(cur);
            cur = Vec::new();
            assert(byte_views(out@) == before);
        } else {
            cur.push(s[i]);
            assert(byte_views(out@).push(cur@) == before.update(before.len() - 1, before.last().push(s[i as int])));
        }
        i = i + 1;
    }
    out.push(cur);
    proof {
        assert(s@.take(s@.len() as int) == s@);
    }
    out
}

pub open spec fn is_digit_byte(b: u8) -> bool {
    48 <= b <= 57
}

/// The number that a run of decimal digits writes.
pub open spec fn digits_value(s: Seq<u8>) -> int
    decreases s.len(),
{
    if s.len() == 0 {
        0
    } else {
        digits_value(s.drop_last()) * 10 + (s.last() - 48)
    }
}

/// `s` starts with a sign.
pub open spec fn has_sign(s: Seq<u8>) -> bool {
    s.len() > 0 && (s[0] == 45 || s[0] == 43)
}

/// `s` without its sign, if it has one.
pub open spec fn magnitude_part(s: Seq<u8>) -> Seq<u8> {
    if has_sign(s) { s.subrange(1, s.len() as int) } else { s }
}

pub open spec fn all_digits(d: Seq<u8>) -> bool {
    forall|i: int| 0 <= i < d.len() ==> is_digit_byte(#[trigger] d[i])
}

/// The integer that `s` writes in decimal, with an optional sign, if it
/// writes one that fits in `i32`.
pub open spec fn int_value(s: Seq<u8>) -> Option<int> {
    let d = magnitude_part(s);
    let v = if has_sign(s) && s[0] == 45 { -digits_value(d) } else { digits_value(d) };
    if d.len() == 0 || !all_digits(d) {
        None
    } else if i32::MIN <= v <= i32::MAX {
        Some(v)
    } else {
        None
    }
}

const SPACE: u8 = 32;
const HASH: u8 = 35;
const PLUS: u8 = 43;
const MINUS: u8 = 45;
const SLASH: u8 = 47;
const DIGIT_ZERO: u8 = 48;
const DIGIT_NINE: u8 = 57;
const LOWER_F: u8 = 102;
const LOWER_N: u8 = 110;
const LOWER_T: u8 = 116;
const LOWER_V: u8 = 118;

/// Above every `i32` magnitude.
const CAP: i64 = 2147483649;

/// Reads a decimal `i32` with an optional sign.
pub fn parse_i32(s: &[u8]) -> (r: Option<i32>)
    ensures
        match r {
            Some(v) => int_value(s@) == Some(v as int),
            None => int_value(s@) is None,
        },
{
    let signed = s.len() > 0 && (s[0] == MINUS || s[0] == PLUS);
    let negative = signed && s[0] == MINUS;
    let start: usize = if signed { 1 } else { 0 };
    let ghost d = magnitude_part(s@);
    if start >= s.len() {
        return None;
    }
    let mut acc: i64 = 0;
    let mut i: usize = start;
    while i < s.len()
        invariant
            start <= i <= s@.len(),
            d == s@.subrange(start as int, s@.len() as int),
            d == magnitude_part(s@),
            signed == has_sign(s@),
            forall|j: int| 0 <= j < i - start ==> is_digit_byte(#[trigger] d[j]),
            0 <= acc <= CAP,
            digits_value(d.take(i - start)) >= 0,
            acc == if digits_value(d.take(i - start)) < CAP { digits_value(d.take(i - start)) } else { CAP as int },
        decreases s@.len() - i,
    {
        let b = s[i];
        if b < DIGIT_ZERO || b > DIGIT_NINE {
            assert(d[i - start] == s@[i as int]);
            assert(!is_digit_byte(d[i - start]));
            return None;
        }
        proof {
            assert(d.take(i - start + 1).drop_last() == d.take(i - start));
            assert(d.take(i - start + 1).last() == b);
        }
        proof {
            assert(d[i - start] == s@[i as int]);
        }
        let next = acc * 10 + (b - DIGIT_ZERO) as i64;
        acc = if next < CAP { next } else { CAP };
        i = i + 1;
    }
    proof {
        assert(d.take(d.len() as int) == d);
        assert(d.len() > 0);
    }
    if acc >= CAP {
        return None;
    }
    if negative {
        Some((-acc) as i32)
    } else if acc > 2147483647 {
        None
    } else {
        Some(acc as i32)
    }
}

/// The index that field `i` of a corner gives: an absent or empty field
/// is 0 (no attribute), a negative index counts back from the end of an
/// array of `count` entries, and text that is no integer gives nothing.
pub open spec fn field_value(pieces: Seq<Seq<u8>>, i: int, count: int) -> Option<i32> {
    let f = if i < pieces.len() { pieces[i] } else { Seq::empty() };
    if f.len() == 0 {
        Some(0)
    } else {
        match int_value(f) {
            None => None,
            Some(v) => Some((if v < 0 { v + count + 1 } else { v }) as i32),
        }
    }
}

/// The position, texture-coordinate and normal indices of a corner written
/// `v/t/n` (`t` and `n`, or their slashes, may be left out).
pub open spec fn corner_value(part: Seq<u8>, counts: (usize, usize, usize)) -> Option<(i32, i32, i32)> {
    let pieces = split_on(part, 47);
    match (field_value(pieces, 0, counts.0 as int), field_value(pieces, 1, counts.1 as int), field_value(pieces, 2, counts.2 as int)) {
        (Some(v), Some(t), Some(n)) => Some((v, t, n)),
        _ => None,
    }
}

/// The corners that the space-separated tokens give, empty tokens skipped.
pub open spec fn corners_value(tokens: Seq<Seq<u8>>, counts: (usize, usize, usize)) -> Option<Seq<(i32, i32, i32)>>
    decreases tokens.len(),
{
    if tokens.len() == 0 {
        Some(Seq::empty())
    } else {
        match corners_value(tokens.drop_last(), counts) {
            None => None,
            Some(p) => if tokens.last().len() == 0 {
                Some(p)
            } else {
                match corner_value(tokens.last(), counts) {
                    None => None,
                    Some(c) => Some(p.push(c)),
                }
            },
        }
    }
}

/// The corners of a face line `f c1 c2 c3 ...`, with `counts` the numbers
/// of positions, texture coordinates and normals read so far.
pub open spec fn face_value(line: Seq<u8>, counts: (usize, usize, usize)) -> Option<Seq<(i32, i32, i32)>> {
    corners_value(split_on(line, 32).drop_first(), counts)
}

pub open spec fn counts_fit(counts: (usize, usize, usize)) -> bool {
    counts.0 < i32::MAX && counts.1 < i32::MAX && counts.2 < i32::MAX
}

fn field(pieces: &Vec<Vec<u8>>, i: usize, count: usize) -> (r: Option<i32>)
    requires
        count < i32::MAX,
    ensures
        r == field_value(byte_views(pieces@), i as int, count as int),
{
    if i >= pieces.len() || pieces[i].len() == 0 {
        return Some(0);
    }
    match parse_i32(pieces[i].as_slice()) {
        None => None,
        Some(v) => Some(resolve_index(v, count)),
    }
}

/// Reads one corner `v/t/n`.
pub fn parse_corner(part: &[u8], counts: (usize, usize, usize)) -> (r: Option<(i32, i32, i32)>)
    requires
        counts_fit(counts),
    ensures
        r == corner_value(part@, counts),
{
    let pieces = split_bytes(part, SLASH);
    let v = field(&pieces, 0, counts.0);
    let t = field(&pieces, 1, counts.1);
    let n = field(&pieces, 2, counts.2);
    match (v, t, n) {
        (Some(v), Some(t), Some(n)) => Some((v, t, n)),
        _ => None,
    }
}

/// Reads the corners of a face line, resolving negative indices against
/// `counts`; `None` if a field is not an integer.
pub fn parse_face(line: &[u8], counts: (usize, usize, usize)) -> (r: Option<Vec<(i32, i32, i32)>>)
    requires
        counts_fit(counts),
    ensures
        match r {
            Some(c) => face_value(line@, counts) == Some(c@),
            None => face_value(line@, counts) is None,
        },
{
    let tokens = split_bytes(line, SPACE);
    let ghost ts = byte_views(tokens@).drop_first();
    proof {
        lemma_split_nonempty(line@, 32);
    }
    let mut out: Vec<(i32, i32, i32)> = Vec::new();
    let mut i: usize = 1;
    while i < tokens.len()
        invariant
            1 <= i <= tokens@.len(),
            ts == byte_views(tokens@).drop_first(),
            byte_views(tokens@) == split_on(line@, SPACE),
            counts_fit(counts),
            corners_value(ts.take(i - 1), counts) == Some(out@),
        decreases tokens@.len() - i,
    {
        proof {
            assert(ts.take(i as int).drop_last() == ts.take(i - 1));
            assert(ts.take(i as int).last() == tokens@[i as int]@);
        }
        if tokens[i].len() > 0 {
            match parse_corner(tokens[i].as_slice(), counts) {
                Some(c) => out.push(c),
                None => {
                    assert(corners_value(ts.take(i as int), counts) is None);
                    proof {
                        lemma_corners_none_extends(ts, i as int, counts);
                    }
                    return None;
                },
            }
        }
        i = i + 1;
    }
    proof {
        assert(ts.take(ts.len() as int) == ts);
    }
    Some(out)
}

proof fn lemma_corners_none_extends(ts: Seq<Seq<u8>>, i: int, counts: (usize, usize, usize))
    requires
        0 <= i <= ts.len(),
        corners_value(ts.take(i), counts) is None,
    ensures
        corners_value(ts, counts) is None,
    decreases ts.len() - i,
{
    if i < ts.len() {
        assert(ts.take(i + 1).drop_last() == ts.take(i));
        lemma_corners_none_extends(ts, i + 1, counts);
    } else {
        assert(ts.take(i) == ts);
    }
}

} // verus!
