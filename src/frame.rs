//! Depth-tested composition of pixel contributions into one frame.
use vstd::prelude::*;
use crate::color::Rgb;

verus! {

broadcast use vstd::std_specs::hash::group_hash_axioms;

/// One pixel produced by rasterizing a triangle.
///
/// `depth` is an order key: a smaller key is nearer to the camera.
#[derive(Debug, Clone, Copy, PartialEq, Eq, Structural)]
pub struct Contribution {
    pub index: i32,
    pub depth: u32,
    pub color: Rgb,
}

/// What the buffer keeps for one pixel: depth key and color.
pub type Cell = (u32, Rgb);

/// `a` wins over `b`, or equals it: nearer wins, and at equal depth the
/// smaller color by red, then green, then blue channel.
pub open spec fn cell_le(a: Cell, b: Cell) -> bool {
    ||| a.0 < b.0
    ||| a.0 == b.0 && a.1.r < b.1.r
    ||| a.0 == b.0 && a.1.r == b.1.r && a.1.g < b.1.g
    ||| a.0 == b.0 && a.1.r == b.1.r && a.1.g == b.1.g && a.1.b <= b.1.b
}

/// The nearest-wins rule applied to one contribution: it replaces what the
/// pixel holds unless that wins over it or equals it.
pub open spec fn merge_one(m: Map<i32, Cell>, c: Contribution) -> Map<i32, Cell> {
    if m.contains_key(c.index) && cell_le(m[c.index], (c.depth, c.color)) {
        m
    } else {
        m.insert(c.index, (c.depth, c.color))
    }
}

/// The buffer after applying the contributions of `s` to `m`, first to last.
pub open spec fn merge_seq(m: Map<i32, Cell>, s: Seq<Contribution>) -> Map<i32, Cell>
    decreases s.len(),
{
    if s.len() == 0 {
        m
    } else {
        merge_one(merge_seq(m, s.drop_last()), s.last())
    }
}

/// The lists of `ls`, one after the other.
pub open spec fn concat_all(ls: Seq<Seq<Contribution>>) -> Seq<Contribution>
    decreases ls.len(),
{
    if ls.len() == 0 {
        Seq::empty()
    } else {
        concat_all(ls.drop_last()) + ls.last()
    }
}

/// What the pixel with linear index `k` shows.
pub open spec fn cell_color(m: Map<i32, Cell>, k: i32) -> Option<Rgb> {
    if m.contains_key(k) {
        Some(m[k].1)
    } else {
        None
    }
}

fn cell_wins(a: Cell, b: Cell) -> (r: bool)
    ensures
        r == cell_le(a, b),
{
    if a.0 != b.0 {
        a.0 < b.0
    } else if a.1.r != b.1.r {
        a.1.r < b.1.r
    } else if a.1.g != b.1.g {
        a.1.g < b.1.g
    } else {
        a.1.b <= b.1.b
    }
}

/// A sparse map from linear pixel index to the nearest contribution seen.
pub struct FrameBuffer {
    cells: std::collections::HashMap<i32, Cell>,
}

impl View for FrameBuffer {
    type V = Map<i32, Cell>;

    closed spec fn view(&self) -> Map<i32, Cell> {
        self.cells@
    }
}

impl FrameBuffer {
    pub fn new() -> (fb: FrameBuffer)
        ensures
            fb@ == Map::<i32, Cell>::empty(),
    {
        FrameBuffer { cells: std::collections::HashMap::new() }
    }

    /// Applies the nearest-wins rule to each contribution of `items` in turn.
    pub fn absorb(&mut self, items: &Vec<Contribution>)
        ensures
            final(self)@ == merge_seq(old(self)@, items@),
    {
        let mut i: usize = 0;
        while i < items.len()
            invariant
                i <= items.len(),
                self@ == merge_seq(old(self)@, items@.take(i as int)),
            decreases items.len() - i,
        {
            let c = items[i];
            proof {
                assert(items@.take(i + 1).drop_last() == items@.take(i as int));
            }
            let keep = match self.cells.get(&c.index) {
                Some(prev) => cell_wins(*prev, (c.depth, c.color)),
                None => false,
            };
            if !keep {
                self.cells.insert(c.index, (c.depth, c.color));
            }
            i = i + 1;
        }
        proof {
            assert(items@.take(items.len() as int) == items@);
        }
    }

    /// The color shown at linear pixel index `k`, if any contribution reached it.
    pub fn color_at(&self, k: i32) -> (r: Option<Rgb>)
        ensures
            r == cell_color(self@, k),
    {
        match self.cells.get(&k) {
            Some(cell) => Some(cell.1),
            None => None,
        }
    }

    /// The visible part of the frame, top row first: rows `1..height - 1`,
    /// each holding columns `1..width - 1`; `None` where nothing was drawn.
    pub fn rows(&self, width: i32, height: i32) -> (r: Vec<Vec<Option<Rgb>>>)
        requires
            0 <= width,
            0 <= height,
            width * height <= i32::MAX,
        ensures
            r@.len() == if height >= 2 { height - 2 } else { 0 },
            forall|row: int|
                0 <= row < r@.len() ==> #[trigger] r@[row]@.len() == if width >= 2 { width - 2 } else { 0 },
            forall|row: int, col: int|
                0 <= row < r@.len() && 0 <= col < r@[row]@.len() ==> #[trigger] r@[row]@[col]
                    == cell_color(self@, (col + 1 + (row + 1) * width) as i32),
    {
        let mut out: Vec<Vec<Option<Rgb>>> = Vec::new();
        let mut y: i32 = 1;
        while y < height - 1
            invariant
                1 <= y,
                y <= height - 1 || y == 1,
                0 <= width,
                0 <= height,
                width * height <= i32::MAX,
                out@.len() == y - 1,
                forall|row: int|
                    0 <= row < out@.len() ==> #[trigger] out@[row]@.len() == if width >= 2 { width - 2 } else { 0 },
                forall|row: int, col: int|
                    0 <= row < out@.len() && 0 <= col < out@[row]@.len() ==> #[trigger] out@[row]@[col]
                        == cell_color(self@, (col + 1 + (row + 1) * width) as i32),
            decreases height - y,
        {
            let mut line: Vec<Option<Rgb>> = Vec::new();
            let mut x: i32 = 1;
            assert(y * width <= width * height) by (nonlinear_arith)
                requires y < height, 0 <= width;
            let base: i32 = y * width;
            while x < width - 1
                invariant
                    1 <= x,
                    x <= width - 1 || x == 1,
                    1 <= y < height,
                    0 <= width,
                    base == y * width,
                    y * width <= width * height,
                    width * height <= i32::MAX,
                    line@.len() == x - 1,
                    forall|col: int|
                        0 <= col < line@.len() ==> #[trigger] line@[col]
                            == cell_color(self@, (col + 1 + y * width) as i32),
                decreases width - x,
            {
                assert(x + y * width <= width * height) by (nonlinear_arith)
                    requires x < width, y < height, 0 <= x, base == y * width, y * width <= width * height;
                line.push(self.color_at(x + base));
                x = x + 1;
            }
            out.push(line);
            y = y + 1;
        }
        out
    }
}


/// The views of the lists in `lists`.
pub open spec fn views(lists: Seq<Vec<Contribution>>) -> Seq<Seq<Contribution>> {
    lists.map_values(|l: Vec<Contribution>| l@)
}

/// Merges the contribution lists of all triangles into one buffer.
pub fn merge(lists: &Vec<Vec<Contribution>>) -> (fb: FrameBuffer)
    ensures
        fb@ == merge_seq(Map::empty(), concat_all(views(lists@))),
{
    let mut fb = FrameBuffer::new();
    let mut i: usize = 0;
    while i < lists.len()
        invariant
            i <= lists.len(),
            fb@ == merge_seq(Map::empty(), concat_all(views(lists@).take(i as int))),
        decreases lists.len() - i,
    {
        fb.absorb(&lists[i]);
        proof {
            let ls = views(lists@);
            assert(ls.take(i + 1).drop_last() == ls.take(i as int));
            assert(ls.take(i + 1).last() == lists@[i as int]@);
            lemma_merge_grouping(Map::empty(), concat_all(ls.take(i as int)), lists@[i as int]@);
        }
        i = i + 1;
    }
    proof {
        assert(views(lists@).take(lists.len() as int) == views(lists@));
    }
    fb
}

/// Applying two lists one after the other is applying their concatenation:
/// contributions may be merged in any grouping.
pub proof fn lemma_merge_grouping(m: Map<i32, Cell>, a: Seq<Contribution>, b: Seq<Contribution>)
    ensures
        merge_seq(merge_seq(m, a), b) == merge_seq(m, a + b),
    decreases b.len(),
{
    if b.len() == 0 {
        assert(a + b == a);
    } else {
        assert((a + b).drop_last() == a + b.drop_last());
        assert((a + b).last() == b.last());
        lemma_merge_grouping(m, a, b.drop_last());
    }
}

/// `r` holds, for each pixel that `s` reaches, the contribution of `s` to it
/// that wins over all the others, and nothing else.
pub open spec fn holds_nearest(s: Seq<Contribution>, r: Map<i32, Cell>) -> bool {
    &&& forall|k: i32|
        #[trigger] r.contains_key(k) <==> exists|i: int| 0 <= i < s.len() && #[trigger] s[i].index == k
    &&& forall|k: i32|
        #[trigger] r.contains_key(k) ==> exists|i: int|
            0 <= i < s.len() && #[trigger] s[i].index == k && s[i].depth == r[k].0 && s[i].color == r[k].1
    &&& forall|k: i32, j: int|
        r.contains_key(k) && 0 <= j < s.len() && #[trigger] s[j].index == k ==> cell_le(
            #[trigger] r[k],
            (s[j].depth, s[j].color),
        )
}

/// Merging into an empty buffer keeps, per pixel, the winning contribution.
pub proof fn lemma_merge_keeps_nearest(s: Seq<Contribution>)
    ensures
        holds_nearest(s, merge_seq(Map::empty(), s)),
    decreases s.len(),
{
    if s.len() > 0 {
        let p = s.drop_last();
        let c = s.last();
        let last = s.len() - 1;
        lemma_merge_keeps_nearest(p);
        let rp = merge_seq(Map::empty(), p);
        let r = merge_seq(Map::empty(), s);
        assert(r == merge_one(rp, c));
        assert forall|i: int| 0 <= i < p.len() implies #[trigger] p[i] == s[i] by {}
        assert forall|k: i32|
            #[trigger] r.contains_key(k) <==> exists|i: int| 0 <= i < s.len() && #[trigger] s[i].index == k by {
            if k == c.index {
                assert(s[last].index == k);
            } else {
                if exists|i: int| 0 <= i < s.len() && #[trigger] s[i].index == k {
                    let i = choose|i: int| 0 <= i < s.len() && #[trigger] s[i].index == k;
                    assert(p[i].index == k);
                }
                if rp.contains_key(k) {
                    let i = choose|i: int| 0 <= i < p.len() && #[trigger] p[i].index == k;
                    assert(s[i].index == k);
                }
            }
        }
        assert forall|k: i32| #[trigger] r.contains_key(k) implies exists|i: int|
            0 <= i < s.len() && #[trigger] s[i].index == k && s[i].depth == r[k].0 && s[i].color
                == r[k].1 by {
            if k == c.index && !(rp.contains_key(c.index) && cell_le(rp[c.index], (c.depth, c.color))) {
                assert(s[last].index == k);
            } else {
                let i = choose|i: int|
                    0 <= i < p.len() && #[trigger] p[i].index == k && p[i].depth == rp[k].0
                        && p[i].color == rp[k].1;
                assert(s[i].index == k);
            }
        }
        assert forall|k: i32, j: int|
            r.contains_key(k) && 0 <= j < s.len() && #[trigger] s[j].index == k implies cell_le(
            #[trigger] r[k],
            (s[j].depth, s[j].color),
        ) by {
            if j < last {
                assert(p[j].index == k);
                if k == c.index && !(rp.contains_key(c.index) && cell_le(rp[c.index], (c.depth, c.color))) {
                    assert(rp.contains_key(k));
                    assert(cell_le(rp[k], (p[j].depth, p[j].color)));
                }
            }
        }
    }
}

/// Merging into an empty buffer depends only on which contributions there
/// are, not on their order.
pub proof fn lemma_merge_order_independent(s1: Seq<Contribution>, s2: Seq<Contribution>)
    requires
        forall|e: Contribution| s1.contains(e) <==> s2.contains(e),
    ensures
        merge_seq(Map::empty(), s1) == merge_seq(Map::empty(), s2),
{
    lemma_merge_keeps_nearest(s1);
    lemma_merge_keeps_nearest(s2);
    let r1 = merge_seq(Map::empty(), s1);
    let r2 = merge_seq(Map::empty(), s2);
    assert forall|k: i32| r1.contains_key(k) <==> r2.contains_key(k) by {
        if r1.contains_key(k) {
            let i = choose|i: int| 0 <= i < s1.len() && #[trigger] s1[i].index == k;
            assert(s1.contains(s1[i]));
            let j = choose|j: int| 0 <= j < s2.len() && s2[j] == s1[i];
            assert(s2[j].index == k);
        }
        if r2.contains_key(k) {
            let i = choose|i: int| 0 <= i < s2.len() && #[trigger] s2[i].index == k;
            assert(s2.contains(s2[i]));
            let j = choose|j: int| 0 <= j < s1.len() && s1[j] == s2[i];
            assert(s1[j].index == k);
        }
    }
    assert forall|k: i32| r1.contains_key(k) implies r1[k] == r2[k] by {
        let i1 = choose|i: int|
            0 <= i < s1.len() && #[trigger] s1[i].index == k && s1[i].depth == r1[k].0 && s1[i].color
                == r1[k].1;
        let i2 = choose|i: int|
            0 <= i < s2.len() && #[trigger] s2[i].index == k && s2[i].depth == r2[k].0 && s2[i].color
                == r2[k].1;
        assert(s1.contains(s1[i1]));
        assert(s2.contains(s2[i2]));
        let j1 = choose|j: int| 0 <= j < s2.len() && s2[j] == s1[i1];
        let j2 = choose|j: int| 0 <= j < s1.len() && s1[j] == s2[i2];
        assert(s2[j1].index == k);
        assert(s1[j2].index == k);
        assert(cell_le(r2[k], (s2[j1].depth, s2[j1].color)));
        assert(cell_le(r1[k], (s1[j2].depth, s1[j2].color)));
        assert(r1[k].1 == r2[k].1);
    }
    assert(r1 =~= r2);
}

/// Merging `a` then `b` into an empty buffer gives what merging `b` then `a`
/// gives.
pub proof fn lemma_merge_commutative(a: Seq<Contribution>, b: Seq<Contribution>)
    ensures
        merge_seq(merge_seq(Map::empty(), a), b) == merge_seq(merge_seq(Map::empty(), b), a),
{
    lemma_merge_grouping(Map::empty(), a, b);
    lemma_merge_grouping(Map::empty(), b, a);
    assert forall|e: Contribution| (a + b).contains(e) <==> (b + a).contains(e) by {
        if (a + b).contains(e) {
            let i = choose|i: int| 0 <= i < (a + b).len() && (a + b)[i] == e;
            if i < a.len() {
                assert((b + a)[b.len() + i] == e);
            } else {
                assert((b + a)[i - a.len()] == e);
            }
        }
        if (b + a).contains(e) {
            let i = choose|i: int| 0 <= i < (b + a).len() && (b + a)[i] == e;
            if i < b.len() {
                assert((a + b)[a.len() + i] == e);
            } else {
                assert((a + b)[i - b.len()] == e);
            }
        }
    }
    lemma_merge_order_independent(a + b, b + a);
}

/// Where every contribution of `near` is nearer than every contribution of
/// `far`, the merged frame shows at each pixel that `near` reaches one of
/// `near`'s contributions to it, and at each other pixel one of `far`'s.
pub proof fn lemma_nearer_list_hides(near: Seq<Contribution>, far: Seq<Contribution>)
    requires
        forall|i: int, j: int| 0 <= i < near.len() && 0 <= j < far.len() ==> #[trigger] near[i].depth < #[trigger] far[j].depth,
    ensures
        ({
            let r = merge_seq(Map::empty(), near + far);
            &&& forall|k: i32|
                r.contains_key(k) && (exists|i: int| 0 <= i < near.len() && #[trigger] near[i].index == k) ==> exists|i: int|
                    0 <= i < near.len() && #[trigger] near[i].index == k && r[k] == (near[i].depth, near[i].color)
            &&& forall|k: i32|
                r.contains_key(k) && !(exists|i: int| 0 <= i < near.len() && #[trigger] near[i].index == k) ==> exists|j: int|
                    0 <= j < far.len() && #[trigger] far[j].index == k && r[k] == (far[j].depth, far[j].color)
        }),
{
    let s = near + far;
    let r = merge_seq(Map::empty(), s);
    lemma_merge_keeps_nearest(s);
    assert forall|k: i32| r.contains_key(k) implies {
        &&& (exists|i: int| 0 <= i < near.len() && #[trigger] near[i].index == k) ==> exists|i: int|
            0 <= i < near.len() && #[trigger] near[i].index == k && r[k] == (near[i].depth, near[i].color)
        &&& !(exists|i: int| 0 <= i < near.len() && #[trigger] near[i].index == k) ==> exists|j: int|
            0 <= j < far.len() && #[trigger] far[j].index == k && r[k] == (far[j].depth, far[j].color)
    } by {
        let w = choose|w: int|
            0 <= w < s.len() && #[trigger] s[w].index == k && s[w].depth == r[k].0 && s[w].color == r[k].1;
        if w < near.len() {
            assert(s[w] == near[w]);
        } else {
            let j = w - near.len();
            assert(s[w] == far[j]);
            if exists|i: int| 0 <= i < near.len() && #[trigger] near[i].index == k {
                let i = choose|i: int| 0 <= i < near.len() && #[trigger] near[i].index == k;
                assert(s[i] == near[i]);
                assert(cell_le(r[k], (s[i].depth, s[i].color)));
                assert(near[i].depth < far[j].depth);
            }
        }
    }
}

} // verus!
