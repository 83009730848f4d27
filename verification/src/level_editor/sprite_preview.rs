//! Scoring of rendered sprite previews: how much of a preview image is
//! opaque, and how large its biggest 4-connected blob of opaque pixels is.
//!
//! Pixels of a `w` by `h` image are numbered row-major, pixel `i` sitting
//! at column `i % w`, row `i / w`.

use vstd::arithmetic::div_mod::{lemma_fundamental_div_mod, lemma_fundamental_div_mod_converse};
use std::collections::BTreeSet;

use crate::snes_gfx::{
    lemma_tile_drawn_len, render_signed_sprite_sub_tile, sprite_word_placement, tile_drawn,
};

use vstd::prelude::*;
use vstd::set_lib::{lemma_int_range, lemma_len_subset, set_int_range};

verus! {

/// Column and row of pixel `i` in an image `w` pixels wide.
pub open spec fn cell(w: int, i: int) -> (int, int) {
    (i % w, i / w)
}

/// Two pixel positions share an edge.
pub open spec fn adjacent(a: (int, int), b: (int, int)) -> bool {
    ||| a.0 == b.0 && (a.1 == b.1 + 1 || b.1 == a.1 + 1)
    ||| a.1 == b.1 && (a.0 == b.0 + 1 || b.0 == a.0 + 1)
}

/// Pixel `i` lies in the `w` by `h` image and is set in the mask.
pub open spec fn is_opaque(mask: Seq<bool>, w: int, h: int, i: int) -> bool {
    0 <= i < w * h && mask[i]
}

/// Steps `k` and `k + 1` of `p` are neighbouring pixels.
pub open spec fn linked(w: int, p: Seq<int>, k: int) -> bool {
    adjacent(cell(w, p[k]), cell(w, p[k + 1]))
}

/// `p` walks through opaque pixels, one edge at a time.
pub open spec fn is_path(mask: Seq<bool>, w: int, h: int, p: Seq<int>) -> bool {
    &&& p.len() > 0
    &&& forall|k: int| 0 <= k < p.len() ==> #[trigger] is_opaque(mask, w, h, p[k])
    &&& forall|k: int| 0 <= k < p.len() - 1 ==> #[trigger] linked(w, p, k)
}

/// Some walk through opaque pixels leads from pixel `a` to pixel `b`.
pub open spec fn connected(mask: Seq<bool>, w: int, h: int, a: int, b: int) -> bool {
    exists|p: Seq<int>| #[trigger] is_path(mask, w, h, p) && p[0] == a && p.last() == b
}

/// The opaque pixels 4-connected to pixel `a` (its blob).
pub open spec fn component(mask: Seq<bool>, w: int, h: int, a: int) -> Set<int> {
    Set::new(|b: int| connected(mask, w, h, a, b))
}

/// Every opaque neighbour of a member of `s` is a member too.
pub open spec fn closed(mask: Seq<bool>, w: int, h: int, s: Set<int>) -> bool {
    forall|a: int, b: int|
        s.contains(a) && is_opaque(mask, w, h, b) && #[trigger] adjacent(cell(w, a), cell(w, b))
            ==> s.contains(b)
}

proof fn lemma_connected_refl(mask: Seq<bool>, w: int, h: int, a: int)
    requires
        is_opaque(mask, w, h, a),
    ensures
        connected(mask, w, h, a, a),
{
    let p = seq![a];
    assert(is_path(mask, w, h, p));
    assert(p[0] == a && p.last() == a);
}

proof fn lemma_connected_ends(mask: Seq<bool>, w: int, h: int, a: int, b: int)
    requires
        connected(mask, w, h, a, b),
    ensures
        is_opaque(mask, w, h, a),
        is_opaque(mask, w, h, b),
{
    let p = choose|p: Seq<int>| #[trigger] is_path(mask, w, h, p) && p[0] == a && p.last() == b;
    assert(is_opaque(mask, w, h, p[0]));
    assert(is_opaque(mask, w, h, p[p.len() - 1]));
}

proof fn lemma_connected_step(mask: Seq<bool>, w: int, h: int, a: int, b: int, c: int)
    requires
        connected(mask, w, h, a, b),
        is_opaque(mask, w, h, c),
        adjacent(cell(w, b), cell(w, c)),
    ensures
        connected(mask, w, h, a, c),
{
    let p = choose|p: Seq<int>| #[trigger] is_path(mask, w, h, p) && p[0] == a && p.last() == b;
    let q = p.push(c);
    assert forall|k: int| 0 <= k < q.len() implies #[trigger] is_opaque(mask, w, h, q[k]) by {
        if k < p.len() {
            assert(q[k] == p[k]);
        }
    }
    assert forall|k: int| 0 <= k < q.len() - 1 implies #[trigger] linked(w, q, k) by {
        if k < p.len() - 1 {
            assert(linked(w, p, k));
        }
    }
    assert(is_path(mask, w, h, q));
    assert(q[0] == a && q.last() == c);
}

proof fn lemma_connected_sym(mask: Seq<bool>, w: int, h: int, a: int, b: int)
    requires
        connected(mask, w, h, a, b),
    ensures
        connected(mask, w, h, b, a),
{
    let p = choose|p: Seq<int>| #[trigger] is_path(mask, w, h, p) && p[0] == a && p.last() == b;
    let n = p.len();
    let q = Seq::new(n, |k: int| p[n - 1 - k]);
    assert forall|k: int| 0 <= k < q.len() implies #[trigger] is_opaque(mask, w, h, q[k]) by {
        assert(is_opaque(mask, w, h, p[n - 1 - k]));
    }
    assert forall|k: int| 0 <= k < q.len() - 1 implies #[trigger] linked(w, q, k) by {
        assert(linked(w, p, n - 2 - k));
    }
    assert(is_path(mask, w, h, q));
    assert(q[0] == b && q.last() == a);
}

proof fn lemma_connected_trans(mask: Seq<bool>, w: int, h: int, a: int, b: int, c: int)
    requires
        connected(mask, w, h, a, b),
        connected(mask, w, h, b, c),
    ensures
        connected(mask, w, h, a, c),
{
    let p = choose|p: Seq<int>| #[trigger] is_path(mask, w, h, p) && p[0] == a && p.last() == b;
    let r = choose|r: Seq<int>| #[trigger] is_path(mask, w, h, r) && r[0] == b && r.last() == c;
    let q = p + r.subrange(1, r.len() as int);
    let n = p.len();
    assert forall|k: int| 0 <= k < q.len() implies #[trigger] is_opaque(mask, w, h, q[k]) by {
        if k < n {
            assert(q[k] == p[k]);
        } else {
            assert(q[k] == r[k - n + 1]);
        }
    }
    assert forall|k: int| 0 <= k < q.len() - 1 implies #[trigger] linked(w, q, k) by {
        if k < n - 1 {
            assert(linked(w, p, k));
        } else if k == n - 1 {
            assert(linked(w, r, 0));
        } else {
            assert(linked(w, r, k - n + 1));
        }
    }
    assert(is_path(mask, w, h, q));
    assert(q[0] == a);
    assert(q.last() == c);
}

/// Members of one blob have the same blob.
proof fn lemma_same_component(mask: Seq<bool>, w: int, h: int, a: int, b: int)
    requires
        connected(mask, w, h, a, b),
    ensures
        component(mask, w, h, b) == component(mask, w, h, a),
{
    lemma_connected_sym(mask, w, h, a, b);
    assert forall|c: int| component(mask, w, h, b).contains(c) <==> component(
        mask,
        w,
        h,
        a,
    ).contains(c) by {
        if connected(mask, w, h, b, c) {
            lemma_connected_trans(mask, w, h, a, b, c);
        }
        if connected(mask, w, h, a, c) {
            lemma_connected_trans(mask, w, h, b, a, c);
        }
    }
    assert(component(mask, w, h, b) =~= component(mask, w, h, a));
}

proof fn lemma_closed_prefix(mask: Seq<bool>, w: int, h: int, s: Set<int>, p: Seq<int>, k: int)
    requires
        closed(mask, w, h, s),
        is_path(mask, w, h, p),
        s.contains(p[0]),
        0 <= k < p.len(),
    ensures
        s.contains(p[k]),
    decreases k,
{
    if k > 0 {
        lemma_closed_prefix(mask, w, h, s, p, k - 1);
        assert(linked(w, p, k - 1));
        assert(is_opaque(mask, w, h, p[k]));
    }
}

/// A closed set holding `a` holds all of `a`'s blob.
proof fn lemma_closed_holds_component(mask: Seq<bool>, w: int, h: int, s: Set<int>, a: int)
    requires
        closed(mask, w, h, s),
        s.contains(a),
    ensures
        component(mask, w, h, a).subset_of(s),
{
    assert forall|b: int| component(mask, w, h, a).contains(b) implies s.contains(b) by {
        let p = choose|p: Seq<int>|
            #[trigger] is_path(mask, w, h, p) && p[0] == a && p.last() == b;
        lemma_closed_prefix(mask, w, h, s, p, p.len() - 1);
    }
}

/// A blob is a finite set of at most `w * h` pixels.
proof fn lemma_component_finite(mask: Seq<bool>, w: int, h: int, a: int)
    requires
        w >= 0,
        h >= 0,
    ensures
        component(mask, w, h, a).finite(),
        component(mask, w, h, a).len() <= w * h,
{
    assert(0 <= w * h) by (nonlinear_arith)
        requires
            w >= 0,
            h >= 0,
    ;
    lemma_int_range(0, w * h);
    assert forall|b: int| component(mask, w, h, a).contains(b) implies set_int_range(
        0,
        w * h,
    ).contains(b) by {
        lemma_connected_ends(mask, w, h, a, b);
    }
    lemma_len_subset(component(mask, w, h, a), set_int_range(0, w * h));
}

/// Pixel index of column `x`, row `y`, and back.
proof fn lemma_cell_of_index(w: int, h: int, x: int, y: int)
    requires
        0 <= x < w,
        0 <= y < h,
    ensures
        0 <= y * w + x < w * h,
        cell(w, y * w + x) == (x, y),
{
    lemma_fundamental_div_mod_converse(y * w + x, w, y, x);
    assert(0 <= y * w + x < w * h) by (nonlinear_arith)
        requires
            0 <= x < w,
            0 <= y < h,
    ;
}

/// Column and row of a pixel of the `w` by `h` image, and its index back.
proof fn lemma_index_cell(w: int, h: int, i: int)
    requires
        w >= 0,
        h >= 0,
        0 <= i < w * h,
    ensures
        w > 0,
        0 <= i % w < w,
        0 <= i / w < h,
        i == (i / w) * w + i % w,
{
    assert(w > 0) by (nonlinear_arith)
        requires
            w >= 0,
            h >= 0,
            0 <= i < w * h,
    ;
    lemma_fundamental_div_mod(i, w);
    assert(w * (i / w) == (i / w) * w) by (nonlinear_arith);
    assert(i / w < h) by (nonlinear_arith)
        requires
            0 <= i < w * h,
            w > 0,
            i == w * (i / w) + i % w,
            0 <= i % w,
    ;
}

/// The pixels marked in `seen`.
pub open spec fn seen_set(seen: Seq<bool>, w: int, h: int) -> Set<int> {
    Set::new(|i: int| 0 <= i < w * h && seen[i])
}

/// Pixel index of a stacked `(x, y)` position.
pub open spec fn stacked(w: int, p: (usize, usize)) -> int {
    p.1 * w + p.0
}

/// Pixel `i` is waiting on the stack.
pub open spec fn on_stack(stack: Seq<(usize, usize)>, w: int, i: int) -> bool {
    exists|k: int| 0 <= k < stack.len() && #[trigger] stacked(w, stack[k]) == i
}

/// State of the flood fill from `start`: `r` is what the fill has marked on
/// top of the marks `s0` it started from, all reachable from `start`; each
/// member of `r` is on the stack, is the pixel being expanded (`pending`), or
/// is done with all its opaque neighbours marked.
pub open spec fn fill_state(
    mask: Seq<bool>,
    w: int,
    h: int,
    s0: Set<int>,
    start: int,
    seen: Seq<bool>,
    stack: Seq<(usize, usize)>,
    size: int,
    r: Set<int>,
    done: Set<int>,
    pending: int,
) -> bool {
    &&& seen.len() == mask.len()
    &&& seen_set(seen, w, h) == s0 + r
    &&& forall|i: int| r.contains(i) ==> !s0.contains(i)
    &&& r.finite()
    &&& r.subset_of(set_int_range(0, w * h))
    &&& r.len() <= w * h
    &&& size + stack.len() == r.len()
    &&& forall|i: int| r.contains(i) ==> connected(mask, w, h, start, i)
    &&& forall|k: int|
        0 <= k < stack.len() ==> (#[trigger] stack[k]).0 < w && stack[k].1 < h && r.contains(
            stacked(w, stack[k]),
        )
    &&& forall|i: int| r.contains(i) ==> done.contains(i) || on_stack(stack, w, i) || i == pending
    &&& done.subset_of(r)
    &&& forall|a: int, b: int|
        done.contains(a) && is_opaque(mask, w, h, b) && #[trigger] adjacent(cell(w, a), cell(w, b))
            ==> r.contains(b)
}

/// Mark pixel `(nx, ny)` and stack it, if it is opaque and not yet marked.
/// `c` is a marked pixel next to it.
fn visit(
    mask: &[bool],
    w: usize,
    h: usize,
    seen: &mut Vec<bool>,
    stack: &mut Vec<(usize, usize)>,
    nx: usize,
    ny: usize,
    Ghost(s0): Ghost<Set<int>>,
    Ghost(start): Ghost<int>,
    Ghost(size): Ghost<int>,
    Ghost(r): Ghost<Set<int>>,
    Ghost(done): Ghost<Set<int>>,
    Ghost(c): Ghost<int>,
) -> (r2: Ghost<Set<int>>)
    requires
        w * h <= mask@.len(),
        nx < w,
        ny < h,
        fill_state(mask@, w as int, h as int, s0, start, old(seen)@, old(stack)@, size, r, done, c),
        r.contains(c),
        adjacent(cell(w as int, c), (nx as int, ny as int)),
    ensures
        fill_state(mask@, w as int, h as int, s0, start, final(seen)@, final(stack)@, size, r2@, done, c),
        r.subset_of(r2@),
        final(stack)@.len() >= old(stack)@.len(),
        is_opaque(mask@, w as int, h as int, ny * w + nx) ==> (s0 + r2@).contains(ny * w + nx),
{
    proof {
        lemma_cell_of_index(w as int, h as int, nx as int, ny as int);
    }
    let n = mask.len();
    assert(ny * w <= ny * w + nx < n);
    let i = ny * w + nx;
    if mask[i] && !seen[i] {
        let ghost old_seen = seen@;
        let ghost old_stack = stack@;
        seen[i] = true;
        stack.push((nx, ny));
        let ghost r2 = r.insert(i as int);
        proof {
            lemma_connected_step(mask@, w as int, h as int, start, c, i as int);
            assert(0 <= i < w * h);
            assert(!old_seen[i as int]);
            assert(!seen_set(old_seen, w as int, h as int).contains(i as int));
            assert(!r.contains(i as int));
            assert forall|j: int| seen_set(seen@, w as int, h as int).contains(j) <==> (s0
                + r2).contains(j) by {
                assert(seen_set(old_seen, w as int, h as int).contains(j) == (s0 + r).contains(j));
                if j != i && 0 <= j < w * h {
                    assert(seen@[j] == old_seen[j]);
                }
            }
            assert(seen_set(seen@, w as int, h as int) =~= s0 + r2);
            lemma_int_range(0, w * h);
            lemma_len_subset(r2, set_int_range(0, w * h));
            assert(stacked(w as int, stack@[stack@.len() - 1]) == i);
            assert forall|j: int| r2.contains(j) implies done.contains(j) || on_stack(
                stack@,
                w as int,
                j,
            ) || j == c by {
                if j == i {
                    assert(stacked(w as int, stack@[stack@.len() - 1]) == j);
                } else if !done.contains(j) && j != c {
                    assert(on_stack(old_stack, w as int, j));
                    let k = choose|k: int|
                        0 <= k < old_stack.len() && #[trigger] stacked(w as int, old_stack[k]) == j;
                    assert(stacked(w as int, stack@[k]) == j);
                }
            }
            assert forall|k: int| 0 <= k < stack@.len() implies (#[trigger] stack@[k]).0 < w
                && stack@[k].1 < h && r2.contains(stacked(w as int, stack@[k])) by {
                if k < old_stack.len() {
                    assert(stack@[k] == old_stack[k]);
                }
            }
        }
        Ghost(r2)
    } else {
        Ghost(r)
    }
}

/// Flood-fill the blob of pixel `(sx, sy)`, marking it in `seen`; returns
/// its size.
fn fill_component(mask: &[bool], w: usize, h: usize, seen: &mut Vec<bool>, sx: usize, sy: usize) -> (size: usize)
    requires
        w * h <= mask@.len(),
        old(seen)@.len() == mask@.len(),
        sx < w,
        sy < h,
        mask@[sy * w + sx],
        !old(seen)@[sy * w + sx],
        closed(mask@, w as int, h as int, seen_set(old(seen)@, w as int, h as int)),
    ensures
        final(seen)@.len() == mask@.len(),
        seen_set(final(seen)@, w as int, h as int) == seen_set(old(seen)@, w as int, h as int)
            + component(mask@, w as int, h as int, sy * w + sx),
        component(mask@, w as int, h as int, sy * w + sx).finite(),
        size == component(mask@, w as int, h as int, sy * w + sx).len(),
{
    proof {
        lemma_cell_of_index(w as int, h as int, sx as int, sy as int);
    }
    let n = mask.len();
    assert(sy * w <= sy * w + sx < n);
    let start: usize = sy * w + sx;
    let ghost wi = w as int;
    let ghost hi = h as int;
    let ghost s0 = seen_set(seen@, wi, hi);
    let ghost old_seen = seen@;
    seen[start] = true;
    let mut stack: Vec<(usize, usize)> = Vec::new();
    stack.push((sx, sy));
    let mut size: usize = 0;
    let ghost mut r: Set<int> = Set::empty().insert(start as int);
    let ghost mut done: Set<int> = Set::empty();
    proof {
        lemma_connected_refl(mask@, wi, hi, start as int);
        assert(!s0.contains(start as int));
        assert forall|j: int| seen_set(seen@, wi, hi).contains(j) <==> (s0 + r).contains(j) by {
            assert(seen_set(old_seen, wi, hi).contains(j) == s0.contains(j));
            if j != start && 0 <= j < w * h {
                assert(seen@[j] == old_seen[j]);
            }
        }
        assert(seen_set(seen@, wi, hi) =~= s0 + r);
        assert(stacked(wi, stack@[0]) == start);
        assert(on_stack(stack@, wi, start as int));
    }
    while stack.len() > 0
        invariant
            w * h <= mask@.len(),
            n == mask@.len(),
            wi == w,
            hi == h,
            start == sy * w + sx,
            start < w * h,
            closed(mask@, wi, hi, s0),
            r.contains(start as int),
            fill_state(mask@, wi, hi, s0, start as int, seen@, stack@, size as int, r, done, -1),
        decreases (w * h - r.len()) * 2 + stack@.len(),
    {
        let ghost before = stack@;
        let (cx, cy) = stack.pop().unwrap();
        let ghost c: int = cy * w + cx;
        proof {
            assert(before[before.len() - 1] == (cx, cy));
            assert(stack@ =~= before.drop_last());
            assert(r.contains(stacked(wi, before[before.len() - 1])));
            lemma_cell_of_index(wi, hi, cx as int, cy as int);
            lemma_connected_ends(mask@, wi, hi, start as int, c);
            assert forall|i: int| r.contains(i) implies done.contains(i) || on_stack(stack@, wi, i)
                || i == c by {
                if !done.contains(i) && i != -1 {
                    let k = choose|k: int|
                        0 <= k < before.len() && #[trigger] stacked(wi, before[k]) == i;
                    if k < before.len() - 1 {
                        assert(stacked(wi, stack@[k]) == i);
                    }
                }
            }
            assert forall|k: int| 0 <= k < stack@.len() implies (#[trigger] stack@[k]).0 < w
                && stack@[k].1 < h && r.contains(stacked(wi, stack@[k])) by {
                assert(stack@[k] == before[k]);
            }
        }
        size += 1;
        let ghost mut rr = r;
        if cx > 0 {
            let r1 = visit(mask, w, h, seen, &mut stack, cx - 1, cy, Ghost(s0), Ghost(start as int),
                Ghost(size as int), Ghost(rr), Ghost(done), Ghost(c));
            proof {
                rr = r1@;
            }
        }
        if cx + 1 < w {
            let r1 = visit(mask, w, h, seen, &mut stack, cx + 1, cy, Ghost(s0), Ghost(start as int),
                Ghost(size as int), Ghost(rr), Ghost(done), Ghost(c));
            proof {
                rr = r1@;
            }
        }
        if cy > 0 {
            let r1 = visit(mask, w, h, seen, &mut stack, cx, cy - 1, Ghost(s0), Ghost(start as int),
                Ghost(size as int), Ghost(rr), Ghost(done), Ghost(c));
            proof {
                rr = r1@;
            }
        }
        if cy + 1 < h {
            let r1 = visit(mask, w, h, seen, &mut stack, cx, cy + 1, Ghost(s0), Ghost(start as int),
                Ghost(size as int), Ghost(rr), Ghost(done), Ghost(c));
            proof {
                rr = r1@;
            }
        }
        proof {
            let d2 = done.insert(c);
            assert forall|a: int, b: int|
                d2.contains(a) && is_opaque(mask@, wi, hi, b) && #[trigger] adjacent(
                    cell(wi, a),
                    cell(wi, b),
                ) implies rr.contains(b) by {
                if a == c {
                    lemma_index_cell(wi, hi, b);
                    let bx = b % wi;
                    let by = b / wi;
                    if bx == cx && by + 1 == cy {
                        lemma_cell_of_index(wi, hi, cx as int, cy - 1);
                    } else if bx == cx && by == cy + 1 {
                        lemma_cell_of_index(wi, hi, cx as int, cy + 1);
                    } else if by == cy && bx + 1 == cx {
                        lemma_cell_of_index(wi, hi, cx - 1, cy as int);
                    } else {
                        lemma_cell_of_index(wi, hi, cx + 1, cy as int);
                    }
                    assert((s0 + rr).contains(b));
                    if s0.contains(b) {
                        assert(adjacent(cell(wi, b), cell(wi, c)));
                        assert(s0.contains(c));
                    }
                } else {
                    assert(r.contains(b));
                }
            }
            assert forall|i: int| rr.contains(i) implies d2.contains(i) || on_stack(stack@, wi, i)
                || i == -1 by {
            }
            assert(rr.len() + before.len() == r.len() + stack@.len() + 1);
            assert(rr.len() <= w * h);
            done = d2;
            r = rr;
        }
    }
    proof {
        assert forall|i: int| r.contains(i) implies done.contains(i) by {
            if on_stack(stack@, wi, i) {
                let k = choose|k: int| 0 <= k < stack@.len() && #[trigger] stacked(wi, stack@[k]) == i;
            }
        }
        assert(closed(mask@, wi, hi, r));
        lemma_closed_holds_component(mask@, wi, hi, r, start as int);
        assert(r =~= component(mask@, wi, hi, start as int));
    }
    size
}

/// Size of the largest 4-connected blob of set pixels in the `w` by `h`
/// mask (0 for an empty mask).
pub fn largest_opaque_component(mask: &[bool], w: usize, h: usize) -> (best: usize)
    requires
        w * h <= mask@.len(),
    ensures
        forall|i: int|
            is_opaque(mask@, w as int, h as int, i) ==> #[trigger] component(
                mask@,
                w as int,
                h as int,
                i,
            ).len() <= best,
        best == 0 || exists|i: int|
            is_opaque(mask@, w as int, h as int, i) && #[trigger] component(
                mask@,
                w as int,
                h as int,
                i,
            ).len() == best,
        best <= w * h,
{
    let n = mask.len();
    let ghost wi = w as int;
    let ghost hi = h as int;
    let mut seen: Vec<bool> = Vec::new();
    let mut k: usize = 0;
    while k < n
        invariant
            n == mask@.len(),
            k <= n,
            seen@.len() == k,
            forall|j: int| 0 <= j < k ==> !seen@[j],
        decreases n - k,
    {
        seen.push(false);
        k += 1;
    }
    assert(seen_set(seen@, wi, hi) =~= Set::empty());
    let mut best: usize = 0;
    let mut y: usize = 0;
    while y < h
        invariant
            w * h <= mask@.len(),
            n == mask@.len(),
            wi == w,
            hi == h,
            y <= h,
            seen@.len() == n,
            closed(mask@, wi, hi, seen_set(seen@, wi, hi)),
            forall|i: int|
                0 <= i < y * w && is_opaque(mask@, wi, hi, i) ==> seen_set(seen@, wi, hi).contains(i),
            forall|i: int|
                seen_set(seen@, wi, hi).contains(i) ==> #[trigger] component(mask@, wi, hi, i).len()
                    <= best,
            best == 0 || exists|i: int|
                is_opaque(mask@, wi, hi, i) && #[trigger] component(mask@, wi, hi, i).len() == best,
        decreases h - y,
    {
        let mut x: usize = 0;
        while x < w
            invariant
                w * h <= mask@.len(),
                n == mask@.len(),
                wi == w,
                hi == h,
                y < h,
                x <= w,
                seen@.len() == n,
                closed(mask@, wi, hi, seen_set(seen@, wi, hi)),
                forall|i: int|
                    0 <= i < y * w + x && is_opaque(mask@, wi, hi, i) ==> seen_set(
                        seen@,
                        wi,
                        hi,
                    ).contains(i),
                forall|i: int|
                    seen_set(seen@, wi, hi).contains(i) ==> #[trigger] component(
                        mask@,
                        wi,
                        hi,
                        i,
                    ).len() <= best,
                best == 0 || exists|i: int|
                    is_opaque(mask@, wi, hi, i) && #[trigger] component(mask@, wi, hi, i).len()
                        == best,
            decreases w - x,
        {
            proof {
                lemma_cell_of_index(wi, hi, x as int, y as int);
            }
            assert(y * w <= y * w + x < n);
            let idx = y * w + x;
            if mask[idx] && !seen[idx] {
                let ghost s_before = seen_set(seen@, wi, hi);
                let size = fill_component(mask, w, h, &mut seen, x, y);
                proof {
                    let comp = component(mask@, wi, hi, idx as int);
                    lemma_connected_refl(mask@, wi, hi, idx as int);
                    assert forall|j: int| comp.contains(j) implies component(mask@, wi, hi, j)
                        == comp by {
                        lemma_same_component(mask@, wi, hi, idx as int, j);
                    }
                    assert forall|a: int, b: int|
                        seen_set(seen@, wi, hi).contains(a) && is_opaque(mask@, wi, hi, b)
                            && #[trigger] adjacent(cell(wi, a), cell(wi, b)) implies seen_set(
                        seen@,
                        wi,
                        hi,
                    ).contains(b) by {
                        if comp.contains(a) {
                            lemma_connected_step(mask@, wi, hi, idx as int, a, b);
                        } else {
                            assert(s_before.contains(a));
                        }
                    }
                }
                if size > best {
                    best = size;
                }
                proof {
                    assert(component(mask@, wi, hi, idx as int).len() <= best);
                    assert forall|i: int|
                        seen_set(seen@, wi, hi).contains(i) implies #[trigger] component(
                            mask@,
                            wi,
                            hi,
                            i,
                        ).len() <= best by {
                        if !s_before.contains(i) {
                            assert(component(mask@, wi, hi, idx as int).contains(i));
                        }
                    }
                    if best == size {
                        assert(is_opaque(mask@, wi, hi, idx as int));
                    }
                }
            }
            x += 1;
        }
        assert((y + 1) * w == y * w + w) by (nonlinear_arith);
        y += 1;
    }
    proof {
        assert forall|i: int| is_opaque(mask@, wi, hi, i) implies #[trigger] component(
            mask@,
            wi,
            hi,
            i,
        ).len() <= best by {
            assert(seen_set(seen@, wi, hi).contains(i));
        }
        if best != 0 {
            let i = choose|i: int|
                is_opaque(mask@, wi, hi, i) && #[trigger] component(mask@, wi, hi, i).len() == best;
            lemma_component_finite(mask@, wi, hi, i);
        }
    }
    best
}

/// An RGBA image as the preview renderer produces it: `size` is
/// `[width, height]`, pixels row-major as `[r, g, b, a]`.
#[derive(Clone, Debug)]
pub struct ColorImage {
    pub size: [usize; 2],
    pub pixels: Vec<[u8; 4]>,
}

/// Pixel `i` of `px` is not fully transparent.
pub open spec fn opaque_px(px: Seq<[u8; 4]>, i: int) -> bool {
    px[i]@[3] != 0
}

/// The RGB of a pixel as one number, `0xRRGGBB`.
pub open spec fn rgb_key(p: [u8; 4]) -> u32 {
    (p@[0] * 65536 + p@[1] * 256 + p@[2]) as u32
}

/// Opaque pixels among the first `k`.
pub open spec fn opaque_count(px: Seq<[u8; 4]>, k: int) -> int
    decreases k,
{
    if k <= 0 {
        0
    } else {
        opaque_count(px, k - 1) + if opaque_px(px, k - 1) {
            1int
        } else {
            0
        }
    }
}

/// Smallest column of an opaque pixel among the first `k` (`w` if none).
pub open spec fn opaque_min_x(px: Seq<[u8; 4]>, w: int, k: int) -> int
    decreases k,
{
    if k <= 0 {
        w
    } else {
        let m = opaque_min_x(px, w, k - 1);
        if opaque_px(px, k - 1) && (k - 1) % w < m {
            (k - 1) % w
        } else {
            m
        }
    }
}

/// Smallest row of an opaque pixel among the first `k` (`h` if none).
pub open spec fn opaque_min_y(px: Seq<[u8; 4]>, w: int, h: int, k: int) -> int
    decreases k,
{
    if k <= 0 {
        h
    } else {
        let m = opaque_min_y(px, w, h, k - 1);
        if opaque_px(px, k - 1) && (k - 1) / w < m {
            (k - 1) / w
        } else {
            m
        }
    }
}

/// Largest column of an opaque pixel among the first `k` (0 if none).
pub open spec fn opaque_max_x(px: Seq<[u8; 4]>, w: int, k: int) -> int
    decreases k,
{
    if k <= 0 {
        0
    } else {
        let m = opaque_max_x(px, w, k - 1);
        if opaque_px(px, k - 1) && (k - 1) % w > m {
            (k - 1) % w
        } else {
            m
        }
    }
}

/// Largest row of an opaque pixel among the first `k` (0 if none).
pub open spec fn opaque_max_y(px: Seq<[u8; 4]>, w: int, k: int) -> int
    decreases k,
{
    if k <= 0 {
        0
    } else {
        let m = opaque_max_y(px, w, k - 1);
        if opaque_px(px, k - 1) && (k - 1) / w > m {
            (k - 1) / w
        } else {
            m
        }
    }
}

/// Distinct RGB values of the opaque pixels among the first `k`.
pub open spec fn opaque_colors(px: Seq<[u8; 4]>, k: int) -> Set<u32> {
    Set::new(|c: u32| exists|i: int| 0 <= i < k && opaque_px(px, i) && #[trigger] rgb_key(px[i]) == c)
}

/// The opacity mask of the first `n` pixels.
pub open spec fn opacity_mask(px: Seq<[u8; 4]>, n: int) -> Seq<bool> {
    Seq::new(n as nat, |i: int| opaque_px(px, i))
}

/// Largest blob size among the blobs of the first `k` pixels.
pub open spec fn max_component_upto(mask: Seq<bool>, w: int, h: int, k: int) -> int
    decreases k,
{
    if k <= 0 {
        0
    } else {
        let m = max_component_upto(mask, w, h, k - 1);
        let c = if is_opaque(mask, w, h, k - 1) {
            component(mask, w, h, k - 1).len() as int
        } else {
            0
        };
        if c > m {
            c
        } else {
            m
        }
    }
}

/// How convincing a rendered sprite preview looks: many opaque pixels,
/// dense, colorful and in one blob score high; stray fragments, and boxes
/// filling most of the image, score low. A fully transparent image scores
/// -10000.
pub open spec fn preview_score(img: ColorImage) -> int {
    let w = img.size@[0] as int;
    let h = img.size@[1] as int;
    let n = w * h;
    let px = img.pixels@;
    let opaque = opaque_count(px, n);
    if opaque == 0 {
        -10000
    } else {
        let area = (opaque_max_x(px, w, n) - opaque_min_x(px, w, n) + 1) * (opaque_max_y(px, w, n)
            - opaque_min_y(px, w, h, n) + 1);
        let density = opaque * 100 / (if area > 1 {
            area
        } else {
            1
        });
        let colors = opaque_colors(px, n).len() as int;
        let color_bonus = (if colors < 16 {
            colors
        } else {
            16
        }) * 8;
        let largest = max_component_upto(opacity_mask(px, n), w, h, n);
        let component_penalty = (if opaque > largest {
            opaque - largest
        } else {
            0
        }) * 3;
        let fullness_penalty = if area > n * 3 / 4 {
            area / 3
        } else {
            0
        };
        opaque + density + color_bonus + largest * 2 - component_penalty - area / 8
            - fullness_penalty
    }
}

/// A bound attained by some blob and above every blob is the largest blob
/// size.
proof fn lemma_max_component(mask: Seq<bool>, w: int, h: int, best: int)
    requires
        w >= 0,
        h >= 0,
        forall|i: int| is_opaque(mask, w, h, i) ==> #[trigger] component(mask, w, h, i).len() <= best,
        best == 0 || exists|i: int|
            is_opaque(mask, w, h, i) && #[trigger] component(mask, w, h, i).len() == best,
    ensures
        max_component_upto(mask, w, h, w * h) == best,
{
    assert(0 <= w * h) by (nonlinear_arith)
        requires
            w >= 0,
            h >= 0,
    ;
    lemma_max_component_upto(mask, w, h, best, w * h);
    if best != 0 {
        let i = choose|i: int| is_opaque(mask, w, h, i) && #[trigger] component(mask, w, h, i).len() == best;
        lemma_max_component_reaches(mask, w, h, i, w * h);
    }
}

proof fn lemma_max_component_upto(mask: Seq<bool>, w: int, h: int, best: int, k: int)
    requires
        forall|i: int| is_opaque(mask, w, h, i) ==> #[trigger] component(mask, w, h, i).len() <= best,
        best >= 0,
    ensures
        0 <= max_component_upto(mask, w, h, k) <= best,
    decreases k,
{
    if k > 0 {
        lemma_max_component_upto(mask, w, h, best, k - 1);
        if is_opaque(mask, w, h, k - 1) {
            assert(component(mask, w, h, k - 1).len() <= best);
        }
    }
}

proof fn lemma_max_component_reaches(mask: Seq<bool>, w: int, h: int, i: int, k: int)
    requires
        is_opaque(mask, w, h, i),
        i < k,
    ensures
        max_component_upto(mask, w, h, k) >= component(mask, w, h, i).len(),
    decreases k,
{
    if k - 1 > i {
        lemma_max_component_reaches(mask, w, h, i, k - 1);
    }
}

/// Pixel `i` lies in the box of columns `x0..=x1` and rows `y0..=y1`.
pub open spec fn in_box(w: int, i: int, x0: int, x1: int, y0: int, y1: int) -> bool {
    x0 <= i % w <= x1 && y0 <= i / w <= y1
}

/// Pixels among the first `k` that lie in the box.
pub open spec fn box_count(w: int, k: int, x0: int, x1: int, y0: int, y1: int) -> int
    decreases k,
{
    if k <= 0 {
        0
    } else {
        box_count(w, k - 1, x0, x1, y0, y1) + if in_box(w, k - 1, x0, x1, y0, y1) {
            1int
        } else {
            0
        }
    }
}

/// How many of `lo..=hi` are below `a`.
spec fn below(a: int, lo: int, hi: int) -> int {
    if a <= lo {
        0
    } else if a > hi + 1 {
        hi - lo + 1
    } else {
        a - lo
    }
}

proof fn lemma_box_count_rows(w: int, h: int, x0: int, x1: int, y0: int, y1: int, k: int)
    requires
        0 <= x0 <= x1 < w,
        0 <= y0 <= y1 < h,
        0 <= k,
    ensures
        box_count(w, k, x0, x1, y0, y1) == below(k / w, y0, y1) * (x1 - x0 + 1) + if y0 <= k / w
            <= y1 {
            below(k % w, x0, x1)
        } else {
            0
        },
    decreases k,
{
    if k > 0 {
        let j = k - 1;
        lemma_box_count_rows(w, h, x0, x1, y0, y1, j);
        lemma_fundamental_div_mod(j, w);
        let x = j % w;
        let y = j / w;
        let bw = x1 - x0 + 1;
        assert(j == y * w + x) by (nonlinear_arith)
            requires
                j == w * (j / w) + j % w,
                x == j % w,
                y == j / w,
        ;
        if x + 1 < w {
            lemma_fundamental_div_mod_converse(k, w, y, x + 1);
        } else {
            assert(k == (y + 1) * w + 0) by (nonlinear_arith)
                requires
                    k == j + 1,
                    j == y * w + x,
                    x + 1 == w,
            ;
            lemma_fundamental_div_mod_converse(k, w, y + 1, 0);
            assert(below(y + 1, y0, y1) * bw == below(y, y0, y1) * bw + (if y0 <= y <= y1 {
                bw
            } else {
                0
            })) by (nonlinear_arith)
                requires
                    below(y + 1, y0, y1) == below(y, y0, y1) + (if y0 <= y <= y1 {
                        1int
                    } else {
                        0
                    }),
            ;
        }
    }
}

/// Every opaque pixel lies in the bounding box the scan computes.
proof fn lemma_opaque_in_box(px: Seq<[u8; 4]>, w: int, h: int, k: int, i: int)
    requires
        0 <= i < k,
        opaque_px(px, i),
    ensures
        in_box(
            w,
            i,
            opaque_min_x(px, w, k),
            opaque_max_x(px, w, k),
            opaque_min_y(px, w, h, k),
            opaque_max_y(px, w, k),
        ),
    decreases k,
{
    if i < k - 1 {
        lemma_opaque_in_box(px, w, h, k - 1, i);
    }
}

proof fn lemma_count_in_box(px: Seq<[u8; 4]>, w: int, k: int, x0: int, x1: int, y0: int, y1: int)
    requires
        forall|i: int| 0 <= i < k && opaque_px(px, i) ==> in_box(w, i, x0, x1, y0, y1),
    ensures
        opaque_count(px, k) <= box_count(w, k, x0, x1, y0, y1),
    decreases k,
{
    if k > 0 {
        lemma_count_in_box(px, w, k - 1, x0, x1, y0, y1);
    }
}

proof fn lemma_opaque_count_grows(px: Seq<[u8; 4]>, k: int, n: int)
    requires
        0 <= k <= n,
    ensures
        opaque_count(px, k) <= opaque_count(px, n),
    decreases n - k,
{
    if k < n {
        lemma_opaque_count_grows(px, k, n - 1);
    }
}

/// Score a rendered sprite preview (see `preview_score`).
pub fn score_sprite_preview(image: &ColorImage) -> (score: i32)
    requires
        image.pixels@.len() == image.size@[0] * image.size@[1],
        image.size@[0] * image.size@[1] * 3 <= i32::MAX,
        opaque_count(image.pixels@, image.size@[0] * image.size@[1]) * 100 <= i32::MAX,
    ensures
        score == preview_score(*image),
{
    let w = image.size[0];
    let h = image.size[1];
    let n: usize = w * h;
    let ghost px = image.pixels@;
    let ghost wi = w as int;
    let ghost hi = h as int;
    let mut min_x: usize = w;
    let mut min_y: usize = h;
    let mut max_x: usize = 0;
    let mut max_y: usize = 0;
    let mut opaque: i32 = 0;
    let mut distinct: BTreeSet<u32> = BTreeSet::new();
    let mut mask: Vec<bool> = Vec::new();
    let mut k: usize = 0;
    while k < n
        invariant
            n == w * h,
            n * 3 <= i32::MAX,
            opaque_count(px, n as int) * 100 <= i32::MAX,
            px == image.pixels@,
            px.len() == n,
            wi == w,
            hi == h,
            k <= n,
            mask@ == opacity_mask(px, k as int),
            opaque == opaque_count(px, k as int),
            0 <= opaque <= k,
            min_x == opaque_min_x(px, wi, k as int),
            min_y == opaque_min_y(px, wi, hi, k as int),
            max_x == opaque_max_x(px, wi, k as int),
            max_y == opaque_max_y(px, wi, k as int),
            distinct@ == opaque_colors(px, k as int),
            min_x <= w,
            min_y <= h,
            k > 0 ==> max_x < w && max_y < h,
            opaque > 0 ==> min_x <= max_x && min_y <= max_y,
        decreases n - k,
    {
        proof {
            lemma_index_cell(wi, hi, k as int);
        }
        let x = k % w;
        let y = k / w;
        let p = image.pixels[k];
        let ghost before = distinct@;
        proof {
            lemma_opaque_count_grows(px, k as int + 1, n as int);
        }
        if p[3] == 0 {
            mask.push(false);
        } else {
            opaque += 1;
            mask.push(true);
            if x < min_x {
                min_x = x;
            }
            if y < min_y {
                min_y = y;
            }
            if x > max_x {
                max_x = x;
            }
            if y > max_y {
                max_y = y;
            }
            let key: u32 = (p[0] as u32) * 65536 + (p[1] as u32) * 256 + (p[2] as u32);
            distinct.insert(key);
        }
        proof {
            assert(mask@ =~= opacity_mask(px, k as int + 1));
            assert forall|c: u32| #[trigger] distinct@.contains(c) == opaque_colors(px, k as int + 1).contains(c) by {
                if opaque_colors(px, k as int + 1).contains(c) {
                    let i = choose|i: int| 0 <= i < k + 1 && opaque_px(px, i) && #[trigger] rgb_key(px[i]) == c;
                    if i < k {
                        assert(opaque_colors(px, k as int).contains(c));
                    }
                }
                if before.contains(c) {
                    let i = choose|i: int| 0 <= i < k && opaque_px(px, i) && #[trigger] rgb_key(px[i]) == c;
                    assert(opaque_colors(px, k as int + 1).contains(c));
                }
                if opaque_px(px, k as int) && c == rgb_key(px[k as int]) {
                    assert(opaque_colors(px, k as int + 1).contains(c));
                }
            }
            assert(distinct@ =~= opaque_colors(px, k as int + 1));
        }
        k += 1;
    }
    if opaque == 0 {
        return -10_000;
    }
    assert((max_x - min_x + 1) * (max_y - min_y + 1) <= w * h) by (nonlinear_arith)
        requires
            min_x <= max_x < w,
            min_y <= max_y < h,
    ;
    assert(opaque <= n);
    proof {
        assert forall|i: int| 0 <= i < n && opaque_px(px, i) implies in_box(
            wi,
            i,
            min_x as int,
            max_x as int,
            min_y as int,
            max_y as int,
        ) by {
            lemma_opaque_in_box(px, wi, hi, n as int, i);
        }
        lemma_count_in_box(px, wi, n as int, min_x as int, max_x as int, min_y as int, max_y as int);
        lemma_box_count_rows(wi, hi, min_x as int, max_x as int, min_y as int, max_y as int, n as int);
        lemma_fundamental_div_mod_converse(n as int, wi, hi, 0);
        let bw = max_x - min_x + 1;
        let bh = max_y - min_y + 1;
        assert(below((n as int) / wi, min_y as int, max_y as int) == bh);
        assert(box_count(wi, n as int, min_x as int, max_x as int, min_y as int, max_y as int) == bh
            * bw);
        assert(bh * bw == bw * bh) by (nonlinear_arith);
        assert(opaque <= (max_x - min_x + 1) * (max_y - min_y + 1));
    }
    let area_u: usize = (max_x - min_x + 1) * (max_y - min_y + 1);
    let area: i32 = area_u as i32;
    let divisor: i32 = if area > 1 { area } else { 1 };
    assert((opaque as int) * 100 / (divisor as int) <= 100) by (nonlinear_arith)
        requires
            divisor >= 1,
            0 < opaque <= divisor,
    ;
    let density: i32 = opaque * 100 / divisor;
    let n_colors: usize = distinct.len();
    let color_bonus: i32 = (if n_colors < 16 { n_colors as i32 } else { 16 }) * 8;
    let largest_u = largest_opaque_component(mask.as_slice(), w, h);
    proof {
        lemma_max_component(mask@, wi, hi, largest_u as int);
    }
    let largest: i32 = largest_u as i32;
    let component_penalty: i32 = (if opaque > largest { opaque - largest } else { 0 }) * 3;
    let fullness_penalty: i32 = if area > (n as i32) * 3 / 4 { area / 3 } else { 0 };
    opaque + density + color_bonus + largest * 2 - component_penalty - area / 8 - fullness_penalty
}


/// A pixel as an `(r, g, b, a)` tuple.
pub open spec fn rgba(p: [u8; 4]) -> (u8, u8, u8, u8) {
    (p@[0], p@[1], p@[2], p@[3])
}

/// Pixel `(x, y)` of the placeholder shown when a sprite renders empty: a
/// 2-pixel gold border, grey diagonals, and a dark checkerboard of 6x6
/// squares.
pub open spec fn fallback_pixel(size: int, x: int, y: int) -> (u8, u8, u8, u8) {
    if x < 2 || y < 2 || x >= size - 2 || y >= size - 2 {
        (220, 170, 40, 255)
    } else if x == y || x + y == size - 1 {
        (120, 120, 120, 255)
    } else if ((x / 6) + (y / 6)) % 2 == 0 {
        (52, 52, 52, 255)
    } else {
        (82, 82, 82, 255)
    }
}

/// The `size` x `size` placeholder image for a sprite preview.
pub fn sprite_preview_fallback_image(size: usize) -> (img: ColorImage)
    requires
        size >= 2,
        size * size <= usize::MAX,
    ensures
        img.size@ == seq![size, size],
        img.pixels@.len() == size * size,
        forall|i: int|
            0 <= i < size * size ==> rgba(#[trigger] img.pixels@[i]) == fallback_pixel(
                size as int,
                i % (size as int),
                i / (size as int),
            ),
{
    let n = size * size;
    assert(size + size <= n) by (nonlinear_arith)
        requires
            size >= 2,
            n == size * size,
    ;
    let mut pixels: Vec<[u8; 4]> = Vec::new();
    let mut i: usize = 0;
    while i < n
        invariant
            n == size * size,
            size >= 2,
            size + size <= n,
            i <= n,
            pixels@.len() == i,
            forall|k: int|
                0 <= k < i ==> rgba(#[trigger] pixels@[k]) == fallback_pixel(
                    size as int,
                    k % (size as int),
                    k / (size as int),
                ),
        decreases n - i,
    {
        let x = i % size;
        let y = i / size;
        let border = x < 2 || y < 2 || x >= size - 2 || y >= size - 2;
        assert(x < size && y < size) by {
            assert(y < size) by (nonlinear_arith)
                requires
                    y == i / size,
                    i < size * size,
                    size >= 2,
            ;
        }
        let accent = x == y || x + 1 + y == size;
        let shade: [u8; 4] = if border {
            [220, 170, 40, 255]
        } else if accent {
            [120, 120, 120, 255]
        } else if ((x / 6) + (y / 6)) % 2 == 0 {
            [52, 52, 52, 255]
        } else {
            [82, 82, 82, 255]
        };
        pixels.push(shade);
        i += 1;
    }
    let size_arr = [size, size];
    assert(size_arr@ =~= seq![size, size]);
    ColorImage { size: size_arr, pixels }
}


/// Side in pixels of the sprite preview image.
pub const PREVIEW_SIZE: usize = 48;

/// One hardware sprite tile of a sprite's OAM image: its offset from the
/// sprite's position, its OAM tile word, and whether it is 16x16.
#[derive(Clone, Copy, Debug, PartialEq, Eq, Structural)]
pub struct SpriteOamTile {
    pub dx: i32,
    pub dy: i32,
    pub tile_word: u16,
    pub is_16x16: bool,
}

/// The tile offsets are small enough for the preview's arithmetic.
pub open spec fn offsets_fit(tiles: Seq<SpriteOamTile>) -> bool {
    forall|i: int|
        0 <= i < tiles.len() ==> -0x8000 <= #[trigger] tiles[i].dx < 0x8000 && -0x8000 <= tiles[i].dy
            < 0x8000
}

/// Size in pixels of an OAM tile.
pub open spec fn oam_size(t: SpriteOamTile) -> int {
    if t.is_16x16 {
        16
    } else {
        8
    }
}

/// Bounding box `(min_x, min_y, max_x, max_y)` of the first `k` tiles,
/// starting from the empty box `(i32::MAX, i32::MAX, i32::MIN, i32::MIN)`.
pub open spec fn oam_bounds(tiles: Seq<SpriteOamTile>, k: int) -> (int, int, int, int)
    decreases k,
{
    if k <= 0 {
        (i32::MAX as int, i32::MAX as int, i32::MIN as int, i32::MIN as int)
    } else {
        let (a, b, c, d) = oam_bounds(tiles, k - 1);
        let t = tiles[k - 1];
        (
            if t.dx < a {
                t.dx as int
            } else {
                a
            },
            if t.dy < b {
                t.dy as int
            } else {
                b
            },
            if t.dx + oam_size(t) > c {
                t.dx + oam_size(t)
            } else {
                c
            },
            if t.dy + oam_size(t) > d {
                t.dy + oam_size(t)
            } else {
                d
            },
        )
    }
}

/// Where the preview puts the sprite's origin so that its bounding box is
/// centred (left/top aligned when it is wider than the image).
pub open spec fn preview_origin(lo: int, hi: int) -> int {
    let extent = if hi - lo > 1 {
        hi - lo
    } else {
        1
    };
    (if extent < PREVIEW_SIZE {
        PREVIEW_SIZE - extent
    } else {
        0
    }) / 2 - lo
}

/// The pixel bounding box `(min_x, min_y, max_x, max_y)` of a sprite's OAM
/// tiles relative to its position (max exclusive), or `None` when it has
/// no tiles.
pub fn sprite_pixel_bounds(tiles: &Vec<SpriteOamTile>) -> (bounds: Option<(i32, i32, i32, i32)>)
    requires
        forall|i: int|
            0 <= i < tiles@.len() ==> (#[trigger] tiles@[i]).dx + oam_size(tiles@[i]) <= i32::MAX
                && tiles@[i].dy + oam_size(tiles@[i]) <= i32::MAX,
    ensures
        tiles@.len() == 0 ==> bounds is None,
        tiles@.len() > 0 ==> (bounds matches Some((a, b, c, d)) && (a as int, b as int, c as int, d as int)
            == oam_bounds(tiles@, tiles@.len() as int)),
{
    let n = tiles.len();
    if n == 0 {
        return None;
    }
    let mut min_x: i32 = i32::MAX;
    let mut min_y: i32 = i32::MAX;
    let mut max_x: i32 = i32::MIN;
    let mut max_y: i32 = i32::MIN;
    let mut k: usize = 0;
    while k < n
        invariant
            n == tiles@.len(),
            forall|i: int|
                0 <= i < tiles@.len() ==> (#[trigger] tiles@[i]).dx + oam_size(tiles@[i]) <= i32::MAX
                    && tiles@[i].dy + oam_size(tiles@[i]) <= i32::MAX,
            k <= n,
            oam_bounds(tiles@, k as int) == (min_x as int, min_y as int, max_x as int, max_y as int),
        decreases n - k,
    {
        let t = tiles[k];
        assert(t.dx + oam_size(t) <= i32::MAX && t.dy + oam_size(t) <= i32::MAX);
        let size: i32 = if t.is_16x16 { 16 } else { 8 };
        if t.dx < min_x {
            min_x = t.dx;
        }
        if t.dy < min_y {
            min_y = t.dy;
        }
        if t.dx + size > max_x {
            max_x = t.dx + size;
        }
        if t.dy + size > max_y {
            max_y = t.dy + size;
        }
        k += 1;
    }
    Some((min_x, min_y, max_x, max_y))
}

/// The 8x8 hardware tiles `(OAM word, x, y)` that draw OAM tile `t` with the
/// sprite's origin at `(ox, oy)`: a 16x16 tile is the four tiles at word
/// offsets 0, 1, 16 and 17, laid out according to its flips.
pub open spec fn oam_sub_tiles(t: SpriteOamTile, ox: int, oy: int) -> Seq<(u16, int, int)> {
    let x = ox + t.dx;
    let y = oy + t.dy;
    let w = t.tile_word;
    if t.is_16x16 {
        let (xn, xf) = if w & 0x4000 == 0 {
            (0int, 8int)
        } else {
            (8, 0)
        };
        let (yn, yf) = if w & 0x8000 == 0 {
            (0int, 8int)
        } else {
            (8, 0)
        };
        let attr = w & 0xFE00;
        let base = w & 0x1FF;
        seq![
            ((attr | (base & 0x1FF)) as u16, x + xn, y + yn),
            ((attr | ((base + 1) as u16 & 0x1FF)) as u16, x + xf, y + yn),
            ((attr | ((base + 16) as u16 & 0x1FF)) as u16, x + xn, y + yf),
            ((attr | ((base + 17) as u16 & 0x1FF)) as u16, x + xf, y + yf),
        ]
    } else {
        seq![(w, x, y)]
    }
}

/// All hardware tiles of the first `k` OAM tiles, in order.
pub open spec fn preview_draws(tiles: Seq<SpriteOamTile>, ox: int, oy: int, k: int) -> Seq<(u16, int, int)>
    decreases k,
{
    if k <= 0 {
        seq![]
    } else {
        preview_draws(tiles, ox, oy, k - 1) + oam_sub_tiles(tiles[k - 1], ox, oy)
    }
}

/// The preview's RGBA bytes after drawing the first `k` hardware tiles of
/// `draws` onto `pixels`.
pub open spec fn preview_drawn(vram: Seq<u8>, cgram: Seq<u8>, draws: Seq<(u16, int, int)>, pixels: Seq<u8>, k: int) -> Seq<u8>
    decreases k,
{
    if k <= 0 {
        pixels
    } else {
        let (w, x, y) = draws[k - 1];
        tile_drawn(
            vram,
            cgram,
            sprite_word_placement(w, x, y, PREVIEW_SIZE),
            preview_drawn(vram, cgram, draws, pixels, k - 1),
            64,
        )
    }
}

proof fn lemma_preview_drawn_len(vram: Seq<u8>, cgram: Seq<u8>, draws: Seq<(u16, int, int)>, pixels: Seq<u8>, k: int)
    ensures
        preview_drawn(vram, cgram, draws, pixels, k).len() == pixels.len(),
    decreases k,
{
    if k > 0 {
        lemma_preview_drawn_len(vram, cgram, draws, pixels, k - 1);
        let (w, x, y) = draws[k - 1];
        lemma_tile_drawn_len(
            vram,
            cgram,
            sprite_word_placement(w, x, y, PREVIEW_SIZE),
            preview_drawn(vram, cgram, draws, pixels, k - 1),
            64,
        );
    }
}

/// The image whose pixel `i` is bytes `4 * i .. 4 * i + 4` of `bytes`.
pub open spec fn image_of_bytes(size: usize, bytes: Seq<u8>) -> Seq<(u8, u8, u8, u8)> {
    Seq::new(
        (size * size) as nat,
        |i: int| (bytes[4 * i], bytes[4 * i + 1], bytes[4 * i + 2], bytes[4 * i + 3]),
    )
}

/// What the sprite preview shows: the drawn sprite, or the placeholder when
/// there are no tiles or nothing opaque was drawn.
pub open spec fn sprite_preview_pixels(vram: Seq<u8>, cgram: Seq<u8>, tiles: Seq<SpriteOamTile>) -> Seq<(u8, u8, u8, u8)> {
    let fallback = Seq::new(
        (PREVIEW_SIZE * PREVIEW_SIZE) as nat,
        |i: int| fallback_pixel(PREVIEW_SIZE as int, i % (PREVIEW_SIZE as int), i / (PREVIEW_SIZE as int)),
    );
    if tiles.len() == 0 {
        fallback
    } else {
        let (a, b, c, d) = oam_bounds(tiles, tiles.len() as int);
        let draws = preview_draws(tiles, preview_origin(a, c), preview_origin(b, d), tiles.len() as int);
        let bytes = preview_drawn(
            vram,
            cgram,
            draws,
            Seq::new((PREVIEW_SIZE * PREVIEW_SIZE * 4) as nat, |i: int| 0u8),
            draws.len() as int,
        );
        if forall|i: int| 0 <= i < PREVIEW_SIZE * PREVIEW_SIZE ==> #[trigger] bytes[4 * i + 3] == 0 {
            fallback
        } else {
            image_of_bytes(PREVIEW_SIZE, bytes)
        }
    }
}

fn push_oam_sub_tiles(draws: &mut Vec<(u16, i32, i32)>, t: SpriteOamTile, ox: i32, oy: i32)
    requires
        -0x8000 <= t.dx < 0x8000,
        -0x8000 <= t.dy < 0x8000,
        -0x10000 <= ox <= 0x10000,
        -0x10000 <= oy <= 0x10000,
    ensures
        final(draws)@.map_values(|d: (u16, i32, i32)| (d.0, d.1 as int, d.2 as int)) == old(draws)@.map_values(
            |d: (u16, i32, i32)| (d.0, d.1 as int, d.2 as int),
        ) + oam_sub_tiles(t, ox as int, oy as int),
        final(draws)@.len() >= old(draws)@.len(),
        forall|j: int| 0 <= j < old(draws)@.len() ==> final(draws)@[j] == old(draws)@[j],
        forall|j: int|
            old(draws)@.len() <= j < final(draws)@.len() ==> -0x20000 <= (#[trigger] final(draws)@[j]).1
                <= 0x20000 && -0x20000 <= final(draws)@[j].2 <= 0x20000,
{
    let ghost before = draws@;
    let x = ox + t.dx;
    let y = oy + t.dy;
    let w = t.tile_word;
    if t.is_16x16 {
        let (xn, xf): (i32, i32) = if w & 0x4000 == 0 { (0, 8) } else { (8, 0) };
        let (yn, yf): (i32, i32) = if w & 0x8000 == 0 { (0, 8) } else { (8, 0) };
        let attr = w & 0xFE00;
        let base = w & 0x1FF;
        assert(base <= 0x1FF) by (bit_vector)
            requires
                base == w & 0x1FF,
        ;
        draws.push((attr | (base & 0x1FF), x + xn, y + yn));
        draws.push((attr | ((base + 1) & 0x1FF), x + xf, y + yn));
        draws.push((attr | ((base + 16) & 0x1FF), x + xn, y + yf));
        draws.push((attr | ((base + 17) & 0x1FF), x + xf, y + yf));
    } else {
        draws.push((w, x, y));
    }
    proof {
        assert(draws@.map_values(|d: (u16, i32, i32)| (d.0, d.1 as int, d.2 as int)) =~= before.map_values(
            |d: (u16, i32, i32)| (d.0, d.1 as int, d.2 as int),
        ) + oam_sub_tiles(t, ox as int, oy as int));
    }
}

/// Render the preview of a sprite from its OAM tiles, centred in a 48x48
/// image; the placeholder image when it has no tiles or draws nothing
/// opaque.
#[verifier::spinoff_prover]
pub fn render_sprite_preview_image(sprite_tiles: &Vec<SpriteOamTile>, vram: &[u8], cgram: &[u8]) -> (img: ColorImage)
    requires
        offsets_fit(sprite_tiles@),
    ensures
        img.size@ == seq![PREVIEW_SIZE, PREVIEW_SIZE],
        img.pixels@.map_values(|p: [u8; 4]| rgba(p)) == sprite_preview_pixels(vram@, cgram@, sprite_tiles@),
{
    if sprite_tiles.len() == 0 {
        let img = sprite_preview_fallback_image(PREVIEW_SIZE);
        assert(img.pixels@.map_values(|p: [u8; 4]| rgba(p)) =~= sprite_preview_pixels(vram@, cgram@, sprite_tiles@));
        return img;
    }
    let n = sprite_tiles.len();
    let mut min_x: i32 = i32::MAX;
    let mut min_y: i32 = i32::MAX;
    let mut max_x: i32 = i32::MIN;
    let mut max_y: i32 = i32::MIN;
    let mut k: usize = 0;
    while k < n
        invariant
            n == sprite_tiles@.len(),
            offsets_fit(sprite_tiles@),
            k <= n,
            oam_bounds(sprite_tiles@, k as int) == (min_x as int, min_y as int, max_x as int, max_y as int),
            k > 0 ==> -0x8000 <= min_x < 0x8000 && -0x8000 <= min_y < 0x8000 && -0x8000 <= max_x <= 0x8010
                && -0x8000 <= max_y <= 0x8010,
        decreases n - k,
    {
        let t = sprite_tiles[k];
        assert(-0x8000 <= t.dx < 0x8000 && -0x8000 <= t.dy < 0x8000);
        let size: i32 = if t.is_16x16 { 16 } else { 8 };
        if t.dx < min_x {
            min_x = t.dx;
        }
        if t.dy < min_y {
            min_y = t.dy;
        }
        if t.dx + size > max_x {
            max_x = t.dx + size;
        }
        if t.dy + size > max_y {
            max_y = t.dy + size;
        }
        k += 1;
    }
    let w_extent: i32 = if max_x - min_x > 1 { max_x - min_x } else { 1 };
    let h_extent: i32 = if max_y - min_y > 1 { max_y - min_y } else { 1 };
    let free_w: usize = if (w_extent as usize) < PREVIEW_SIZE { PREVIEW_SIZE - w_extent as usize } else { 0 };
    let free_h: usize = if (h_extent as usize) < PREVIEW_SIZE { PREVIEW_SIZE - h_extent as usize } else { 0 };
    let origin_x: i32 = (free_w / 2) as i32 - min_x;
    let origin_y: i32 = (free_h / 2) as i32 - min_y;
    assert(origin_x == preview_origin(min_x as int, max_x as int));
    assert(origin_y == preview_origin(min_y as int, max_y as int));
    let ghost draws_spec = preview_draws(sprite_tiles@, origin_x as int, origin_y as int, n as int);
    let mut draws: Vec<(u16, i32, i32)> = Vec::new();
    let mut k: usize = 0;
    while k < n
        invariant
            n == sprite_tiles@.len(),
            offsets_fit(sprite_tiles@),
            -0x10000 <= origin_x <= 0x10000,
            -0x10000 <= origin_y <= 0x10000,
            k <= n,
            forall|j: int|
                0 <= j < draws@.len() ==> -0x20000 <= (#[trigger] draws@[j]).1 <= 0x20000 && -0x20000
                    <= draws@[j].2 <= 0x20000,
            draws@.map_values(|d: (u16, i32, i32)| (d.0, d.1 as int, d.2 as int)) == preview_draws(
                sprite_tiles@,
                origin_x as int,
                origin_y as int,
                k as int,
            ),
        decreases n - k,
    {
        let t = sprite_tiles[k];
        assert(-0x8000 <= t.dx < 0x8000 && -0x8000 <= t.dy < 0x8000);
        push_oam_sub_tiles(&mut draws, t, origin_x, origin_y);
        k += 1;
    }
    let mut pixels: Vec<u8> = Vec::new();
    let total = PREVIEW_SIZE * PREVIEW_SIZE * 4;
    let mut z: usize = 0;
    while z < total
        invariant
            total == PREVIEW_SIZE * PREVIEW_SIZE * 4,
            z <= total,
            pixels@.len() == z,
            forall|j: int| 0 <= j < z ==> pixels@[j] == 0,
        decreases total - z,
    {
        pixels.push(0);
        z += 1;
    }
    let ghost blank = pixels@;
    assert(blank =~= Seq::new((PREVIEW_SIZE * PREVIEW_SIZE * 4) as nat, |i: int| 0u8));
    let mut d: usize = 0;
    while d < draws.len()
        invariant
            d <= draws@.len(),
            forall|j: int|
                0 <= j < draws@.len() ==> -0x20000 <= (#[trigger] draws@[j]).1 <= 0x20000 && -0x20000
                    <= draws@[j].2 <= 0x20000,
            pixels@ == preview_drawn(
                vram@,
                cgram@,
                draws@.map_values(|e: (u16, i32, i32)| (e.0, e.1 as int, e.2 as int)),
                blank,
                d as int,
            ),
            blank.len() == PREVIEW_SIZE * PREVIEW_SIZE * 4,
            pixels@.len() == blank.len(),
        decreases draws@.len() - d,
    {
        let (w, x, y) = draws[d];
        assert(-0x20000 <= x <= 0x20000 && -0x20000 <= y <= 0x20000);
        assert(((y + 7) * 48 + x + 7) * 4 + 3 <= 0x10000000) by (nonlinear_arith)
            requires
                -0x20000 <= x <= 0x20000,
                -0x20000 <= y <= 0x20000,
        ;
        render_signed_sprite_sub_tile(vram, cgram, w, x, y, &mut pixels, PREVIEW_SIZE);
        proof {
            let dv = draws@.map_values(|e: (u16, i32, i32)| (e.0, e.1 as int, e.2 as int));
            assert(dv[d as int] == (w, x as int, y as int));
            lemma_preview_drawn_len(vram@, cgram@, dv, blank, d as int + 1);
        }
        d += 1;
    }
    let ghost bytes = pixels@;
    assert(draws@.map_values(|e: (u16, i32, i32)| (e.0, e.1 as int, e.2 as int)) == draws_spec);
    let count = PREVIEW_SIZE * PREVIEW_SIZE;
    let mut any_opaque = false;
    let mut i: usize = 0;
    while i < count
        invariant
            count == PREVIEW_SIZE * PREVIEW_SIZE,
            pixels@.len() == 4 * count,
            i <= count,
            any_opaque == exists|j: int| 0 <= j < i && #[trigger] pixels@[4 * j + 3] != 0,
        decreases count - i,
    {
        if pixels[4 * i + 3] != 0 {
            any_opaque = true;
        }
        proof {
            if pixels@[4 * i + 3] != 0 {
                assert(exists|j: int| 0 <= j < i + 1 && #[trigger] pixels@[4 * j + 3] != 0);
            }
        }
        i += 1;
    }
    if !any_opaque {
        let img = sprite_preview_fallback_image(PREVIEW_SIZE);
        assert(img.pixels@.map_values(|p: [u8; 4]| rgba(p)) =~= sprite_preview_pixels(vram@, cgram@, sprite_tiles@));
        return img;
    }
    let mut out: Vec<[u8; 4]> = Vec::new();
    let mut i: usize = 0;
    while i < count
        invariant
            count == PREVIEW_SIZE * PREVIEW_SIZE,
            pixels@.len() == 4 * count,
            i <= count,
            out@.len() == i,
            forall|j: int|
                0 <= j < i ==> rgba(#[trigger] out@[j]) == (pixels@[4 * j], pixels@[4 * j + 1], pixels@[4
                    * j + 2], pixels@[4 * j + 3]),
        decreases count - i,
    {
        out.push([pixels[4 * i], pixels[4 * i + 1], pixels[4 * i + 2], pixels[4 * i + 3]]);
        i += 1;
    }
    let size_arr = [PREVIEW_SIZE, PREVIEW_SIZE];
    assert(size_arr@ =~= seq![PREVIEW_SIZE, PREVIEW_SIZE]);
    let img = ColorImage { size: size_arr, pixels: out };
    assert(img.pixels@.map_values(|p: [u8; 4]| rgba(p)) =~= sprite_preview_pixels(vram@, cgram@, sprite_tiles@));
    img
}

} // verus!
