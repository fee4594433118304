//! The per-window surface tree, as the registry sees it.
//!
//! The surface-tree backend owns each client surface; the registry only reads
//! the state the backend caches per surface: the attached buffer's size (if
//! the surface is mapped), the subsurface offset (if the surface has the
//! subsurface role), the configured input region, and the children. A
//! [`SurfaceNode`] holds exactly that state as plain values.
//!
//! Two walks read the tree. The bounding-box walk grows a box with every
//! mapped surface's extent, skipping the subtree under an unmapped surface
//! (an unmapped parent hides its children). The hit-test walk finds the first
//! surface, in depth-first pre-order, whose input region contains the query
//! point; pre-order is the tree order, not the stacking order among
//! overlapping subsurfaces, and this module keeps that order deliberately.

use crate::geometry::{
    extent_box, ibox_union, max_i64, min_i64, point_box, IBox, Point, Rect, Size, COORD_LIMIT,
    SPAN_LIMIT,
};
use vstd::prelude::*;

verus! {

/// One surface of a window's tree: the backend-cached state the registry
/// reads, and the subsurfaces below it.
#[derive(Debug)]
pub struct SurfaceNode {
    /// The surface's identity; handles compare by it.
    pub id: u64,
    /// Size of the attached visible content; `None` while unmapped.
    pub buffer: Option<Size>,
    /// The cached subsurface offset; `Some` exactly when the surface has the
    /// subsurface role.
    pub subsurface_offset: Option<Point>,
    /// The configured input region, in surface-local coordinates; `None`
    /// accepts input over the whole buffer.
    pub input_region: Option<Rect>,
    pub children: Vec<SurfaceNode>,
}

/// Number of surfaces in the tree rooted at `n`.
pub open spec fn node_count(n: SurfaceNode) -> nat
    decreases n,
{
    1 + count_seq(n.children@)
}

pub open spec fn count_seq(s: Seq<SurfaceNode>) -> nat
    decreases s,
{
    if s.len() == 0 {
        0
    } else {
        node_count(s[0]) + count_seq(s.drop_first())
    }
}

/// Every cached coordinate in the tree is within `COORD_LIMIT`.
pub open spec fn node_wf(n: SurfaceNode) -> bool
    decreases n,
{
    &&& match n.buffer {
        Some(s) => s.wf(),
        None => true,
    }
    &&& match n.subsurface_offset {
        Some(p) => p.wf(),
        None => true,
    }
    &&& match n.input_region {
        Some(r) => r.loc.wf() && r.size.wf(),
        None => true,
    }
    &&& seq_wf(n.children@)
}

pub open spec fn seq_wf(s: Seq<SurfaceNode>) -> bool
    decreases s,
{
    if s.len() == 0 {
        true
    } else {
        node_wf(s[0]) && seq_wf(s.drop_first())
    }
}

/// A tree the backend may hand out: well-formed and of bounded size.
pub open spec fn tree_wf(n: SurfaceNode) -> bool {
    node_wf(n) && node_count(n) <= COORD_LIMIT
}

pub proof fn lemma_seq_wf_element(s: Seq<SurfaceNode>, i: int)
    requires
        seq_wf(s),
        0 <= i < s.len(),
    ensures
        node_wf(s[i]),
    decreases s.len(),
{
    if i > 0 {
        assert(s.drop_first()[i - 1] == s[i]);
        lemma_seq_wf_element(s.drop_first(), i - 1);
    }
}

pub proof fn lemma_count_seq_element(s: Seq<SurfaceNode>, i: int)
    requires
        0 <= i < s.len(),
    ensures
        node_count(s[i]) <= count_seq(s),
    decreases s.len(),
{
    if i > 0 {
        assert(s.drop_first()[i - 1] == s[i]);
        lemma_count_seq_element(s.drop_first(), i - 1);
    }
}

/// The accumulated location of `n` when the walk reaches it with base `bx`:
/// the base plus the node's own subsurface offset, if any.
pub open spec fn node_loc_x(n: SurfaceNode, bx: int) -> int {
    bx + match n.subsurface_offset {
        Some(p) => p.x as int,
        None => 0,
    }
}

pub open spec fn node_loc_y(n: SurfaceNode, by: int) -> int {
    by + match n.subsurface_offset {
        Some(p) => p.y as int,
        None => 0,
    }
}

/// How far from the origin a walk base may be when it reaches a tree of
/// `node_count(n)` nodes without its accumulated location ever leaving
/// `SPAN_LIMIT`: each deeper node spends one `COORD_LIMIT` of the budget.
pub open spec fn walk_budget(n: SurfaceNode) -> int {
    COORD_LIMIT * (COORD_LIMIT + 1 - node_count(n) as int)
}

pub open spec fn base_ok(bx: int, by: int, n: SurfaceNode) -> bool {
    &&& node_count(n) <= COORD_LIMIT
    &&& -walk_budget(n) <= bx <= walk_budget(n)
    &&& -walk_budget(n) <= by <= walk_budget(n)
}

/// The bounding box the registry derives for a window: the union of `acc`
/// with the extent of every mapped surface of the tree, each placed at its
/// accumulated location; the whole subtree under an unmapped surface is
/// skipped.
pub open spec fn tree_box(n: SurfaceNode, bx: int, by: int, acc: IBox) -> IBox
    decreases n,
{
    match n.buffer {
        None => acc,
        Some(size) => {
            let lx = node_loc_x(n, bx);
            let ly = node_loc_y(n, by);
            tree_box_seq(
                n.children@,
                lx,
                ly,
                ibox_union(acc, extent_box(lx, ly, size.w as int, size.h as int)),
            )
        },
    }
}

pub open spec fn tree_box_seq(s: Seq<SurfaceNode>, bx: int, by: int, acc: IBox) -> IBox
    decreases s,
{
    if s.len() == 0 {
        acc
    } else {
        tree_box_seq(s.drop_first(), bx, by, tree_box(s[0], bx, by, acc))
    }
}

/// Whether the point `(qx, qy)`, in `n`'s local frame, hits `n`: the surface
/// is mapped, the point falls on its buffer, and the configured input region
/// (the whole buffer when none is configured) contains it.
pub open spec fn node_hit(n: SurfaceNode, qx: int, qy: int) -> bool {
    match n.buffer {
        None => false,
        Some(size) => {
            &&& 0 <= qx < size.w
            &&& 0 <= qy < size.h
            &&& match n.input_region {
                None => true,
                Some(r) => r.spec_contains(qx, qy),
            }
        },
    }
}

/// The first surface, in depth-first pre-order, that the point `(px, py)`
/// hits, together with that surface's accumulated location.
pub open spec fn tree_hit(n: SurfaceNode, bx: int, by: int, px: int, py: int) -> Option<
    (u64, (int, int)),
>
    decreases n,
{
    let lx = node_loc_x(n, bx);
    let ly = node_loc_y(n, by);
    if node_hit(n, px - lx, py - ly) {
        Some((n.id, (lx, ly)))
    } else {
        tree_hit_seq(n.children@, lx, ly, px, py)
    }
}

pub open spec fn tree_hit_seq(s: Seq<SurfaceNode>, bx: int, by: int, px: int, py: int) -> Option<
    (u64, (int, int)),
>
    decreases s,
{
    if s.len() == 0 {
        None
    } else if tree_hit(s[0], bx, by, px, py) is Some {
        tree_hit(s[0], bx, by, px, py)
    } else {
        tree_hit_seq(s.drop_first(), bx, by, px, py)
    }
}

/// All surface identities of the tree, in depth-first pre-order.
pub open spec fn tree_ids(n: SurfaceNode) -> Seq<u64>
    decreases n,
{
    seq![n.id] + tree_ids_seq(n.children@)
}

pub open spec fn tree_ids_seq(s: Seq<SurfaceNode>) -> Seq<u64>
    decreases s,
{
    if s.len() == 0 {
        Seq::empty()
    } else {
        tree_ids(s[0]) + tree_ids_seq(s.drop_first())
    }
}

/// How an executable hit result corresponds to the spec-level one.
pub open spec fn hit_matches(r: Option<(u64, Point)>, s: Option<(u64, (int, int))>) -> bool {
    match r {
        None => s is None,
        Some((id, p)) => s == Some((id, (p.x as int, p.y as int))),
    }
}

fn union_extent(acc: Rect, lx: i64, ly: i64, size: Size) -> (r: Rect)
    requires
        acc.wf(),
        size.wf(),
        -SPAN_LIMIT <= lx,
        lx + size.w <= SPAN_LIMIT,
        -SPAN_LIMIT <= ly,
        ly + size.h <= SPAN_LIMIT,
    ensures
        r.wf(),
        r.view_box() == ibox_union(acc.view_box(), extent_box(lx as int, ly as int, size.w as int, size.h as int)),
{
    let x0 = min_i64(acc.loc.x, lx);
    let y0 = min_i64(acc.loc.y, ly);
    let x1 = max_i64(acc.loc.x + acc.size.w, lx + size.w);
    let y1 = max_i64(acc.loc.y + acc.size.h, ly + size.h);
    Rect::from_corners(x0, y0, x1, y1)
}

/// The bounding-box walk over the tree rooted at `n`, reached with base
/// `(bx, by)`, folded into `acc`.
pub fn walk_box(n: &SurfaceNode, bx: i64, by: i64, acc: Rect) -> (r: Rect)
    requires
        node_wf(*n),
        base_ok(bx as int, by as int, *n),
        acc.wf(),
    ensures
        r.wf(),
        r.view_box() == tree_box(*n, bx as int, by as int, acc.view_box()),
    decreases node_count(*n),
{
    let size = match n.buffer {
        None => {
            return acc;
        },
        Some(size) => size,
    };
    let (lx, ly) = match n.subsurface_offset {
        Some(p) => (bx + p.x, by + p.y),
        None => (bx, by),
    };
    let mut acc2 = union_extent(acc, lx, ly, size);
    let ghost base = acc2.view_box();
    proof {
        assert(n.children@.skip(0) =~= n.children@);
    }
    let n_children = n.children.len();
    let mut i: usize = 0;
    while i < n_children
        invariant
            n_children == n.children@.len(),
            0 <= i <= n_children,
            node_wf(*n),
            base_ok(bx as int, by as int, *n),
            lx == node_loc_x(*n, bx as int),
            ly == node_loc_y(*n, by as int),
            acc2.wf(),
            tree_box_seq(n.children@.skip(i as int), lx as int, ly as int, acc2.view_box())
                == tree_box_seq(n.children@, lx as int, ly as int, base),
            tree_box(*n, bx as int, by as int, acc.view_box())
                == tree_box_seq(n.children@, lx as int, ly as int, base),
        decreases n_children - i,
    {
        proof {
            lemma_seq_wf_element(n.children@, i as int);
            lemma_count_seq_element(n.children@, i as int);
            assert(n.children@.skip(i as int)[0] == n.children@[i as int]);
            assert(n.children@.skip(i as int).drop_first() =~= n.children@.skip(i as int + 1));
        }
        acc2 = walk_box(&n.children[i], lx, ly, acc2);
        i = i + 1;
    }
    assert(n.children@.skip(n_children as int) =~= Seq::<SurfaceNode>::empty());
    acc2
}

/// The hit-test walk: the first surface, in depth-first pre-order, whose
/// input region contains `p`.
pub fn walk_hit(n: &SurfaceNode, bx: i64, by: i64, p: Point) -> (r: Option<(u64, Point)>)
    requires
        node_wf(*n),
        base_ok(bx as int, by as int, *n),
        p.in_span(),
    ensures
        hit_matches(r, tree_hit(*n, bx as int, by as int, p.x as int, p.y as int)),
    decreases node_count(*n),
{
    let (lx, ly) = match n.subsurface_offset {
        Some(off) => (bx + off.x, by + off.y),
        None => (bx, by),
    };
    let qx = p.x - lx;
    let qy = p.y - ly;
    let hit_here = match n.buffer {
        None => false,
        Some(size) => {
            let on_buffer = 0 <= qx && qx < size.w && 0 <= qy && qy < size.h;
            on_buffer && match &n.input_region {
                None => true,
                Some(region) => region.contains(Point { x: qx, y: qy }),
            }
        },
    };
    if hit_here {
        return Some((n.id, Point { x: lx, y: ly }));
    }
    proof {
        assert(n.children@.skip(0) =~= n.children@);
    }
    let n_children = n.children.len();
    let mut i: usize = 0;
    while i < n_children
        invariant
            n_children == n.children@.len(),
            0 <= i <= n_children,
            node_wf(*n),
            base_ok(bx as int, by as int, *n),
            p.in_span(),
            lx == node_loc_x(*n, bx as int),
            ly == node_loc_y(*n, by as int),
            !node_hit(*n, p.x - lx, p.y - ly),
            tree_hit_seq(n.children@.skip(i as int), lx as int, ly as int, p.x as int, p.y as int)
                == tree_hit_seq(n.children@, lx as int, ly as int, p.x as int, p.y as int),
        decreases n_children - i,
    {
        proof {
            lemma_seq_wf_element(n.children@, i as int);
            lemma_count_seq_element(n.children@, i as int);
            assert(n.children@.skip(i as int)[0] == n.children@[i as int]);
            assert(n.children@.skip(i as int).drop_first() =~= n.children@.skip(i as int + 1));
        }
        let found = walk_hit(&n.children[i], lx, ly, p);
        if found.is_some() {
            return found;
        }
        i = i + 1;
    }
    assert(n.children@.skip(n_children as int) =~= Seq::<SurfaceNode>::empty());
    None
}

/// The frame-notification walk: appends `(id, time)` to `log` for every
/// surface of the tree, in depth-first pre-order.
pub fn walk_frames(n: &SurfaceNode, time: u32, log: &mut Vec<(u64, u32)>)
    ensures
        final (log)@ == old(log)@ + tree_ids(*n).map_values(|id: u64| (id, time)),
    decreases node_count(*n),
{
    log.push((n.id, time));
    let ghost f = |id: u64| (id, time);
    assert(log@ =~= old(log)@ + (seq![n.id] + tree_ids_seq(n.children@.take(0))).map_values(f));
    let n_children = n.children.len();
    let mut i: usize = 0;
    while i < n_children
        invariant
            n_children == n.children@.len(),
            0 <= i <= n_children,
            f == (|id: u64| (id, time)),
            log@ == old(log)@ + (seq![n.id] + tree_ids_seq(n.children@.take(i as int))).map_values(
                f,
            ),
        decreases n_children - i,
    {
        proof {
            lemma_count_seq_element(n.children@, i as int);
        }
        walk_frames(&n.children[i], time, log);
        proof {
            lemma_tree_ids_seq_push(n.children@.take(i as int), n.children@[i as int]);
            assert(n.children@.take(i as int).push(n.children@[i as int]) =~= n.children@.take(
                i as int + 1,
            ));
            lemma_map_values_add(
                seq![n.id] + tree_ids_seq(n.children@.take(i as int)),
                tree_ids(n.children@[i as int]),
                f,
            );
            assert((seq![n.id] + tree_ids_seq(n.children@.take(i as int))) + tree_ids(
                n.children@[i as int],
            ) =~= seq![n.id] + tree_ids_seq(n.children@.take(i as int + 1)));
        }
        i = i + 1;
    }
    proof {
        assert(n.children@.take(n_children as int) =~= n.children@);
    }
}

pub proof fn lemma_tree_ids_seq_push(s: Seq<SurfaceNode>, x: SurfaceNode)
    ensures
        tree_ids_seq(s.push(x)) == tree_ids_seq(s) + tree_ids(x),
    decreases s.len(),
{
    if s.len() == 0 {
        assert(s.push(x)[0] == x);
        assert(s.push(x).drop_first() =~= Seq::<SurfaceNode>::empty());
        assert(tree_ids_seq(Seq::<SurfaceNode>::empty()) == Seq::<u64>::empty());
        assert(tree_ids_seq(s.push(x)) =~= tree_ids_seq(s) + tree_ids(x));
    } else {
        assert(s.push(x)[0] == s[0]);
        assert(s.push(x).drop_first() =~= s.drop_first().push(x));
        lemma_tree_ids_seq_push(s.drop_first(), x);
        assert(tree_ids_seq(s.push(x)) =~= tree_ids_seq(s) + tree_ids(x));
    }
}

pub proof fn lemma_map_values_add<A, B>(a: Seq<A>, b: Seq<A>, f: spec_fn(A) -> B)
    ensures
        (a + b).map_values(f) == a.map_values(f) + b.map_values(f),
{
    assert((a + b).map_values(f) =~= a.map_values(f) + b.map_values(f));
}

} // verus!
