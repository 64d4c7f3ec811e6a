use vstd::prelude::*;
use crate::strings::str_equals;

verus! {

/// One item of a shape layer's shape list, as far as it shapes the walk over it.
#[derive(Debug, Clone, Copy, PartialEq, Eq, Structural)]
pub enum ShapeItem {
    /// A path, rectangle, ellipse or polystar: adds one pending geometry.
    Geometry,
    /// Merge paths: folds the pending geometries into a single one.
    MergePaths,
    /// A fill, stroke, gradient fill or gradient stroke: paints every pending geometry.
    Paint,
    /// A nested group: becomes one group node.
    Group,
    /// A repeater, with its copy count already rounded to a whole number.
    Repeater(usize),
    /// A trim path: sets the trim of every node of the list.
    Trim,
    /// A shape transform: it applies to the pending geometries and to the nodes
    /// painted so far, and adds or removes none of them.
    Transform,
    /// Rounded corners: rounds the corners of the pending rectangles and
    /// polystars.
    RoundCorners,
    /// A path modifier (zig-zag, pucker and bloat, twist, offset path, wiggle
    /// path): turns every pending geometry into a path, with the transforms that
    /// reached it applied to the path itself.
    Modifier,
    /// Any other item, which is skipped.
    Other,
}

/// A node that a shape list produces: a painted geometry, or a nested group.
#[derive(Debug, Clone, Copy, PartialEq, Eq, Structural)]
pub enum PlannedNode {
    /// The geometry created by item `geometry`, painted by item `paint`.
    Shape { paint: usize, geometry: usize },
    /// The group at item `item`.
    Group { item: usize },
}

/// The outcome of walking a shape list: the nodes in order, the geometries still
/// pending at the end, and the index of the trim item that applies to the nodes
/// (`None`: the trim inherited from the enclosing group). Beside each node and
/// each pending geometry stand the transform items whose matrices are still to
/// be applied to it, in the order they apply.
pub struct ShapePlan {
    pub nodes: Vec<PlannedNode>,
    pub pending: Vec<usize>,
    pub trim_item: Option<usize>,
    pub node_transforms: Vec<Vec<usize>>,
    pub pending_transforms: Vec<Vec<usize>>,
}

/// The shape item a shape's `ty` tag denotes; `copies` is the rounded copy count,
/// used when the tag is that of a repeater.
pub open spec fn spec_shape_item_for_tag(ty: Seq<char>, copies: usize) -> ShapeItem {
    if ty == "sh"@ || ty == "rc"@ || ty == "el"@ || ty == "sr"@ {
        ShapeItem::Geometry
    } else if ty == "mm"@ {
        ShapeItem::MergePaths
    } else if ty == "fl"@ || ty == "st"@ || ty == "gf"@ || ty == "gs"@ {
        ShapeItem::Paint
    } else if ty == "gr"@ {
        ShapeItem::Group
    } else if ty == "rp"@ {
        ShapeItem::Repeater(copies)
    } else if ty == "tm"@ {
        ShapeItem::Trim
    } else if ty == "tr"@ {
        ShapeItem::Transform
    } else if ty == "rd"@ {
        ShapeItem::RoundCorners
    } else if ty == "zz"@ || ty == "pb"@ || ty == "tw"@ || ty
        == "op"@ || ty == "wgl"@ {
        ShapeItem::Modifier
    } else {
        ShapeItem::Other
    }
}

/// Classifies a shape by its `ty` tag: paths, rectangles, ellipses and polystars
/// are geometries; fills, strokes and gradients paint; unknown tags are skipped.
pub fn shape_item_for_tag(ty: &str, copies: usize) -> (r: ShapeItem)
    ensures
        r == spec_shape_item_for_tag(ty@, copies),
{
    if str_equals(ty, "sh") || str_equals(ty, "rc") || str_equals(ty, "el") || str_equals(ty, "sr") {
        ShapeItem::Geometry
    } else if str_equals(ty, "mm") {
        ShapeItem::MergePaths
    } else if str_equals(ty, "fl") || str_equals(ty, "st") || str_equals(ty, "gf") || str_equals(
        ty,
        "gs",
    ) {
        ShapeItem::Paint
    } else if str_equals(ty, "gr") {
        ShapeItem::Group
    } else if str_equals(ty, "rp") {
        ShapeItem::Repeater(copies)
    } else if str_equals(ty, "tm") {
        ShapeItem::Trim
    } else if str_equals(ty, "tr") {
        ShapeItem::Transform
    } else if str_equals(ty, "rd") {
        ShapeItem::RoundCorners
    } else if str_equals(ty, "zz") || str_equals(
        ty,
        "pb",
    ) || str_equals(ty, "tw") || str_equals(ty, "op") || str_equals(ty, "wgl") {
        ShapeItem::Modifier
    } else {
        ShapeItem::Other
    }
}

/// Each shape tag names its own kind of item: `sh`, `rc`, `el` and `sr` are
/// geometries, `mm` merges paths, `fl`, `st`, `gf` and `gs` paint, `gr` is a
/// group, `rp` a repeater with the given copy count, `tm` a trim, `tr` a
/// transform, `rd` rounds corners, and `zz`, `pb`, `tw`, `op` and `wgl` are path
/// modifiers; every other tag is skipped.
pub proof fn lemma_shape_tags(ty: Seq<char>, copies: usize)
    ensures
        ({
            let r = spec_shape_item_for_tag(ty, copies);
            &&& (r == ShapeItem::Geometry) <==> (ty == "sh"@ || ty == "rc"@ || ty == "el"@ || ty
                == "sr"@)
            &&& (r == ShapeItem::MergePaths) <==> ty == "mm"@
            &&& (r == ShapeItem::Paint) <==> (ty == "fl"@ || ty == "st"@ || ty == "gf"@ || ty
                == "gs"@)
            &&& (r == ShapeItem::Group) <==> ty == "gr"@
            &&& (r is Repeater) <==> ty == "rp"@
            &&& ty == "rp"@ ==> r == ShapeItem::Repeater(copies)
            &&& (r == ShapeItem::Trim) <==> ty == "tm"@
            &&& (r == ShapeItem::Transform) <==> ty == "tr"@
            &&& (r == ShapeItem::RoundCorners) <==> ty == "rd"@
            &&& (r == ShapeItem::Modifier) <==> (ty == "zz"@ || ty == "pb"@ || ty == "tw"@ || ty
                == "op"@ || ty == "wgl"@)
        }),
{
    reveal_strlit("sh");
    assert("sh"@.len() == 2 && "sh"@[0] == 's' && "sh"@[1] == 'h');
    reveal_strlit("rc");
    assert("rc"@.len() == 2 && "rc"@[0] == 'r' && "rc"@[1] == 'c');
    reveal_strlit("el");
    assert("el"@.len() == 2 && "el"@[0] == 'e' && "el"@[1] == 'l');
    reveal_strlit("sr");
    assert("sr"@.len() == 2 && "sr"@[0] == 's' && "sr"@[1] == 'r');
    reveal_strlit("mm");
    assert("mm"@.len() == 2 && "mm"@[0] == 'm' && "mm"@[1] == 'm');
    reveal_strlit("fl");
    assert("fl"@.len() == 2 && "fl"@[0] == 'f' && "fl"@[1] == 'l');
    reveal_strlit("st");
    assert("st"@.len() == 2 && "st"@[0] == 's' && "st"@[1] == 't');
    reveal_strlit("gf");
    assert("gf"@.len() == 2 && "gf"@[0] == 'g' && "gf"@[1] == 'f');
    reveal_strlit("gs");
    assert("gs"@.len() == 2 && "gs"@[0] == 'g' && "gs"@[1] == 's');
    reveal_strlit("gr");
    assert("gr"@.len() == 2 && "gr"@[0] == 'g' && "gr"@[1] == 'r');
    reveal_strlit("rp");
    assert("rp"@.len() == 2 && "rp"@[0] == 'r' && "rp"@[1] == 'p');
    reveal_strlit("tm");
    assert("tm"@.len() == 2 && "tm"@[0] == 't' && "tm"@[1] == 'm');
    reveal_strlit("tr");
    assert("tr"@.len() == 2 && "tr"@[0] == 't' && "tr"@[1] == 'r');
    reveal_strlit("rd");
    assert("rd"@.len() == 2 && "rd"@[0] == 'r' && "rd"@[1] == 'd');
    reveal_strlit("zz");
    assert("zz"@.len() == 2 && "zz"@[0] == 'z' && "zz"@[1] == 'z');
    reveal_strlit("pb");
    assert("pb"@.len() == 2 && "pb"@[0] == 'p' && "pb"@[1] == 'b');
    reveal_strlit("tw");
    assert("tw"@.len() == 2 && "tw"@[0] == 't' && "tw"@[1] == 'w');
    reveal_strlit("op");
    assert("op"@.len() == 2 && "op"@[0] == 'o' && "op"@[1] == 'p');
    reveal_strlit("wgl");
    assert("wgl"@.len() == 3 && "wgl"@[0] == 'w' && "wgl"@[1] == 'g' && "wgl"@[2] == 'l');
}

/// `c` copies of `s`, one after the other.
pub open spec fn repeat_seq<A>(s: Seq<A>, c: nat) -> Seq<A>
    decreases c,
{
    if c == 0 {
        Seq::empty()
    } else {
        repeat_seq(s, (c - 1) as nat) + s
    }
}

/// The nodes that paint item `paint` adds: one per pending geometry, in order.
pub open spec fn painted(paint: usize, geoms: Seq<usize>) -> Seq<PlannedNode> {
    Seq::new(geoms.len(), |k: int| PlannedNode::Shape { paint, geometry: geoms[k] })
}

/// The effect of item `i` on the pending geometries and the nodes.
pub open spec fn shape_step(
    items: Seq<ShapeItem>,
    i: int,
    geoms: Seq<usize>,
    nodes: Seq<PlannedNode>,
) -> (Seq<usize>, Seq<PlannedNode>) {
    match items[i] {
        ShapeItem::Geometry => (geoms.push(i as usize), nodes),
        ShapeItem::MergePaths => if geoms.len() > 0 {
            (seq![i as usize], nodes)
        } else {
            (geoms, nodes)
        },
        ShapeItem::Paint => (geoms, nodes + painted(i as usize, geoms)),
        ShapeItem::Group => (geoms, nodes.push(PlannedNode::Group { item: i as usize })),
        ShapeItem::Repeater(c) => if c <= 1 {
            (geoms, nodes)
        } else {
            (repeat_seq(geoms, c as nat), repeat_seq(nodes, c as nat))
        },
        _ => (geoms, nodes),
    }
}

/// The pending geometries and the nodes after the first `k` items.
pub open spec fn shape_state(items: Seq<ShapeItem>, k: int) -> (Seq<usize>, Seq<PlannedNode>)
    decreases k,
{
    if k <= 0 {
        (Seq::empty(), Seq::empty())
    } else {
        let prev = shape_state(items, k - 1);
        shape_step(items, k - 1, prev.0, prev.1)
    }
}

/// The transform lists after item `i`, given those of the pending geometries and
/// of the nodes before it. A new geometry or group node starts with no
/// transforms; a painted node starts with the transforms of its geometry; a
/// merged geometry starts afresh; a repeater copies the lists with the things
/// they belong to; a transform item is appended to every list there is; a path
/// modifier applies the transforms of each pending geometry to its path, which
/// empties the geometry's list.
pub open spec fn transform_step(
    items: Seq<ShapeItem>,
    i: int,
    gt: Seq<Seq<usize>>,
    nt: Seq<Seq<usize>>,
) -> (Seq<Seq<usize>>, Seq<Seq<usize>>) {
    match items[i] {
        ShapeItem::Geometry => (gt.push(Seq::empty()), nt),
        ShapeItem::MergePaths => if gt.len() > 0 {
            (seq![Seq::<usize>::empty()], nt)
        } else {
            (gt, nt)
        },
        ShapeItem::Paint => (gt, nt + gt),
        ShapeItem::Group => (gt, nt.push(Seq::empty())),
        ShapeItem::Repeater(c) => if c <= 1 {
            (gt, nt)
        } else {
            (repeat_seq(gt, c as nat), repeat_seq(nt, c as nat))
        },
        ShapeItem::Transform => (
            gt.map_values(|l: Seq<usize>| l.push(i as usize)),
            nt.map_values(|l: Seq<usize>| l.push(i as usize)),
        ),
        ShapeItem::Modifier => (gt.map_values(|l: Seq<usize>| Seq::<usize>::empty()), nt),
        _ => (gt, nt),
    }
}

/// The transform lists of the pending geometries and of the nodes after the
/// first `k` items.
pub open spec fn transform_state(items: Seq<ShapeItem>, k: int) -> (Seq<Seq<usize>>, Seq<Seq<usize>>)
    decreases k,
{
    if k <= 0 {
        (Seq::empty(), Seq::empty())
    } else {
        let prev = transform_state(items, k - 1);
        transform_step(items, k - 1, prev.0, prev.1)
    }
}

/// The views of a list of index lists.
pub open spec fn index_lists(v: Seq<Vec<usize>>) -> Seq<Seq<usize>> {
    v.map_values(|l: Vec<usize>| l@)
}

/// There is one transform list per pending geometry and one per node.
proof fn lemma_transform_state_lengths(items: Seq<ShapeItem>, k: int)
    requires
        0 <= k <= items.len(),
    ensures
        transform_state(items, k).0.len() == shape_state(items, k).0.len(),
        transform_state(items, k).1.len() == shape_state(items, k).1.len(),
    decreases k,
{
    if k > 0 {
        lemma_transform_state_lengths(items, k - 1);
        let p = transform_state(items, k - 1);
        let q = shape_state(items, k - 1);
        if let ShapeItem::Repeater(c) = items[k - 1] {
            if c > 1 {
                lemma_repeat_seq(p.0, c as nat, |x: Seq<usize>| true);
                lemma_repeat_seq(p.1, c as nat, |x: Seq<usize>| true);
                lemma_repeat_seq(q.0, c as nat, |x: usize| true);
                lemma_repeat_seq(q.1, c as nat, |x: PlannedNode| true);
            }
        }
    }
}

/// A shape transform reaches every geometry pending and every node painted
/// before it, whether it stands before or after the paint items: each of their
/// transform lists gains it as its last entry.
pub proof fn lemma_transform_reaches_everything_before_it(items: Seq<ShapeItem>, t: int)
    requires
        0 <= t < items.len(),
        items[t] is Transform,
    ensures
        transform_state(items, t + 1).0.len() == transform_state(items, t).0.len(),
        transform_state(items, t + 1).1.len() == transform_state(items, t).1.len(),
        forall|j: int|
            0 <= j < transform_state(items, t).0.len() ==> #[trigger] transform_state(items, t + 1).0[j]
                == transform_state(items, t).0[j].push(t as usize),
        forall|j: int|
            0 <= j < transform_state(items, t).1.len() ==> #[trigger] transform_state(items, t + 1).1[j]
                == transform_state(items, t).1[j].push(t as usize),
{
}

/// The index of the last trim item among the first `k` items.
pub open spec fn last_trim(items: Seq<ShapeItem>, k: int) -> Option<usize>
    decreases k,
{
    if k <= 0 {
        None
    } else if items[k - 1] is Trim {
        Some((k - 1) as usize)
    } else {
        last_trim(items, k - 1)
    }
}

/// Item `g` creates a geometry: it is a geometry item or a merge-paths item.
pub open spec fn creates_geometry(items: Seq<ShapeItem>, g: usize) -> bool {
    g < items.len() && (items[g as int] is Geometry || items[g as int] is MergePaths)
}

/// A node refers to items of the right kinds: a painted node to a paint item and
/// to a geometry created before it; a group node to a group item.
pub open spec fn node_refers_to_items(items: Seq<ShapeItem>, n: PlannedNode) -> bool {
    match n {
        PlannedNode::Shape { paint, geometry } => {
            &&& paint < items.len()
            &&& items[paint as int] is Paint
            &&& geometry < paint
            &&& creates_geometry(items, geometry)
        },
        PlannedNode::Group { item } => item < items.len() && items[item as int] is Group,
    }
}

/// `c` copies of `s` hold `c` times as many elements, each of them an element of `s`.
pub proof fn lemma_repeat_seq<A>(s: Seq<A>, c: nat, p: spec_fn(A) -> bool)
    requires
        forall|k: int| 0 <= k < s.len() ==> #[trigger] p(s[k]),
    ensures
        repeat_seq(s, c).len() == c * s.len(),
        forall|j: int| 0 <= j < repeat_seq(s, c).len() ==> #[trigger] p(repeat_seq(s, c)[j]),
    decreases c,
{
    if c > 0 {
        lemma_repeat_seq(s, (c - 1) as nat, p);
        let prev = repeat_seq(s, (c - 1) as nat);
        assert(repeat_seq(s, c) == prev + s);
        let n = s.len() as int;
        let m = (c - 1) as int;
        assert(m * n + n == (m + 1) * n) by (nonlinear_arith);
        assert(prev.len() == m * n);
        assert forall|j: int| 0 <= j < repeat_seq(s, c).len() implies #[trigger] p(
            repeat_seq(s, c)[j],
        ) by {
            if j < prev.len() {
                assert(repeat_seq(s, c)[j] == prev[j]);
            } else {
                assert(repeat_seq(s, c)[j] == s[j - prev.len()]);
            }
        }
        assert(repeat_seq(s, c).len() == c * s.len());
    } else {
        assert(c * s.len() == 0) by (nonlinear_arith)
            requires
                c == 0,
        ;
    }
}

proof fn lemma_shape_state_refers(items: Seq<ShapeItem>, k: int)
    requires
        0 <= k <= items.len(),
        items.len() <= usize::MAX,
    ensures
        forall|j: int|
            0 <= j < shape_state(items, k).0.len() ==> {
                let g = #[trigger] shape_state(items, k).0[j];
                g < k && creates_geometry(items, g)
            },
        forall|j: int|
            0 <= j < shape_state(items, k).1.len() ==> node_refers_to_items(
                items,
                #[trigger] shape_state(items, k).1[j],
            ),
    decreases k,
{
    if k > 0 {
        lemma_shape_state_refers(items, k - 1);
        let prev = shape_state(items, k - 1);
        let cur = shape_state(items, k);
        let i = k - 1;
        assert(cur == shape_step(items, i, prev.0, prev.1));
        let gp = |g: usize| g < k && creates_geometry(items, g);
        let np = |n: PlannedNode| node_refers_to_items(items, n);
        assert forall|j: int| 0 <= j < prev.0.len() implies #[trigger] gp(prev.0[j]) by {}
        assert forall|j: int| 0 <= j < prev.1.len() implies #[trigger] np(prev.1[j]) by {}
        match items[i] {
            ShapeItem::Geometry => {
                assert(cur.0 == prev.0.push(i as usize));
                assert forall|j: int| 0 <= j < cur.0.len() implies #[trigger] gp(cur.0[j]) by {
                    if j < prev.0.len() {
                        assert(cur.0[j] == prev.0[j]);
                    }
                }
            },
            ShapeItem::MergePaths => {
                assert forall|j: int| 0 <= j < cur.0.len() implies #[trigger] gp(cur.0[j]) by {
                    if prev.0.len() == 0 {
                        assert(cur.0 == prev.0);
                    } else {
                        assert(cur.0 == seq![i as usize]);
                    }
                }
            },
            ShapeItem::Paint => {
                assert(cur.0 == prev.0);
                assert(cur.1 == prev.1 + painted(i as usize, prev.0));
                assert forall|j: int| 0 <= j < cur.1.len() implies #[trigger] np(cur.1[j]) by {
                    if j >= prev.1.len() {
                        let g = prev.0[j - prev.1.len()];
                        assert(gp(g));
                        assert(cur.1[j] == PlannedNode::Shape { paint: i as usize, geometry: g });
                    } else {
                        assert(cur.1[j] == prev.1[j]);
                    }
                }
            },
            ShapeItem::Group => {
                assert(cur.1 == prev.1.push(PlannedNode::Group { item: i as usize }));
                assert forall|j: int| 0 <= j < cur.1.len() implies #[trigger] np(cur.1[j]) by {
                    if j < prev.1.len() {
                        assert(cur.1[j] == prev.1[j]);
                    }
                }
            },
            ShapeItem::Repeater(c) => {
                if c > 1 {
                    lemma_repeat_seq(prev.0, c as nat, gp);
                    lemma_repeat_seq(prev.1, c as nat, np);
                }
            },
            _ => {},
        }
        assert forall|j: int| 0 <= j < cur.0.len() implies #[trigger] gp(cur.0[j]) by {}
        assert forall|j: int| 0 <= j < cur.1.len() implies #[trigger] np(cur.1[j]) by {}
        assert forall|j: int| 0 <= j < cur.0.len() implies #[trigger] cur.0[j] < k && creates_geometry(items, cur.0[j]) by {
            assert(gp(cur.0[j]));
        }
        assert forall|j: int| 0 <= j < cur.1.len() implies node_refers_to_items(items, #[trigger] cur.1[j]) by {
            assert(np(cur.1[j]));
        }
    } else {
        assert(shape_state(items, k).0.len() == 0);
        assert(shape_state(items, k).1.len() == 0);
    }
}

/// Every node of a shape list's plan refers to items of that list of the right
/// kinds (a painted node to a paint item and to a geometry created before that
/// paint item, a group node to a group item), and every geometry still pending
/// at the end was created by a geometry or merge-paths item of the list.
pub proof fn lemma_shape_plan_refers_to_items(items: Seq<ShapeItem>)
    requires
        items.len() <= usize::MAX,
    ensures
        forall|j: int|
            0 <= j < shape_state(items, items.len() as int).0.len() ==> creates_geometry(
                items,
                #[trigger] shape_state(items, items.len() as int).0[j],
            ),
        forall|j: int|
            0 <= j < shape_state(items, items.len() as int).1.len() ==> node_refers_to_items(
                items,
                #[trigger] shape_state(items, items.len() as int).1[j],
            ),
{
    lemma_shape_state_refers(items, items.len() as int);
}

/// A repeater with `c > 1` copies multiplies both the pending geometries and the
/// nodes painted so far by `c`.
pub proof fn lemma_repeater_multiplies(items: Seq<ShapeItem>, i: int, c: usize)
    requires
        0 <= i < items.len(),
        items[i] == ShapeItem::Repeater(c),
        c > 1,
    ensures
        shape_state(items, i + 1).0.len() == c * shape_state(items, i).0.len(),
        shape_state(items, i + 1).1.len() == c * shape_state(items, i).1.len(),
{
    let prev = shape_state(items, i);
    lemma_repeat_seq(prev.0, c as nat, |g: usize| true);
    lemma_repeat_seq(prev.1, c as nat, |n: PlannedNode| true);
}

/// Appends `c` copies of `src` to `out`.
fn append_copies<A: Copy>(out: &mut Vec<A>, src: &Vec<A>, c: usize)
    ensures
        final(out)@ == old(out)@ + repeat_seq(src@, c as nat),
{
    let ghost start = out@;
    let mut copy: usize = 0;
    while copy < c
        invariant
            copy <= c,
            out@ == start + repeat_seq(src@, copy as nat),
        decreases c - copy,
    {
        let ghost before = out@;
        let mut j: usize = 0;
        while j < src.len()
            invariant
                j <= src@.len(),
                out@ == before + src@.take(j as int),
            decreases src@.len() - j,
        {
            out.push(src[j]);
            assert(src@.take(j as int + 1) == src@.take(j as int).push(src@[j as int]));
            j = j + 1;
        }
        assert(src@.take(src@.len() as int) == src@);
        copy = copy + 1;
    }
}

/// A copy of a list of indices.
fn copy_indices(v: &Vec<usize>) -> (r: Vec<usize>)
    ensures
        r@ == v@,
{
    let mut r: Vec<usize> = Vec::new();
    let mut j: usize = 0;
    while j < v.len()
        invariant
            j <= v@.len(),
            r@ == v@.take(j as int),
        decreases v@.len() - j,
    {
        r.push(v[j]);
        assert(v@.take(j as int + 1) == v@.take(j as int).push(v@[j as int]));
        j = j + 1;
    }
    assert(v@.take(v@.len() as int) == v@);
    r
}

/// Appends to `out` copies of the lists of `src`, each with `extra` added at its
/// end when there is one.
fn append_lists(out: &mut Vec<Vec<usize>>, src: &Vec<Vec<usize>>, extra: Option<usize>)
    ensures
        index_lists(final(out)@) == index_lists(old(out)@) + match extra {
            Some(t) => index_lists(src@).map_values(|l: Seq<usize>| l.push(t)),
            None => index_lists(src@),
        },
{
    let ghost start = index_lists(out@);
    let ghost target = match extra {
        Some(t) => index_lists(src@).map_values(|l: Seq<usize>| l.push(t)),
        None => index_lists(src@),
    };
    let mut j: usize = 0;
    while j < src.len()
        invariant
            j <= src@.len(),
            target.len() == src@.len(),
            target == match extra {
                Some(t) => index_lists(src@).map_values(|l: Seq<usize>| l.push(t)),
                None => index_lists(src@),
            },
            index_lists(out@) == start + target.take(j as int),
        decreases src@.len() - j,
    {
        let mut l = copy_indices(&src[j]);
        match extra {
            Some(t) => {
                l.push(t);
            },
            None => {},
        }
        let ghost before = out@;
        out.push(l);
        assert(index_lists(out@) =~= index_lists(before).push(target[j as int]));
        assert(target.take(j as int + 1) =~= target.take(j as int).push(target[j as int]));
        j = j + 1;
    }
    assert(target.take(src@.len() as int) =~= target);
}

/// Appends `c` copies of the lists of `src` to `out`.
fn append_list_copies(out: &mut Vec<Vec<usize>>, src: &Vec<Vec<usize>>, c: usize)
    ensures
        index_lists(final(out)@) == index_lists(old(out)@) + repeat_seq(index_lists(src@), c as nat),
{
    let ghost start = index_lists(out@);
    let mut copy: usize = 0;
    while copy < c
        invariant
            copy <= c,
            index_lists(out@) == start + repeat_seq(index_lists(src@), copy as nat),
        decreases c - copy,
    {
        append_lists(out, src, None);
        copy = copy + 1;
    }
}

/// Walks a shape list keeping, for every pending geometry and every node, the
/// transform items that reach it.
fn plan_transforms(items: &Vec<ShapeItem>) -> (r: (Vec<Vec<usize>>, Vec<Vec<usize>>))
    ensures
        index_lists(r.0@) == transform_state(items@, items@.len() as int).0,
        index_lists(r.1@) == transform_state(items@, items@.len() as int).1,
{
    let mut gt: Vec<Vec<usize>> = Vec::new();
    let mut nt: Vec<Vec<usize>> = Vec::new();
    let mut i: usize = 0;
    assert(index_lists(gt@) =~= Seq::<Seq<usize>>::empty());
    assert(index_lists(nt@) =~= Seq::<Seq<usize>>::empty());
    while i < items.len()
        invariant
            i <= items@.len(),
            index_lists(gt@) == transform_state(items@, i as int).0,
            index_lists(nt@) == transform_state(items@, i as int).1,
        decreases items@.len() - i,
    {
        let ghost g0 = index_lists(gt@);
        let ghost n0 = index_lists(nt@);
        match items[i] {
            ShapeItem::Geometry => {
                gt.push(Vec::new());
                assert(index_lists(gt@) =~= g0.push(Seq::empty()));
            },
            ShapeItem::MergePaths => {
                if gt.len() > 0 {
                    gt = Vec::new();
                    gt.push(Vec::new());
                    assert(index_lists(gt@) =~= seq![Seq::<usize>::empty()]);
                }
            },
            ShapeItem::Paint => {
                append_lists(&mut nt, &gt, None);
            },
            ShapeItem::Group => {
                nt.push(Vec::new());
                assert(index_lists(nt@) =~= n0.push(Seq::empty()));
            },
            ShapeItem::Repeater(c) => {
                if c > 1 {
                    let mut new_gt: Vec<Vec<usize>> = Vec::new();
                    append_list_copies(&mut new_gt, &gt, c);
                    let mut new_nt: Vec<Vec<usize>> = Vec::new();
                    append_list_copies(&mut new_nt, &nt, c);
                    assert(index_lists(new_gt@) =~= repeat_seq(g0, c as nat));
                    assert(index_lists(new_nt@) =~= repeat_seq(n0, c as nat));
                    gt = new_gt;
                    nt = new_nt;
                }
            },
            ShapeItem::Transform => {
                let mut new_gt: Vec<Vec<usize>> = Vec::new();
                append_lists(&mut new_gt, &gt, Some(i));
                let mut new_nt: Vec<Vec<usize>> = Vec::new();
                append_lists(&mut new_nt, &nt, Some(i));
                assert(index_lists(new_gt@) =~= g0.map_values(|l: Seq<usize>| l.push(i as usize)));
                assert(index_lists(new_nt@) =~= n0.map_values(|l: Seq<usize>| l.push(i as usize)));
                gt = new_gt;
                nt = new_nt;
            },
            ShapeItem::Modifier => {
                let mut new_gt: Vec<Vec<usize>> = Vec::new();
                let mut j: usize = 0;
                while j < gt.len()
                    invariant
                        j <= gt@.len(),
                        index_lists(new_gt@) =~= Seq::new(j as nat, |k: int| Seq::<usize>::empty()),
                    decreases gt@.len() - j,
                {
                    let ghost before = new_gt@;
                    new_gt.push(Vec::new());
                    assert(index_lists(new_gt@) =~= index_lists(before).push(Seq::<usize>::empty()));
                    j = j + 1;
                }
                assert(index_lists(new_gt@) =~= g0.map_values(|l: Seq<usize>| Seq::<usize>::empty()));
                gt = new_gt;
            },
            _ => {},
        }
        i = i + 1;
    }
    (gt, nt)
}

/// Walks a shape list in order, deciding the nodes it draws. Geometry items pile
/// up as pending geometries; merge paths folds the pile into one; every paint
/// item draws each pending geometry as one node; a group becomes one node; a
/// repeater with more than one copy repeats both the pile and the nodes painted
/// so far; a transform applies to the pile and to the nodes painted so far; the
/// last trim item applies to the whole list.
pub fn plan_shapes(items: &Vec<ShapeItem>) -> (r: ShapePlan)
    ensures
        r.pending@ == shape_state(items@, items@.len() as int).0,
        r.nodes@ == shape_state(items@, items@.len() as int).1,
        r.trim_item == last_trim(items@, items@.len() as int),
        index_lists(r.node_transforms@) == transform_state(items@, items@.len() as int).1,
        index_lists(r.pending_transforms@) == transform_state(items@, items@.len() as int).0,
        r.node_transforms@.len() == r.nodes@.len(),
        r.pending_transforms@.len() == r.pending@.len(),
{
    let mut geoms: Vec<usize> = Vec::new();
    let mut nodes: Vec<PlannedNode> = Vec::new();
    let mut trim_item: Option<usize> = None;
    let mut i: usize = 0;
    while i < items.len()
        invariant
            i <= items@.len(),
            geoms@ == shape_state(items@, i as int).0,
            nodes@ == shape_state(items@, i as int).1,
            trim_item == last_trim(items@, i as int),
        decreases items@.len() - i,
    {
        match items[i] {
            ShapeItem::Geometry => {
                geoms.push(i);
            },
            ShapeItem::MergePaths => {
                if geoms.len() > 0 {
                    geoms = Vec::new();
                    geoms.push(i);
                }
            },
            ShapeItem::Paint => {
                let ghost before = nodes@;
                let mut j: usize = 0;
                while j < geoms.len()
                    invariant
                        j <= geoms@.len(),
                        nodes@ == before + painted(i, geoms@).take(j as int),
                    decreases geoms@.len() - j,
                {
                    nodes.push(PlannedNode::Shape { paint: i, geometry: geoms[j] });
                    assert(painted(i, geoms@).take(j as int + 1) == painted(i, geoms@).take(
                        j as int,
                    ).push(PlannedNode::Shape { paint: i, geometry: geoms@[j as int] }));
                    j = j + 1;
                }
                assert(painted(i, geoms@).take(geoms@.len() as int) == painted(i, geoms@));
            },
            ShapeItem::Group => {
                nodes.push(PlannedNode::Group { item: i });
            },
            ShapeItem::Repeater(c) => {
                if c > 1 {
                    let mut new_geoms: Vec<usize> = Vec::new();
                    append_copies(&mut new_geoms, &geoms, c);
                    let mut new_nodes: Vec<PlannedNode> = Vec::new();
                    append_copies(&mut new_nodes, &nodes, c);
                    assert(new_geoms@ == repeat_seq(geoms@, c as nat));
                    assert(new_nodes@ == repeat_seq(nodes@, c as nat));
                    geoms = new_geoms;
                    nodes = new_nodes;
                }
            },
            ShapeItem::Trim => {
                trim_item = Some(i);
            },
            _ => {},
        }
        i = i + 1;
    }
    let (pending_transforms, node_transforms) = plan_transforms(items);
    proof {
        lemma_transform_state_lengths(items@, items@.len() as int);
    }
    ShapePlan { nodes, pending: geoms, trim_item, node_transforms, pending_transforms }
}

} // verus!
