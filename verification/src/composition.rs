use vstd::prelude::*;
use crate::modes::{MatteMode, matte_mode_from_code, spec_matte_mode};
use crate::nesting::lemma_pigeonhole;

verus! {

/// The matte of a step: the layer drawn as the matte, and how it masks.
#[derive(Debug, Clone, Copy, PartialEq, Eq, Structural)]
pub struct MatteLink {
    pub layer: usize,
    pub mode: MatteMode,
}

/// One step of drawing a composition: a content layer and, when the layer is
/// track-matted, the layer below it in the list together with the matte mode.
#[derive(Debug, Clone, Copy, PartialEq, Eq, Structural)]
pub struct RenderStep {
    pub content: usize,
    pub matte: Option<MatteLink>,
}

/// Layer `i` takes layer `i - 1` as its matte: it has a matte code, it is not the
/// first layer, and it was not itself taken as the matte of layer `i + 1`.
pub open spec fn takes_matte(tts: Seq<Option<u8>>, i: int) -> bool
    decreases tts.len() - i,
{
    if i < 0 || i >= tts.len() {
        false
    } else {
        tts[i] is Some && i > 0 && !takes_matte(tts, i + 1)
    }
}

/// The step that draws layer `i` (assuming it is not consumed as a matte).
pub open spec fn step_for(tts: Seq<Option<u8>>, i: int) -> RenderStep {
    RenderStep {
        content: i as usize,
        matte: if takes_matte(tts, i) {
            Some(MatteLink { layer: (i - 1) as usize, mode: spec_matte_mode(tts[i]->0) })
        } else {
            None
        },
    }
}

/// The steps for layers `k ..` of the list, visited from the last layer down to `k`:
/// a layer taken as the matte of the layer above it gets no step of its own.
pub open spec fn matte_steps(tts: Seq<Option<u8>>, k: int) -> Seq<RenderStep>
    decreases tts.len() - k,
{
    if k < 0 || k >= tts.len() {
        Seq::empty()
    } else if takes_matte(tts, k + 1) {
        matte_steps(tts, k + 1)
    } else {
        matte_steps(tts, k + 1).push(step_for(tts, k))
    }
}

/// The layer indices that a list of steps draws, contents and mattes alike.
pub open spec fn drawn_layers(steps: Seq<RenderStep>) -> Seq<usize>
    decreases steps.len(),
{
    if steps.len() == 0 {
        Seq::empty()
    } else {
        let last = steps.last();
        let prior = drawn_layers(steps.drop_last());
        match last.matte {
            Some(link) => prior.push(last.content).push(link.layer),
            None => prior.push(last.content),
        }
    }
}

/// Plans the drawing of a composition from the track-matte codes of its layers
/// (in list order). Layers are visited from the last to the first; a layer with a
/// matte code uses the layer just before it as its matte, which is then not drawn
/// on its own.
pub fn plan_matte_steps(tts: &Vec<Option<u8>>) -> (steps: Vec<RenderStep>)
    ensures
        steps@ == matte_steps(tts@, 0),
        forall|j: int| 0 <= j < steps@.len() ==> #[trigger] matte_follows_code(tts@, steps@[j]),
{
    let n = tts.len();
    proof {
        lemma_matte_plan_modes_follow_codes(tts@);
    }
    let mut steps: Vec<RenderStep> = Vec::new();
    let mut i: usize = n;
    // whether layer `i` was taken as a matte by layer `i + 1`
    let mut consumed: bool = false;
    assert(!takes_matte(tts@, n as int));
    while i > 0
        invariant
            n == tts@.len(),
            i <= n,
            consumed == takes_matte(tts@, i as int),
            steps@ == matte_steps(tts@, i as int),
        decreases i,
    {
        let k = i - 1;
        let takes = match tts[k] {
            Some(_) => k > 0 && !consumed,
            None => false,
        };
        assert(takes == takes_matte(tts@, k as int));
        if !consumed {
            let matte = if takes {
                let tt = match tts[k] {
                    Some(t) => t,
                    None => 0,
                };
                Some(MatteLink { layer: k - 1, mode: matte_mode_from_code(tt) })
            } else {
                None
            };
            steps.push(RenderStep { content: k, matte });
        }
        consumed = takes;
        i = k;
    }
    steps
}

/// A step's matte agrees with the content layer's own track-matte code: the
/// content layer has a code, the matte is the layer just before it, and the
/// matte mode is the one its code names (alpha for 1, inverted alpha for 2, luma
/// for 3, inverted luma for 4).
pub open spec fn matte_follows_code(tts: Seq<Option<u8>>, s: RenderStep) -> bool {
    s.matte matches Some(link) ==> {
        &&& 0 < s.content < tts.len()
        &&& tts[s.content as int] is Some
        &&& link.layer + 1 == s.content
        &&& link.mode == spec_matte_mode(tts[s.content as int]->0)
        &&& tts[s.content as int] == Some(1u8) ==> link.mode == MatteMode::Alpha
        &&& tts[s.content as int] == Some(2u8) ==> link.mode == MatteMode::AlphaInverted
        &&& tts[s.content as int] == Some(3u8) ==> link.mode == MatteMode::Luma
        &&& tts[s.content as int] == Some(4u8) ==> link.mode == MatteMode::LumaInverted
    }
}

/// Every matte in the plan of a composition is taken by a layer with a
/// track-matte code, from the layer just before it, in the mode that code names.
pub proof fn lemma_matte_plan_modes_follow_codes(tts: Seq<Option<u8>>)
    requires
        tts.len() <= usize::MAX,
    ensures
        forall|j: int|
            0 <= j < matte_steps(tts, 0).len() ==> #[trigger] matte_follows_code(
                tts,
                matte_steps(tts, 0)[j],
            ),
{
    lemma_matte_steps_follow_codes(tts, 0);
}

proof fn lemma_matte_steps_follow_codes(tts: Seq<Option<u8>>, k: int)
    requires
        0 <= k,
        tts.len() <= usize::MAX,
    ensures
        forall|j: int|
            0 <= j < matte_steps(tts, k).len() ==> #[trigger] matte_follows_code(
                tts,
                matte_steps(tts, k)[j],
            ),
    decreases tts.len() - k,
{
    if k < tts.len() {
        lemma_matte_steps_follow_codes(tts, k + 1);
        if !takes_matte(tts, k + 1) {
            let s = step_for(tts, k);
            if takes_matte(tts, k) {
                crate::modes::lemma_matte_mode_codes(tts[k]->0, 0);
            }
            assert(matte_follows_code(tts, s));
            assert(matte_steps(tts, k) == matte_steps(tts, k + 1).push(s));
        }
    }
}

/// What becomes of a layer, rule by rule: a layer that is hidden or outside its
/// time range is skipped whatever its type; otherwise an audio layer (type 6) is
/// captured as audio and a data layer (type 15) as data; any other layer is
/// drawn, from its shapes if it has any, else its text, else the asset it
/// references, else its solid colour, and as an empty group when it has none of
/// these.
pub proof fn lemma_layer_action_rules(
    hidden: Option<bool>,
    in_time_range: bool,
    ty: u8,
    has_shapes: bool,
    has_text: bool,
    reference: RefResolution,
    has_color: bool,
)
    ensures
        ({
            let r = spec_layer_action(
                hidden,
                in_time_range,
                ty,
                has_shapes,
                has_text,
                reference,
                has_color,
            );
            let shown = hidden != Some(true) && in_time_range;
            let drawn = shown && ty != 6 && ty != 15;
            &&& !in_time_range ==> r == LayerAction::Skip
            &&& hidden == Some(true) ==> r == LayerAction::Skip
            &&& (r == LayerAction::Skip) <==> !shown
            &&& (r == LayerAction::CaptureAudio) <==> (shown && ty == 6)
            &&& (r == LayerAction::CaptureData) <==> (shown && ty == 15)
            &&& (r is Render) <==> drawn
            &&& (r == LayerAction::Render(LayerContentKind::Shapes)) <==> (drawn && has_shapes)
            &&& (r == LayerAction::Render(LayerContentKind::Text)) <==> (drawn && !has_shapes
                && has_text)
            &&& (r == LayerAction::Render(LayerContentKind::Precomp)) <==> (drawn && !has_shapes
                && !has_text && reference == RefResolution::Precomp)
            &&& (r == LayerAction::Render(LayerContentKind::Image)) <==> (drawn && !has_shapes
                && !has_text && reference == RefResolution::Image)
            &&& (r == LayerAction::Render(LayerContentKind::Solid)) <==> (drawn && !has_shapes
                && !has_text && reference == RefResolution::NoRef && has_color)
            &&& (r == LayerAction::Render(LayerContentKind::EmptyGroup)) <==> (drawn && !has_shapes
                && !has_text && (reference == RefResolution::Unresolved || (reference
                == RefResolution::NoRef && !has_color)))
        }),
{
}

/// Every layer of a composition is drawn exactly once by the plan: either as a
/// content layer or as the matte of the layer after it.
pub proof fn lemma_matte_plan_draws_each_layer_once(tts: Seq<Option<u8>>)
    requires
        tts.len() <= usize::MAX,
    ensures
        drawn_layers(matte_steps(tts, 0)).no_duplicates(),
        forall|j: usize| drawn_layers(matte_steps(tts, 0)).contains(j) <==> j < tts.len(),
{
    lemma_matte_steps_cover(tts, 0);
    assert(!takes_matte(tts, 0));
}

/// The layers drawn by the steps for `k ..` are `k ..` themselves, plus `k - 1`
/// when layer `k` takes it as its matte, each once.
proof fn lemma_matte_steps_cover(tts: Seq<Option<u8>>, k: int)
    requires
        0 <= k <= tts.len(),
        tts.len() <= usize::MAX,
    ensures
        drawn_layers(matte_steps(tts, k)).no_duplicates(),
        forall|j: usize|
            drawn_layers(matte_steps(tts, k)).contains(j) <==> ((k <= j < tts.len()) || (
            takes_matte(tts, k) && j == k - 1)),
    decreases tts.len() - k,
{
    let d = drawn_layers(matte_steps(tts, k));
    if k == tts.len() {
        assert(matte_steps(tts, k) =~= Seq::<RenderStep>::empty());
        assert(d =~= Seq::<usize>::empty());
        assert(!takes_matte(tts, k));
    } else {
        lemma_matte_steps_cover(tts, k + 1);
        let prev = drawn_layers(matte_steps(tts, k + 1));
        if takes_matte(tts, k + 1) {
            assert(!takes_matte(tts, k));
            assert(d == prev);
        } else {
            let s = step_for(tts, k);
            let steps = matte_steps(tts, k);
            assert(steps.drop_last() == matte_steps(tts, k + 1));
            assert(steps.last() == s);
            if takes_matte(tts, k) {
                assert(d == prev.push(k as usize).push((k - 1) as usize));
                assert forall|j: usize| d.contains(j) <==> ((k <= j < tts.len()) || j == k - 1) by {
                    if d.contains(j) {
                        let idx = choose|idx: int| 0 <= idx < d.len() && d[idx] == j;
                        if idx < prev.len() {
                            assert(prev.contains(j));
                        }
                    }
                    if k < j < tts.len() {
                        assert(prev.contains(j));
                        let idx = choose|idx: int| 0 <= idx < prev.len() && prev[idx] == j;
                        assert(d[idx] == j);
                    }
                    if j == k {
                        assert(d[prev.len() as int] == j);
                    }
                    if j == k - 1 {
                        assert(d[prev.len() as int + 1] == j);
                    }
                }
                assert forall|a: int, b: int| 0 <= a < d.len() && 0 <= b < d.len() && a != b
                    implies d[a] != d[b] by {
                    if a < prev.len() {
                        assert(prev.contains(d[a]));
                    }
                    if b < prev.len() {
                        assert(prev.contains(d[b]));
                    }
                }
            } else {
                assert(d == prev.push(k as usize));
                assert forall|j: usize| d.contains(j) <==> (k <= j < tts.len()) by {
                    if d.contains(j) {
                        let idx = choose|idx: int| 0 <= idx < d.len() && d[idx] == j;
                        if idx < prev.len() {
                            assert(prev.contains(j));
                        }
                    }
                    if k < j < tts.len() {
                        assert(prev.contains(j));
                        let idx = choose|idx: int| 0 <= idx < prev.len() && prev[idx] == j;
                        assert(d[idx] == j);
                    }
                    if j == k {
                        assert(d[prev.len() as int] == j);
                    }
                }
                assert forall|a: int, b: int| 0 <= a < d.len() && 0 <= b < d.len() && a != b
                    implies d[a] != d[b] by {
                    if a < prev.len() {
                        assert(prev.contains(d[a]));
                    }
                    if b < prev.len() {
                        assert(prev.contains(d[b]));
                    }
                }
            }
        }
    }
}

/// How a layer's `refId` resolved against the composition's assets.
#[derive(Debug, Clone, Copy, PartialEq, Eq, Structural)]
pub enum RefResolution {
    /// The layer has no `refId`.
    NoRef,
    /// The `refId` names no asset.
    Unresolved,
    /// The asset holds layers of its own (a precomposition).
    Precomp,
    /// The asset holds no layers (an image).
    Image,
}

/// What a layer's content is built from.
#[derive(Debug, Clone, Copy, PartialEq, Eq, Structural)]
pub enum LayerContentKind {
    Shapes,
    Text,
    Precomp,
    Image,
    Solid,
    EmptyGroup,
}

/// What becomes of one layer of a composition at the current frame.
#[derive(Debug, Clone, Copy, PartialEq, Eq, Structural)]
pub enum LayerAction {
    /// Nothing is drawn: the layer is hidden or outside its time range.
    Skip,
    /// An audio layer: a runtime audio event is recorded, nothing is drawn.
    CaptureAudio,
    /// A data layer: a runtime data binding is recorded, nothing is drawn.
    CaptureData,
    /// The layer is drawn with content of the given kind.
    Render(LayerContentKind),
}

pub open spec fn spec_layer_action(
    hidden: Option<bool>,
    in_time_range: bool,
    ty: u8,
    has_shapes: bool,
    has_text: bool,
    reference: RefResolution,
    has_color: bool,
) -> LayerAction {
    if hidden == Some(true) || !in_time_range {
        LayerAction::Skip
    } else if ty == 6 {
        LayerAction::CaptureAudio
    } else if ty == 15 {
        LayerAction::CaptureData
    } else if has_shapes {
        LayerAction::Render(LayerContentKind::Shapes)
    } else if has_text {
        LayerAction::Render(LayerContentKind::Text)
    } else if reference != RefResolution::NoRef {
        LayerAction::Render(
            match reference {
                RefResolution::Precomp => LayerContentKind::Precomp,
                RefResolution::Image => LayerContentKind::Image,
                _ => LayerContentKind::EmptyGroup,
            },
        )
    } else if has_color {
        LayerAction::Render(LayerContentKind::Solid)
    } else {
        LayerAction::Render(LayerContentKind::EmptyGroup)
    }
}

/// Decides what to do with a layer: hidden layers and layers outside their time
/// range are skipped; audio (type 6) and data (type 15) layers are captured;
/// any other layer is drawn from, in order of preference, its shapes, its text,
/// the asset it references, or its solid colour, and is otherwise an empty group.
pub fn layer_action(
    hidden: Option<bool>,
    in_time_range: bool,
    ty: u8,
    has_shapes: bool,
    has_text: bool,
    reference: RefResolution,
    has_color: bool,
) -> (r: LayerAction)
    ensures
        r == spec_layer_action(hidden, in_time_range, ty, has_shapes, has_text, reference, has_color),
        !in_time_range ==> r == LayerAction::Skip,
        hidden == Some(true) ==> r == LayerAction::Skip,
        (r == LayerAction::CaptureAudio) <==> (hidden != Some(true) && in_time_range && ty == 6),
        (r == LayerAction::CaptureData) <==> (hidden != Some(true) && in_time_range && ty == 15),
{
    proof {
        lemma_layer_action_rules(hidden, in_time_range, ty, has_shapes, has_text, reference, has_color);
    }
    if hidden == Some(true) {
        return LayerAction::Skip;
    }
    if !in_time_range {
        return LayerAction::Skip;
    }
    if ty == 6 {
        return LayerAction::CaptureAudio;
    }
    if ty == 15 {
        return LayerAction::CaptureData;
    }
    let kind = if has_shapes {
        LayerContentKind::Shapes
    } else if has_text {
        LayerContentKind::Text
    } else {
        match reference {
            RefResolution::Precomp => LayerContentKind::Precomp,
            RefResolution::Image => LayerContentKind::Image,
            RefResolution::Unresolved => LayerContentKind::EmptyGroup,
            RefResolution::NoRef => {
                if has_color {
                    LayerContentKind::Solid
                } else {
                    LayerContentKind::EmptyGroup
                }
            },
        }
    };
    LayerAction::Render(kind)
}

/// The active camera: the first layer (top-most) of type 13 that is visible.
pub fn active_camera_index(types: &Vec<u8>, visible: &Vec<bool>) -> (r: Option<usize>)
    requires
        types@.len() == visible@.len(),
    ensures
        match r {
            Some(i) => i < types@.len() && types@[i as int] == 13 && visible@[i as int] && forall|
                j: int,
            | 0 <= j < i ==> !(types@[j] == 13 && visible@[j]),
            None => forall|j: int| 0 <= j < types@.len() ==> !(types@[j] == 13 && visible@[j]),
        },
{
    let mut i: usize = 0;
    while i < types.len()
        invariant
            types@.len() == visible@.len(),
            i <= types@.len(),
            forall|j: int| 0 <= j < i ==> !(types@[j] == 13 && visible@[j]),
        decreases types@.len() - i,
    {
        if types[i] == 13 && visible[i] {
            return Some(i);
        }
        i = i + 1;
    }
    None
}

/// The layer that a parent index denotes: the last layer in the list carrying
/// that index (later layers replace earlier ones with the same index).
#[verifier::opaque]
pub open spec fn layer_with_index(inds: Seq<Option<u32>>, p: u32) -> Option<int> {
    if exists|j: int| 0 <= j < inds.len() && inds[j] == Some(p) {
        Some(
            choose|j: int|
                0 <= j < inds.len() && inds[j] == Some(p) && forall|k: int|
                    j < k < inds.len() ==> inds[k] != Some(p),
        )
    } else {
        None
    }
}

/// The parent of layer `i`, if it has one that resolves.
pub open spec fn parent_of(inds: Seq<Option<u32>>, parents: Seq<Option<u32>>, i: int) -> Option<
    int,
> {
    match parents[i] {
        Some(p) => layer_with_index(inds, p),
        None => None,
    }
}

/// Following parents from layer `i` reaches a root within `fuel` steps.
pub open spec fn reaches_root(
    inds: Seq<Option<u32>>,
    parents: Seq<Option<u32>>,
    i: int,
    fuel: nat,
) -> bool
    decreases fuel,
{
    fuel > 0 && match parent_of(inds, parents, i) {
        Some(j) => reaches_root(inds, parents, j, (fuel - 1) as nat),
        None => true,
    }
}

/// The chain of layers from layer `i` up through its parents to the root.
pub open spec fn parent_chain_spec(
    inds: Seq<Option<u32>>,
    parents: Seq<Option<u32>>,
    i: int,
    fuel: nat,
) -> Seq<usize>
    decreases fuel,
{
    if fuel == 0 {
        Seq::empty()
    } else {
        seq![i as usize] + match parent_of(inds, parents, i) {
            Some(j) => parent_chain_spec(inds, parents, j, (fuel - 1) as nat),
            None => Seq::empty(),
        }
    }
}

/// Following parents from layer `s[0]` visits `s[1]`, `s[2]`, and so on.
pub open spec fn is_parent_path(inds: Seq<Option<u32>>, parents: Seq<Option<u32>>, s: Seq<int>) -> bool {
    forall|x: int| 0 <= x < s.len() - 1 ==> parent_of(inds, parents, #[trigger] s[x]) == Some(s[x + 1])
}

/// Layer `j` is its own ancestor: following parents from it comes back to it.
pub open spec fn own_ancestor(inds: Seq<Option<u32>>, parents: Seq<Option<u32>>, j: int) -> bool {
    exists|s: Seq<int>| s.len() >= 2 && is_parent_path(inds, parents, s) && s[0] == j && s.last() == j
}

/// When some layer carries index `p`, a last one does.
proof fn lemma_last_with_index(inds: Seq<Option<u32>>, p: u32)
    requires
        exists|j: int| 0 <= j < inds.len() && inds[j] == Some(p),
    ensures
        exists|j: int|
            0 <= j < inds.len() && inds[j] == Some(p) && forall|k: int|
                j < k < inds.len() ==> inds[k] != Some(p),
    decreases inds.len(),
{
    let n = inds.len() as int;
    if inds[n - 1] == Some(p) {
        assert(forall|k: int| n - 1 < k < n ==> inds[k] != Some(p));
    } else {
        let j0 = choose|j: int| 0 <= j < inds.len() && inds[j] == Some(p);
        let prefix = inds.drop_last();
        assert(prefix[j0] == inds[j0]);
        lemma_last_with_index(prefix, p);
        let j = choose|j: int|
            0 <= j < prefix.len() && prefix[j] == Some(p) && forall|k: int|
                j < k < prefix.len() ==> prefix[k] != Some(p);
        assert forall|k: int| j < k < inds.len() implies inds[k] != Some(p) by {
            if k < n - 1 {
                assert(inds[k] == prefix[k]);
            }
        }
    }
}

proof fn lemma_parent_in_range(inds: Seq<Option<u32>>, parents: Seq<Option<u32>>, i: int)
    requires
        0 <= i < parents.len(),
    ensures
        parent_of(inds, parents, i) matches Some(j) ==> 0 <= j < inds.len(),
{
    reveal(layer_with_index);
    if let Some(p) = parents[i] {
        if exists|j: int| 0 <= j < inds.len() && inds[j] == Some(p) {
            lemma_last_with_index(inds, p);
        }
    }
}

/// Without reaching a root within `fuel` steps, following parents from layer `i`
/// visits `fuel + 1` layers.
proof fn lemma_long_parent_path(inds: Seq<Option<u32>>, parents: Seq<Option<u32>>, i: int, fuel: nat)
    requires
        inds.len() == parents.len(),
        0 <= i < inds.len(),
        !reaches_root(inds, parents, i, fuel),
    ensures
        exists|s: Seq<int>|
            s.len() == fuel + 1 && s[0] == i && is_parent_path(inds, parents, s) && forall|x: int|
                0 <= x < s.len() ==> 0 <= #[trigger] s[x] < inds.len(),
    decreases fuel,
{
    if fuel == 0 {
        let s = seq![i];
        assert(is_parent_path(inds, parents, s));
        assert(s.len() == fuel + 1 && s[0] == i && forall|x: int| 0 <= x < s.len() ==> 0 <= #[trigger] s[x] < inds.len());
    } else {
        lemma_parent_in_range(inds, parents, i);
        let j = parent_of(inds, parents, i)->0;
        lemma_long_parent_path(inds, parents, j, (fuel - 1) as nat);
        let t = choose|t: Seq<int>|
            t.len() == fuel && t[0] == j && is_parent_path(inds, parents, t) && forall|x: int|
                0 <= x < t.len() ==> 0 <= #[trigger] t[x] < inds.len();
        let s = seq![i] + t;
        assert forall|x: int| 0 <= x < s.len() - 1 implies parent_of(inds, parents, #[trigger] s[x]) == Some(s[x + 1]) by {
            if x > 0 {
                assert(s[x] == t[x - 1] && s[x + 1] == t[x]);
            }
        }
        assert forall|x: int| 0 <= x < s.len() implies 0 <= #[trigger] s[x] < inds.len() by {
            if x > 0 {
                assert(s[x] == t[x - 1]);
            }
        }
        assert(s.len() == fuel + 1 && s[0] == i && is_parent_path(inds, parents, s));
    }
}

/// A layer whose parents do not reach a root within as many steps as there are
/// layers has an ancestor that is its own ancestor: there is no world transform
/// only when the parent links form a cycle.
pub proof fn lemma_no_root_means_parent_cycle(inds: Seq<Option<u32>>, parents: Seq<Option<u32>>, i: int)
    requires
        inds.len() == parents.len(),
        0 <= i < inds.len(),
        !reaches_root(inds, parents, i, inds.len() as nat),
    ensures
        exists|j: int| 0 <= j < inds.len() && #[trigger] own_ancestor(inds, parents, j),
{
    let n = inds.len() as int;
    lemma_long_parent_path(inds, parents, i, n as nat);
    let s = choose|s: Seq<int>|
        s.len() == n + 1 && s[0] == i && is_parent_path(inds, parents, s) && forall|x: int|
            0 <= x < s.len() ==> 0 <= #[trigger] s[x] < inds.len();
    lemma_pigeonhole(s, n);
    let (a, b) = choose|a: int, b: int| 0 <= a < b < s.len() && #[trigger] s[a] == #[trigger] s[b];
    let c = s.subrange(a, b + 1);
    assert forall|x: int| 0 <= x < c.len() - 1 implies parent_of(inds, parents, #[trigger] c[x]) == Some(c[x + 1]) by {
        assert(c[x] == s[a + x] && c[x + 1] == s[a + x + 1]);
    }
    assert(c.len() >= 2 && is_parent_path(inds, parents, c) && c[0] == s[a] && c.last() == s[a]);
    assert(own_ancestor(inds, parents, s[a]));
}

/// The last layer carrying index `p`, if any.
fn find_layer_with_index(inds: &Vec<Option<u32>>, p: u32) -> (r: Option<usize>)
    ensures
        match r {
            Some(j) => j < inds@.len() && layer_with_index(inds@, p) == Some(j as int),
            None => layer_with_index(inds@, p) is None,
        },
{
    reveal(layer_with_index);
    let mut i: usize = inds.len();
    while i > 0
        invariant
            i <= inds@.len(),
            forall|k: int| i <= k < inds@.len() ==> inds@[k] != Some(p),
        decreases i,
    {
        i = i - 1;
        if inds[i] == Some(p) {
            let j = i;
            reveal(layer_with_index);
            assert(exists|j: int| 0 <= j < inds@.len() && inds@[j] == Some(p));
            let ghost c = choose|c: int|
                0 <= c < inds@.len() && inds@[c] == Some(p) && forall|k: int|
                    c < k < inds@.len() ==> inds@[k] != Some(p);
            assert(c == j as int) by {
                if c < j {
                    assert(inds@[j as int] != Some(p));
                }
                if c > j {
                    assert(inds@[c] != Some(p));
                }
            }
            return Some(j);
        }
    }
    None
}

/// The layers whose transforms make up the world transform of layer `start`:
/// the layer itself, then its parent, its parent's parent, and so on up to a
/// layer whose parent index is absent or names no layer. The world transform is
/// the product of their local transforms, root first. When following parents
/// never reaches such a layer (the parent links then form a cycle:
/// `lemma_no_root_means_parent_cycle`) there is no world transform, and the
/// result is `None`.
pub fn parent_chain(inds: &Vec<Option<u32>>, parents: &Vec<Option<u32>>, start: usize) -> (r: Option<
    Vec<usize>,
>)
    requires
        inds@.len() == parents@.len(),
        start < inds@.len(),
    ensures
        match r {
            Some(chain) => reaches_root(inds@, parents@, start as int, inds@.len() as nat)
                && chain@ == parent_chain_spec(inds@, parents@, start as int, inds@.len() as nat),
            None => !reaches_root(inds@, parents@, start as int, inds@.len() as nat),
        },
{
    let n = inds.len();
    let mut chain: Vec<usize> = Vec::new();
    let mut cur: usize = start;
    let mut fuel: usize = n;
    let ghost full = parent_chain_spec(inds@, parents@, start as int, n as nat);
    loop
        invariant
            n == inds@.len(),
            n == parents@.len(),
            cur < n,
            fuel <= n,
            reaches_root(inds@, parents@, cur as int, fuel as nat) == reaches_root(
                inds@,
                parents@,
                start as int,
                n as nat,
            ),
            full == chain@ + parent_chain_spec(inds@, parents@, cur as int, fuel as nat),
            full == parent_chain_spec(inds@, parents@, start as int, n as nat),
        decreases fuel,
    {
        if fuel == 0 {
            assert(!reaches_root(inds@, parents@, cur as int, fuel as nat));
            return None;
        }
        let ghost before = chain@;
        chain.push(cur);
        assert(chain@.drop_last() =~= before);
        let next = match parents[cur] {
            Some(p) => find_layer_with_index(inds, p),
            None => None,
        };
        assert(next matches Some(j) ==> parent_of(inds@, parents@, cur as int) == Some(j as int));
        assert(next is None ==> parent_of(inds@, parents@, cur as int) is None);
        match next {
            Some(j) => {
                proof {
                    assert(reaches_root(inds@, parents@, cur as int, fuel as nat) == reaches_root(
                        inds@,
                        parents@,
                        j as int,
                        (fuel - 1) as nat,
                    ));
                    assert(chain@ + parent_chain_spec(inds@, parents@, j as int, (fuel - 1) as nat)
                        =~= chain@.drop_last() + parent_chain_spec(
                        inds@,
                        parents@,
                        cur as int,
                        fuel as nat,
                    ));
                }
                cur = j;
                fuel = fuel - 1;
            },
            None => {
                proof {
                    assert(reaches_root(inds@, parents@, cur as int, fuel as nat));
                    assert(parent_chain_spec(inds@, parents@, cur as int, fuel as nat) =~= seq![
                        cur,
                    ]);
                    assert(full =~= chain@);
                }
                return Some(chain);
            },
        }
    }
}

} // verus!
