use vstd::prelude::*;
use crate::strings::{contains_seq, str_contains, str_equals};

verus! {

/// Compositing blend modes, in the order of their Lottie codes 0 through 15.
#[derive(Debug, Clone, Copy, PartialEq, Eq, Structural)]
pub enum BlendMode {
    Normal,
    Multiply,
    Screen,
    Overlay,
    Darken,
    Lighten,
    ColorDodge,
    ColorBurn,
    HardLight,
    SoftLight,
    Difference,
    Exclusion,
    Hue,
    Saturation,
    Color,
    Luminosity,
}

/// Track-matte modes.
#[derive(Debug, Clone, Copy, PartialEq, Eq, Structural)]
pub enum MatteMode {
    Alpha,
    AlphaInverted,
    Luma,
    LumaInverted,
}

/// Mask combination modes.
#[derive(Debug, Clone, Copy, PartialEq, Eq, Structural)]
pub enum MaskMode {
    NoMask,
    Add,
    Subtract,
    Intersect,
    Lighten,
    Darken,
    Difference,
}

/// Boolean operations of the merge-paths shape.
#[derive(Debug, Clone, Copy, PartialEq, Eq, Structural)]
pub enum MergeMode {
    Merge,
    Add,
    Subtract,
    Intersect,
    Exclude,
}

/// Colour channels that a displacement map can read.
#[derive(Debug, Clone, Copy, PartialEq, Eq, Structural)]
pub enum ColorChannel {
    R,
    G,
    B,
    A,
}

/// Gradient geometry.
#[derive(Debug, Clone, Copy, PartialEq, Eq, Structural)]
pub enum GradientKind {
    Linear,
    Radial,
}

/// Horizontal text justification.
#[derive(Debug, Clone, Copy, PartialEq, Eq, Structural)]
pub enum Justification {
    Left,
    Right,
    Center,
}

/// How the ends of a stroke are drawn.
#[derive(Debug, Clone, Copy, PartialEq, Eq, Structural)]
pub enum LineCap {
    Butt,
    Round,
    Square,
}

/// How the corners of a stroke are drawn.
#[derive(Debug, Clone, Copy, PartialEq, Eq, Structural)]
pub enum LineJoin {
    Miter,
    Round,
    Bevel,
}

/// The layer styles that the renderer draws.
#[derive(Debug, Clone, Copy, PartialEq, Eq, Structural)]
pub enum LayerStyleKind {
    DropShadow,
    InnerShadow,
    OuterGlow,
    Stroke,
}

/// The blend mode that a Lottie blend-mode code denotes; unknown codes mean `Normal`.
pub open spec fn spec_blend_mode(code: u8) -> BlendMode {
    if code == 1 {
        BlendMode::Multiply
    } else if code == 2 {
        BlendMode::Screen
    } else if code == 3 {
        BlendMode::Overlay
    } else if code == 4 {
        BlendMode::Darken
    } else if code == 5 {
        BlendMode::Lighten
    } else if code == 6 {
        BlendMode::ColorDodge
    } else if code == 7 {
        BlendMode::ColorBurn
    } else if code == 8 {
        BlendMode::HardLight
    } else if code == 9 {
        BlendMode::SoftLight
    } else if code == 10 {
        BlendMode::Difference
    } else if code == 11 {
        BlendMode::Exclusion
    } else if code == 12 {
        BlendMode::Hue
    } else if code == 13 {
        BlendMode::Saturation
    } else if code == 14 {
        BlendMode::Color
    } else if code == 15 {
        BlendMode::Luminosity
    } else {
        BlendMode::Normal
    }
}

/// The Lottie code of a blend mode.
pub open spec fn spec_blend_mode_code(m: BlendMode) -> u8 {
    match m {
        BlendMode::Normal => 0,
        BlendMode::Multiply => 1,
        BlendMode::Screen => 2,
        BlendMode::Overlay => 3,
        BlendMode::Darken => 4,
        BlendMode::Lighten => 5,
        BlendMode::ColorDodge => 6,
        BlendMode::ColorBurn => 7,
        BlendMode::HardLight => 8,
        BlendMode::SoftLight => 9,
        BlendMode::Difference => 10,
        BlendMode::Exclusion => 11,
        BlendMode::Hue => 12,
        BlendMode::Saturation => 13,
        BlendMode::Color => 14,
        BlendMode::Luminosity => 15,
    }
}

/// Maps a layer's optional blend-mode code to a blend mode (absent means `Normal`).
pub fn blend_mode_from_code(bm: Option<u8>) -> (r: BlendMode)
    ensures
        r == spec_blend_mode(
            match bm {
                Some(c) => c,
                None => 0u8,
            },
        ),
{
    let code = match bm {
        Some(c) => c,
        None => 0,
    };
    match code {
        1 => BlendMode::Multiply,
        2 => BlendMode::Screen,
        3 => BlendMode::Overlay,
        4 => BlendMode::Darken,
        5 => BlendMode::Lighten,
        6 => BlendMode::ColorDodge,
        7 => BlendMode::ColorBurn,
        8 => BlendMode::HardLight,
        9 => BlendMode::SoftLight,
        10 => BlendMode::Difference,
        11 => BlendMode::Exclusion,
        12 => BlendMode::Hue,
        13 => BlendMode::Saturation,
        14 => BlendMode::Color,
        15 => BlendMode::Luminosity,
        _ => BlendMode::Normal,
    }
}

/// The Lottie code of a blend mode.
pub fn blend_mode_code(m: BlendMode) -> (r: u8)
    ensures
        r == spec_blend_mode_code(m),
{
    match m {
        BlendMode::Normal => 0,
        BlendMode::Multiply => 1,
        BlendMode::Screen => 2,
        BlendMode::Overlay => 3,
        BlendMode::Darken => 4,
        BlendMode::Lighten => 5,
        BlendMode::ColorDodge => 6,
        BlendMode::ColorBurn => 7,
        BlendMode::HardLight => 8,
        BlendMode::SoftLight => 9,
        BlendMode::Difference => 10,
        BlendMode::Exclusion => 11,
        BlendMode::Hue => 12,
        BlendMode::Saturation => 13,
        BlendMode::Color => 14,
        BlendMode::Luminosity => 15,
    }
}

/// Blend-mode codes and blend modes correspond one to one: every code below 16
/// names a distinct mode, every mode has such a code, and every other code
/// falls back to `Normal`.
pub proof fn lemma_blend_mode_codes(code: u8, m: BlendMode)
    ensures
        code < 16 ==> spec_blend_mode_code(spec_blend_mode(code)) == code,
        code >= 16 ==> spec_blend_mode(code) == BlendMode::Normal,
        spec_blend_mode(spec_blend_mode_code(m)) == m,
        spec_blend_mode_code(m) < 16,
{
}

/// The matte mode that a layer's `tt` code denotes; unknown codes mean `Alpha`.
pub open spec fn spec_matte_mode(tt: u8) -> MatteMode {
    if tt == 2 {
        MatteMode::AlphaInverted
    } else if tt == 3 {
        MatteMode::Luma
    } else if tt == 4 {
        MatteMode::LumaInverted
    } else {
        MatteMode::Alpha
    }
}

/// Maps a track-matte code (1 alpha, 2 inverted alpha, 3 luma, 4 inverted luma).
pub fn matte_mode_from_code(tt: u8) -> (r: MatteMode)
    ensures
        r == spec_matte_mode(tt),
{
    match tt {
        1 => MatteMode::Alpha,
        2 => MatteMode::AlphaInverted,
        3 => MatteMode::Luma,
        4 => MatteMode::LumaInverted,
        _ => MatteMode::Alpha,
    }
}

/// The track-matte codes 1 to 4 name four different matte modes, in the order
/// alpha, inverted alpha, luma, inverted luma: each mode other than alpha comes
/// from exactly one code, and alpha from code 1 and the unknown codes.
pub proof fn lemma_matte_mode_codes(tt: u8, other: u8)
    ensures
        (spec_matte_mode(tt) == MatteMode::AlphaInverted) <==> tt == 2,
        (spec_matte_mode(tt) == MatteMode::Luma) <==> tt == 3,
        (spec_matte_mode(tt) == MatteMode::LumaInverted) <==> tt == 4,
        (spec_matte_mode(tt) == MatteMode::Alpha) <==> (tt == 1 || tt == 0 || tt > 4),
        1 <= tt <= 4 && 1 <= other <= 4 && tt != other ==> spec_matte_mode(tt) != spec_matte_mode(
            other,
        ),
{
}

/// The mask mode a mask's one-letter mode string denotes, if any.
pub open spec fn spec_mask_mode(mode: Seq<char>) -> Option<MaskMode> {
    if mode == seq!['n'] {
        Some(MaskMode::NoMask)
    } else if mode == seq!['a'] {
        Some(MaskMode::Add)
    } else if mode == seq!['s'] {
        Some(MaskMode::Subtract)
    } else if mode == seq!['i'] {
        Some(MaskMode::Intersect)
    } else if mode == seq!['l'] {
        Some(MaskMode::Lighten)
    } else if mode == seq!['d'] {
        Some(MaskMode::Darken)
    } else if mode == seq!['f'] {
        Some(MaskMode::Difference)
    } else {
        None
    }
}

/// Maps a mask's mode string; a mask without a known mode is not applied, which
/// this function reports as `None`.
pub fn mask_mode_from_code(mode: Option<&str>) -> (r: Option<MaskMode>)
    ensures
        r == (match mode {
            Some(m) => spec_mask_mode(m@),
            None => None,
        }),
{
    match mode {
        None => None,
        Some(m) => {
            if m.unicode_len() != 1 {
                assert(m@ != seq!['n'] && m@ != seq!['a'] && m@ != seq!['s'] && m@ != seq!['i']
                    && m@ != seq!['l'] && m@ != seq!['d'] && m@ != seq!['f']);
                return None;
            }
            let c = m.get_char(0);
            assert(m@ =~= seq![c]);
            if c == 'n' {
                Some(MaskMode::NoMask)
            } else if c == 'a' {
                Some(MaskMode::Add)
            } else if c == 's' {
                Some(MaskMode::Subtract)
            } else if c == 'i' {
                Some(MaskMode::Intersect)
            } else if c == 'l' {
                Some(MaskMode::Lighten)
            } else if c == 'd' {
                Some(MaskMode::Darken)
            } else if c == 'f' {
                Some(MaskMode::Difference)
            } else {
                None
            }
        },
    }
}

/// Each of the seven mask mode letters names its own mode: `n` none, `a` add,
/// `s` subtract, `i` intersect, `l` lighten, `d` darken, `f` difference; no other
/// string names a mode.
pub proof fn lemma_mask_mode_letters(mode: Seq<char>)
    ensures
        (spec_mask_mode(mode) == Some(MaskMode::NoMask)) <==> mode == seq!['n'],
        (spec_mask_mode(mode) == Some(MaskMode::Add)) <==> mode == seq!['a'],
        (spec_mask_mode(mode) == Some(MaskMode::Subtract)) <==> mode == seq!['s'],
        (spec_mask_mode(mode) == Some(MaskMode::Intersect)) <==> mode == seq!['i'],
        (spec_mask_mode(mode) == Some(MaskMode::Lighten)) <==> mode == seq!['l'],
        (spec_mask_mode(mode) == Some(MaskMode::Darken)) <==> mode == seq!['d'],
        (spec_mask_mode(mode) == Some(MaskMode::Difference)) <==> mode == seq!['f'],
        mode.len() != 1 ==> spec_mask_mode(mode) is None,
{
    assert forall|a: char, b: char| a != b implies seq![a] != seq![b] by {
        assert(seq![a][0] != seq![b][0]);
    }
}

/// The merge-paths codes 1 to 5 name five different operations, in the order
/// merge, add, subtract, intersect, exclude: each operation other than merge
/// comes from exactly one code, and merge from code 1 and the unknown codes.
pub proof fn lemma_merge_mode_codes(mm: u8, other: u8)
    ensures
        (spec_merge_mode(mm) == MergeMode::Add) <==> mm == 2,
        (spec_merge_mode(mm) == MergeMode::Subtract) <==> mm == 3,
        (spec_merge_mode(mm) == MergeMode::Intersect) <==> mm == 4,
        (spec_merge_mode(mm) == MergeMode::Exclude) <==> mm == 5,
        (spec_merge_mode(mm) == MergeMode::Merge) <==> (mm == 1 || mm == 0 || mm > 5),
        1 <= mm <= 5 && 1 <= other <= 5 && mm != other ==> spec_merge_mode(mm) != spec_merge_mode(
            other,
        ),
{
}

/// The merge mode of a merge-paths code; unknown codes mean `Merge`.
pub open spec fn spec_merge_mode(mm: u8) -> MergeMode {
    if mm == 2 {
        MergeMode::Add
    } else if mm == 3 {
        MergeMode::Subtract
    } else if mm == 4 {
        MergeMode::Intersect
    } else if mm == 5 {
        MergeMode::Exclude
    } else {
        MergeMode::Merge
    }
}

/// Maps a merge-paths code (1 merge, 2 add, 3 subtract, 4 intersect, 5 exclude).
pub fn merge_mode_from_code(mm: u8) -> (r: MergeMode)
    ensures
        r == spec_merge_mode(mm),
{
    match mm {
        1 => MergeMode::Merge,
        2 => MergeMode::Add,
        3 => MergeMode::Subtract,
        4 => MergeMode::Intersect,
        5 => MergeMode::Exclude,
        _ => MergeMode::Merge,
    }
}

/// The colour channel of a (rounded) channel code; unknown codes mean alpha.
pub open spec fn spec_color_channel(code: i32) -> ColorChannel {
    if code == 1 {
        ColorChannel::R
    } else if code == 2 {
        ColorChannel::G
    } else if code == 3 {
        ColorChannel::B
    } else {
        ColorChannel::A
    }
}

/// Maps a rounded channel code (1 red, 2 green, 3 blue, 4 alpha).
pub fn color_channel_from_code(code: i32) -> (r: ColorChannel)
    ensures
        r == spec_color_channel(code),
{
    match code {
        1 => ColorChannel::R,
        2 => ColorChannel::G,
        3 => ColorChannel::B,
        4 => ColorChannel::A,
        _ => ColorChannel::A,
    }
}

/// The channel codes 1, 2 and 3 name red, green and blue, each its own; every
/// other code, 4 included, reads alpha.
pub proof fn lemma_color_channel_codes(code: i32)
    ensures
        (spec_color_channel(code) == ColorChannel::R) <==> code == 1,
        (spec_color_channel(code) == ColorChannel::G) <==> code == 2,
        (spec_color_channel(code) == ColorChannel::B) <==> code == 3,
        (spec_color_channel(code) == ColorChannel::A) <==> (code != 1 && code != 2 && code != 3),
{
}

/// A gradient is linear when its type code is 1 and radial otherwise.
pub fn gradient_kind_from_code(t: u8) -> (r: GradientKind)
    ensures
        r == (if t == 1 {
            GradientKind::Linear
        } else {
            GradientKind::Radial
        }),
{
    if t == 1 {
        GradientKind::Linear
    } else {
        GradientKind::Radial
    }
}

/// Maps a text document's justification code (1 right, 2 center, else left).
pub fn justification_from_code(j: u8) -> (r: Justification)
    ensures
        r == (if j == 1 {
            Justification::Right
        } else if j == 2 {
            Justification::Center
        } else {
            Justification::Left
        }),
{
    match j {
        1 => Justification::Right,
        2 => Justification::Center,
        _ => Justification::Left,
    }
}

/// Which layer style a style entry renders as: types 0, 1 and 2 are drop shadow,
/// inner shadow and outer glow; any other entry whose name contains "Stroke" is a
/// stroke, as are types 3 and 8 (an absent type counts as 8); the rest is skipped.
pub open spec fn spec_layer_style_kind(ty: Option<u8>, name: Option<Seq<char>>) -> Option<
    LayerStyleKind,
> {
    let t = match ty {
        Some(t) => t,
        None => 8u8,
    };
    if t == 0 {
        Some(LayerStyleKind::DropShadow)
    } else if t == 1 {
        Some(LayerStyleKind::InnerShadow)
    } else if t == 2 {
        Some(LayerStyleKind::OuterGlow)
    } else if (name matches Some(n) && contains_seq(n, "Stroke"@)) || t == 3 || t == 8 {
        Some(LayerStyleKind::Stroke)
    } else {
        None
    }
}

/// Decides the kind of a layer-style entry from its type code and name.
pub fn layer_style_kind(ty: Option<u8>, name: Option<&str>) -> (r: Option<LayerStyleKind>)
    ensures
        r == spec_layer_style_kind(
            ty,
            match name {
                Some(n) => Some(n@),
                None => None,
            },
        ),
{
    let t = match ty {
        Some(t) => t,
        None => 8,
    };
    if t == 0 {
        return Some(LayerStyleKind::DropShadow);
    } else if t == 1 {
        return Some(LayerStyleKind::InnerShadow);
    } else if t == 2 {
        return Some(LayerStyleKind::OuterGlow);
    }
    let named_stroke = match name {
        Some(n) => str_contains(n, "Stroke"),
        None => false,
    };
    if named_stroke || t == 3 || t == 8 {
        Some(LayerStyleKind::Stroke)
    } else {
        None
    }
}

/// Style types 0, 1 and 2 are drop shadow, inner shadow and outer glow, each
/// its own, whatever the entry's name; an entry of another type (an absent type
/// counting as 8) is a stroke exactly when its type is 3 or 8 or its name
/// contains "Stroke", and is skipped otherwise.
pub proof fn lemma_layer_style_kinds(ty: Option<u8>, name: Option<Seq<char>>)
    ensures
        ({
            let t = match ty {
                Some(t) => t,
                None => 8u8,
            };
            let r = spec_layer_style_kind(ty, name);
            &&& (r == Some(LayerStyleKind::DropShadow)) <==> t == 0
            &&& (r == Some(LayerStyleKind::InnerShadow)) <==> t == 1
            &&& (r == Some(LayerStyleKind::OuterGlow)) <==> t == 2
            &&& (r == Some(LayerStyleKind::Stroke)) <==> (t > 2 && (t == 3 || t == 8 || (
            name matches Some(n) && contains_seq(n, "Stroke"@))))
            &&& (r is None) <==> (t > 2 && t != 3 && t != 8 && !(name matches Some(n)
                && contains_seq(n, "Stroke"@)))
        }),
{
}

/// The line cap of a stroke's `lc` code: 1 butt, 3 square, anything else round.
pub fn line_cap_from_code(lc: u8) -> (r: LineCap)
    ensures
        r == (if lc == 1 {
            LineCap::Butt
        } else if lc == 3 {
            LineCap::Square
        } else {
            LineCap::Round
        }),
{
    match lc {
        1 => LineCap::Butt,
        3 => LineCap::Square,
        _ => LineCap::Round,
    }
}

/// The line join of a stroke's `lj` code: 1 miter, 3 bevel, anything else round.
pub fn line_join_from_code(lj: u8) -> (r: LineJoin)
    ensures
        r == (if lj == 1 {
            LineJoin::Miter
        } else if lj == 3 {
            LineJoin::Bevel
        } else {
            LineJoin::Round
        }),
{
    match lj {
        1 => LineJoin::Miter,
        3 => LineJoin::Bevel,
        _ => LineJoin::Round,
    }
}

/// The entries of a list that a per-entry decision keeps, in order, each with
/// its position in the list.
pub open spec fn kept<A>(ds: Seq<Option<A>>) -> Seq<(usize, A)>
    decreases ds.len(),
{
    if ds.len() == 0 {
        Seq::empty()
    } else {
        let prev = kept(ds.drop_last());
        match ds.last() {
            Some(a) => prev.push(((ds.len() - 1) as usize, a)),
            None => prev,
        }
    }
}

/// The mask mode that a mask's optional mode string denotes.
pub open spec fn mask_mode_of(mode: Option<String>) -> Option<MaskMode> {
    match mode {
        Some(m) => spec_mask_mode(m@),
        None => None,
    }
}

/// The masks of a layer from their mode strings: in order, each mask with a
/// known mode and that mode; masks without one are skipped.
pub fn layer_mask_modes(modes: &Vec<Option<String>>) -> (r: Vec<(usize, MaskMode)>)
    ensures
        r@ == kept(Seq::new(modes@.len(), |k: int| mask_mode_of(modes@[k]))),
{
    let mut r: Vec<(usize, MaskMode)> = Vec::new();
    let mut i: usize = 0;
    while i < modes.len()
        invariant
            i <= modes@.len(),
            r@ == kept(Seq::new(i as nat, |k: int| mask_mode_of(modes@[k]))),
        decreases modes@.len() - i,
    {
        let mode = match &modes[i] {
            Some(m) => mask_mode_from_code(Some(m.as_str())),
            None => None,
        };
        let ghost ds = Seq::new((i + 1) as nat, |k: int| mask_mode_of(modes@[k]));
        assert(ds.drop_last() =~= Seq::new(i as nat, |k: int| mask_mode_of(modes@[k])));
        assert(ds.last() == mode);
        match mode {
            Some(m) => {
                r.push((i, m));
            },
            None => {},
        }
        i = i + 1;
    }
    r
}

/// The parts of one layer-style entry that decide how it is applied.
#[derive(Debug, Clone)]
pub struct StyleEntry {
    pub ty: Option<u8>,
    pub nm: Option<String>,
}

/// The style kind of an entry.
pub open spec fn style_kind_of(e: StyleEntry) -> Option<LayerStyleKind> {
    spec_layer_style_kind(
        e.ty,
        match e.nm {
            Some(n) => Some(n@),
            None => None,
        },
    )
}

/// The styles of a layer: in order, each entry that renders as a style, with
/// its kind; the rest are skipped.
pub fn layer_styles(entries: &Vec<StyleEntry>) -> (r: Vec<(usize, LayerStyleKind)>)
    ensures
        r@ == kept(Seq::new(entries@.len(), |k: int| style_kind_of(entries@[k]))),
{
    let mut r: Vec<(usize, LayerStyleKind)> = Vec::new();
    let mut i: usize = 0;
    while i < entries.len()
        invariant
            i <= entries@.len(),
            r@ == kept(Seq::new(i as nat, |k: int| style_kind_of(entries@[k]))),
        decreases entries@.len() - i,
    {
        let e = &entries[i];
        let kind = layer_style_kind(
            e.ty,
            match &e.nm {
                Some(n) => Some(n.as_str()),
                None => None,
            },
        );
        let ghost ds = Seq::new((i + 1) as nat, |k: int| style_kind_of(entries@[k]));
        assert(ds.drop_last() =~= Seq::new(i as nat, |k: int| style_kind_of(entries@[k])));
        assert(ds.last() == kind);
        match kind {
            Some(k) => {
                r.push((i, k));
            },
            None => {},
        }
        i = i + 1;
    }
    r
}

} // verus!
