use vstd::prelude::*;
use crate::schema::spec_effect_type_support;
use crate::schema::SchemaSupport;
use crate::modes::kept;
use crate::strings::{ascii_lower_seq, chars_contain, contains_seq, lower_chars};

verus! {

/// The runtime effect that an effect entry becomes.
#[derive(Debug, Clone, Copy, PartialEq, Eq, Structural)]
pub enum EffectKind {
    CustomGroup,
    Tint,
    Fill,
    Stroke,
    Tritone,
    Levels,
    DropShadow,
    RadialWipe,
    DisplacementMap,
    Matte3,
    GaussianBlur,
    Twirl,
    MeshWarp,
    Wavy,
    Spherize,
    Puppet,
    Unsupported,
}

pub open spec fn spec_effect_kind(ty: u8) -> EffectKind {
    if ty == 5 {
        EffectKind::CustomGroup
    } else if ty == 20 {
        EffectKind::Tint
    } else if ty == 21 {
        EffectKind::Fill
    } else if ty == 22 {
        EffectKind::Stroke
    } else if ty == 23 {
        EffectKind::Tritone
    } else if ty == 24 {
        EffectKind::Levels
    } else if ty == 25 {
        EffectKind::DropShadow
    } else if ty == 26 {
        EffectKind::RadialWipe
    } else if ty == 27 {
        EffectKind::DisplacementMap
    } else if ty == 28 {
        EffectKind::Matte3
    } else if ty == 29 {
        EffectKind::GaussianBlur
    } else if ty == 30 {
        EffectKind::Twirl
    } else if ty == 31 {
        EffectKind::MeshWarp
    } else if ty == 32 {
        EffectKind::Wavy
    } else if ty == 33 {
        EffectKind::Spherize
    } else if ty == 34 {
        EffectKind::Puppet
    } else {
        EffectKind::Unsupported
    }
}

/// The runtime effect of an effect type code.
pub fn effect_kind(ty: u8) -> (r: EffectKind)
    ensures
        r == spec_effect_kind(ty),
{
    match ty {
        5 => EffectKind::CustomGroup,
        20 => EffectKind::Tint,
        21 => EffectKind::Fill,
        22 => EffectKind::Stroke,
        23 => EffectKind::Tritone,
        24 => EffectKind::Levels,
        25 => EffectKind::DropShadow,
        26 => EffectKind::RadialWipe,
        27 => EffectKind::DisplacementMap,
        28 => EffectKind::Matte3,
        29 => EffectKind::GaussianBlur,
        30 => EffectKind::Twirl,
        31 => EffectKind::MeshWarp,
        32 => EffectKind::Wavy,
        33 => EffectKind::Spherize,
        34 => EffectKind::Puppet,
        _ => EffectKind::Unsupported,
    }
}

/// An effect entry is processed unless it is explicitly disabled (`en` is 0) or
/// carries no control values; a processed entry becomes the effect of its type
/// code, an absent code counting as 0.
pub open spec fn spec_effect_plan(en: Option<u8>, ty: Option<u8>, has_values: bool) -> Option<
    EffectKind,
> {
    if en == Some(0u8) || !has_values {
        None
    } else {
        Some(
            spec_effect_kind(
                match ty {
                    Some(t) => t,
                    None => 0u8,
                },
            ),
        )
    }
}

/// Decides whether and as what an effect entry of a layer is rendered.
pub fn effect_plan(en: Option<u8>, ty: Option<u8>, has_values: bool) -> (r: Option<EffectKind>)
    ensures
        r == spec_effect_plan(en, ty, has_values),
{
    if en == Some(0u8) {
        return None;
    }
    if !has_values {
        return None;
    }
    let t = match ty {
        Some(t) => t,
        None => 0,
    };
    Some(effect_kind(t))
}

/// Effect type codes that turn into a runtime effect: the custom group (5) and
/// the codes 20 to 34.
pub open spec fn is_dispatched_effect_code(ty: u8) -> bool {
    ty == 5 || (20 <= ty && ty <= 34)
}

/// Each dispatched effect code names its own effect, and no two of them name the
/// same one: 20 tint, 21 fill, 22 stroke, 23 tritone, 24 levels, 25 drop shadow,
/// 26 radial wipe, 27 displacement map, 28 matte, 29 gaussian blur, 30 twirl,
/// 31 mesh warp, 32 wavy, 33 spherize, 34 puppet, 5 custom group; every other
/// code is unsupported.
pub proof fn lemma_effect_kind_codes(ty: u8, other: u8)
    ensures
        (spec_effect_kind(ty) == EffectKind::Tint) <==> ty == 20,
        (spec_effect_kind(ty) == EffectKind::Fill) <==> ty == 21,
        (spec_effect_kind(ty) == EffectKind::Stroke) <==> ty == 22,
        (spec_effect_kind(ty) == EffectKind::Tritone) <==> ty == 23,
        (spec_effect_kind(ty) == EffectKind::Levels) <==> ty == 24,
        (spec_effect_kind(ty) == EffectKind::DropShadow) <==> ty == 25,
        (spec_effect_kind(ty) == EffectKind::RadialWipe) <==> ty == 26,
        (spec_effect_kind(ty) == EffectKind::DisplacementMap) <==> ty == 27,
        (spec_effect_kind(ty) == EffectKind::Matte3) <==> ty == 28,
        (spec_effect_kind(ty) == EffectKind::GaussianBlur) <==> ty == 29,
        (spec_effect_kind(ty) == EffectKind::Twirl) <==> ty == 30,
        (spec_effect_kind(ty) == EffectKind::MeshWarp) <==> ty == 31,
        (spec_effect_kind(ty) == EffectKind::Wavy) <==> ty == 32,
        (spec_effect_kind(ty) == EffectKind::Spherize) <==> ty == 33,
        (spec_effect_kind(ty) == EffectKind::Puppet) <==> ty == 34,
        (spec_effect_kind(ty) == EffectKind::CustomGroup) <==> ty == 5,
        (spec_effect_kind(ty) == EffectKind::Unsupported) <==> !is_dispatched_effect_code(ty),
        is_dispatched_effect_code(ty) && is_dispatched_effect_code(other) && ty != other
            ==> spec_effect_kind(ty) != spec_effect_kind(other),
{
}

/// An effect entry is rendered exactly when it is not disabled and carries
/// control values, and then as the effect its own type code names (an absent
/// code counting as 0, which names no effect).
pub proof fn lemma_effect_plan_follows_code(en: Option<u8>, ty: Option<u8>, has_values: bool)
    ensures
        (spec_effect_plan(en, ty, has_values) is Some) <==> (en != Some(0u8) && has_values),
        spec_effect_plan(en, ty, has_values) matches Some(k) ==> match ty {
            Some(t) => k == spec_effect_kind(t),
            None => k == EffectKind::Unsupported,
        },
{
}

/// The effect dispatch agrees with the support table: an effect type code turns
/// into a concrete runtime effect exactly when the table lists it as implemented.
pub proof fn lemma_effect_kind_matches_support(ty: u8)
    ensures
        (spec_effect_kind(ty) != EffectKind::Unsupported) <==> (spec_effect_type_support(ty)
            == SchemaSupport::Implemented),
{
}

/// Which control of an effect a lookup reads: the control at the expected
/// position when it carries a value, and otherwise the first control with a value
/// whose name, lowercased in ASCII, contains the lowercased hint.
pub open spec fn spec_effect_control_index(
    names: Seq<Option<Seq<char>>>,
    has_value: Seq<bool>,
    index: int,
    hint: Seq<char>,
) -> Option<int> {
    if 0 <= index < has_value.len() && has_value[index] {
        Some(index)
    } else if exists|j: int| name_matches(names, has_value, j, hint) {
        Some(choose|j: int| name_matches(names, has_value, j, hint) && forall|k: int|
            0 <= k < j ==> !name_matches(names, has_value, k, hint))
    } else {
        None
    }
}

/// Control `j` has a value and a name that contains the hint, ignoring ASCII case.
pub open spec fn name_matches(
    names: Seq<Option<Seq<char>>>,
    has_value: Seq<bool>,
    j: int,
    hint: Seq<char>,
) -> bool {
    &&& 0 <= j < has_value.len()
    &&& j < names.len()
    &&& has_value[j]
    &&& names[j] matches Some(n) && contains_seq(ascii_lower_seq(n), ascii_lower_seq(hint))
}

/// Looks up the control that an effect parameter is read from; `None` means the
/// parameter takes its default.
pub fn effect_control_index(
    names: &Vec<Option<String>>,
    has_value: &Vec<bool>,
    index: usize,
    hint: &str,
) -> (r: Option<usize>)
    requires
        names@.len() == has_value@.len(),
    ensures
        r matches Some(j) ==> j < has_value@.len(),
        (match r {
            Some(j) => Some(j as int),
            None => None,
        }) == spec_effect_control_index(
            names@.map_values(
                |n: Option<String>|
                    match n {
                        Some(s) => Some(s@),
                        None => None,
                    },
            ),
            has_value@,
            index as int,
            hint@,
        ),
{
    let ghost views = names@.map_values(
        |n: Option<String>|
            match n {
                Some(s) => Some(s@),
                None => None,
            },
    );
    if index < has_value.len() && has_value[index] {
        return Some(index);
    }
    let lowered_hint = lower_chars(hint);
    let mut j: usize = 0;
    while j < names.len()
        invariant
            names@.len() == has_value@.len(),
            views == names@.map_values(
                |n: Option<String>|
                    match n {
                        Some(s) => Some(s@),
                        None => None,
                    },
            ),
            lowered_hint@ == ascii_lower_seq(hint@),
            !(index < has_value@.len() && has_value@[index as int]),
            j <= names@.len(),
            forall|k: int| 0 <= k < j ==> !name_matches(views, has_value@, k, hint@),
        decreases names@.len() - j,
    {
        let hit = if has_value[j] {
            match &names[j] {
                Some(n) => {
                    let lowered = lower_chars(n.as_str());
                    chars_contain(&lowered, &lowered_hint)
                },
                None => false,
            }
        } else {
            false
        };
        assert(hit == name_matches(views, has_value@, j as int, hint@));
        if hit {
            let ghost c = choose|c: int| name_matches(views, has_value@, c, hint@) && forall|k: int|
                0 <= k < c ==> !name_matches(views, has_value@, k, hint@);
            assert(c == j as int) by {
                if c < j {
                }
                if c > j {
                }
            }
            return Some(j);
        }
        j = j + 1;
    }
    None
}

/// The parts of one effect entry of a layer that decide its rendering: its
/// enabled flag, its type code, and whether it carries control values.
#[derive(Debug, Clone, Copy, PartialEq, Eq, Structural)]
pub struct EffectEntry {
    pub en: Option<u8>,
    pub ty: Option<u8>,
    pub has_values: bool,
}

/// The runtime effect an entry becomes, if it is processed.
pub open spec fn effect_of(e: EffectEntry) -> Option<EffectKind> {
    spec_effect_plan(e.en, e.ty, e.has_values)
}

/// The effects of a layer: in order, one for each entry that is enabled and
/// carries values, with the entry's position (unsupported types included, as
/// `Unsupported`).
pub fn layer_effects(entries: &Vec<EffectEntry>) -> (r: Vec<(usize, EffectKind)>)
    ensures
        r@ == kept(Seq::new(entries@.len(), |k: int| effect_of(entries@[k]))),
{
    let mut r: Vec<(usize, EffectKind)> = Vec::new();
    let mut i: usize = 0;
    while i < entries.len()
        invariant
            i <= entries@.len(),
            r@ == kept(Seq::new(i as nat, |k: int| effect_of(entries@[k]))),
        decreases entries@.len() - i,
    {
        let e = entries[i];
        let plan = effect_plan(e.en, e.ty, e.has_values);
        let ghost ds = Seq::new((i + 1) as nat, |k: int| effect_of(entries@[k]));
        assert(ds.drop_last() =~= Seq::new(i as nat, |k: int| effect_of(entries@[k])));
        assert(ds.last() == plan);
        match plan {
            Some(k) => {
                r.push((i, k));
            },
            None => {},
        }
        i = i + 1;
    }
    r
}

/// The expected position of a parameter that is only ever found by its name: it
/// lies past the controls of any effect entry.
pub const BY_NAME_ONLY: usize = 9999;

/// What a parameter reads from its control: one number, or a colour or point.
#[derive(Debug, Clone, Copy, PartialEq, Eq, Structural)]
pub enum ParamValue {
    Scalar,
    Vector,
}

/// The parameters of each runtime effect, in the order the effect reads them:
/// the control position expected for each (see `spec_effect_control_index`), the
/// name hint used when that control carries no value, and the kind of value read.
/// The stroke reads its mask index from "Mask" only when "Path" is below one half,
/// and the displacement map reads "scale" only when both maxima are zero; both
/// are listed. Custom groups and unsupported effects read nothing.
pub open spec fn spec_effect_parameters(kind: EffectKind) -> Seq<(usize, Seq<char>, ParamValue)> {
    match kind {
        EffectKind::Tint => seq![(0usize, "Black"@, ParamValue::Vector), (1usize, "White"@, ParamValue::Vector), (2usize, "Intensity"@, ParamValue::Scalar)],
        EffectKind::Fill => seq![(2usize, "Color"@, ParamValue::Vector), (6usize, "Opacity"@, ParamValue::Scalar)],
        EffectKind::Stroke => seq![(3usize, "Color"@, ParamValue::Vector), (4usize, "Brush Size"@, ParamValue::Scalar), (6usize, "Opacity"@, ParamValue::Scalar), (BY_NAME_ONLY, "All Masks"@, ParamValue::Scalar), (BY_NAME_ONLY, "Path"@, ParamValue::Scalar), (BY_NAME_ONLY, "Mask"@, ParamValue::Scalar)],
        EffectKind::Tritone => seq![(0usize, "bright"@, ParamValue::Vector), (1usize, "mid"@, ParamValue::Vector), (2usize, "dark"@, ParamValue::Vector)],
        EffectKind::Levels => seq![(3usize, "inblack"@, ParamValue::Scalar), (4usize, "inwhite"@, ParamValue::Scalar), (5usize, "gamma"@, ParamValue::Scalar), (6usize, "outblack"@, ParamValue::Scalar), (7usize, "outwhite"@, ParamValue::Scalar)],
        EffectKind::DropShadow => seq![(0usize, "color"@, ParamValue::Vector), (1usize, "opacity"@, ParamValue::Scalar), (2usize, "direction"@, ParamValue::Scalar), (3usize, "distance"@, ParamValue::Scalar), (4usize, "softness"@, ParamValue::Scalar)],
        EffectKind::RadialWipe => seq![(0usize, "completion"@, ParamValue::Scalar), (1usize, "start angle"@, ParamValue::Scalar), (2usize, "center"@, ParamValue::Vector), (3usize, "wipe"@, ParamValue::Scalar), (4usize, "feather"@, ParamValue::Scalar)],
        EffectKind::DisplacementMap => seq![(BY_NAME_ONLY, "horizontal"@, ParamValue::Scalar), (BY_NAME_ONLY, "vertical"@, ParamValue::Scalar), (0usize, "scale"@, ParamValue::Scalar), (BY_NAME_ONLY, "use for horizontal"@, ParamValue::Scalar), (BY_NAME_ONLY, "use for vertical"@, ParamValue::Scalar)],
        EffectKind::Matte3 => seq![(1usize, "channel"@, ParamValue::Scalar), (2usize, "invert"@, ParamValue::Scalar), (4usize, "show mask"@, ParamValue::Scalar), (5usize, "premultiply"@, ParamValue::Scalar)],
        EffectKind::GaussianBlur => seq![(0usize, "blurriness"@, ParamValue::Scalar)],
        EffectKind::Twirl => seq![(0usize, "angle"@, ParamValue::Scalar), (1usize, "radius"@, ParamValue::Scalar), (2usize, "center"@, ParamValue::Vector)],
        EffectKind::MeshWarp => seq![(0usize, "rows"@, ParamValue::Scalar), (1usize, "columns"@, ParamValue::Scalar), (2usize, "quality"@, ParamValue::Scalar)],
        EffectKind::Wavy => seq![(0usize, "radius"@, ParamValue::Scalar), (1usize, "center"@, ParamValue::Vector), (2usize, "conversion type"@, ParamValue::Scalar), (3usize, "speed"@, ParamValue::Scalar), (4usize, "width"@, ParamValue::Scalar), (5usize, "height"@, ParamValue::Scalar), (6usize, "phase"@, ParamValue::Scalar)],
        EffectKind::Spherize => seq![(0usize, "radius"@, ParamValue::Scalar), (1usize, "center"@, ParamValue::Vector)],
        EffectKind::Puppet => seq![(0usize, "engine"@, ParamValue::Scalar), (1usize, "refinement"@, ParamValue::Scalar), (2usize, "transparent"@, ParamValue::Scalar)],
        _ => Seq::empty(),
    }
}

/// The parameter table of a runtime effect.
pub fn effect_parameters(kind: EffectKind) -> (r: Vec<(usize, &'static str, ParamValue)>)
    ensures
        r@.map_values(|p: (usize, &'static str, ParamValue)| (p.0, p.1@, p.2))
            == spec_effect_parameters(kind),
{
    let r: Vec<(usize, &'static str, ParamValue)> = match kind {
        EffectKind::Tint => vec![(0usize, "Black", ParamValue::Vector), (1usize, "White", ParamValue::Vector), (2usize, "Intensity", ParamValue::Scalar)],
        EffectKind::Fill => vec![(2usize, "Color", ParamValue::Vector), (6usize, "Opacity", ParamValue::Scalar)],
        EffectKind::Stroke => vec![(3usize, "Color", ParamValue::Vector), (4usize, "Brush Size", ParamValue::Scalar), (6usize, "Opacity", ParamValue::Scalar), (BY_NAME_ONLY, "All Masks", ParamValue::Scalar), (BY_NAME_ONLY, "Path", ParamValue::Scalar), (BY_NAME_ONLY, "Mask", ParamValue::Scalar)],
        EffectKind::Tritone => vec![(0usize, "bright", ParamValue::Vector), (1usize, "mid", ParamValue::Vector), (2usize, "dark", ParamValue::Vector)],
        EffectKind::Levels => vec![(3usize, "inblack", ParamValue::Scalar), (4usize, "inwhite", ParamValue::Scalar), (5usize, "gamma", ParamValue::Scalar), (6usize, "outblack", ParamValue::Scalar), (7usize, "outwhite", ParamValue::Scalar)],
        EffectKind::DropShadow => vec![(0usize, "color", ParamValue::Vector), (1usize, "opacity", ParamValue::Scalar), (2usize, "direction", ParamValue::Scalar), (3usize, "distance", ParamValue::Scalar), (4usize, "softness", ParamValue::Scalar)],
        EffectKind::RadialWipe => vec![(0usize, "completion", ParamValue::Scalar), (1usize, "start angle", ParamValue::Scalar), (2usize, "center", ParamValue::Vector), (3usize, "wipe", ParamValue::Scalar), (4usize, "feather", ParamValue::Scalar)],
        EffectKind::DisplacementMap => vec![(BY_NAME_ONLY, "horizontal", ParamValue::Scalar), (BY_NAME_ONLY, "vertical", ParamValue::Scalar), (0usize, "scale", ParamValue::Scalar), (BY_NAME_ONLY, "use for horizontal", ParamValue::Scalar), (BY_NAME_ONLY, "use for vertical", ParamValue::Scalar)],
        EffectKind::Matte3 => vec![(1usize, "channel", ParamValue::Scalar), (2usize, "invert", ParamValue::Scalar), (4usize, "show mask", ParamValue::Scalar), (5usize, "premultiply", ParamValue::Scalar)],
        EffectKind::GaussianBlur => vec![(0usize, "blurriness", ParamValue::Scalar)],
        EffectKind::Twirl => vec![(0usize, "angle", ParamValue::Scalar), (1usize, "radius", ParamValue::Scalar), (2usize, "center", ParamValue::Vector)],
        EffectKind::MeshWarp => vec![(0usize, "rows", ParamValue::Scalar), (1usize, "columns", ParamValue::Scalar), (2usize, "quality", ParamValue::Scalar)],
        EffectKind::Wavy => vec![(0usize, "radius", ParamValue::Scalar), (1usize, "center", ParamValue::Vector), (2usize, "conversion type", ParamValue::Scalar), (3usize, "speed", ParamValue::Scalar), (4usize, "width", ParamValue::Scalar), (5usize, "height", ParamValue::Scalar), (6usize, "phase", ParamValue::Scalar)],
        EffectKind::Spherize => vec![(0usize, "radius", ParamValue::Scalar), (1usize, "center", ParamValue::Vector)],
        EffectKind::Puppet => vec![(0usize, "engine", ParamValue::Scalar), (1usize, "refinement", ParamValue::Scalar), (2usize, "transparent", ParamValue::Scalar)],
        _ => Vec::new(),
    };
    assert(r@.map_values(|p: (usize, &'static str, ParamValue)| (p.0, p.1@, p.2))
        =~= spec_effect_parameters(kind));
    r
}

} // verus!
