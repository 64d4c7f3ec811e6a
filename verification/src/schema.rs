use vstd::prelude::*;
use crate::strings::str_equals;

verus! {

/// How far the engine supports one entry of the Lottie schema.
#[derive(Debug, Clone, Copy, PartialEq, Eq, Structural)]
pub enum SchemaSupport {
    Implemented,
    ParsedNoop,
    Missing,
}

/// Effect type codes that the renderer turns into a concrete effect:
/// the custom effect group (5) and the built-in effects 20 through 34.
pub open spec fn is_rendered_effect_type(ty: u8) -> bool {
    ty == 5 || (20 <= ty && ty <= 34)
}

/// Effect type codes that are parsed but deliberately do nothing (none at present).
pub open spec fn is_parsed_noop_effect_type(ty: u8) -> bool {
    false
}

/// Layer type codes that are turned into scene content: precomposition (0),
/// solid (1), image (2), null (3), shape (4), text (5), audio (6), camera (13)
/// and data (15).
pub open spec fn is_implemented_layer_type(ty: u8) -> bool {
    ty == 0 || ty == 1 || ty == 2 || ty == 3 || ty == 4 || ty == 5 || ty == 6 || ty == 13
        || ty == 15
}

/// Asset kinds that the engine loads.
pub open spec fn is_implemented_asset_kind(kind: Seq<char>) -> bool {
    kind == "precomposition"@ || kind == "image"@ || kind == "data-source"@ || kind == "sound"@
}

pub open spec fn spec_effect_type_support(ty: u8) -> SchemaSupport {
    if is_rendered_effect_type(ty) {
        SchemaSupport::Implemented
    } else if is_parsed_noop_effect_type(ty) {
        SchemaSupport::ParsedNoop
    } else {
        SchemaSupport::Missing
    }
}

/// The effect type codes that the renderer implements, in ascending order.
pub fn rendered_effect_types() -> (r: Vec<u8>)
    ensures
        r@ == seq![5u8, 20u8, 21u8, 22u8, 23u8, 24u8, 25u8, 26u8, 27u8, 28u8, 29u8, 30u8, 31u8, 32u8, 33u8, 34u8],
        forall|ty: u8| r@.contains(ty) <==> is_rendered_effect_type(ty),
{
    let r: Vec<u8> = vec![5, 20, 21, 22, 23, 24, 25, 26, 27, 28, 29, 30, 31, 32, 33, 34];
    assert forall|ty: u8| r@.contains(ty) <==> is_rendered_effect_type(ty) by {
        if is_rendered_effect_type(ty) {
            if ty == 5 {
                assert(r@[0] == ty);
            } else {
                assert(r@[(ty - 19) as int] == ty);
            }
        }
    }
    r
}

/// Classifies an effect type code.
pub fn effect_type_support(ty: u8) -> (r: SchemaSupport)
    ensures
        r == spec_effect_type_support(ty),
        r != SchemaSupport::ParsedNoop,
{
    if ty == 5 || (20 <= ty && ty <= 34) {
        SchemaSupport::Implemented
    } else {
        SchemaSupport::Missing
    }
}

/// Classifies a layer type code.
pub fn layer_type_support(ty: u8) -> (r: SchemaSupport)
    ensures
        r == (if is_implemented_layer_type(ty) {
            SchemaSupport::Implemented
        } else {
            SchemaSupport::Missing
        }),
{
    match ty {
        0 | 1 | 2 | 3 | 4 | 5 | 6 | 13 | 15 => SchemaSupport::Implemented,
        _ => SchemaSupport::Missing,
    }
}

/// Classifies an asset kind name.
pub fn asset_kind_support(kind: &str) -> (r: SchemaSupport)
    ensures
        r == (if is_implemented_asset_kind(kind@) {
            SchemaSupport::Implemented
        } else {
            SchemaSupport::Missing
        }),
{
    proof {
        reveal_strlit("precomposition");
        reveal_strlit("image");
        reveal_strlit("data-source");
        reveal_strlit("sound");
    }
    if str_equals(kind, "precomposition") || str_equals(kind, "image") || str_equals(
        kind,
        "data-source",
    ) || str_equals(kind, "sound") {
        SchemaSupport::Implemented
    } else {
        SchemaSupport::Missing
    }
}

} // verus!
