//! Verified core logic of a Lottie animation engine: schema support tables,
//! the integer and string decisions made while turning a document into a
//! scene (layers, shapes, effects, mattes, blend modes), asset
//! classification, expression-side registries and caches.

pub mod assets;
pub mod audio;
pub mod color;
pub mod composition;
pub mod effects;
pub mod expressions;
pub mod model;
pub mod modes;
pub mod morph;
pub mod names;
pub mod nesting;
pub mod registry;
pub mod schema;
pub mod shapes;
pub mod strings;
pub mod text;
pub mod video;

pub use expressions::{CompObject, ControlValue, EffectObject, LayerObject, LoopType, TransformObject};
pub use model::{EasingType, ImageSource, MergePathsShape, OverflowMode};
pub use modes::{BlendMode, ColorChannel, GradientKind, Justification, MaskMode, MatteMode, MergeMode};
pub use morph::{clear_morph_cache, PathMorphCache};
pub use schema::{asset_kind_support, effect_type_support, layer_type_support, SchemaSupport};
pub use video::{Decoder, EncoderSettings, Frame, Locator, Time};
