use vstd::prelude::*;
use crate::modes::{MergeMode, merge_mode_from_code, spec_merge_mode};

verus! {

/// The merge-paths shape: combines the geometries above it with a boolean
/// operation.
#[derive(Debug, Clone)]
pub struct MergePathsShape {
    pub nm: Option<String>,
    pub mm: u8,
}

impl MergePathsShape {
    /// The boolean operation this shape applies.
    pub fn merge_mode(&self) -> (r: MergeMode)
        ensures
            r == spec_merge_mode(self.mm),
    {
        merge_mode_from_code(self.mm)
    }
}

/// Image data of an asset: the encoded bytes (PNG, JPEG, ...).
#[derive(Debug, Clone)]
pub enum ImageSource {
    Data(Vec<u8>),
}

/// Easing curves of keyframed animation.
#[derive(Copy, Clone, Debug, PartialEq, Eq, Structural)]
pub enum EasingType {
    Linear,
    EaseIn,
    EaseOut,
    EaseInOut,
    BounceOut,
}

impl EasingType {
    /// The curve that is actually evaluated: bounce-out has no curve of its own
    /// and eases out.
    pub fn effective_curve(&self) -> (r: EasingType)
        ensures
            r == (if *self == EasingType::BounceOut {
                EasingType::EaseOut
            } else {
                *self
            }),
    {
        match self {
            EasingType::BounceOut => EasingType::EaseOut,
            other => *other,
        }
    }
}

/// What text laid out on a path does when it is longer than the path.
#[derive(Clone, Copy, Debug, PartialEq, Eq, Structural)]
pub enum OverflowMode {
    /// Keep the positions; the text is clipped.
    Clip,
    /// Continue along the last tangent.
    Extend,
    /// Wrap around a closed path.
    Wrap,
}

} // verus!
