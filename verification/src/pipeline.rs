//! What the passes are compiled with: the key of the composite pipeline,
//! which admits only formats that can be rendered to, and the fixed state of
//! each pass.

use bevy::render::render_resource::TextureFormat;
use bevy::render::render_resource::TextureSampleType;
use bevy::render::render_resource::TextureUsages;
use vstd::prelude::*;

use crate::resources::{TargetFormat, MASK_SAMPLES};

verus! {

/// The texture format type of the graphics API, opaque to the verifier.
#[verifier::external_type_specification]
#[verifier::external_body]
pub struct ExTextureFormat(TextureFormat);

/// What the key reads from the description of a format.
#[derive(Clone, Copy, Debug, PartialEq, Eq, Structural)]
pub struct FormatTraits {
    /// Sampling the format does a depth comparison.
    pub depth: bool,
    /// Every device accepts the format as a render attachment.
    pub attachment: bool,
}

/// What `TextureFormat::describe` reports of a format, as far as the key
/// reads it.
pub uninterp spec fn format_traits(format: TextureFormat) -> FormatTraits;

/// `TextureFormat::describe`: looks the format up in the table of the
/// graphics API and reports whether its sample type is depth and whether its
/// guaranteed usages include the render attachment. The table is fixed, so
/// the report depends on the format alone.
#[verifier::external_body]
fn describe_format(format: TextureFormat) -> (traits: FormatTraits)
    ensures
        traits == format_traits(format),
{
    let info = format.describe();
    FormatTraits {
        depth: matches!(info.sample_type, TextureSampleType::Depth),
        attachment: info.guaranteed_format_features.allowed_usages.contains(
            TextureUsages::RENDER_ATTACHMENT,
        ),
    }
}

/// Why a format cannot be the target of the composite pass.
#[derive(Clone, Copy, Debug, PartialEq, Eq, Structural)]
pub enum FormatError {
    /// A depth format is no color attachment.
    DepthFormat,
    /// The format is not guaranteed to be usable as a render attachment.
    NotRenderable,
}

/// The reason, if any, for which a format with these traits is refused.
pub open spec fn format_refusal(traits: FormatTraits) -> Option<FormatError> {
    if traits.depth {
        Some(FormatError::DepthFormat)
    } else if !traits.attachment {
        Some(FormatError::NotRenderable)
    } else {
        None
    }
}

/// Checks that a format with these traits can be the color target of the
/// composite pass.
pub fn check_target_traits(traits: FormatTraits) -> (r: Result<(), FormatError>)
    ensures
        match format_refusal(traits) {
            Some(e) => r == Err::<(), FormatError>(e),
            None => r is Ok,
        },
{
    if traits.depth {
        Err(FormatError::DepthFormat)
    } else if !traits.attachment {
        Err(FormatError::NotRenderable)
    } else {
        Ok(())
    }
}

/// Checks that `format` can be the color target of the composite pass.
pub fn check_target_format(format: TextureFormat) -> (r: Result<(), FormatError>)
    ensures
        match format_refusal(format_traits(format)) {
            Some(e) => r == Err::<(), FormatError>(e),
            None => r is Ok,
        },
{
    check_target_traits(describe_format(format))
}

/// The key by which the composite pipeline is specialized: the format of the
/// target it blends onto.
#[derive(Copy, Clone, Debug, PartialEq, Eq, Hash)]
pub struct RipplesPipelineKey {
    pub format: TextureFormat,
}

impl RipplesPipelineKey {
    /// The key for a target of `format`, or `None` where the format cannot be
    /// a color attachment.
    pub fn new(format: TextureFormat) -> (key: Option<RipplesPipelineKey>)
        ensures
            key is Some <==> format_refusal(format_traits(format)) is None,
            key matches Some(k) ==> k.format == format,
    {
        Self::from_traits(format, describe_format(format))
    }

    /// The key for a target of `format` whose description gave `traits`, or
    /// `None` where those traits rule the format out.
    pub fn from_traits(format: TextureFormat, traits: FormatTraits) -> (key: Option<
        RipplesPipelineKey,
    >)
        ensures
            key is Some <==> !traits.depth && traits.attachment,
            key is Some <==> format_refusal(traits) is None,
            key matches Some(k) ==> k.format == format,
    {
        match check_target_traits(traits) {
            Ok(()) => Some(RipplesPipelineKey { format }),
            Err(_) => None,
        }
    }
}

/// A blend factor.
#[derive(Clone, Copy, Debug, PartialEq, Eq, Structural)]
pub enum BlendFactor {
    Zero,
    One,
    SrcAlpha,
    OneMinusSrcAlpha,
}

/// How source and destination are combined once each was scaled by its
/// factor.
#[derive(Clone, Copy, Debug, PartialEq, Eq, Structural)]
pub enum BlendOperation {
    Add,
}

/// The blending of the color channels or of the alpha channel.
#[derive(Clone, Copy, Debug, PartialEq, Eq, Structural)]
pub struct BlendComponent {
    pub src_factor: BlendFactor,
    pub dst_factor: BlendFactor,
    pub operation: BlendOperation,
}

/// The blending of a color target.
#[derive(Clone, Copy, Debug, PartialEq, Eq, Structural)]
pub struct BlendState {
    pub color: BlendComponent,
    pub alpha: BlendComponent,
}

/// The four fullscreen or mesh passes of the effect.
#[derive(Clone, Copy, Debug, PartialEq, Eq, Structural)]
pub enum PassKind {
    Mask,
    Seed,
    Round,
    Composite,
}

/// The format of a pass's color target.
#[derive(Clone, Copy, Debug, PartialEq, Eq, Structural)]
pub enum PassTarget {
    /// One of the effect's own textures.
    Owned(TargetFormat),
    /// The view's target, in the format of the pipeline key.
    View,
}

/// The fixed state that a pass's pipeline is compiled with. No pass uses a
/// depth or stencil attachment.
#[derive(Clone, Copy, Debug, PartialEq, Eq, Structural)]
pub struct PipelinePlan {
    pub target: PassTarget,
    pub blend: Option<BlendState>,
    pub sample_count: u32,
}

/// Straight alpha blending: the color is the source scaled by its alpha plus
/// the destination scaled by the rest; the alpha is that of the source.
pub open spec fn composite_blend_spec() -> BlendState {
    BlendState {
        color: BlendComponent {
            src_factor: BlendFactor::SrcAlpha,
            dst_factor: BlendFactor::OneMinusSrcAlpha,
            operation: BlendOperation::Add,
        },
        alpha: BlendComponent {
            src_factor: BlendFactor::One,
            dst_factor: BlendFactor::Zero,
            operation: BlendOperation::Add,
        },
    }
}

/// The fixed state of each pass: the mask is drawn with four samples into an
/// occupancy target, seeding and rounds overwrite a coordinate target, and
/// only the composite blends.
pub open spec fn pipeline_plan_spec(kind: PassKind) -> PipelinePlan {
    match kind {
        PassKind::Mask => PipelinePlan {
            target: PassTarget::Owned(TargetFormat::R8Unorm),
            blend: None,
            sample_count: MASK_SAMPLES,
        },
        PassKind::Seed => PipelinePlan {
            target: PassTarget::Owned(TargetFormat::Rg16Snorm),
            blend: None,
            sample_count: 1,
        },
        PassKind::Round => PipelinePlan {
            target: PassTarget::Owned(TargetFormat::Rg16Snorm),
            blend: None,
            sample_count: 1,
        },
        PassKind::Composite => PipelinePlan {
            target: PassTarget::View,
            blend: Some(composite_blend_spec()),
            sample_count: 1,
        },
    }
}

/// The blending of the composite pass.
pub fn composite_blend() -> (blend: BlendState)
    ensures
        blend == composite_blend_spec(),
{
    BlendState {
        color: BlendComponent {
            src_factor: BlendFactor::SrcAlpha,
            dst_factor: BlendFactor::OneMinusSrcAlpha,
            operation: BlendOperation::Add,
        },
        alpha: BlendComponent {
            src_factor: BlendFactor::One,
            dst_factor: BlendFactor::Zero,
            operation: BlendOperation::Add,
        },
    }
}

/// The fixed state that the pipeline of `kind` is compiled with.
pub fn pipeline_plan(kind: PassKind) -> (plan: PipelinePlan)
    ensures
        plan == pipeline_plan_spec(kind),
{
    match kind {
        PassKind::Mask => PipelinePlan {
            target: PassTarget::Owned(TargetFormat::R8Unorm),
            blend: None,
            sample_count: MASK_SAMPLES,
        },
        PassKind::Seed => PipelinePlan {
            target: PassTarget::Owned(TargetFormat::Rg16Snorm),
            blend: None,
            sample_count: 1,
        },
        PassKind::Round => PipelinePlan {
            target: PassTarget::Owned(TargetFormat::Rg16Snorm),
            blend: None,
            sample_count: 1,
        },
        PassKind::Composite => PipelinePlan {
            target: PassTarget::View,
            blend: Some(composite_blend()),
            sample_count: 1,
        },
    }
}

} // verus!
