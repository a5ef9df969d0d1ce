use bevy::render::render_resource::TextureFormat;
use water_ripples::pipeline::{
    check_target_format, check_target_traits, composite_blend, pipeline_plan, BlendComponent,
    BlendFactor, BlendOperation, BlendState, FormatError, FormatTraits, PassKind, PassTarget,
    PipelinePlan, RipplesPipelineKey,
};
use water_ripples::resources::TargetFormat;

#[test]
fn color_formats_make_a_key() {
    for format in [
        TextureFormat::Bgra8UnormSrgb,
        TextureFormat::Rgba8UnormSrgb,
        TextureFormat::Rgba8Unorm,
        TextureFormat::R8Unorm,
    ] {
        assert_eq!(RipplesPipelineKey::new(format), Some(RipplesPipelineKey { format }));
        assert_eq!(check_target_format(format), Ok(()));
    }
}

#[test]
fn depth_formats_make_no_key() {
    for format in [
        TextureFormat::Depth32Float,
        TextureFormat::Depth24Plus,
        TextureFormat::Depth24PlusStencil8,
    ] {
        assert_eq!(RipplesPipelineKey::new(format), None);
        assert_eq!(check_target_format(format), Err(FormatError::DepthFormat));
    }
}

#[test]
fn formats_without_guaranteed_attachment_make_no_key() {
    for format in [
        TextureFormat::R8Snorm,
        TextureFormat::Rgb9e5Ufloat,
        TextureFormat::Bc1RgbaUnorm,
    ] {
        assert_eq!(RipplesPipelineKey::new(format), None);
        assert_eq!(check_target_format(format), Err(FormatError::NotRenderable));
    }
}

#[test]
fn traits_decide_the_key() {
    let format = TextureFormat::Rgba8Unorm;
    let ok = FormatTraits { depth: false, attachment: true };
    assert_eq!(
        RipplesPipelineKey::from_traits(format, ok),
        Some(RipplesPipelineKey { format })
    );
    assert_eq!(check_target_traits(ok), Ok(()));
    let depth = FormatTraits { depth: true, attachment: true };
    assert_eq!(RipplesPipelineKey::from_traits(format, depth), None);
    assert_eq!(check_target_traits(depth), Err(FormatError::DepthFormat));
    let both = FormatTraits { depth: true, attachment: false };
    assert_eq!(check_target_traits(both), Err(FormatError::DepthFormat));
    let plain = FormatTraits { depth: false, attachment: false };
    assert_eq!(RipplesPipelineKey::from_traits(format, plain), None);
    assert_eq!(check_target_traits(plain), Err(FormatError::NotRenderable));
}

#[test]
fn composite_blends_with_straight_alpha() {
    assert_eq!(
        composite_blend(),
        BlendState {
            color: BlendComponent {
                src_factor: BlendFactor::SrcAlpha,
                dst_factor: BlendFactor::OneMinusSrcAlpha,
                operation: BlendOperation::Add,
            },
            alpha: BlendComponent {
                src_factor: BlendFactor::One,
                dst_factor: BlendFactor::Zero,
                operation: BlendOperation::Add,
            },
        }
    );
}

#[test]
fn only_the_composite_blends_and_only_the_mask_multisamples() {
    assert_eq!(
        pipeline_plan(PassKind::Mask),
        PipelinePlan { target: PassTarget::Owned(TargetFormat::R8Unorm), blend: None, sample_count: 4 }
    );
    assert_eq!(
        pipeline_plan(PassKind::Seed),
        PipelinePlan { target: PassTarget::Owned(TargetFormat::Rg16Snorm), blend: None, sample_count: 1 }
    );
    assert_eq!(
        pipeline_plan(PassKind::Round),
        PipelinePlan { target: PassTarget::Owned(TargetFormat::Rg16Snorm), blend: None, sample_count: 1 }
    );
    assert_eq!(
        pipeline_plan(PassKind::Composite),
        PipelinePlan { target: PassTarget::View, blend: Some(composite_blend()), sample_count: 1 }
    );
}
