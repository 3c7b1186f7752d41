use wgpu_bezier::blend::{
    BlendComponent, BlendFactor, BlendMode, BlendOperation, BlendState, BlendType, ComplexBlend,
    RenderBlendMode, TrivialBlend,
};

fn builtin(mode: BlendMode) -> BlendType {
    BlendType::from(RenderBlendMode::Builtin(mode))
}

#[test]
fn trivial_modes_are_classified() {
    assert_eq!(builtin(BlendMode::Normal), BlendType::Trivial(TrivialBlend::Normal));
    assert_eq!(builtin(BlendMode::Layer), BlendType::Trivial(TrivialBlend::Normal));
    assert_eq!(builtin(BlendMode::Add), BlendType::Trivial(TrivialBlend::Add));
    assert_eq!(builtin(BlendMode::Subtract), BlendType::Trivial(TrivialBlend::Subtract));
    assert_eq!(builtin(BlendMode::Screen), BlendType::Trivial(TrivialBlend::Screen));
}

#[test]
fn complex_modes_are_classified() {
    let pairs = [
        (BlendMode::Multiply, ComplexBlend::Multiply),
        (BlendMode::Lighten, ComplexBlend::Lighten),
        (BlendMode::Darken, ComplexBlend::Darken),
        (BlendMode::Difference, ComplexBlend::Difference),
        (BlendMode::Invert, ComplexBlend::Invert),
        (BlendMode::Alpha, ComplexBlend::Alpha),
        (BlendMode::Erase, ComplexBlend::Erase),
        (BlendMode::Overlay, ComplexBlend::Overlay),
        (BlendMode::HardLight, ComplexBlend::HardLight),
    ];
    for (mode, complex) in pairs {
        assert_eq!(builtin(mode), BlendType::Complex(complex));
        assert!(builtin(mode).is_complex());
    }
    assert!(!builtin(BlendMode::Screen).is_complex());
}

#[test]
fn shader_blends_fall_back_to_normal() {
    assert_eq!(
        BlendType::from(RenderBlendMode::Shader),
        BlendType::Trivial(TrivialBlend::Normal)
    );
}

fn gpu_component(c: BlendComponent) -> wgpu::BlendComponent {
    let factor = |f: BlendFactor| match f {
        BlendFactor::One => wgpu::BlendFactor::One,
        BlendFactor::OneMinusSrc => wgpu::BlendFactor::OneMinusSrc,
        BlendFactor::OneMinusSrcAlpha => wgpu::BlendFactor::OneMinusSrcAlpha,
    };
    wgpu::BlendComponent {
        src_factor: factor(c.src_factor),
        dst_factor: factor(c.dst_factor),
        operation: match c.operation {
            BlendOperation::Add => wgpu::BlendOperation::Add,
            BlendOperation::ReverseSubtract => wgpu::BlendOperation::ReverseSubtract,
        },
    }
}

fn gpu_state(s: BlendState) -> wgpu::BlendState {
    wgpu::BlendState { color: gpu_component(s.color), alpha: gpu_component(s.alpha) }
}

#[test]
fn normal_is_premultiplied_alpha_blending() {
    assert_eq!(
        gpu_state(TrivialBlend::Normal.blend_state()),
        wgpu::BlendState::PREMULTIPLIED_ALPHA_BLENDING
    );
}

#[test]
fn other_trivial_blends_keep_alpha_over() {
    let color = |dst_factor, operation| wgpu::BlendState {
        color: wgpu::BlendComponent { src_factor: wgpu::BlendFactor::One, dst_factor, operation },
        alpha: wgpu::BlendComponent::OVER,
    };
    assert_eq!(
        gpu_state(TrivialBlend::Add.blend_state()),
        color(wgpu::BlendFactor::One, wgpu::BlendOperation::Add)
    );
    assert_eq!(
        gpu_state(TrivialBlend::Screen.blend_state()),
        color(wgpu::BlendFactor::OneMinusSrc, wgpu::BlendOperation::Add)
    );
    assert_eq!(
        gpu_state(TrivialBlend::Subtract.blend_state()),
        color(wgpu::BlendFactor::One, wgpu::BlendOperation::ReverseSubtract)
    );
}
