use hoshino::config::Theme;
use hoshino::render::theme::{
    blend, expand_span, palette, runtime_role, Rgb, Role, RuntimeRole, SpanStyle, SystemRole,
};

#[test]
fn palettes_keep_the_repository_hex_values() {
    let dusk = palette(Theme::Dusk);
    assert_eq!(dusk.pink.hex(), 0xF3BDCA);
    assert_eq!(dusk.sky.hex(), 0x75D6F6);
    assert_eq!(dusk.lavender.hex(), 0xB0BCE8);
    assert_eq!(dusk.red.hex(), 0xE27878);

    let darker = palette(Theme::DuskDarker);
    assert_eq!(darker.pink.hex(), 0xFFB8D1);
    assert_eq!(darker.sky.hex(), 0x8BD3FF);
    assert_eq!(darker.lavender.hex(), 0xB0BCE8);
    assert_eq!(darker.red.hex(), 0xFF8F9A);
}

#[test]
fn role_mapping_preserves_dusk_semantics() {
    let colors = palette(Theme::DuskDarker);
    assert_eq!(colors.color(Role::Primary), colors.pink);
    assert_eq!(colors.color(Role::Border), colors.pink);
    assert_eq!(colors.color(Role::Git), colors.sky);
    assert_eq!(colors.color(Role::Time), colors.lavender);
    assert_eq!(colors.color(Role::Context), colors.peach);
    assert_eq!(colors.color(Role::Coverage), colors.green);
    assert_eq!(colors.color(Role::Progress), colors.blue);
    assert_eq!(colors.color(Role::Runtime(RuntimeRole::Rust)), colors.peach);
    assert_eq!(colors.color(Role::Runtime(RuntimeRole::Bun)), colors.peach);
    assert_eq!(
        colors.color(Role::Runtime(RuntimeRole::Python)),
        colors.yellow
    );
    assert_eq!(colors.color(Role::Runtime(RuntimeRole::Node)), colors.green);
    assert_eq!(colors.color(Role::Runtime(RuntimeRole::Go)), colors.blue);
    assert_eq!(colors.color(Role::System(SystemRole::Health)), colors.green);
    assert_eq!(colors.color(Role::System(SystemRole::Cpu)), colors.blue);
    assert_eq!(colors.color(Role::System(SystemRole::Memory)), colors.green);
    assert_eq!(colors.color(Role::System(SystemRole::Disk)), colors.peach);
    assert_eq!(colors.color(Role::Secondary), colors.overlay);
    assert_eq!(colors.color(Role::Warning), colors.yellow);
    assert_eq!(colors.color(Role::Error), colors.red);
}

#[test]
fn structural_and_time_roles_are_explicit_in_both_palettes() {
    for theme in [Theme::Dusk, Theme::DuskDarker] {
        let colors = palette(theme);
        assert_eq!(colors.color(Role::Border), colors.pink);
        assert_eq!(colors.color(Role::Time), colors.lavender);
        assert_eq!(colors.color(Role::Context), colors.peach);
        assert_eq!(colors.color(Role::Coverage), colors.green);
    }
}

#[test]
fn gradient_start_uses_checked_integer_surface_blend() {
    let colors = palette(Theme::DuskDarker);
    assert_eq!(
        blend(colors.surface, colors.blue, 35, 100),
        Rgb::new(63, 90, 114)
    );
}

#[test]
fn gradient_expansion_preserves_text_and_bounded_endpoints() {
    let colors = palette(Theme::DuskDarker);
    let target = colors.color(Role::Git);
    for length in [1, 2, 3, 10] {
        let text = "x".repeat(length);
        let chunks = expand_span(&text, Role::Git, SpanStyle::Gradient, colors);
        assert!(chunks.len() <= 5);
        assert_eq!(
            chunks
                .iter()
                .map(|chunk| chunk.text.as_str())
                .collect::<String>(),
            text
        );
        assert_eq!(chunks.last().map(|chunk| chunk.color), Some(target));
        if length > 1 {
            assert_eq!(
                chunks.first().map(|chunk| chunk.color),
                Some(blend(colors.surface, target, 35, 100))
            );
        }
    }
}

#[test]
fn runtime_detection_is_not_position_dependent() {
    assert_eq!(runtime_role("TypeScript", "bun"), RuntimeRole::Bun);
    assert_eq!(runtime_role("JavaScript", "node"), RuntimeRole::Node);
    assert_eq!(runtime_role("Rust", "rustc"), RuntimeRole::Rust);
    assert_eq!(runtime_role("Python", "python3"), RuntimeRole::Python);
    assert_eq!(runtime_role("Go", "go"), RuntimeRole::Go);
}
