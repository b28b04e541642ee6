//! Presenting into a window.

use unlit3d::components::ResourceId;
use unlit3d::surface::{
    color_format, create_attachments, frame_format, srgb_format, surface_config, AcquireStep, Attachments,
    ResizeStep, SurfaceCapabilities, SurfaceKey, SurfaceStatus, TargetViews, WindowSurface,
};
use wgpu::TextureFormat::{self, Bgra8Unorm, Bgra8UnormSrgb, Rgba16Float, Rgba8Unorm};
use wgpu::{AstcBlock, AstcChannel, CompositeAlphaMode, PresentMode};

fn offering(formats: Vec<TextureFormat>) -> SurfaceCapabilities {
    SurfaceCapabilities {
        formats,
        present_modes: vec![PresentMode::Mailbox, PresentMode::Fifo],
        alpha_modes: vec![CompositeAlphaMode::Opaque],
    }
}

#[test]
fn the_first_srgb_format_is_configured() {
    let config = surface_config(
        &offering(vec![
            Rgba8Unorm,
            Bgra8UnormSrgb,
            TextureFormat::Rgba8UnormSrgb,
        ]),
        640,
        480,
    );
    assert_eq!(config.format, Bgra8UnormSrgb);
    assert!(config.view_formats.is_empty());
    assert_eq!((config.width, config.height), (640, 480));
    assert_eq!(config.present_mode, PresentMode::Mailbox);
    assert_eq!(config.alpha_mode, CompositeAlphaMode::Opaque);
    assert_eq!(config.desired_maximum_frame_latency, 2);
    assert_eq!(color_format(&config), Bgra8UnormSrgb);
}

#[test]
fn a_surface_without_srgb_is_viewed_as_srgb() {
    let config = surface_config(&offering(vec![Rgba16Float, Bgra8Unorm, Rgba8Unorm]), 1, 1);
    assert_eq!(config.format, Bgra8Unorm);
    assert_eq!(config.view_formats, vec![Bgra8UnormSrgb]);
    assert_eq!(color_format(&config), Bgra8UnormSrgb);
}

#[test]
fn a_surface_that_cannot_be_viewed_as_srgb_is_drawn_as_it_is() {
    let config = surface_config(&offering(vec![Rgba16Float]), 1, 1);
    assert_eq!(config.format, Rgba16Float);
    assert!(config.view_formats.is_empty());
    assert_eq!(frame_format(&config), Rgba16Float);
    let window = WindowSurface::new(config, 1, ResourceId(1), None);
    assert_eq!(window.color_format(), Rgba16Float);
}

#[test]
fn a_surface_has_no_zero_dimension() {
    let config = surface_config(
        &SurfaceCapabilities {
            formats: vec![Rgba8Unorm],
            present_modes: vec![],
            alpha_modes: vec![],
        },
        0,
        0,
    );
    assert_eq!((config.width, config.height), (1, 1));
    assert_eq!(config.present_mode, PresentMode::Fifo);
    assert_eq!(config.alpha_mode, CompositeAlphaMode::Auto);
}

/// What the format helpers are stated to answer, held against wgpu itself.
#[test]
fn srgb_twins_are_those_of_wgpu() {
    let astc = |channel| TextureFormat::Astc {
        block: AstcBlock::B4x4,
        channel,
    };
    let twins = [
        (Rgba8Unorm, TextureFormat::Rgba8UnormSrgb),
        (Bgra8Unorm, Bgra8UnormSrgb),
        (TextureFormat::Bc1RgbaUnorm, TextureFormat::Bc1RgbaUnormSrgb),
        (TextureFormat::Bc2RgbaUnorm, TextureFormat::Bc2RgbaUnormSrgb),
        (TextureFormat::Bc3RgbaUnorm, TextureFormat::Bc3RgbaUnormSrgb),
        (TextureFormat::Bc7RgbaUnorm, TextureFormat::Bc7RgbaUnormSrgb),
        (
            TextureFormat::Etc2Rgb8Unorm,
            TextureFormat::Etc2Rgb8UnormSrgb,
        ),
        (
            TextureFormat::Etc2Rgb8A1Unorm,
            TextureFormat::Etc2Rgb8A1UnormSrgb,
        ),
        (
            TextureFormat::Etc2Rgba8Unorm,
            TextureFormat::Etc2Rgba8UnormSrgb,
        ),
        (astc(AstcChannel::Unorm), astc(AstcChannel::UnormSrgb)),
    ];
    for (plain, srgb) in twins {
        assert_eq!(plain.add_srgb_suffix(), srgb);
        assert!(srgb.is_srgb() && !plain.is_srgb());
        assert_eq!(srgb_format(&vec![plain, srgb]), Some(srgb));
        assert_eq!(srgb_format(&vec![plain]), None);
        let config = surface_config(&offering(vec![Rgba16Float, plain]), 1, 1);
        assert_eq!(config.format, plain);
        assert_eq!(config.view_formats, vec![srgb]);
        assert_eq!(color_format(&config), srgb);
        assert_eq!(frame_format(&config), srgb);
        let config = surface_config(&offering(vec![plain, srgb]), 1, 1);
        assert_eq!(config.format, srgb);
        assert!(config.view_formats.is_empty());
    }
    assert_eq!(srgb_format(&vec![astc(AstcChannel::Hdr)]), None);
}

#[test]
fn a_multisample_texture_exists_only_for_multisampled_frames() {
    assert_eq!(
        create_attachments(Bgra8UnormSrgb, 640, 480, 1),
        Attachments {
            width: 640,
            height: 480,
            sample_count: 1,
            msaa_format: None,
        }
    );
    assert_eq!(
        create_attachments(Bgra8UnormSrgb, 0, 480, 4),
        Attachments {
            width: 1,
            height: 480,
            sample_count: 4,
            msaa_format: Some(Bgra8UnormSrgb),
        }
    );
}

fn window() -> WindowSurface {
    let config = surface_config(&offering(vec![Bgra8Unorm]), 640, 480);
    WindowSurface::new(config, 4, ResourceId(1), Some(ResourceId(2)))
}

#[test]
fn a_surface_reports_its_configuration() {
    let window = window();
    assert_eq!(window.size(), (640, 480));
    assert_eq!(window.format(), Bgra8Unorm);
    assert_eq!(window.color_format(), Bgra8UnormSrgb);
    let config = window.config();
    assert_eq!((config.width, config.height), (640, 480));
    assert_eq!(config.format, Bgra8Unorm);
    assert_eq!(config.view_formats, vec![Bgra8UnormSrgb]);
    assert_eq!(config.present_mode, PresentMode::Mailbox);
}

#[test]
fn a_resize_rebuilds_the_attachments_behind_their_nodes() {
    let mut window = window();
    assert_eq!(
        window.resize(800, 600),
        Some(ResizeStep {
            attachments: Attachments {
                width: 800,
                height: 600,
                sample_count: 4,
                msaa_format: Some(Bgra8UnormSrgb),
            },
            depth_view: ResourceId(1),
            msaa_view: Some(ResourceId(2)),
        })
    );
    assert_eq!(window.size(), (800, 600));
}

#[test]
fn a_minimized_or_unchanged_window_is_ignored() {
    let mut window = window();
    for (width, height) in [(0, 480), (640, 0), (0, 0), (640, 480)] {
        assert_eq!(window.resize(width, height), None);
        assert_eq!(window.size(), (640, 480));
    }
}

#[test]
fn one_color_view_serves_every_frame() {
    let mut window = window();
    assert_eq!(
        window.acquire(SurfaceStatus::Success),
        AcquireStep::Draw {
            replaces: None,
            format: Bgra8UnormSrgb,
        }
    );
    assert_eq!(
        window.bind(ResourceId(9)),
        TargetViews {
            color: Some(ResourceId(9)),
            depth: Some(ResourceId(1)),
            msaa: Some(ResourceId(2)),
        }
    );
    for status in [SurfaceStatus::Success, SurfaceStatus::Suboptimal] {
        assert_eq!(
            window.acquire(status),
            AcquireStep::Draw {
                replaces: Some(ResourceId(9)),
                format: Bgra8UnormSrgb,
            }
        );
    }
}

#[test]
fn a_frame_without_an_image_is_skipped() {
    let window = window();
    assert_eq!(
        window.acquire(SurfaceStatus::Outdated),
        AcquireStep::Reconfigure
    );
    assert_eq!(window.acquire(SurfaceStatus::Lost), AcquireStep::Recreate);
    for status in [
        SurfaceStatus::Timeout,
        SurfaceStatus::Occluded,
        SurfaceStatus::Validation,
    ] {
        assert_eq!(window.acquire(status), AcquireStep::Skip);
    }
}

#[test]
fn a_recorded_view_format_wins() {
    let key = SurfaceKey {
        color_format: Bgra8Unorm,
        depth_stencil_format: Some(TextureFormat::Depth24Plus),
        sample_count: 4,
    };
    let viewed = key.viewed_as(Some(Bgra8UnormSrgb));
    assert_eq!(viewed.color_format, Bgra8UnormSrgb);
    assert_eq!(viewed.depth_stencil_format, key.depth_stencil_format);
    assert_eq!(viewed.sample_count, 4);
    assert_eq!(key.viewed_as(None), key);
    assert!(key.same(&key) && !key.same(&viewed));
    assert!(!key.same(&SurfaceKey {
        depth_stencil_format: None,
        ..key
    }));
    assert!(!key.same(&SurfaceKey {
        sample_count: 1,
        ..key
    }));
}
