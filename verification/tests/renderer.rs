//! The frame driver.

use unlit3d::components::ResourceId;
use unlit3d::renderer::{frame_load_ops, AttachmentInfo, FrameRecord, Renderer};
use unlit3d::source::{
    frame_target, FrameOrder, FrameTarget, FrameTargetSlot, RenderContext, SourceEntry,
};
use unlit3d::surface::{SurfaceKey, TargetViews};
use wgpu::TextureFormat::{Bgra8Unorm, Bgra8UnormSrgb, Depth32Float};

/// The load ops of a frame: what its pass loads and clears.
#[derive(Clone, Copy, Debug, PartialEq)]
struct RenderLoadOps {
    color: wgpu::LoadOp<wgpu::Color>,
    depth: wgpu::LoadOp<f32>,
}

impl Default for RenderLoadOps {
    fn default() -> Self {
        Self {
            color: wgpu::LoadOp::Clear(wgpu::Color::BLACK),
            depth: wgpu::LoadOp::Clear(0.0),
        }
    }
}

#[test]
fn a_world_without_load_ops_clears_with_the_defaults() {
    assert_eq!(
        frame_load_ops(&vec![], RenderLoadOps::default()),
        RenderLoadOps::default()
    );
}

#[test]
fn load_ops_are_read_from_any_entity() {
    let world = vec![RenderLoadOps {
        color: wgpu::LoadOp::Load,
        ..Default::default()
    }];
    assert_eq!(
        frame_load_ops(&world, RenderLoadOps::default()).color,
        wgpu::LoadOp::Load
    );
}

#[test]
fn the_first_load_ops_entity_wins() {
    let world = vec![
        RenderLoadOps {
            depth: wgpu::LoadOp::Load,
            ..Default::default()
        },
        RenderLoadOps {
            depth: wgpu::LoadOp::Clear(1.0),
            ..Default::default()
        },
    ];
    assert_eq!(
        frame_load_ops(&world, RenderLoadOps::default()).depth,
        wgpu::LoadOp::Load
    );
}

fn context() -> RenderContext<u32> {
    RenderContext {
        device: 1,
        queue: 2,
        graph: 3,
    }
}

fn info() -> AttachmentInfo {
    AttachmentInfo {
        key: SurfaceKey {
            color_format: Bgra8Unorm,
            depth_stencil_format: Some(Depth32Float),
            sample_count: 4,
        },
        color_view_format: Some(Bgra8UnormSrgb),
        width: 640,
        height: 480,
    }
}

fn views() -> TargetViews {
    TargetViews {
        color: Some(ResourceId(1)),
        depth: Some(ResourceId(2)),
        msaa: Some(ResourceId(3)),
    }
}

#[test]
fn binding_a_target_states_it_for_the_frame() {
    let mut slot = FrameTargetSlot::empty();
    let mut renderer = Renderer::new(context());
    assert_eq!(renderer.context(), context());
    assert!(!renderer.has_target());

    renderer.set_render_target(Some(&mut slot), views(), info());
    assert!(renderer.has_target());
    let target = FrameTarget {
        surface: SurfaceKey {
            color_format: Bgra8UnormSrgb,
            ..info().key
        },
        width: 640,
        height: 480,
    };
    assert_eq!(
        renderer.frame_target(),
        target,
        "the format the view was recorded with wins over its texture's"
    );
    assert_eq!(frame_target(Some(&slot)), Some(target));

    renderer.unset_render_target(Some(&mut slot));
    assert!(!renderer.has_target());
    assert_eq!(frame_target(Some(&slot)), None);
}

#[test]
fn a_depth_only_target_has_no_color_view_to_read_a_format_of() {
    let mut renderer = Renderer::new(context());
    renderer.set_render_target(
        None,
        TargetViews {
            color: None,
            msaa: None,
            ..views()
        },
        info(),
    );
    assert_eq!(renderer.frame_target().surface, info().key);
}

fn row(order: i32, mount_index: u64, entity: u32) -> SourceEntry<u32> {
    SourceEntry {
        order: FrameOrder(order),
        mount_index,
        entity,
    }
}

#[test]
fn a_frame_records_its_sources_in_declared_order() {
    let mut renderer = Renderer::new(context());
    renderer.set_render_target(None, views(), info());
    let record = renderer.render(&vec![row(100, 0, 7), row(0, 1, 8), row(50, 2, 9)]);
    assert_eq!(
        record,
        FrameRecord {
            views: views(),
            reports: false,
        }
    );
    assert_eq!(renderer.sources(), &vec![8, 9, 7]);
    assert!(renderer.ambiguous().is_empty());
}

#[test]
fn a_frame_without_a_source_still_records() {
    let mut renderer = Renderer::new(context());
    renderer.set_render_target(None, views(), info());
    let record = renderer.render(&vec![]);
    assert_eq!(record.views, views());
    assert!(renderer.sources().is_empty());
}

#[test]
fn an_ambiguous_frame_is_reported_until_it_was() {
    let mut renderer = Renderer::new(context());
    renderer.set_render_target(None, views(), info());
    let rows = vec![row(0, 1, 7), row(0, 0, 8)];
    assert!(renderer.render(&rows).reports);
    assert_eq!(renderer.sources(), &vec![8, 7]);
    assert_eq!(renderer.ambiguous(), &vec![(FrameOrder(0), vec![8, 7])]);
    assert!(!renderer.render(&rows).reports, "a steady frame stays quiet");
    assert!(!renderer.render(&vec![row(0, 0, 8)]).reports);
    assert!(renderer.render(&rows).reports, "it came back");
}
