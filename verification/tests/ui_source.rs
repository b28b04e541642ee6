//! The egui overlay as a frame source.

use unlit3d::components::ResourceId;
use unlit3d::input::{
    InputEvent, InputState, Modifiers, MouseButton, MouseEvent, TextEvent,
};
use unlit3d::scalar::Scalar;
use unlit3d::source::{
    FrameOrder, FrameSource, FrameTarget, InputCapture, RenderContext, SourceEntry, SourceOrder,
};
use unlit3d::surface::SurfaceKey;
use unlit3d::ui::convert::{Points, UiEvent};
use unlit3d::ui::{
    pixels_per_point, publish_capture, screen_size, GpuStep, UiFrame, UiNodes, UiSource,
};

type Overlay = UiSource<u32, &'static str>;

fn surface() -> SurfaceKey {
    SurfaceKey {
        color_format: wgpu::TextureFormat::Rgba8UnormSrgb,
        depth_stencil_format: None,
        sample_count: 1,
    }
}

fn test_target() -> FrameTarget<SurfaceKey> {
    FrameTarget {
        surface: surface(),
        width: 128,
        height: 96,
    }
}

fn context() -> RenderContext<u32> {
    RenderContext {
        device: 1,
        queue: 2,
        graph: 3,
    }
}

fn nodes() -> UiNodes {
    UiNodes {
        camera: ResourceId(10),
        globals: ResourceId(11),
        global_group: ResourceId(12),
    }
}

/// Draw one frame the way a frame loop does.
fn draw(source: &mut Overlay, target: FrameTarget<SurfaceKey>, draws: Vec<&'static str>) -> UiFrame {
    let frame = source
        .begin_scene(context(), Some(target), None)
        .expect("a target was stated");
    match frame.gpu {
        GpuStep::Keep => {}
        GpuStep::Build => source.built(nodes(), target.surface),
        GpuStep::Rebuild(group) => {
            assert_eq!(Some(group), source.nodes().map(|nodes| nodes.global_group));
            source.rebuilt(target.surface);
        }
    }
    source.finish_scene(draws);
    frame
}

#[test]
fn a_missing_frame_target_draws_nothing() {
    let mut source = Overlay::new();
    assert!(source.begin_scene(context(), None, None).is_none());
    assert!(source.scene().is_empty());
    assert!(source.nodes().is_none(), "no target was specialized for");

    // A target that went away: the last frame's draws go with it.
    draw(&mut source, test_target(), vec!["panel"]);
    assert_eq!(source.scene(), &vec!["panel"]);
    assert!(source.begin_scene(context(), None, None).is_none());
    assert!(source.scene().is_empty());
    assert_eq!(source.nodes(), Some(nodes()));
}

#[test]
fn a_fresh_source_declares_the_overlay_order() {
    let source = Overlay::new();
    assert_eq!(source.order(), FrameOrder::overlay());
    assert_eq!(source.order(), FrameOrder(100));
    assert!(Overlay::default().scene().is_empty());
}

#[test]
fn the_overlay_records_over_the_meshes() {
    let mut order = SourceOrder::empty();
    order.resolve(&vec![
        SourceEntry {
            order: Overlay::new().order(),
            mount_index: 0,
            entity: 1u32,
        },
        SourceEntry {
            order: FrameOrder::mesh(),
            mount_index: 1,
            entity: 2u32,
        },
    ]);
    assert_eq!(order.entities(), &vec![2, 1]);
}

#[test]
fn the_gpu_state_follows_the_target() {
    let mut source = Overlay::new();
    assert_eq!(
        draw(&mut source, test_target(), vec![]).gpu,
        GpuStep::Build
    );
    assert_eq!(draw(&mut source, test_target(), vec![]).gpu, GpuStep::Keep);

    let multisampled = FrameTarget {
        surface: SurfaceKey {
            sample_count: 4,
            ..surface()
        },
        ..test_target()
    };
    assert_eq!(
        draw(&mut source, multisampled, vec![]).gpu,
        GpuStep::Rebuild(ResourceId(12))
    );
    assert_eq!(draw(&mut source, multisampled, vec![]).gpu, GpuStep::Keep);

    let with_depth = FrameTarget {
        surface: SurfaceKey {
            depth_stencil_format: Some(wgpu::TextureFormat::Depth32Float),
            ..surface()
        },
        ..test_target()
    };
    assert_eq!(
        draw(&mut source, with_depth, vec![]).gpu,
        GpuStep::Rebuild(ResourceId(12))
    );
    assert_eq!(
        draw(&mut source, test_target(), vec![]).gpu,
        GpuStep::Rebuild(ResourceId(12))
    );
    assert_eq!(source.nodes(), Some(nodes()), "the nodes outlive a target");

    // A resized target of the same key keeps the pipeline.
    let larger = FrameTarget {
        width: 640,
        ..test_target()
    };
    assert_eq!(draw(&mut source, larger, vec![]).gpu, GpuStep::Keep);
}

#[test]
fn a_target_says_whether_it_encodes_srgb() {
    let mut source = Overlay::new();
    assert!(draw(&mut source, test_target(), vec![]).srgb);
    let linear = FrameTarget {
        surface: SurfaceKey {
            color_format: wgpu::TextureFormat::Rgba8Unorm,
            ..surface()
        },
        ..test_target()
    };
    assert!(!draw(&mut source, linear, vec![]).srgb);
}

#[test]
fn a_released_source_removes_the_group_before_its_buffers() {
    let mut source = Overlay::new();
    assert!(source.release().is_none(), "nothing was built");
    draw(&mut source, test_target(), vec!["panel"]);
    let release = source.release().expect("the state was built");
    assert_eq!(release.graph, 3);
    assert_eq!(
        release.nodes,
        vec![ResourceId(12), ResourceId(10), ResourceId(11)]
    );
    assert!(source.release().is_none(), "nothing is left");
    assert_eq!(
        draw(&mut source, test_target(), vec![]).gpu,
        GpuStep::Build
    );
}

/// State that was built without a frame to learn the graph from has nowhere to
/// be removed from.
#[test]
fn a_source_without_a_context_releases_nothing() {
    let mut source = Overlay::new();
    source.built(nodes(), surface());
    assert!(source.release().is_none());
    assert!(source.nodes().is_none());
}

#[test]
fn a_world_without_input_state_draws_an_idle_frame() {
    let mut source = Overlay::new();
    let frame = draw(&mut source, test_target(), vec!["panel"]);
    assert_eq!(frame.size_px, (128, 96));
    assert_eq!(frame.pixels_per_point, Scalar::one());
    assert!(frame.focused);
    assert!(frame.events.is_empty());
    assert_eq!(source.input(), None);
    assert!(
        !source.scene().is_empty(),
        "a panel draws with no input in the world"
    );
}

#[test]
fn the_frame_events_reach_the_panels() {
    let mut source = Overlay::new();
    let mut state = InputState::default();
    state.set_size_px(128, 96);
    state.push(InputEvent::Text(TextEvent("hi".to_string())));

    let frame = source
        .begin_scene(context(), Some(test_target()), Some((7, &state)))
        .expect("a target was stated");
    assert_eq!(frame.events, vec![UiEvent::Text("hi".to_string())]);
    assert_eq!(source.input(), Some(7));

    // The caller clears the events between frames, which is what keeps a
    // frame's text from being delivered twice.
    state.clear_events();
    let frame = source
        .begin_scene(context(), Some(test_target()), Some((7, &state)))
        .expect("a target was stated");
    assert!(frame.events.is_empty());
}

#[test]
fn a_mouse_click_reaches_a_widget() {
    let centre = [Scalar(32.0f32.to_bits()), Scalar(20.0f32.to_bits())];
    let mut state = InputState::default();
    state.set_size_px(128, 96);
    for event in [
        MouseEvent::Moved { position: centre },
        MouseEvent::Button {
            position: centre,
            button: MouseButton::Primary,
            pressed: true,
            modifiers: Modifiers::default(),
        },
        MouseEvent::Button {
            position: centre,
            button: MouseButton::Primary,
            pressed: false,
            modifiers: Modifiers::default(),
        },
    ] {
        state.push(InputEvent::Mouse(event));
    }
    let frame = Overlay::new()
        .begin_scene(context(), Some(test_target()), Some((7, &state)))
        .expect("a target was stated");
    let pos = Points {
        pixels: centre,
        density: Scalar::one(),
    };
    let button = |pressed| UiEvent::PointerButton {
        pos,
        button: egui::PointerButton::Primary,
        pressed,
        modifiers: egui::Modifiers::default(),
    };
    assert_eq!(
        frame.events,
        vec![UiEvent::PointerMoved(pos), button(true), button(false)],
        "a press and release inside a widget must click it"
    );
}

#[test]
fn the_window_decides_the_layout_once_it_is_known() {
    let two = Scalar(2.0f32.to_bits());
    let mut state = InputState::default();
    let mut source = Overlay::new();
    let frame = source
        .begin_scene(context(), Some(test_target()), Some((7, &state)))
        .expect("a target was stated");
    assert_eq!(frame.size_px, (128, 96), "an unknown window is the target");

    state.set_size_px(640, 480);
    state.set_scale_factor(two);
    state.push(InputEvent::FocusChanged(false));
    let frame = source
        .begin_scene(context(), Some(test_target()), Some((7, &state)))
        .expect("a target was stated");
    assert_eq!(frame.size_px, (640, 480));
    assert_eq!(frame.pixels_per_point, two);
    assert!(!frame.focused);
}

#[test]
fn a_density_that_is_not_positive_is_one() {
    for value in [0.0f32, -0.0, -1.0, f32::NAN, f32::NEG_INFINITY] {
        assert_eq!(pixels_per_point(Scalar(value.to_bits())), Scalar::one());
    }
    for value in [1.5f32, f32::MIN_POSITIVE, 1.0e-45, f32::INFINITY] {
        let scale = Scalar(value.to_bits());
        assert_eq!(pixels_per_point(scale), scale);
    }
}

#[test]
fn only_an_unknown_size_falls_back_to_the_target() {
    assert_eq!(screen_size((0, 0), test_target()), (128, 96));
    assert_eq!(screen_size((0, 5), test_target()), (0, 5));
    assert_eq!(screen_size((3, 0), test_target()), (3, 0));
}

#[test]
fn the_ui_publishes_what_it_claimed() {
    let mut capture = InputCapture::default();
    assert!(!capture.any());
    assert!(publish_capture(Some(&mut capture), true, false));
    assert!(capture.pointer && !capture.keyboard);
    assert!(capture.any());
    assert!(publish_capture(Some(&mut capture), false, true));
    assert!(!capture.pointer && capture.keyboard && capture.any());
    assert!(!publish_capture(None, true, true));
}
