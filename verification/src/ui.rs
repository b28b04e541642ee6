//! The egui overlay, as one frame source.
//!
//! [`UiSource`] keeps what the overlay has to remember from frame to frame and
//! decides what each frame asks for: how the interface is laid out, which
//! events it is fed, and which of its GPU state has to be built or rebuilt.
//! Running egui and uploading what it paints is ordinary code around it.
//!
//! The overlay draws with the same pipeline as everything else, but through a
//! camera and frame globals of its own: one pass carries one camera value, so
//! the overlay cannot borrow the 3D camera's.

use vstd::prelude::*;

use crate::components::ResourceId;
use crate::input::InputState;
use crate::scalar::Scalar;
use crate::source::{FrameOrder, FrameSource, FrameTarget, InputCapture, RenderContext};
use crate::surface::SurfaceKey;
use crate::ui::convert::{to_egui_events, UiEvent};

pub mod convert;

verus! {

/// The overlay's nodes in the resource graph. They outlive a change of target:
/// only what is behind the group's node is replaced.
#[derive(Clone, Copy, Debug, PartialEq, Eq, Structural)]
pub struct UiNodes {
    /// The camera uniform.
    pub camera: ResourceId,
    /// The frame-globals uniform.
    pub globals: ResourceId,
    /// The bind group binding the two uniforms.
    pub global_group: ResourceId,
}

/// What has to happen to the overlay's GPU state before a frame.
#[derive(Clone, Copy, Debug, PartialEq, Eq, Structural)]
pub enum GpuStep {
    /// Nothing.
    Keep,
    /// Build it: both uniforms, then the group that depends on them.
    Build,
    /// Build a pipeline for the new target, and put its group behind this node.
    Rebuild(ResourceId),
}

/// What a frame of the overlay is laid out and fed with.
#[derive(Debug)]
pub struct UiFrame {
    /// The size of the screen, in physical pixels.
    pub size_px: (u32, u32),
    /// How many physical pixels a logical point takes.
    pub pixels_per_point: Scalar,
    /// Whether the window has the focus.
    pub focused: bool,
    /// The frame's events.
    pub events: Vec<UiEvent>,
    /// What has to happen to the GPU state first.
    pub gpu: GpuStep,
    /// Whether the target encodes sRGB, so that the overlay, which blends in
    /// gamma space, has to convert its output.
    pub srgb: bool,
}

/// How many physical pixels a logical point takes: the window's own factor, or
/// one until something says otherwise.
#[verifier::allow_in_spec]
pub fn pixels_per_point(scale_factor: Scalar) -> Scalar
    returns
        (if scale_factor.is_positive() {
            scale_factor
        } else {
            Scalar::one()
        }),
{
    if scale_factor.is_positive() {
        scale_factor
    } else {
        Scalar::one()
    }
}

/// The screen the overlay lays out on: the window's size, or the target's as
/// long as the window's is not known.
#[verifier::allow_in_spec]
pub fn screen_size(size_px: (u32, u32), target: FrameTarget<SurfaceKey>) -> (u32, u32)
    returns
        (if size_px.0 == 0 && size_px.1 == 0 {
            (target.width, target.height)
        } else {
            size_px
        }),
{
    if size_px.0 == 0 && size_px.1 == 0 {
        (target.width, target.height)
    } else {
        size_px
    }
}

/// The overlay, for entities named by `E` and draws of type `D`.
#[derive(Debug)]
pub struct UiSource<E, D> {
    scene: Vec<D>,
    gpu: Option<UiNodes>,
    surface: Option<SurfaceKey>,
    input: Option<E>,
    context: Option<RenderContext<E>>,
}

/// What a [`UiSource`] keeps track of.
#[verifier::ext_equal]
pub struct UiModel<E, D> {
    /// This frame's draws.
    pub scene: Seq<D>,
    /// The nodes of the GPU state, once a frame knew its target.
    pub gpu: Option<UiNodes>,
    /// The target the pipeline is specialized for.
    pub surface: Option<SurfaceKey>,
    /// The input state found on the last frame, if the world has one.
    pub input: Option<E>,
    /// The frame's GPU context, learned on the first frame.
    pub context: Option<RenderContext<E>>,
}

impl<E, D> UiModel<E, D> {
    /// The overlay once a frame started: without a target the input it read
    /// last stays what it was.
    pub open spec fn begun(
        self,
        context: RenderContext<E>,
        has_target: bool,
        input: Option<E>,
    ) -> UiModel<E, D> {
        UiModel {
            scene: Seq::empty(),
            context: Some(context),
            input: if has_target {
                input
            } else {
                self.input
            },
            ..self
        }
    }

    /// The overlay once its GPU state was built for `surface`.
    pub open spec fn built_for(self, nodes: UiNodes, surface: SurfaceKey) -> UiModel<E, D> {
        UiModel { gpu: Some(nodes), surface: Some(surface), ..self }
    }

    /// The overlay once its pipeline was rebuilt for `surface`.
    pub open spec fn rebuilt_for(self, surface: SurfaceKey) -> UiModel<E, D> {
        UiModel { surface: Some(surface), ..self }
    }

    /// The overlay once it draws `draws` besides.
    pub open spec fn drawing(self, draws: Seq<D>) -> UiModel<E, D> {
        UiModel { scene: self.scene + draws, ..self }
    }

    /// The overlay once it gave its GPU state up.
    pub open spec fn released(self) -> UiModel<E, D> {
        UiModel { gpu: None, ..self }
    }

    /// What a frame drawn into `surface` asks of the GPU state.
    pub open spec fn gpu_step(self, surface: SurfaceKey) -> GpuStep {
        match self.gpu {
            None => GpuStep::Build,
            Some(nodes) => if self.surface == Some(surface) {
                GpuStep::Keep
            } else {
                GpuStep::Rebuild(nodes.global_group)
            },
        }
    }
}

impl<E, D> View for UiSource<E, D> {
    type V = UiModel<E, D>;

    closed spec fn view(&self) -> UiModel<E, D> {
        UiModel {
            scene: self.scene@,
            gpu: self.gpu,
            surface: self.surface,
            input: self.input,
            context: self.context,
        }
    }
}

/// Whether `frame` is the frame that `target` and the world's input ask for.
/// Without an input state the overlay lays out at the target's own size, with
/// nothing to feed it.
pub open spec fn lays_out(
    frame: UiFrame,
    target: FrameTarget<SurfaceKey>,
    input: Option<crate::input::InputModel>,
) -> bool {
    match input {
        Some(state) => {
            &&& frame.size_px == screen_size(state.size_px, target)
            &&& frame.pixels_per_point == pixels_per_point(state.scale_factor)
            &&& frame.focused == state.focused
            &&& frame.events@ == convert::frame_translation(
                state.events,
                pixels_per_point(state.scale_factor),
            )
        },
        None => {
            &&& frame.size_px == (target.width, target.height)
            &&& frame.pixels_per_point == Scalar::one()
            &&& frame.focused
            &&& frame.events@ == Seq::<UiEvent>::empty()
        },
    }
}

impl UiNodes {
    /// The nodes in the order they are removed.
    pub open spec fn removal_order(self) -> Seq<ResourceId> {
        seq![self.global_group, self.camera, self.globals]
    }
}

/// What removing the overlay frees: these nodes, in this order, of the graph
/// on this entity.
#[derive(Debug)]
pub struct UiRelease<E> {
    /// The entity of the graph.
    pub graph: E,
    /// The nodes, in the order they are removed.
    pub nodes: Vec<ResourceId>,
}

impl<E: Copy, D> UiSource<E, D> {
    /// An overlay that has drawn nothing yet. Its GPU state is built with the
    /// first frame that knows its target.
    pub fn new() -> (source: Self)
        ensures
            source@ == (UiModel {
                scene: Seq::<D>::empty(),
                gpu: None,
                surface: None,
                input: None::<E>,
                context: None,
            }),
    {
        UiSource { scene: Vec::new(), gpu: None, surface: None, input: None, context: None }
    }

    /// Start a frame: drop the last frame's draws, and say what this one is
    /// laid out and fed with.
    ///
    /// Without a target the frame is skipped: a pipeline cannot be specialized
    /// on a target nobody stated, and a stale one is worse than none.
    pub fn begin_scene(
        &mut self,
        context: RenderContext<E>,
        target: Option<FrameTarget<SurfaceKey>>,
        input: Option<(E, &InputState)>,
    ) -> (frame: Option<UiFrame>)
        ensures
            frame is Some <==> target is Some,
            final(self)@ == old(self)@.begun(
                context,
                target is Some,
                match input {
                    Some((entity, _)) => Some(entity),
                    None => None,
                },
            ),
            final(self)@ == (UiModel {
                scene: Seq::<D>::empty(),
                context: Some(context),
                input: if target is None {
                    old(self)@.input
                } else {
                    match input {
                        Some((entity, _)) => Some(entity),
                        None => None,
                    }
                },
                ..old(self)@
            }),
            frame matches Some(frame) ==> {
                &&& lays_out(
                    frame,
                    target->0,
                    match input {
                        Some((_, state)) => Some(state@),
                        None => None,
                    },
                )
                &&& frame.gpu == old(self)@.gpu_step(target->0.surface)
                &&& frame.srgb == crate::surface::encodes_srgb(target->0.surface.color_format)
            },
    {
        self.context = Some(context);
        self.scene.clear();
        let target = match target {
            Some(target) => target,
            None => {
                return None;
            },
        };
        let gpu = match self.gpu {
            None => GpuStep::Build,
            Some(nodes) => {
                let same = match self.surface {
                    Some(surface) => surface.same(&target.surface),
                    None => false,
                };
                if same {
                    GpuStep::Keep
                } else {
                    GpuStep::Rebuild(nodes.global_group)
                }
            },
        };
        let srgb = target.surface.color_format.is_srgb();
        match input {
            Some((entity, state)) => {
                self.input = Some(entity);
                let window = state.window_state();
                let density = pixels_per_point(window.scale_factor);
                Some(
                    UiFrame {
                        size_px: screen_size(window.size_px, target),
                        pixels_per_point: density,
                        focused: window.focused,
                        events: to_egui_events(state.events(), density),
                        gpu,
                        srgb,
                    },
                )
            },
            None => {
                self.input = None;
                Some(
                    UiFrame {
                        size_px: (target.width, target.height),
                        pixels_per_point: Scalar::one(),
                        focused: true,
                        events: Vec::new(),
                        gpu,
                        srgb,
                    },
                )
            },
        }
    }

    /// Take note of GPU state that was built for `surface`.
    pub fn built(&mut self, nodes: UiNodes, surface: SurfaceKey)
        ensures
            final(self)@ == old(self)@.built_for(nodes, surface),
            final(self)@ == (UiModel { gpu: Some(nodes), surface: Some(surface), ..old(self)@ }),
    {
        self.gpu = Some(nodes);
        self.surface = Some(surface);
    }

    /// Take note of a pipeline that was rebuilt for `surface`, behind the nodes
    /// there are.
    pub fn rebuilt(&mut self, surface: SurfaceKey)
        ensures
            final(self)@ == old(self)@.rebuilt_for(surface),
            final(self)@ == (UiModel { surface: Some(surface), ..old(self)@ }),
    {
        self.surface = Some(surface);
    }

    /// Finish a frame with what the overlay draws.
    pub fn finish_scene(&mut self, draws: Vec<D>)
        ensures
            final(self)@ == old(self)@.drawing(draws@),
            final(self)@ == (UiModel { scene: old(self)@.scene + draws@, ..old(self)@ }),
    {
        let mut draws = draws;
        self.scene.append(&mut draws);
    }

    /// This frame's draws.
    pub fn scene(&self) -> (scene: &Vec<D>)
        ensures
            scene@ == self@.scene,
    {
        &self.scene
    }

    /// The overlay's nodes, once they are built.
    pub fn nodes(&self) -> (nodes: Option<UiNodes>)
        ensures
            nodes == self@.gpu,
    {
        self.gpu
    }

    /// The entity of the input state the last frame read, if there was one.
    pub fn input(&self) -> (input: Option<E>)
        ensures
            input == self@.input,
    {
        self.input
    }

    /// Give up the GPU state, and say what has to be removed: the bind group
    /// before the buffers it depends on, so it does not outlive them.
    pub fn release(&mut self) -> (release: Option<UiRelease<E>>)
        ensures
            final(self)@ == old(self)@.released(),
            final(self)@ == (UiModel { gpu: None, ..old(self)@ }),
            release is Some <==> old(self)@.gpu is Some && old(self)@.context is Some,
            release matches Some(release) ==> {
                let nodes = old(self)@.gpu->0;
                &&& release.graph == old(self)@.context->0.graph
                &&& release.nodes@ == nodes.removal_order()
                &&& release.nodes@ == seq![nodes.global_group, nodes.camera, nodes.globals]
            },
    {
        let nodes = match self.gpu {
            Some(nodes) => nodes,
            None => {
                return None;
            },
        };
        self.gpu = None;
        let context = match self.context {
            Some(context) => context,
            None => {
                return None;
            },
        };
        let mut removed: Vec<ResourceId> = Vec::new();
        removed.push(nodes.global_group);
        removed.push(nodes.camera);
        removed.push(nodes.globals);
        assert(removed@ =~= seq![nodes.global_group, nodes.camera, nodes.globals]);
        Some(UiRelease { graph: context.graph, nodes: removed })
    }
}

impl<E: Copy, D> Default for UiSource<E, D> {
    fn default() -> (source: Self)
        ensures
            source@ == (UiModel {
                scene: Seq::<D>::empty(),
                gpu: None,
                surface: None,
                input: None::<E>,
                context: None,
            }),
    {
        UiSource::new()
    }
}

impl<E: 'static, D: 'static> FrameSource for UiSource<E, D> {
    open spec fn declared_order(&self) -> FrameOrder {
        FrameOrder::overlay()
    }

    fn order(&self) -> (order: FrameOrder) {
        FrameOrder::overlay()
    }
}

/// Publish what the UI claimed this frame in the world's resource, and say
/// whether there was one. A world without one is not an error: there is simply
/// nowhere to report the claim.
pub fn publish_capture(slot: Option<&mut InputCapture>, pointer: bool, keyboard: bool) -> (written:
    bool)
    ensures
        written == slot is Some,
        slot matches Some(slot) ==> *final(slot) == (InputCapture { pointer, keyboard }),
{
    match slot {
        Some(slot) => {
            *slot = InputCapture { pointer, keyboard };
            true
        },
        None => false,
    }
}

/// The GPU state is built once and follows the target: after a frame drawn
/// into a target, the next frame into the same target keeps it, and one into
/// another target rebuilds it behind the same node.
pub proof fn law_gpu_state_follows_the_target<E, D>(
    source: UiModel<E, D>,
    nodes: UiNodes,
    surface: SurfaceKey,
    other: SurfaceKey,
)
    requires
        other != surface,
    ensures
        ({
            let drawn = UiModel { gpu: Some(nodes), surface: Some(surface), ..source };
            &&& drawn.gpu_step(surface) == GpuStep::Keep
            &&& drawn.gpu_step(other) == GpuStep::Rebuild(nodes.global_group)
        }),
{
}

/// An overlay that gave its GPU state up builds it anew with its next frame.
pub proof fn law_a_released_overlay_builds_again<E, D>(source: UiModel<E, D>, surface: SurfaceKey)
    ensures
        (UiModel { gpu: None, ..source }).gpu_step(surface) == GpuStep::Build,
{
}

/// The overlay records over the meshes.
pub proof fn law_the_overlay_records_over_the_meshes<E: 'static, D: 'static, M: 'static>(
    overlay: UiSource<E, D>,
    meshes: crate::mesh_source::MeshSource<E, M>,
)
    ensures
        meshes.declared_order().0 < overlay.declared_order().0,
{
}

/// The density the overlay lays out at is the window's own where that is a
/// positive number, and one point per pixel where it is not, so that it is
/// always positive.
pub proof fn law_the_density_is_always_positive(scale_factor: Scalar)
    ensures
        pixels_per_point(scale_factor).is_positive(),
        scale_factor.is_positive() ==> pixels_per_point(scale_factor) == scale_factor,
        !scale_factor.is_positive() ==> pixels_per_point(scale_factor).0 == 0x3f80_0000,
{
}

/// The overlay covers the window once its size is known in either direction, and
/// the target until then.
pub proof fn law_the_overlay_covers_the_window(
    size_px: (u32, u32),
    target: FrameTarget<SurfaceKey>,
)
    ensures
        size_px.0 != 0 || size_px.1 != 0 ==> screen_size(size_px, target) == size_px,
        size_px == (0u32, 0u32) ==> screen_size(size_px, target).0 == target.width && screen_size(
            size_px,
            target,
        ).1 == target.height,
{
}

/// A frame of the overlay is fed the window it is drawn in: its focus, its size,
/// its density, and every event that arrived, translated at that density.
pub proof fn law_the_overlay_is_fed_its_window(
    frame: UiFrame,
    target: FrameTarget<SurfaceKey>,
    state: crate::input::InputModel,
)
    requires
        lays_out(frame, target, Some(state)),
    ensures
        frame.focused == state.focused,
        state.size_px.0 != 0 || state.size_px.1 != 0 ==> frame.size_px == state.size_px,
        state.size_px == (0u32, 0u32) ==> frame.size_px == (target.width, target.height),
        state.scale_factor.is_positive() ==> frame.pixels_per_point == state.scale_factor,
        frame.pixels_per_point.is_positive(),
        frame.events@ == convert::frame_translation(state.events, frame.pixels_per_point),
{
}

/// Without a window the overlay is laid out on the target at one point per
/// pixel, has the focus, and is fed nothing.
pub proof fn law_the_overlay_does_without_a_window(frame: UiFrame, target: FrameTarget<SurfaceKey>)
    requires
        lays_out(frame, target, None),
    ensures
        frame.focused,
        frame.size_px == (target.width, target.height),
        frame.pixels_per_point.0 == 0x3f80_0000,
        frame.events@.len() == 0,
{
}

/// The GPU state is built when there is none, and a target it was not built for
/// rebuilds what is there, behind the node it has.
pub proof fn law_gpu_state_is_built_when_missing<E, D>(
    source: UiModel<E, D>,
    surface: SurfaceKey,
)
    ensures
        source.gpu_step(surface) is Build <==> source.gpu is None,
        source.gpu_step(surface) is Keep <==> source.gpu is Some && source.surface == Some(surface),
        source.gpu_step(surface) matches GpuStep::Rebuild(node) ==> source.gpu is Some && node
            == source.gpu->0.global_group,
{
}

/// A released overlay leaves nothing behind and nothing dangling: every node it
/// had is removed, once, and the group before the buffers it reads.
pub proof fn law_a_release_removes_every_node(nodes: UiNodes)
    ensures
        nodes.removal_order().len() == 3,
        nodes.removal_order()[0] == nodes.global_group,
        nodes.removal_order().contains(nodes.camera),
        nodes.removal_order().contains(nodes.globals),
{
    assert(nodes.removal_order()[1] == nodes.camera);
    assert(nodes.removal_order()[2] == nodes.globals);
}

/// A frame shows its own draws and no earlier ones: whatever was drawn before,
/// a frame that starts and draws has exactly what it drew.
pub proof fn law_a_frame_shows_its_own_draws<E, D>(
    source: UiModel<E, D>,
    context: RenderContext<E>,
    has_target: bool,
    input: Option<E>,
    first: Seq<D>,
    second: Seq<D>,
)
    ensures
        source.begun(context, has_target, input).scene.len() == 0,
        source.begun(context, has_target, input).drawing(first).scene == first,
        source.begun(context, has_target, input).drawing(first).drawing(second).scene == first
            + second,
{
    let begun = source.begun(context, has_target, input);
    assert(begun.drawing(first).scene =~= first);
}

/// A frame that starts remembers the context it runs in and, where it knows its
/// target, the input it reads; and the GPU state outlives it.
pub proof fn law_a_started_frame_remembers_its_input<E, D>(
    source: UiModel<E, D>,
    context: RenderContext<E>,
    has_target: bool,
    input: Option<E>,
)
    ensures
        source.begun(context, has_target, input).context == Some(context),
        source.begun(context, true, input).input == input,
        source.begun(context, false, input).input == source.input,
        source.begun(context, has_target, input).gpu == source.gpu,
        source.begun(context, has_target, input).surface == source.surface,
{
}

/// GPU state that was built or rebuilt for a target is kept for it: the next
/// frame into that target asks for nothing, and a rebuild keeps the nodes.
pub proof fn law_gpu_state_is_kept_once_built<E, D>(
    source: UiModel<E, D>,
    nodes: UiNodes,
    surface: SurfaceKey,
    other: SurfaceKey,
)
    ensures
        source.built_for(nodes, surface).gpu_step(surface) is Keep,
        source.built_for(nodes, surface).rebuilt_for(other).gpu_step(other) is Keep,
        source.built_for(nodes, surface).rebuilt_for(other).gpu == Some(nodes),
        source.built_for(nodes, surface).released().gpu is None,
        source.released().gpu_step(surface) is Build,
        source.released().context == source.context,
{
}

} // verus!
