//! The frame driver: what a frame is drawn into, and in which order.
//!
//! A [`Renderer`] draws nothing itself. It keeps the frame's render target and
//! drives the frame's sources: every source builds its own scene from the
//! world, then the scenes are recorded, in the order the sources state, into
//! one pass opened over the target's attachments.

use vstd::prelude::*;
use wgpu::TextureFormat;

use crate::components::ResourceId;
use crate::source::{
    set_frame_target, unset_frame_target, AmbiguousGroup, FrameOrder, FrameTarget,
    FrameTargetSlot, OrderWarnings, RenderContext, SourceEntry, SourceOrder,
};
use crate::surface::{SurfaceKey, TargetViews};

verus! {

/// What the views of a render target say of it.
#[derive(Clone, Copy, Debug, PartialEq, Eq)]
pub struct AttachmentInfo {
    /// The key of the attachments, in their textures' own formats.
    pub key: SurfaceKey,
    /// The format the color view was recorded with, if it was.
    pub color_view_format: Option<TextureFormat>,
    /// The width of the attachments, in physical pixels.
    pub width: u32,
    /// The height of the attachments, in physical pixels.
    pub height: u32,
}

impl AttachmentInfo {
    /// The frame's target over these attachments. The format a color view was
    /// recorded with wins over its texture's; a pass without a color view has
    /// none to win.
    pub open spec fn target(self, color_view: Option<ResourceId>) -> FrameTarget<SurfaceKey> {
        FrameTarget {
            surface: if color_view is Some {
                self.key.viewed_as(self.color_view_format)
            } else {
                self.key
            },
            width: self.width,
            height: self.height,
        }
    }
}

/// Whether a pass can be opened over these views: it has a color or a depth
/// attachment, and a multisample attachment only alongside a color view it
/// resolves into.
pub open spec fn can_open_pass(views: TargetViews) -> bool {
    &&& views.color is Some || views.depth is Some
    &&& views.msaa is Some ==> views.color is Some
}

/// What a frame is recorded with.
#[derive(Clone, Copy, Debug, PartialEq, Eq)]
pub struct FrameRecord {
    /// The views the pass is opened over.
    pub views: TargetViews,
    /// Whether the ambiguous groups of this frame's order are to be reported.
    pub reports: bool,
}

/// The top-level frame driver, for entities named by `E`.
pub struct Renderer<E> {
    context: RenderContext<E>,
    views: TargetViews,
    target: Option<FrameTarget<SurfaceKey>>,
    warnings: OrderWarnings<E>,
    order: SourceOrder<E>,
}

/// What a [`Renderer`] keeps track of.
#[verifier::ext_equal]
pub struct RendererModel<E> {
    /// The world addresses of the frame's GPU state.
    pub context: RenderContext<E>,
    /// The bound views.
    pub views: TargetViews,
    /// The bound target, if one is bound.
    pub target: Option<FrameTarget<SurfaceKey>>,
    /// The ambiguous groups it last reported.
    pub reported: Seq<(FrameOrder, Seq<E>)>,
    /// The sources in the order they last recorded.
    pub order: Seq<E>,
    /// The ambiguous groups among them.
    pub ambiguous: Seq<(FrameOrder, Seq<E>)>,
}

impl<E> RendererModel<E> {
    /// The renderer once it draws into `views`, which `info` describes.
    pub open spec fn drawing_into(self, views: TargetViews, info: AttachmentInfo) -> RendererModel<
        E,
    > {
        RendererModel { views, target: Some(info.target(views.color)), ..self }
    }

    /// The renderer once it forgot its target.
    pub open spec fn drawing_nowhere(self) -> RendererModel<E> {
        RendererModel {
            views: TargetViews { color: None, depth: None, msaa: None },
            target: None,
            ..self
        }
    }

    /// Whether the views of a bound target can open a pass, and an unbound one
    /// has none.
    pub open spec fn wf(self) -> bool {
        if self.target is Some {
            can_open_pass(self.views)
        } else {
            self.views == TargetViews { color: None, depth: None, msaa: None }
        }
    }
}

impl<E: Copy> View for Renderer<E> {
    type V = RendererModel<E>;

    closed spec fn view(&self) -> RendererModel<E> {
        RendererModel {
            context: self.context,
            views: self.views,
            target: self.target,
            reported: self.warnings@,
            order: self.order.order_view(),
            ambiguous: self.order.ambiguous_view(),
        }
    }
}

impl<E: Copy> Renderer<E> {
    /// A renderer driving the frame context `context`, with no render target.
    pub fn new(context: RenderContext<E>) -> (renderer: Self)
        ensures
            renderer@ == (RendererModel {
                context,
                views: TargetViews { color: None, depth: None, msaa: None },
                target: None,
                reported: Seq::empty(),
                order: Seq::empty(),
                ambiguous: Seq::empty(),
            }),
            renderer@.wf(),
    {
        Renderer {
            context,
            views: TargetViews { color: None, depth: None, msaa: None },
            target: None,
            warnings: OrderWarnings::default(),
            order: SourceOrder::empty(),
        }
    }

    /// The world addresses of the frame's GPU state.
    pub fn context(&self) -> (context: RenderContext<E>)
        ensures
            context == self@.context,
    {
        self.context
    }

    /// Bind the render target the next frames draw into, and state it for the
    /// frame in the world's slot.
    ///
    /// Any view may be missing: a depth-only pass omits the color view, a
    /// color-only pass the depth view, a non-multisampled pass the multisample
    /// view. A pass with neither color nor depth cannot exist.
    pub fn set_render_target(
        &mut self,
        slot: Option<&mut FrameTargetSlot<SurfaceKey>>,
        views: TargetViews,
        info: AttachmentInfo,
    )
        requires
            can_open_pass(views),
        ensures
            final(self)@ == old(self)@.drawing_into(views, info),
            final(self)@ == (RendererModel {
                views,
                target: Some(info.target(views.color)),
                ..old(self)@
            }),
            final(self)@.wf(),
            slot matches Some(slot) ==> final(slot)@ == Some(info.target(views.color)),
    {
        let surface = match views.color {
            Some(_) => info.key.viewed_as(info.color_view_format),
            None => info.key,
        };
        let target = FrameTarget { surface, width: info.width, height: info.height };
        self.views = views;
        self.target = Some(target);
        set_frame_target(slot, target);
    }

    /// Unbind the render target, and unset it in the world's slot: the inverse
    /// of [`Renderer::set_render_target`]. The attachments themselves are not
    /// touched, only forgotten.
    pub fn unset_render_target(&mut self, slot: Option<&mut FrameTargetSlot<SurfaceKey>>)
        ensures
            final(self)@ == old(self)@.drawing_nowhere(),
            final(self)@ == (RendererModel {
                views: TargetViews { color: None, depth: None, msaa: None },
                target: None,
                ..old(self)@
            }),
            final(self)@.wf(),
            slot matches Some(slot) ==> final(slot)@ is None,
    {
        self.views = TargetViews { color: None, depth: None, msaa: None };
        self.target = None;
        unset_frame_target(slot);
    }

    /// Whether a render target is bound.
    pub fn has_target(&self) -> (bound: bool)
        ensures
            bound == self@.target is Some,
    {
        self.target.is_some()
    }

    /// The frame's target, as the bound attachments describe it.
    pub fn frame_target(&self) -> (target: FrameTarget<SurfaceKey>)
        requires
            self@.target is Some,
        ensures
            Some(target) == self@.target,
    {
        self.target.unwrap()
    }

    /// The sources in the order the last frame recorded them.
    pub fn sources(&self) -> (sources: &Vec<E>)
        ensures
            sources@ == self@.order,
    {
        self.order.entities()
    }

    /// The groups of sources whose order the last frame had to settle by when
    /// they were mounted.
    pub fn ambiguous(&self) -> (ambiguous: &Vec<AmbiguousGroup<E>>)
        ensures
            crate::source::groups_view(ambiguous@) == self@.ambiguous,
    {
        self.order.ambiguous()
    }
}

impl<E: Copy + PartialEq> Renderer<E> {
    /// Lay out the record phase of a frame whose sources, all built, are
    /// `rows`: the scenes are recorded in the order of [`Renderer::sources`]
    /// into one pass over the bound views.
    ///
    /// The frame always records, so a world with no source at all still applies
    /// its clears. There is no implicit target: one must be bound.
    pub fn render(&mut self, rows: &Vec<SourceEntry<E>>) -> (record: FrameRecord)
        requires
            old(self)@.wf(),
            old(self)@.target is Some,
            crate::source::equality_is_identity::<E>(),
        ensures
            crate::source::resolves(rows@, final(self)@.order, final(self)@.ambiguous),
            final(self)@ == (RendererModel {
                reported: final(self)@.ambiguous,
                order: final(self)@.order,
                ambiguous: final(self)@.ambiguous,
                ..old(self)@
            }),
            record == (FrameRecord {
                views: old(self)@.views,
                reports: crate::source::is_reported(old(self)@.reported, final(self)@.ambiguous),
            }),
            can_open_pass(record.views),
            record.views == final(self)@.views,
            final(self)@.wf(),
    {
        self.order.resolve(rows);
        let reports = self.warnings.check(self.order.ambiguous());
        FrameRecord { views: self.views, reports }
    }
}

/// The load ops a frame is opened with, given those its entities carry.
pub open spec fn opening_ops<L>(carried: Seq<L>, defaults: L) -> L {
    if carried.len() > 0 {
        carried[0]
    } else {
        defaults
    }
}

/// The load ops a frame is opened with: those of the first entity that carries
/// any, in row order, or the defaults when none does.
pub fn frame_load_ops<L: Copy>(carried: &Vec<L>, defaults: L) -> (ops: L)
    ensures
        ops == opening_ops(carried@, defaults),
        ops == if carried@.len() > 0 {
            carried@[0]
        } else {
            defaults
        },
{
    if carried.len() > 0 {
        carried[0]
    } else {
        defaults
    }
}

/// A frame records every source it was given, and nothing else: the entities
/// recorded are those of the rows, as many as there are rows.
pub proof fn law_a_frame_records_every_source<E: Copy>(
    rows: Seq<SourceEntry<E>>,
    order: Seq<E>,
    ambiguous: Seq<(FrameOrder, Seq<E>)>,
    entity: E,
)
    requires
        crate::source::resolves(rows, order, ambiguous),
    ensures
        order.len() == rows.len(),
        order.contains(entity) <==> crate::source::entities_of(rows).contains(entity),
{
    let entries = choose|entries: Seq<SourceEntry<E>>| #[trigger]
        crate::sort::is_sort_of(entries, rows) && order == crate::source::entities_of(entries)
            && ambiguous == crate::source::ambiguous_runs(entries, 0);
    if order.contains(entity) {
        let i = choose|i: int| 0 <= i < order.len() && order[i] == entity;
        crate::sort::law_sorting_keeps_the_items(entries, rows, entries[i]);
        assert(entries.contains(entries[i]));
        let j = choose|j: int| 0 <= j < rows.len() && rows[j] == entries[i];
        assert(crate::source::entities_of(rows)[j] == entity);
    }
    if crate::source::entities_of(rows).contains(entity) {
        let rows_order = crate::source::entities_of(rows);
        let i = choose|i: int| 0 <= i < rows_order.len() && rows_order[i] == entity;
        crate::sort::law_sorting_keeps_the_items(entries, rows, rows[i]);
        assert(rows.contains(rows[i]));
        let j = choose|j: int| 0 <= j < entries.len() && entries[j] == rows[i];
        assert(order[j] == entity);
    }
}

/// What a frame records in which order depends on nothing but its sources: two
/// frames over the same rows record alike.
pub proof fn law_a_steady_frame_records_alike<E: Copy>(
    rows: Seq<SourceEntry<E>>,
    first: Seq<E>,
    first_ambiguous: Seq<(FrameOrder, Seq<E>)>,
    second: Seq<E>,
    second_ambiguous: Seq<(FrameOrder, Seq<E>)>,
)
    requires
        crate::source::resolves(rows, first, first_ambiguous),
        crate::source::resolves(rows, second, second_ambiguous),
    ensures
        first == second,
        first_ambiguous == second_ambiguous,
{
    let a = choose|entries: Seq<SourceEntry<E>>| #[trigger]
        crate::sort::is_sort_of(entries, rows) && first == crate::source::entities_of(entries)
            && first_ambiguous == crate::source::ambiguous_runs(entries, 0);
    let b = choose|entries: Seq<SourceEntry<E>>| #[trigger]
        crate::sort::is_sort_of(entries, rows) && second == crate::source::entities_of(entries)
            && second_ambiguous == crate::source::ambiguous_runs(entries, 0);
    crate::sort::law_sorting_is_determined(a, b, rows);
}

/// A target has the size of its attachments, their depth format and their
/// samples. Its color format is the one its color view was recorded with, and
/// the attachment's own where there is no view or none was recorded.
pub proof fn law_a_target_describes_its_attachments(
    info: AttachmentInfo,
    color_view: Option<ResourceId>,
)
    ensures
        ({
            let target = info.target(color_view);
            &&& target.width == info.width
            &&& target.height == info.height
            &&& target.surface.depth_stencil_format == info.key.depth_stencil_format
            &&& target.surface.sample_count == info.key.sample_count
            &&& color_view is Some && info.color_view_format is Some
                ==> target.surface.color_format == info.color_view_format->0
            &&& color_view is None || info.color_view_format is None
                ==> target.surface.color_format == info.key.color_format
        }),
{
}

/// A pass needs something to draw into: it opens over a color or a depth
/// attachment, and over a multisample attachment only where there is a color
/// attachment to resolve it into. More attachments than these never keep it from
/// opening.
pub proof fn law_a_pass_needs_an_attachment(views: TargetViews, view: ResourceId)
    ensures
        can_open_pass(TargetViews { color: Some(view), ..views }),
        can_open_pass(TargetViews { depth: Some(view), msaa: None, ..views }),
        !can_open_pass(TargetViews { color: None, depth: None, ..views }),
        !can_open_pass(TargetViews { color: None, msaa: Some(view), ..views }),
{
}

/// Sources record by what they declare: of two rows with different orders the
/// lower records first, and of two with the same order the one mounted first.
pub proof fn law_lower_orders_record_first<E: Copy>(
    rows: Seq<SourceEntry<E>>,
    order: Seq<E>,
    ambiguous: Seq<(FrameOrder, Seq<E>)>,
    a: int,
    b: int,
) -> (places: (int, int))
    requires
        crate::source::resolves(rows, order, ambiguous),
        0 <= a < rows.len(),
        0 <= b < rows.len(),
        rows[a].order.0 < rows[b].order.0 || (rows[a].order == rows[b].order && rows[a].mount_index
            < rows[b].mount_index),
    ensures
        0 <= places.0 < places.1 < order.len(),
        order[places.0] == rows[a].entity,
        order[places.1] == rows[b].entity,
{
    let entries = choose|entries: Seq<SourceEntry<E>>| #[trigger]
        crate::sort::is_sort_of(entries, rows) && order == crate::source::entities_of(entries)
            && ambiguous == crate::source::ambiguous_runs(entries, 0);
    crate::sort::law_sorting_keeps_the_items(entries, rows, rows[a]);
    crate::sort::law_sorting_keeps_the_items(entries, rows, rows[b]);
    assert(rows.contains(rows[a]) && rows.contains(rows[b]));
    let i = choose|i: int| 0 <= i < entries.len() && entries[i] == rows[a];
    let j = choose|j: int| 0 <= j < entries.len() && entries[j] == rows[b];
    if j < i {
        crate::source::law_sources_record_by_order_then_mount(entries, j, i);
    }
    (i, j)
}

/// Binding a target is what the next frames draw into, whatever was bound
/// before, and unbinding it undoes the binding: neither leaves a trace of the
/// other.
pub proof fn law_the_last_target_is_drawn_into<E>(
    renderer: RendererModel<E>,
    views: TargetViews,
    info: AttachmentInfo,
    other: TargetViews,
    other_info: AttachmentInfo,
)
    ensures
        renderer.drawing_into(views, info).views == views,
        renderer.drawing_into(views, info).target is Some,
        renderer.drawing_into(views, info).target == Some(info.target(views.color)),
        renderer.drawing_into(other, other_info).drawing_into(views, info)
            == renderer.drawing_into(views, info),
        renderer.drawing_nowhere().target is None,
        renderer.drawing_nowhere().views.color is None,
        renderer.drawing_nowhere().views.depth is None,
        renderer.drawing_nowhere().views.msaa is None,
        renderer.drawing_into(views, info).drawing_nowhere() == renderer.drawing_nowhere(),
        renderer.drawing_into(views, info).order == renderer.order,
        renderer.drawing_nowhere().context == renderer.context,
{
}

/// The frames of a window can be drawn: the views a swap chain binds open a
/// pass.
pub proof fn law_a_window_can_be_drawn_into(
    window: crate::surface::WindowModel,
    color: ResourceId,
)
    ensures
        can_open_pass(window.frame_views(color)),
{
}

/// The first entity that carries load ops decides them, whichever others carry
/// some, and the defaults count only where none does.
pub proof fn law_the_first_load_ops_win<L>(first: L, others: Seq<L>, defaults: L)
    ensures
        opening_ops(seq![first] + others, defaults) == first,
        opening_ops(Seq::empty(), defaults) == defaults,
{
}

} // verus!
