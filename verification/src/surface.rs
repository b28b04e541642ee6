//! Presenting into a window: the swap chain's configuration, and what to do
//! with each frame it hands out.
//!
//! A window presents through a swap chain: every frame hands out a new color
//! image, and the depth and multisample attachments have to match the window's
//! size. [`WindowSurface`] keeps the configuration and the names of those
//! attachments, and decides what a resize and an acquired frame ask for.

use vstd::prelude::*;
use wgpu::AstcChannel;
use wgpu::CompositeAlphaMode;
use wgpu::PresentMode;
use wgpu::TextureFormat;

use crate::components::ResourceId;

verus! {

/// Wgpu's texture formats, variant by variant.
#[verifier::external_type_specification]
pub struct ExTextureFormat(wgpu::TextureFormat);

/// Wgpu's ASTC block sizes, variant by variant.
#[verifier::external_type_specification]
pub struct ExAstcBlock(wgpu::AstcBlock);

/// Wgpu's ASTC channels, variant by variant.
#[verifier::external_type_specification]
pub struct ExAstcChannel(wgpu::AstcChannel);

/// Wgpu's present modes, variant by variant.
#[verifier::external_type_specification]
pub struct ExPresentMode(wgpu::PresentMode);

/// Wgpu's alpha modes, variant by variant.
#[verifier::external_type_specification]
pub struct ExCompositeAlphaMode(wgpu::CompositeAlphaMode);

/// The format that differs from `format` only in encoding sRGB, where there is
/// one; otherwise `format` itself.
pub open spec fn srgb_twin(format: TextureFormat) -> TextureFormat {
    match format {
        TextureFormat::Rgba8Unorm => TextureFormat::Rgba8UnormSrgb,
        TextureFormat::Bgra8Unorm => TextureFormat::Bgra8UnormSrgb,
        TextureFormat::Bc1RgbaUnorm => TextureFormat::Bc1RgbaUnormSrgb,
        TextureFormat::Bc2RgbaUnorm => TextureFormat::Bc2RgbaUnormSrgb,
        TextureFormat::Bc3RgbaUnorm => TextureFormat::Bc3RgbaUnormSrgb,
        TextureFormat::Bc7RgbaUnorm => TextureFormat::Bc7RgbaUnormSrgb,
        TextureFormat::Etc2Rgb8Unorm => TextureFormat::Etc2Rgb8UnormSrgb,
        TextureFormat::Etc2Rgb8A1Unorm => TextureFormat::Etc2Rgb8A1UnormSrgb,
        TextureFormat::Etc2Rgba8Unorm => TextureFormat::Etc2Rgba8UnormSrgb,
        TextureFormat::Astc { block, channel: AstcChannel::Unorm } => TextureFormat::Astc {
            block,
            channel: AstcChannel::UnormSrgb,
        },
        _ => format,
    }
}

/// Whether `format` encodes sRGB.
pub open spec fn encodes_srgb(format: TextureFormat) -> bool {
    match format {
        TextureFormat::Rgba8UnormSrgb
        | TextureFormat::Bgra8UnormSrgb
        | TextureFormat::Bc1RgbaUnormSrgb
        | TextureFormat::Bc2RgbaUnormSrgb
        | TextureFormat::Bc3RgbaUnormSrgb
        | TextureFormat::Bc7RgbaUnormSrgb
        | TextureFormat::Etc2Rgb8UnormSrgb
        | TextureFormat::Etc2Rgb8A1UnormSrgb
        | TextureFormat::Etc2Rgba8UnormSrgb => true,
        TextureFormat::Astc { block, channel } => channel is UnormSrgb,
        _ => false,
    }
}

/// `TextureFormat::is_srgb` of wgpu answers whether the format is one of those
/// that carry the sRGB suffix.
pub assume_specification[ wgpu::TextureFormat::is_srgb ](format: &wgpu::TextureFormat) -> (srgb: bool)
    ensures
        srgb == encodes_srgb(*format),
;

/// `TextureFormat::add_srgb_suffix` of wgpu gives the sRGB twin of a format
/// that has one, and the format itself otherwise.
pub assume_specification[ wgpu::TextureFormat::add_srgb_suffix ](
    format: &wgpu::TextureFormat,
) -> (srgb: wgpu::TextureFormat)
    ensures
        srgb == srgb_twin(*format),
;

/// The derived `TextureFormat::eq` of wgpu: whether two formats are the same.
#[verifier::external_body]
fn same_format(a: TextureFormat, b: TextureFormat) -> (same: bool)
    ensures
        same == (a == b),
{
    a == b
}

/// What the pipelines of a render target are specialized on.
#[derive(Clone, Copy, Debug, PartialEq, Eq, Hash)]
pub struct SurfaceKey {
    /// The format of the color attachment.
    pub color_format: TextureFormat,
    /// The format of the depth-stencil attachment, if there is one.
    pub depth_stencil_format: Option<TextureFormat>,
    /// How many samples the attachments have.
    pub sample_count: u32,
}

impl SurfaceKey {
    /// Whether the two keys are the same.
    pub fn same(&self, other: &SurfaceKey) -> (same: bool)
        ensures
            same == (*self == *other),
    {
        let depth = match (self.depth_stencil_format, other.depth_stencil_format) {
            (Some(a), Some(b)) => same_format(a, b),
            (None, None) => true,
            _ => false,
        };
        depth && same_format(self.color_format, other.color_format) && self.sample_count
            == other.sample_count
    }

    /// The key with the color format the graph recorded for the view, if it
    /// recorded one.
    ///
    /// A view that reinterprets its texture, such as an sRGB view over a
    /// non-sRGB swap-chain image, is what a pipeline has to match, so it wins
    /// over the texture's own format.
    #[verifier::allow_in_spec]
    pub fn viewed_as(self, recorded: Option<TextureFormat>) -> SurfaceKey
        returns
            (match recorded {
                Some(format) => SurfaceKey { color_format: format, ..self },
                None => self,
            }),
    {
        match recorded {
            Some(format) => SurfaceKey {
                color_format: format,
                depth_stencil_format: self.depth_stencil_format,
                sample_count: self.sample_count,
            },
            None => self,
        }
    }
}

/// What a surface can be configured with on an adapter, in the surface's order
/// of preference.
#[derive(Debug)]
pub struct SurfaceCapabilities {
    /// The formats the surface can present in.
    pub formats: Vec<TextureFormat>,
    /// The modes it can present with.
    pub present_modes: Vec<PresentMode>,
    /// The ways it can be composited.
    pub alpha_modes: Vec<CompositeAlphaMode>,
}

/// The configuration a surface presents with.
#[derive(Debug)]
pub struct SurfaceConfig {
    /// The format the swap chain presents in.
    pub format: TextureFormat,
    /// The other formats its images may be viewed as.
    pub view_formats: Vec<TextureFormat>,
    /// The width of its images, in physical pixels.
    pub width: u32,
    /// The height of its images, in physical pixels.
    pub height: u32,
    /// When a frame is presented.
    pub present_mode: PresentMode,
    /// How a frame is composited.
    pub alpha_mode: CompositeAlphaMode,
    /// How many frames may be in flight.
    pub desired_maximum_frame_latency: u32,
}

/// How many frames a surface keeps in flight.
pub const FRAME_LATENCY: u32 = 2;

/// `side`, or one where it is zero: a surface cannot be configured with a zero
/// dimension.
pub open spec fn at_least_one(side: u32) -> u32 {
    if side == 0 {
        1
    } else {
        side
    }
}

/// The index of the first format that satisfies `wanted`, or the number of
/// formats.
pub open spec fn first_format(
    formats: Seq<TextureFormat>,
    wanted: spec_fn(TextureFormat) -> bool,
    from: int,
) -> int
    decreases formats.len() - from,
{
    if from >= formats.len() || wanted(formats[from]) {
        from
    } else {
        first_format(formats, wanted, from + 1)
    }
}

/// The format a surface that offers `formats` is configured with: the first
/// that encodes sRGB; where none does, the first that can be viewed as one
/// that does; and where there is none of those either, the first.
pub open spec fn chosen_format(formats: Seq<TextureFormat>) -> TextureFormat {
    let srgb = first_format(formats, |format: TextureFormat| encodes_srgb(format), 0);
    let viewable = first_format(formats, |format: TextureFormat| srgb_twin(format) != format, 0);
    if srgb < formats.len() {
        formats[srgb]
    } else if viewable < formats.len() {
        formats[viewable]
    } else {
        formats[0]
    }
}

/// The search finds the first.
proof fn lemma_first_format(
    formats: Seq<TextureFormat>,
    wanted: spec_fn(TextureFormat) -> bool,
    from: int,
)
    requires
        0 <= from <= formats.len(),
    ensures
        from <= first_format(formats, wanted, from) <= formats.len(),
        first_format(formats, wanted, from) < formats.len() ==> wanted(
            formats[first_format(formats, wanted, from)],
        ),
        forall|i: int|
            from <= i < first_format(formats, wanted, from) ==> !wanted(#[trigger] formats[i]),
    decreases formats.len() - from,
{
    if from < formats.len() && !wanted(formats[from]) {
        lemma_first_format(formats, wanted, from + 1);
    }
}

/// The first of a surface's modes, in its order of preference, or `default`
/// where it offers none.
pub open spec fn preferred<T>(offered: Seq<T>, default: T) -> T {
    if offered.len() > 0 {
        offered[0]
    } else {
        default
    }
}

/// The other formats the images of a surface in `format` may be viewed as.
pub open spec fn advertised_views(format: TextureFormat) -> Seq<TextureFormat> {
    if srgb_twin(format) != format {
        seq![srgb_twin(format)]
    } else {
        Seq::empty()
    }
}

/// The surface's first sRGB format.
pub fn srgb_format(formats: &Vec<TextureFormat>) -> (format: Option<TextureFormat>)
    ensures
        ({
            let first = first_format(formats@, |format: TextureFormat| encodes_srgb(format), 0);
            format == if first < formats@.len() {
                Some(formats@[first])
            } else {
                None
            }
        }),
{
    let ghost wanted = |format: TextureFormat| encodes_srgb(format);
    let mut i: usize = 0;
    while i < formats.len()
        invariant
            i <= formats@.len(),
            wanted == (|format: TextureFormat| encodes_srgb(format)),
            first_format(formats@, wanted, 0) == first_format(formats@, wanted, i as int),
        decreases formats@.len() - i,
    {
        if formats[i].is_srgb() {
            return Some(formats[i]);
        }
        i = i + 1;
    }
    None
}

/// The surface's first format that has an sRGB twin other than itself.
fn viewable_format(formats: &Vec<TextureFormat>) -> (format: Option<TextureFormat>)
    ensures
        ({
            let first = first_format(
                formats@,
                |format: TextureFormat| srgb_twin(format) != format,
                0,
            );
            format == if first < formats@.len() {
                Some(formats@[first])
            } else {
                None
            }
        }),
{
    let ghost wanted = |format: TextureFormat| srgb_twin(format) != format;
    let mut i: usize = 0;
    while i < formats.len()
        invariant
            i <= formats@.len(),
            wanted == (|format: TextureFormat| srgb_twin(format) != format),
            first_format(formats@, wanted, 0) == first_format(formats@, wanted, i as int),
        decreases formats@.len() - i,
    {
        if !same_format(formats[i].add_srgb_suffix(), formats[i]) {
            return Some(formats[i]);
        }
        i = i + 1;
    }
    None
}

/// The configuration to present a surface with.
///
/// The format is the surface's first sRGB one; when it supports none, the
/// configuration advertises an sRGB view of a non-sRGB format instead (see
/// [`color_format`]). An adapter that offers no format at all cannot present
/// to the surface.
pub fn surface_config(capabilities: &SurfaceCapabilities, width: u32, height: u32) -> (config:
    SurfaceConfig)
    requires
        capabilities.formats@.len() > 0,
    ensures
        config.format == chosen_format(capabilities.formats@),
        config.view_formats@ == advertised_views(config.format),
        config.present_mode == preferred(capabilities.present_modes@, PresentMode::Fifo),
        config.alpha_mode == preferred(capabilities.alpha_modes@, CompositeAlphaMode::Auto),
        config.view_formats@ == if srgb_twin(config.format) != config.format {
            seq![srgb_twin(config.format)]
        } else {
            Seq::empty()
        },
        config.width == at_least_one(width),
        config.height == at_least_one(height),
        config.present_mode == if capabilities.present_modes@.len() > 0 {
            capabilities.present_modes@[0]
        } else {
            PresentMode::Fifo
        },
        config.alpha_mode == if capabilities.alpha_modes@.len() > 0 {
            capabilities.alpha_modes@[0]
        } else {
            CompositeAlphaMode::Auto
        },
        config.desired_maximum_frame_latency == FRAME_LATENCY,
        config.desired_maximum_frame_latency == 2,
{
    let format = match srgb_format(&capabilities.formats) {
        Some(format) => format,
        None => match viewable_format(&capabilities.formats) {
            Some(format) => format,
            None => capabilities.formats[0],
        },
    };
    let srgb = format.add_srgb_suffix();
    let mut view_formats: Vec<TextureFormat> = Vec::new();
    if !same_format(srgb, format) {
        view_formats.push(srgb);
    }
    assert(view_formats@ =~= if srgb != format {
        seq![srgb]
    } else {
        Seq::empty()
    });
    SurfaceConfig {
        format,
        view_formats,
        width: if width == 0 {
            1
        } else {
            width
        },
        height: if height == 0 {
            1
        } else {
            height
        },
        present_mode: if capabilities.present_modes.len() > 0 {
            capabilities.present_modes[0]
        } else {
            PresentMode::Fifo
        },
        alpha_mode: if capabilities.alpha_modes.len() > 0 {
            capabilities.alpha_modes[0]
        } else {
            CompositeAlphaMode::Auto
        },
        desired_maximum_frame_latency: FRAME_LATENCY,
    }
}

/// Being another format than `format`.
pub open spec fn other_than(format: TextureFormat) -> spec_fn(TextureFormat) -> bool {
    |view: TextureFormat| view != format
}

/// The format a frame's color attachment is viewed as: `format` when it
/// encodes sRGB, otherwise the first other format it may be viewed as, and
/// `format` where there is none.
pub open spec fn viewed_format(
    format: TextureFormat,
    view_formats: Seq<TextureFormat>,
) -> TextureFormat {
    let other = first_format(view_formats, other_than(format), 0);
    if encodes_srgb(format) || other >= view_formats.len() {
        format
    } else {
        view_formats[other]
    }
}

/// Whether a surface's frames can be viewed as sRGB: its own format encodes it,
/// or it was configured with another format to be viewed as.
pub open spec fn has_encoding_view(
    format: TextureFormat,
    view_formats: Seq<TextureFormat>,
) -> bool {
    encodes_srgb(format) || exists|i: int|
        0 <= i < view_formats.len() && #[trigger] view_formats[i] != format
}

/// The format a frame's color attachment is viewed as, for a surface
/// configured with `config`.
///
/// The swap chain's own format when it encodes sRGB. When it does not, writes
/// to it are taken as already encoded; viewing it as sRGB makes the hardware
/// encode the shader's linear output on write, and the display sees exactly
/// what an sRGB swap chain would have shown it.
///
/// A surface that neither encodes sRGB nor has a view that does is no input of
/// this function: the frames of such a surface are drawn in its format itself,
/// as [`frame_format`] says.
pub fn color_format(config: &SurfaceConfig) -> (format: TextureFormat)
    requires
        has_encoding_view(config.format, config.view_formats@),
    ensures
        format == viewed_format(config.format, config.view_formats@),
        format == config.format ==> encodes_srgb(config.format),
{
    let format = frame_format(config);
    proof {
        if !encodes_srgb(config.format) {
            lemma_first_format(config.view_formats@, other_than(config.format), 0);
        }
    }
    format
}

/// The format the frames of a surface configured with `config` are drawn in:
/// the view that encodes sRGB, and the surface's own format where there is
/// none, as for a surface of half-precision floats.
pub fn frame_format(config: &SurfaceConfig) -> (format: TextureFormat)
    ensures
        format == viewed_format(config.format, config.view_formats@),
{
    if config.format.is_srgb() {
        return config.format;
    }
    let ghost wanted = other_than(config.format);
    let mut i: usize = 0;
    while i < config.view_formats.len()
        invariant
            i <= config.view_formats@.len(),
            !encodes_srgb(config.format),
            wanted == other_than(config.format),
            first_format(config.view_formats@, wanted, 0) == first_format(
                config.view_formats@,
                wanted,
                i as int,
            ),
        decreases config.view_formats@.len() - i,
    {
        if !same_format(config.view_formats[i], config.format) {
            return config.view_formats[i];
        }
        i = i + 1;
    }
    config.format
}

/// The attachments a frame draws with besides its color image: a depth-stencil
/// texture and, when multisampling, a multisample texture. Both are cleared
/// and discarded inside the frame's single pass.
#[derive(Clone, Copy, Debug, PartialEq, Eq)]
pub struct Attachments {
    /// The width of both textures, in physical pixels.
    pub width: u32,
    /// The height of both textures, in physical pixels.
    pub height: u32,
    /// The number of samples of both textures.
    pub sample_count: u32,
    /// The format of the multisample texture, if there is one. Its pixels are
    /// resolved into the color view, so it is the format of that view.
    pub msaa_format: Option<TextureFormat>,
}

/// The attachments of frames of this size.
#[verifier::allow_in_spec]
pub fn create_attachments(
    color_format: TextureFormat,
    width: u32,
    height: u32,
    sample_count: u32,
) -> Attachments
    returns
        (Attachments {
            width: if width == 0 {
                1u32
            } else {
                width
            },
            height: if height == 0 {
                1u32
            } else {
                height
            },
            sample_count,
            msaa_format: if sample_count > 1 {
                Some(color_format)
            } else {
                None
            },
        }),
{
    Attachments {
        width: if width == 0 {
            1
        } else {
            width
        },
        height: if height == 0 {
            1
        } else {
            height
        },
        sample_count,
        msaa_format: if sample_count > 1 {
            Some(color_format)
        } else {
            None
        },
    }
}

/// What the swap chain answered when asked for its next image.
#[derive(Clone, Copy, Debug, PartialEq, Eq, Structural)]
pub enum SurfaceStatus {
    /// An image.
    Success,
    /// An image, though the surface has changed.
    Suboptimal,
    /// No image in time.
    Timeout,
    /// No image, because the window is hidden.
    Occluded,
    /// No image until the surface is configured again.
    Outdated,
    /// No image until the surface is created again.
    Lost,
    /// No image, because the request was invalid.
    Validation,
}

/// What to do about the frame the swap chain was asked for.
#[derive(Clone, Copy, Debug, PartialEq, Eq)]
pub enum AcquireStep {
    /// Draw into the image, viewed as `format`. Its view takes the place of
    /// the node `replaces`, or a node of its own before there is one.
    Draw {
        /// The node of the previous frame's view.
        replaces: Option<ResourceId>,
        /// What the image is viewed as.
        format: TextureFormat,
    },
    /// Configure the surface again and skip the frame.
    Reconfigure,
    /// Create the surface again and skip the frame.
    Recreate,
    /// Skip the frame.
    Skip,
}

/// The views a frame is drawn into.
#[derive(Clone, Copy, Debug, PartialEq, Eq, Structural)]
pub struct TargetViews {
    /// The color attachment.
    pub color: Option<ResourceId>,
    /// The depth-stencil attachment.
    pub depth: Option<ResourceId>,
    /// The multisample attachment.
    pub msaa: Option<ResourceId>,
}

/// What a resize asks for: attachments of the new size, put behind the nodes
/// of the old ones.
#[derive(Clone, Copy, Debug, PartialEq, Eq)]
pub struct ResizeStep {
    /// The new attachments.
    pub attachments: Attachments,
    /// The node the new depth-stencil view goes behind.
    pub depth_view: ResourceId,
    /// The node the new multisample view goes behind, if there is one.
    pub msaa_view: Option<ResourceId>,
}

/// A window's swap chain.
///
/// The sample count is fixed when the surface is created.
#[derive(Debug)]
pub struct WindowSurface {
    config: SurfaceConfig,
    sample_count: u32,
    color_format: TextureFormat,
    depth_view: ResourceId,
    msaa_view: Option<ResourceId>,
    color_view: Option<ResourceId>,
}

/// What a [`WindowSurface`] keeps track of.
#[verifier::ext_equal]
pub struct WindowModel {
    /// The format the swap chain presents in.
    pub format: TextureFormat,
    /// The other formats its images may be viewed as.
    pub view_formats: Seq<TextureFormat>,
    /// When a frame is presented.
    pub present_mode: PresentMode,
    /// How a frame is composited.
    pub alpha_mode: CompositeAlphaMode,
    /// How many frames may be in flight.
    pub latency: u32,
    /// The size the surface is configured for.
    pub size: (u32, u32),
    /// How many samples every frame is rendered with.
    pub sample_count: u32,
    /// The format the frame's color attachment is viewed as.
    pub color_format: TextureFormat,
    /// The depth-stencil view.
    pub depth_view: ResourceId,
    /// The multisample view, if the frames are multisampled.
    pub msaa_view: Option<ResourceId>,
    /// The color view, once a frame was acquired.
    pub color_view: Option<ResourceId>,
}

impl WindowModel {
    /// A surface configured as `config` that no frame was acquired from yet.
    pub open spec fn created(
        config: SurfaceConfig,
        sample_count: u32,
        depth_view: ResourceId,
        msaa_view: Option<ResourceId>,
    ) -> WindowModel {
        WindowModel {
            format: config.format,
            view_formats: config.view_formats@,
            present_mode: config.present_mode,
            alpha_mode: config.alpha_mode,
            latency: config.desired_maximum_frame_latency,
            size: (config.width, config.height),
            sample_count,
            color_format: viewed_format(config.format, config.view_formats@),
            depth_view,
            msaa_view,
            color_view: None,
        }
    }

    /// Whether the surface has a size and a multisample view exactly when its
    /// frames are multisampled.
    pub open spec fn wf(self) -> bool {
        &&& self.size.0 > 0
        &&& self.size.1 > 0
        &&& self.msaa_view is Some <==> self.sample_count > 1
    }

    /// Whether a resize to this size changes anything: a zero dimension is a
    /// minimized window, with nothing to draw.
    pub open spec fn resizes(self, width: u32, height: u32) -> bool {
        width != 0 && height != 0 && (width, height) != self.size
    }

    /// The surface after a resize to this size.
    pub open spec fn resized(self, width: u32, height: u32) -> WindowModel {
        if self.resizes(width, height) {
            WindowModel { size: (width, height), ..self }
        } else {
            self
        }
    }

    /// What a resize to this size asks for.
    pub open spec fn resize_step(self, width: u32, height: u32) -> Option<ResizeStep> {
        if self.resizes(width, height) {
            Some(
                ResizeStep {
                    attachments: create_attachments(
                        self.color_format,
                        width,
                        height,
                        self.sample_count,
                    ),
                    depth_view: self.depth_view,
                    msaa_view: self.msaa_view,
                },
            )
        } else {
            None
        }
    }

    /// The surface once a frame's view went behind `color`.
    pub open spec fn bound(self, color: ResourceId) -> WindowModel {
        WindowModel { color_view: Some(color), ..self }
    }

    /// The views a frame whose image is viewed behind `color` is drawn into.
    pub open spec fn frame_views(self, color: ResourceId) -> TargetViews {
        TargetViews { color: Some(color), depth: Some(self.depth_view), msaa: self.msaa_view }
    }

    /// What to do about a frame the swap chain answered `status` for.
    pub open spec fn step(self, status: SurfaceStatus) -> AcquireStep {
        match status {
            SurfaceStatus::Success | SurfaceStatus::Suboptimal => AcquireStep::Draw {
                replaces: self.color_view,
                format: self.color_format,
            },
            SurfaceStatus::Outdated => AcquireStep::Reconfigure,
            SurfaceStatus::Lost => AcquireStep::Recreate,
            SurfaceStatus::Timeout
            | SurfaceStatus::Occluded
            | SurfaceStatus::Validation => AcquireStep::Skip,
        }
    }
}

impl View for WindowSurface {
    type V = WindowModel;

    closed spec fn view(&self) -> WindowModel {
        WindowModel {
            format: self.config.format,
            view_formats: self.config.view_formats@,
            present_mode: self.config.present_mode,
            alpha_mode: self.config.alpha_mode,
            latency: self.config.desired_maximum_frame_latency,
            size: (self.config.width, self.config.height),
            sample_count: self.sample_count,
            color_format: self.color_format,
            depth_view: self.depth_view,
            msaa_view: self.msaa_view,
            color_view: self.color_view,
        }
    }
}

impl WindowSurface {
    /// A surface presenting with `config`, over the attachments
    /// [`create_attachments`] asked for.
    pub fn new(
        config: SurfaceConfig,
        sample_count: u32,
        depth_view: ResourceId,
        msaa_view: Option<ResourceId>,
    ) -> (surface: Self)
        requires
            config.width > 0,
            config.height > 0,
            msaa_view is Some <==> sample_count > 1,
        ensures
            surface@ == WindowModel::created(config, sample_count, depth_view, msaa_view),
            surface@ == (WindowModel {
                format: config.format,
                view_formats: config.view_formats@,
                present_mode: config.present_mode,
                alpha_mode: config.alpha_mode,
                latency: config.desired_maximum_frame_latency,
                size: (config.width, config.height),
                sample_count,
                color_format: viewed_format(config.format, config.view_formats@),
                depth_view,
                msaa_view,
                color_view: None,
            }),
            surface@.wf(),
    {
        let color_format = frame_format(&config);
        WindowSurface { config, sample_count, color_format, depth_view, msaa_view, color_view: None }
    }

    /// The configuration the surface presents with.
    pub fn config(&self) -> (config: &SurfaceConfig)
        ensures
            config.format == self@.format,
            config.view_formats@ == self@.view_formats,
            config.present_mode == self@.present_mode,
            config.alpha_mode == self@.alpha_mode,
            config.desired_maximum_frame_latency == self@.latency,
            (config.width, config.height) == self@.size,
    {
        &self.config
    }

    /// The size the surface is configured for, in physical pixels.
    pub fn size(&self) -> (size: (u32, u32))
        ensures
            size == self@.size,
    {
        (self.config.width, self.config.height)
    }

    /// The format the swap chain presents in.
    pub fn format(&self) -> (format: TextureFormat)
        ensures
            format == self@.format,
    {
        self.config.format
    }

    /// The format the frame's color attachment is viewed as: the format the
    /// render target's pipelines are specialized for.
    pub fn color_format(&self) -> (format: TextureFormat)
        ensures
            format == self@.color_format,
    {
        self.color_format
    }

    /// Take note of a new size, and say what has to be rebuilt for it, if
    /// anything.
    ///
    /// A zero width or height is ignored, as is the size the surface already
    /// has.
    pub fn resize(&mut self, width: u32, height: u32) -> (step: Option<ResizeStep>)
        requires
            old(self)@.wf(),
        ensures
            final(self)@.wf(),
            final(self)@ == old(self)@.resized(width, height),
            step == old(self)@.resize_step(width, height),
            width != 0 && height != 0 ==> final(self)@.size == (width, height),
            width == 0 || height == 0 ==> final(self)@ == old(self)@,
            step is Some <==> final(self)@.size != old(self)@.size,
    {
        if width == 0 || height == 0 {
            return None;
        }
        if width == self.config.width && height == self.config.height {
            return None;
        }
        self.config.width = width;
        self.config.height = height;
        Some(
            ResizeStep {
                attachments: create_attachments(
                    self.color_format,
                    width,
                    height,
                    self.sample_count,
                ),
                depth_view: self.depth_view,
                msaa_view: self.msaa_view,
            },
        )
    }

    /// What to do about the frame the swap chain answered `status` for. The
    /// frame is drawn only if it says so.
    pub fn acquire(&self, status: SurfaceStatus) -> (step: AcquireStep)
        ensures
            step == self@.step(status),
    {
        match status {
            SurfaceStatus::Success | SurfaceStatus::Suboptimal => AcquireStep::Draw {
                replaces: self.color_view,
                format: self.color_format,
            },
            SurfaceStatus::Outdated => AcquireStep::Reconfigure,
            SurfaceStatus::Lost => AcquireStep::Recreate,
            SurfaceStatus::Timeout
            | SurfaceStatus::Occluded
            | SurfaceStatus::Validation => AcquireStep::Skip,
        }
    }

    /// Take note of the node an acquired frame's view went behind, and give the
    /// views the frame is drawn into.
    pub fn bind(&mut self, color: ResourceId) -> (views: TargetViews)
        requires
            old(self)@.wf(),
            old(self)@.color_view is Some ==> old(self)@.color_view == Some(color),
        ensures
            views == (TargetViews {
                color: Some(color),
                depth: Some(old(self)@.depth_view),
                msaa: old(self)@.msaa_view,
            }),
            views == old(self)@.frame_views(color),
            final(self)@ == old(self)@.bound(color),
            final(self)@ == (WindowModel { color_view: Some(color), ..old(self)@ }),
            final(self)@.wf(),
    {
        self.color_view = Some(color);
        TargetViews { color: Some(color), depth: Some(self.depth_view), msaa: self.msaa_view }
    }
}

/// The display gets sRGB wherever the surface allows it: if any format it
/// offers encodes sRGB or can be viewed as one that does, then the frames are
/// drawn through an sRGB view.
pub proof fn law_frames_are_srgb_where_they_can_be(formats: Seq<TextureFormat>, i: int)
    requires
        0 <= i < formats.len(),
        encodes_srgb(formats[i]) || srgb_twin(formats[i]) != formats[i],
    ensures
        ({
            let format = chosen_format(formats);
            let view_formats = if srgb_twin(format) != format {
                seq![srgb_twin(format)]
            } else {
                Seq::empty()
            };
            encodes_srgb(viewed_format(format, view_formats))
        }),
{
    lemma_first_format(formats, |format: TextureFormat| encodes_srgb(format), 0);
    lemma_first_format(formats, |format: TextureFormat| srgb_twin(format) != format, 0);
    let format = chosen_format(formats);
    let view_formats = if srgb_twin(format) != format {
        seq![srgb_twin(format)]
    } else {
        Seq::empty()
    };
    lemma_first_format(view_formats, other_than(format), 0);
}

/// The surface's own preference decides among formats of one kind: no format
/// before the chosen one encodes sRGB.
pub proof fn law_the_first_srgb_format_wins(formats: Seq<TextureFormat>, i: int)
    requires
        0 <= i < formats.len(),
        encodes_srgb(formats[i]),
        forall|j: int| 0 <= j < i ==> !encodes_srgb(#[trigger] formats[j]),
    ensures
        chosen_format(formats) == formats[i],
{
    let wanted = |format: TextureFormat| encodes_srgb(format);
    lemma_first_format(formats, wanted, 0);
    let first = first_format(formats, wanted, 0);
    if first < i {
        assert(wanted(formats[first]));
    }
    if first > i {
        assert(!wanted(formats[i]));
    }
}

/// One color view id serves the surface's whole life: once a frame is bound,
/// every later frame that is drawn goes behind the same node.
pub proof fn law_one_color_view_serves_every_frame(
    window: WindowModel,
    color: ResourceId,
    status: SurfaceStatus,
)
    requires
        status is Success || status is Suboptimal,
    ensures
        ({
            let bound = WindowModel { color_view: Some(color), ..window };
            bound.step(status) == (AcquireStep::Draw {
                replaces: Some(color),
                format: window.color_format,
            })
        }),
{
}

/// A resize is followed whole: to any size that is not zero in either
/// direction, the surface has that size afterwards, whatever it had before and
/// whichever of the two sides moved; a minimized window keeps the size it had.
/// Something is rebuilt exactly when the size is another than before, and
/// nothing but the size changes.
pub proof fn law_a_resize_is_followed(window: WindowModel, width: u32, height: u32)
    ensures
        width != 0 && height != 0 ==> window.resized(width, height).size == (width, height),
        width == 0 || height == 0 ==> window.resized(width, height).size == window.size,
        window.resize_step(width, height) is Some <==> window.resized(width, height).size
            != window.size,
        window.resized(width, height) == (WindowModel {
            size: window.resized(width, height).size,
            ..window
        }),
        window.wf() ==> window.resized(width, height).wf(),
{
}

/// What is rebuilt for a resize has the new size and the samples and format the
/// frames always had, and goes behind the nodes of what it replaces.
pub proof fn law_resized_attachments_match_the_window(
    window: WindowModel,
    width: u32,
    height: u32,
)
    ensures
        window.resize_step(width, height) matches Some(step) ==> {
            &&& (step.attachments.width, step.attachments.height) == window.resized(
                width,
                height,
            ).size
            &&& step.attachments.sample_count == window.sample_count
            &&& step.attachments.msaa_format is Some <==> window.sample_count > 1
            &&& step.attachments.msaa_format is Some ==> step.attachments.msaa_format == Some(
                window.color_format,
            )
            &&& step.depth_view == window.depth_view
            &&& step.msaa_view == window.msaa_view
        },
{
}

/// The size a surface ends up with is the last one it was resized to: earlier
/// resizes leave no trace.
pub proof fn law_the_last_resize_wins(
    window: WindowModel,
    first: (u32, u32),
    last: (u32, u32),
)
    requires
        last.0 != 0,
        last.1 != 0,
    ensures
        window.resized(first.0, first.1).resized(last.0, last.1) == window.resized(
            last.0,
            last.1,
        ),
{
}

/// A frame is drawn whenever the swap chain handed an image out, and only then:
/// into that image, viewed as the format the surface draws in. An outdated
/// surface is configured again and a lost one created again; in every other case
/// the frame is skipped.
pub proof fn law_a_frame_is_drawn_when_there_is_an_image(
    window: WindowModel,
    status: SurfaceStatus,
)
    ensures
        window.step(status) is Draw <==> status is Success || status is Suboptimal,
        window.step(status) is Reconfigure <==> status is Outdated,
        window.step(status) is Recreate <==> status is Lost,
        window.step(status) is Skip <==> status is Timeout || status is Occluded
            || status is Validation,
        window.step(status) matches AcquireStep::Draw { replaces, format } ==> replaces
            == window.color_view && format == window.color_format,
{
}

/// Attachments have the size asked for, at least one pixel in each direction,
/// and a multisample texture exactly when there is more than one sample, in the
/// format it is resolved into.
pub proof fn law_attachments_are_what_was_asked_for(
    color_format: TextureFormat,
    width: u32,
    height: u32,
    sample_count: u32,
)
    ensures
        ({
            let made = create_attachments(color_format, width, height, sample_count);
            &&& made.width >= 1 && made.height >= 1
            &&& width > 0 ==> made.width == width
            &&& height > 0 ==> made.height == height
            &&& width == 0 ==> made.width == 1
            &&& height == 0 ==> made.height == 1
            &&& made.sample_count == sample_count
            &&& sample_count > 1 ==> made.msaa_format == Some(color_format)
            &&& sample_count <= 1 ==> made.msaa_format is None
        }),
{
}

/// A surface is never configured with an empty side, and with the sides it was
/// given where they are not empty.
pub proof fn law_a_side_is_at_least_one(side: u32)
    ensures
        at_least_one(side) >= 1,
        side >= 1 ==> at_least_one(side) == side,
        at_least_one(0) == 1,
{
}

/// A key follows the view's format where one was recorded, and keeps the depth
/// format and the samples either way.
pub proof fn law_a_recorded_view_decides_the_color_format(
    key: SurfaceKey,
    recorded: Option<TextureFormat>,
)
    ensures
        recorded matches Some(format) ==> key.viewed_as(recorded).color_format == format,
        recorded is None ==> key.viewed_as(recorded) == key,
        key.viewed_as(recorded).depth_stencil_format == key.depth_stencil_format,
        key.viewed_as(recorded).sample_count == key.sample_count,
{
}

/// A format that has an sRGB twin does not encode sRGB itself, the twin does,
/// and a twin has no other.
pub proof fn law_an_srgb_twin_encodes_srgb(format: TextureFormat)
    ensures
        srgb_twin(format) != format ==> encodes_srgb(srgb_twin(format)) && !encodes_srgb(format),
        srgb_twin(srgb_twin(format)) == srgb_twin(format),
        encodes_srgb(format) ==> srgb_twin(format) == format,
{
}

/// Where no format encodes sRGB the surface's first that can be viewed as one
/// that does is chosen, and where none can, its first.
pub proof fn law_the_first_viewable_format_is_next(formats: Seq<TextureFormat>, i: int)
    requires
        0 <= i < formats.len(),
        forall|j: int| 0 <= j < formats.len() ==> !encodes_srgb(#[trigger] formats[j]),
    ensures
        srgb_twin(formats[i]) != formats[i] && (forall|j: int|
            0 <= j < i ==> srgb_twin(#[trigger] formats[j]) == formats[j]) ==> chosen_format(
            formats,
        ) == formats[i],
        (forall|j: int| 0 <= j < formats.len() ==> srgb_twin(#[trigger] formats[j]) == formats[j])
            ==> chosen_format(formats) == formats[0],
{
    let srgb = |format: TextureFormat| encodes_srgb(format);
    let viewable = |format: TextureFormat| srgb_twin(format) != format;
    lemma_first_format(formats, srgb, 0);
    lemma_first_format(formats, viewable, 0);
    let first = first_format(formats, srgb, 0);
    if first < formats.len() {
        assert(srgb(formats[first]));
    }
    let next = first_format(formats, viewable, 0);
    if next < formats.len() {
        assert(viewable(formats[next]));
    }
    if next > i {
        assert(!viewable(formats[i]));
    }
}

/// Frames are drawn in the surface's own format where it encodes sRGB, otherwise
/// in the first other format it may be viewed as, and in its own where there is
/// no other.
pub proof fn law_frames_are_viewed_as_configured(
    format: TextureFormat,
    view_formats: Seq<TextureFormat>,
    i: int,
)
    ensures
        encodes_srgb(format) ==> viewed_format(format, view_formats) == format,
        !encodes_srgb(format) && 0 <= i < view_formats.len() && view_formats[i] != format && (
        forall|j: int| 0 <= j < i ==> #[trigger] view_formats[j] == format) ==> viewed_format(
            format,
            view_formats,
        ) == view_formats[i],
        (forall|j: int| 0 <= j < view_formats.len() ==> #[trigger] view_formats[j] == format)
            ==> viewed_format(format, view_formats) == format,
{
    let wanted = other_than(format);
    lemma_first_format(view_formats, wanted, 0);
    let first = first_format(view_formats, wanted, 0);
    if first < view_formats.len() {
        assert(wanted(view_formats[first]));
    }
    if 0 <= i < view_formats.len() && view_formats[i] != format && first > i {
        assert(!wanted(view_formats[i]));
    }
}

/// A surface presents as it prefers: with the first mode it offers, whichever
/// others follow, and with the default only where it offers none.
pub proof fn law_the_first_offer_is_taken<T>(first: T, others: Seq<T>, default: T)
    ensures
        preferred(seq![first] + others, default) == first,
        preferred(Seq::empty(), default) == default,
{
}

/// A surface's images may be viewed as its sRGB twin, where there is one, and as
/// nothing else; and so viewed they encode sRGB.
pub proof fn law_the_srgb_twin_is_advertised(format: TextureFormat, view: TextureFormat)
    ensures
        advertised_views(format).contains(view) <==> view == srgb_twin(format) && view != format,
        advertised_views(format).contains(view) ==> encodes_srgb(view),
        advertised_views(format).len() <= 1,
{
    if srgb_twin(format) != format {
        assert(advertised_views(format)[0] == srgb_twin(format));
    }
}

/// A frame is drawn into its own image and into the surface's depth and
/// multisample attachments. Once a frame is bound, later frames go behind its
/// node, and neither binding nor resizing changes what the other decided.
pub proof fn law_a_frame_is_drawn_into_its_attachments(
    window: WindowModel,
    color: ResourceId,
    width: u32,
    height: u32,
)
    ensures
        window.frame_views(color).color == Some(color),
        window.frame_views(color).depth == Some(window.depth_view),
        window.frame_views(color).msaa == window.msaa_view,
        window.bound(color).color_view == Some(color),
        window.bound(color).size == window.size,
        window.bound(color).resized(width, height) == window.resized(width, height).bound(color),
        window.wf() ==> (window.frame_views(color).msaa is Some <==> window.sample_count > 1),
{
}

/// A new surface is what it was configured as: its size, format and presentation
/// are the configuration's, a frame is drawn into the given views, and the first
/// frame's color view replaces none.
pub proof fn law_a_new_surface_is_as_configured(
    config: SurfaceConfig,
    sample_count: u32,
    depth_view: ResourceId,
    msaa_view: Option<ResourceId>,
    color: ResourceId,
)
    ensures
        ({
            let window = WindowModel::created(config, sample_count, depth_view, msaa_view);
            &&& window.size == (config.width, config.height)
            &&& window.format == config.format
            &&& window.view_formats == config.view_formats@
            &&& window.present_mode == config.present_mode
            &&& window.alpha_mode == config.alpha_mode
            &&& window.latency == config.desired_maximum_frame_latency
            &&& window.sample_count == sample_count
            &&& encodes_srgb(config.format) ==> window.color_format == config.format
            &&& window.frame_views(color).depth == Some(depth_view)
            &&& window.frame_views(color).msaa == msaa_view
            &&& window.step(SurfaceStatus::Success) == (AcquireStep::Draw {
                replaces: None,
                format: window.color_format,
            })
        }),
{
}

/// A format's sRGB twin is the one of its own name: the same channels in the
/// same order, or the same block, encoded as sRGB; and no two formats share one.
pub proof fn law_a_twin_keeps_its_name(a: TextureFormat, b: TextureFormat)
    ensures
        a is Rgba8Unorm ==> srgb_twin(a) is Rgba8UnormSrgb,
        a is Bgra8Unorm ==> srgb_twin(a) is Bgra8UnormSrgb,
        a is Bc1RgbaUnorm ==> srgb_twin(a) is Bc1RgbaUnormSrgb,
        a is Bc2RgbaUnorm ==> srgb_twin(a) is Bc2RgbaUnormSrgb,
        a is Bc3RgbaUnorm ==> srgb_twin(a) is Bc3RgbaUnormSrgb,
        a is Bc7RgbaUnorm ==> srgb_twin(a) is Bc7RgbaUnormSrgb,
        a is Etc2Rgb8Unorm ==> srgb_twin(a) is Etc2Rgb8UnormSrgb,
        a is Etc2Rgb8A1Unorm ==> srgb_twin(a) is Etc2Rgb8A1UnormSrgb,
        a is Etc2Rgba8Unorm ==> srgb_twin(a) is Etc2Rgba8UnormSrgb,
        a matches TextureFormat::Astc { block, channel } ==> {
            &&& srgb_twin(a) matches TextureFormat::Astc { block: its_block, channel: its_channel }
            &&& its_block == block
            &&& channel is Unorm ==> its_channel is UnormSrgb
            &&& !(channel is Unorm) ==> its_channel == channel
        },
        srgb_twin(a) == srgb_twin(b) && srgb_twin(a) != a && srgb_twin(b) != b ==> a == b,
{
}

} // verus!
