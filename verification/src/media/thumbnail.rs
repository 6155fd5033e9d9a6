//! Thumbnails of uploaded media.
//!
//! A thumbnail is a WebP file, or a static SVG placeholder where no picture can be
//! made. The rules here choose how it is made, where it is written, and what happens
//! after each attempt that fails.

use vstd::prelude::*;
use vstd::string::*;
use crate::media::pixels;
use crate::media::pixels::{can_scale, can_shrink, decode, dimensions, resize, shrink, ImageKind};
use crate::numbers;
use crate::numbers::decimal_u64;
use crate::paths;
use crate::paths::{join_path, path_file_name, path_with_extension};
use crate::text;
use crate::text::{concat, starts_with, str_eq};

verus! {

/// The most pixels that an image may have for a thumbnail to be made of it.
pub const MAX_IMAGE_THUMBNAIL_PIXELS: u64 = 100_000_000;

/// The placeholder of a video.
pub const VIDEO_PLACEHOLDER_SVG: &'static str = r##"<svg xmlns="http://www.w3.org/2000/svg" width="250" height="250" viewBox="0 0 250 250">
  <rect width="250" height="250" fill="#0a0f0a"/>
  <circle cx="125" cy="125" r="60" fill="#0d120d" stroke="#00c840" stroke-width="2"/>
  <polygon points="108,95 108,155 165,125" fill="#00c840"/>
  <text x="125" y="215" text-anchor="middle" fill="#3a4a3a" font-family="monospace" font-size="12">VIDEO</text>
</svg>"##;

/// The placeholder of a sound.
pub const AUDIO_PLACEHOLDER_SVG: &'static str = r##"<svg xmlns="http://www.w3.org/2000/svg" width="250" height="250" viewBox="0 0 250 250">
  <rect width="250" height="250" fill="#0a0f0a"/>
  <circle cx="125" cy="125" r="60" fill="#0d120d" stroke="#00c840" stroke-width="2"/>
  <text x="125" y="140" text-anchor="middle" fill="#00c840" font-family="monospace" font-size="48">&#9835;</text>
  <text x="125" y="215" text-anchor="middle" fill="#3a4a3a" font-family="monospace" font-size="12">AUDIO</text>
</svg>"##;

/// The placeholder of a PDF document.
pub const PDF_PLACEHOLDER_SVG: &'static str = r##"<svg xmlns="http://www.w3.org/2000/svg" width="250" height="250" viewBox="0 0 250 250">
  <rect width="250" height="250" rx="20" fill="#0a0f0a"/>
  <rect x="48" y="26" width="154" height="198" rx="14" fill="#f2f0ea" stroke="#203020" stroke-width="4"/>
  <path d="M161 26v44h41" fill="#d7d2c5"/>
  <path d="M161 26v44h41" fill="none" stroke="#203020" stroke-width="4" stroke-linejoin="round"/>
  <rect x="68" y="86" width="114" height="50" rx="9" fill="#8f2328"/>
  <text x="125" y="119" text-anchor="middle" fill="#fff7f2" font-family="monospace" font-size="30" font-weight="700">PDF</text>
  <rect x="72" y="154" width="106" height="8" rx="4" fill="#9aa29a"/>
  <rect x="72" y="170" width="86" height="8" rx="4" fill="#9aa29a"/>
  <rect x="72" y="186" width="96" height="8" rx="4" fill="#9aa29a"/>
</svg>"##;

/// The kinds of static placeholders.
#[derive(Debug, Clone, Copy, PartialEq, Eq, Structural)]
pub enum PlaceholderKind {
    /// For a video, and for what has no better one.
    Video,
    /// For a sound.
    Audio,
    /// For a PDF document.
    Pdf,
}

/// The picture of a placeholder.
pub fn placeholder_svg(kind: PlaceholderKind) -> (r: &'static str)
    ensures
        r@ == match kind {
            PlaceholderKind::Video => VIDEO_PLACEHOLDER_SVG@,
            PlaceholderKind::Audio => AUDIO_PLACEHOLDER_SVG@,
            PlaceholderKind::Pdf => PDF_PLACEHOLDER_SVG@,
        },
{
    match kind {
        PlaceholderKind::Video => VIDEO_PLACEHOLDER_SVG,
        PlaceholderKind::Audio => AUDIO_PLACEHOLDER_SVG,
        PlaceholderKind::Pdf => PDF_PLACEHOLDER_SVG,
    }
}

/// A program that renders the first page of a PDF document.
#[derive(Debug, Clone, Copy, PartialEq, Eq, Structural)]
pub enum PdfRenderer {
    /// Poppler's renderer.
    Pdftoppm,
    /// MuPDF's renderer.
    Mutool,
    /// The renderer of macOS.
    Qlmanage,
}

impl PdfRenderer {
    /// The name of the program.
    pub open spec fn binary(self) -> Seq<char> {
        match self {
            PdfRenderer::Pdftoppm => "pdftoppm"@,
            PdfRenderer::Mutool => "mutool"@,
            PdfRenderer::Qlmanage => "qlmanage"@,
        }
    }

    /// The name of the program.
    pub fn binary_name(self) -> (r: &'static str)
        ensures
            r@ == self.binary(),
    {
        match self {
            PdfRenderer::Pdftoppm => "pdftoppm",
            PdfRenderer::Mutool => "mutool",
            PdfRenderer::Qlmanage => "qlmanage",
        }
    }

    /// The program that is tried after this one has failed.
    pub open spec fn successor(self) -> Option<PdfRenderer> {
        match self {
            PdfRenderer::Pdftoppm => Some(PdfRenderer::Mutool),
            PdfRenderer::Mutool => Some(PdfRenderer::Qlmanage),
            PdfRenderer::Qlmanage => None,
        }
    }

    /// The program that is tried after this one has failed.
    pub fn next(self) -> (r: Option<PdfRenderer>)
        ensures
            r == self.successor(),
    {
        match self {
            PdfRenderer::Pdftoppm => Some(PdfRenderer::Mutool),
            PdfRenderer::Mutool => Some(PdfRenderer::Qlmanage),
            PdfRenderer::Qlmanage => None,
        }
    }
}

/// The renderers that are installed, in the order in which they are tried.
pub open spec fn installed(pdftoppm: bool, mutool: bool, qlmanage: bool) -> Seq<PdfRenderer> {
    let all = seq![
        (PdfRenderer::Pdftoppm, pdftoppm),
        (PdfRenderer::Mutool, mutool),
        (PdfRenderer::Qlmanage, qlmanage),
    ];
    all.filter(|p: (PdfRenderer, bool)| p.1).map_values(|p: (PdfRenderer, bool)| p.0)
}

/// The renderers that are installed, given which of them answered a probe.
pub fn detect_pdf_renderers(pdftoppm: bool, mutool: bool, qlmanage: bool) -> (r: Vec<PdfRenderer>)
    ensures
        r@ == installed(pdftoppm, mutool, qlmanage),
{
    let mut found: Vec<PdfRenderer> = Vec::new();
    if pdftoppm {
        found.push(PdfRenderer::Pdftoppm);
    }
    if mutool {
        found.push(PdfRenderer::Mutool);
    }
    if qlmanage {
        found.push(PdfRenderer::Qlmanage);
    }
    proof {
        let keep = |p: (PdfRenderer, bool)| p.1;
        let first = seq![(PdfRenderer::Pdftoppm, pdftoppm)];
        let second = first.push((PdfRenderer::Mutool, mutool));
        let third = second.push((PdfRenderer::Qlmanage, qlmanage));
        assert(third =~= seq![
            (PdfRenderer::Pdftoppm, pdftoppm),
            (PdfRenderer::Mutool, mutool),
            (PdfRenderer::Qlmanage, qlmanage),
        ]);
        assert(first.drop_last() =~= Seq::<(PdfRenderer, bool)>::empty());
        assert(second.drop_last() =~= first);
        assert(third.drop_last() =~= second);
        reveal_with_fuel(Seq::filter, 4);
        assert(found@ =~= third.filter(keep).map_values(|p: (PdfRenderer, bool)| p.0));
    }
    found
}

/// How a PDF thumbnail was made.
#[derive(Debug, Clone, Copy, PartialEq, Eq, Structural)]
pub enum PdfThumbnailOutcome {
    /// From the first page.
    Rendered {
        /// The program that rendered the page.
        renderer: PdfRenderer,
    },
    /// As a placeholder.
    Placeholder,
}

/// What is to be done next for a PDF thumbnail.
#[derive(Debug, Clone, Copy, PartialEq, Eq, Structural)]
pub enum PdfStep {
    /// Make a temporary directory beside the output.
    Prepare,
    /// Render the first page with the program.
    Render(PdfRenderer),
    /// Read the dimensions of the rendered page.
    Inspect(PdfRenderer),
    /// Decode the rendered page.
    Decode(PdfRenderer),
    /// Save the scaled page.
    Save(PdfRenderer),
    /// Remove what saving left behind.
    Discard,
    /// Write the placeholder beside the output.
    WritePlaceholder,
    /// The thumbnail is made.
    Finished(PdfThumbnailOutcome),
    /// No thumbnail could be written.
    Failed,
}

/// What came of a step.
#[derive(Debug, Clone, Copy, PartialEq, Eq, Structural)]
pub enum PdfEvent {
    /// The step succeeded.
    Succeeded,
    /// The step failed.
    Failed,
    /// The rendered page has these dimensions.
    Dimensions(u32, u32),
}

/// Whether an image of the given dimensions is too large for a thumbnail.
pub open spec fn exceeds_pixel_limit(width: u32, height: u32) -> bool {
    width * height > MAX_IMAGE_THUMBNAIL_PIXELS
}

/// Whether an image of the given dimensions is too large for a thumbnail.
pub fn over_pixel_limit(width: u32, height: u32) -> (r: bool)
    ensures
        r == exceeds_pixel_limit(width, height),
{
    assert(0 <= width * height <= u32::MAX * u32::MAX) by (nonlinear_arith)
        requires
            0 <= width <= u32::MAX,
            0 <= height <= u32::MAX,
    ;
    let pixels: u64 = width as u64 * height as u64;
    pixels > MAX_IMAGE_THUMBNAIL_PIXELS
}

/// The step that follows an event.
pub open spec fn pdf_step(step: PdfStep, event: PdfEvent) -> PdfStep {
    match step {
        PdfStep::Prepare => if event is Failed {
            PdfStep::Failed
        } else {
            PdfStep::Render(PdfRenderer::Pdftoppm)
        },
        PdfStep::Render(renderer) => if event is Failed {
            match renderer.successor() {
                Some(other) => PdfStep::Render(other),
                None => PdfStep::WritePlaceholder,
            }
        } else {
            PdfStep::Inspect(renderer)
        },
        PdfStep::Inspect(renderer) => match event {
            PdfEvent::Dimensions(width, height) => if exceeds_pixel_limit(width, height) {
                PdfStep::WritePlaceholder
            } else {
                PdfStep::Decode(renderer)
            },
            _ => PdfStep::WritePlaceholder,
        },
        PdfStep::Decode(renderer) => if event is Failed {
            PdfStep::WritePlaceholder
        } else {
            PdfStep::Save(renderer)
        },
        PdfStep::Save(renderer) => if event is Failed {
            PdfStep::Discard
        } else {
            PdfStep::Finished(PdfThumbnailOutcome::Rendered { renderer })
        },
        PdfStep::Discard => PdfStep::WritePlaceholder,
        PdfStep::WritePlaceholder => if event is Failed {
            PdfStep::Failed
        } else {
            PdfStep::Finished(PdfThumbnailOutcome::Placeholder)
        },
        PdfStep::Finished(outcome) => PdfStep::Finished(outcome),
        PdfStep::Failed => PdfStep::Failed,
    }
}

/// The step that follows an event.
pub fn next_pdf_step(step: PdfStep, event: PdfEvent) -> (r: PdfStep)
    ensures
        r == pdf_step(step, event),
{
    let failed = match event {
        PdfEvent::Failed => true,
        _ => false,
    };
    match step {
        PdfStep::Prepare => if failed {
            PdfStep::Failed
        } else {
            PdfStep::Render(PdfRenderer::Pdftoppm)
        },
        PdfStep::Render(renderer) => if failed {
            match renderer.next() {
                Some(other) => PdfStep::Render(other),
                None => PdfStep::WritePlaceholder,
            }
        } else {
            PdfStep::Inspect(renderer)
        },
        PdfStep::Inspect(renderer) => match event {
            PdfEvent::Dimensions(width, height) => if over_pixel_limit(width, height) {
                PdfStep::WritePlaceholder
            } else {
                PdfStep::Decode(renderer)
            },
            _ => PdfStep::WritePlaceholder,
        },
        PdfStep::Decode(renderer) => if failed {
            PdfStep::WritePlaceholder
        } else {
            PdfStep::Save(renderer)
        },
        PdfStep::Save(renderer) => if failed {
            PdfStep::Discard
        } else {
            PdfStep::Finished(PdfThumbnailOutcome::Rendered { renderer })
        },
        PdfStep::Discard => PdfStep::WritePlaceholder,
        PdfStep::WritePlaceholder => if failed {
            PdfStep::Failed
        } else {
            PdfStep::Finished(PdfThumbnailOutcome::Placeholder)
        },
        PdfStep::Finished(outcome) => PdfStep::Finished(outcome),
        PdfStep::Failed => PdfStep::Failed,
    }
}

/// What every step of a PDF thumbnail comes to, if it is taken.
#[derive(Debug, Clone, Copy)]
pub struct PdfTrial {
    /// Whether the temporary directory can be made.
    pub prepared: bool,
    /// Whether Poppler's renderer succeeds.
    pub pdftoppm: bool,
    /// Whether MuPDF's renderer succeeds.
    pub mutool: bool,
    /// Whether the renderer of macOS succeeds.
    pub qlmanage: bool,
    /// The dimensions of the rendered page, where they can be read.
    pub dimensions: Option<(u32, u32)>,
    /// Whether the rendered page can be decoded.
    pub decoded: bool,
    /// Whether the scaled page can be saved.
    pub saved: bool,
    /// Whether the placeholder can be written.
    pub placeholder: bool,
}

impl PdfTrial {
    /// The first renderer that succeeds.
    pub open spec fn renderer(self) -> Option<PdfRenderer> {
        if self.pdftoppm {
            Some(PdfRenderer::Pdftoppm)
        } else if self.mutool {
            Some(PdfRenderer::Mutool)
        } else if self.qlmanage {
            Some(PdfRenderer::Qlmanage)
        } else {
            None
        }
    }

    /// Whether the rendered page can be used.
    pub open spec fn usable(self) -> bool {
        &&& self.dimensions is Some
        &&& !exceeds_pixel_limit(self.dimensions->Some_0.0, self.dimensions->Some_0.1)
        &&& self.decoded
        &&& self.saved
    }

    /// What the thumbnail comes to: the page of the first renderer that succeeds where
    /// it can be used, else the placeholder, where it can be written.
    pub open spec fn outcome(self) -> Option<PdfThumbnailOutcome> {
        if !self.prepared {
            None
        } else if self.renderer() is Some && self.usable() {
            Some(PdfThumbnailOutcome::Rendered { renderer: self.renderer()->Some_0 })
        } else if self.placeholder {
            Some(PdfThumbnailOutcome::Placeholder)
        } else {
            None
        }
    }

    /// Whether the renderer succeeds.
    fn renders(&self, renderer: PdfRenderer) -> (r: bool)
        ensures
            r == match renderer {
                PdfRenderer::Pdftoppm => self.pdftoppm,
                PdfRenderer::Mutool => self.mutool,
                PdfRenderer::Qlmanage => self.qlmanage,
            },
    {
        match renderer {
            PdfRenderer::Pdftoppm => self.pdftoppm,
            PdfRenderer::Mutool => self.mutool,
            PdfRenderer::Qlmanage => self.qlmanage,
        }
    }

    /// What the step comes to.
    pub open spec fn event(self, step: PdfStep) -> PdfEvent {
        let succeeds = match step {
            PdfStep::Prepare => self.prepared,
            PdfStep::Render(PdfRenderer::Pdftoppm) => self.pdftoppm,
            PdfStep::Render(PdfRenderer::Mutool) => self.mutool,
            PdfStep::Render(PdfRenderer::Qlmanage) => self.qlmanage,
            PdfStep::Inspect(_) => self.dimensions is Some,
            PdfStep::Decode(_) => self.decoded,
            PdfStep::Save(_) => self.saved,
            PdfStep::WritePlaceholder => self.placeholder,
            _ => true,
        };
        if !succeeds {
            PdfEvent::Failed
        } else if step is Inspect {
            PdfEvent::Dimensions(self.dimensions->Some_0.0, self.dimensions->Some_0.1)
        } else {
            PdfEvent::Succeeded
        }
    }

    /// What the step comes to.
    fn event_of(&self, step: PdfStep) -> (r: PdfEvent)
        ensures
            r == self.event(step),
    {
        let succeeds = match step {
            PdfStep::Prepare => self.prepared,
            PdfStep::Render(renderer) => self.renders(renderer),
            PdfStep::Inspect(_) => {
                return match self.dimensions {
                    Some((width, height)) => PdfEvent::Dimensions(width, height),
                    None => PdfEvent::Failed,
                };
            },
            PdfStep::Decode(_) => self.decoded,
            PdfStep::Save(_) => self.saved,
            PdfStep::WritePlaceholder => self.placeholder,
            _ => true,
        };
        if succeeds {
            PdfEvent::Succeeded
        } else {
            PdfEvent::Failed
        }
    }
}

/// How many steps may follow.
pub open spec fn steps_left(step: PdfStep) -> nat {
    match step {
        PdfStep::Prepare => 9,
        PdfStep::Render(PdfRenderer::Pdftoppm) => 8,
        PdfStep::Render(PdfRenderer::Mutool) => 7,
        PdfStep::Render(PdfRenderer::Qlmanage) => 6,
        PdfStep::Inspect(_) => 5,
        PdfStep::Decode(_) => 4,
        PdfStep::Save(_) => 3,
        PdfStep::Discard => 2,
        PdfStep::WritePlaceholder => 1,
        _ => 0,
    }
}

/// What a thumbnail comes to from the given step on.
pub open spec fn outcome_from(trial: PdfTrial, step: PdfStep) -> Option<PdfThumbnailOutcome>
    decreases steps_left(step),
{
    match step {
        PdfStep::Finished(outcome) => Some(outcome),
        PdfStep::Failed => None,
        _ => outcome_from(trial, pdf_step(step, trial.event(step))),
    }
}

/// Makes the thumbnail of a PDF document's first page, given what every step comes to.
/// Nothing comes back where neither the page nor the placeholder could be written.
pub fn pdf_first_page_thumbnail(trial: &PdfTrial) -> (r: Option<PdfThumbnailOutcome>)
    ensures
        r == trial.outcome(),
{
    let mut step = PdfStep::Prepare;
    let mut going = true;
    proof {
        reveal_with_fuel(outcome_from, 10);
    }
    assert(outcome_from(*trial, PdfStep::Prepare) == trial.outcome());
    while going
        invariant
            outcome_from(*trial, step) == trial.outcome(),
            !going ==> (step is Finished || step is Failed),
        decreases steps_left(step), going as int,
    {
        match step {
            PdfStep::Finished(_) | PdfStep::Failed => {
                going = false;
            },
            _ => {
                let event = trial.event_of(step);
                step = next_pdf_step(step, event);
            },
        }
    }
    match step {
        PdfStep::Finished(outcome) => Some(outcome),
        _ => None,
    }
}

/// The path of the placeholder that stands in for an output.
pub open spec fn placeholder_path(output_path: Seq<char>) -> Seq<char> {
    paths::with_extension(output_path, "svg"@)
}

/// The path of the placeholder that stands in for an output.
pub fn pdf_placeholder_output_path(output_path: &str) -> (r: String)
    ensures
        r@ == placeholder_path(output_path@),
{
    path_with_extension(output_path, "svg")
}

/// How a thumbnail is made.
#[derive(Debug, Clone, Copy, PartialEq, Eq, Structural)]
pub enum ThumbnailStrategy {
    /// Write a placeholder to the output.
    Placeholder(PlaceholderKind),
    /// Render the first page of a document.
    FirstPage,
    /// Take the first frame of a video with ffmpeg, else write a placeholder beside the
    /// output.
    VideoFrame,
    /// Decode and scale the image, else write a placeholder beside the output.
    Scale,
    /// Take the image with ffmpeg, else decode and scale it, else write a placeholder
    /// beside the output.
    FrameOrScale,
    /// Write a placeholder beside the output, where nothing is known of the file.
    PlaceholderBeside(PlaceholderKind),
}

/// How a thumbnail of the given MIME type is made.
pub open spec fn strategy_for(
    mime: Seq<char>,
    ffmpeg_available: bool,
    ffmpeg_webp_available: bool,
) -> ThumbnailStrategy {
    if mime == "image/svg+xml"@ {
        ThumbnailStrategy::Placeholder(PlaceholderKind::Video)
    } else if text::begins(mime, "audio/"@) {
        ThumbnailStrategy::Placeholder(PlaceholderKind::Audio)
    } else if mime == "application/pdf"@ {
        ThumbnailStrategy::FirstPage
    } else if text::begins(mime, "video/"@) {
        if ffmpeg_available && ffmpeg_webp_available {
            ThumbnailStrategy::VideoFrame
        } else {
            ThumbnailStrategy::Placeholder(PlaceholderKind::Video)
        }
    } else if mime == "image/webp"@ {
        ThumbnailStrategy::Scale
    } else if text::begins(mime, "image/"@) {
        if ffmpeg_available {
            ThumbnailStrategy::FrameOrScale
        } else {
            ThumbnailStrategy::Scale
        }
    } else {
        ThumbnailStrategy::PlaceholderBeside(PlaceholderKind::Video)
    }
}

/// How a thumbnail of the given MIME type is made.
pub fn thumbnail_strategy(mime: &str, ffmpeg_available: bool, ffmpeg_webp_available: bool) -> (r:
    ThumbnailStrategy)
    ensures
        r == strategy_for(mime@, ffmpeg_available, ffmpeg_webp_available),
{
    if str_eq(mime, "image/svg+xml") {
        ThumbnailStrategy::Placeholder(PlaceholderKind::Video)
    } else if starts_with(mime, "audio/") {
        ThumbnailStrategy::Placeholder(PlaceholderKind::Audio)
    } else if str_eq(mime, "application/pdf") {
        ThumbnailStrategy::FirstPage
    } else if starts_with(mime, "video/") {
        if ffmpeg_available && ffmpeg_webp_available {
            ThumbnailStrategy::VideoFrame
        } else {
            ThumbnailStrategy::Placeholder(PlaceholderKind::Video)
        }
    } else if str_eq(mime, "image/webp") {
        ThumbnailStrategy::Scale
    } else if starts_with(mime, "image/") {
        if ffmpeg_available {
            ThumbnailStrategy::FrameOrScale
        } else {
            ThumbnailStrategy::Scale
        }
    } else {
        ThumbnailStrategy::PlaceholderBeside(PlaceholderKind::Video)
    }
}

/// What the ways of making a thumbnail come to, if they are taken.
#[derive(Debug, Clone, Copy)]
pub struct ThumbnailTrial {
    /// Whether ffmpeg writes the output.
    pub frame: bool,
    /// Whether the decoded and scaled image is written.
    pub scaled: bool,
    /// Whether the placeholder is written.
    pub placeholder: bool,
    /// What the thumbnail of a document's first page comes to.
    pub first_page: Option<PdfThumbnailOutcome>,
}

/// Where the placeholder stands that is written beside an output, if it could be.
pub open spec fn placed_beside(output_path: Seq<char>, trial: ThumbnailTrial) -> Option<
    (Seq<char>, bool),
> {
    if trial.placeholder {
        Some((placeholder_path(output_path), true))
    } else {
        None
    }
}

/// Where the thumbnail stands, if one could be written, and whether it is a
/// placeholder.
pub open spec fn thumbnail_written(
    strategy: ThumbnailStrategy,
    output_path: Seq<char>,
    trial: ThumbnailTrial,
) -> Option<(Seq<char>, bool)> {
    match strategy {
        ThumbnailStrategy::Placeholder(_) => if trial.placeholder {
            Some((output_path, true))
        } else {
            None
        },
        ThumbnailStrategy::FirstPage => match trial.first_page {
            Some(PdfThumbnailOutcome::Rendered { .. }) => Some((output_path, false)),
            Some(PdfThumbnailOutcome::Placeholder) => Some(
                (placeholder_path(output_path), true),
            ),
            None => None,
        },
        ThumbnailStrategy::VideoFrame => if trial.frame {
            Some((output_path, false))
        } else {
            placed_beside(output_path, trial)
        },
        ThumbnailStrategy::Scale => if trial.scaled {
            Some((output_path, false))
        } else {
            placed_beside(output_path, trial)
        },
        ThumbnailStrategy::FrameOrScale => if trial.frame || trial.scaled {
            Some((output_path, false))
        } else {
            placed_beside(output_path, trial)
        },
        ThumbnailStrategy::PlaceholderBeside(_) => placed_beside(output_path, trial),
    }
}

/// What a thumbnail was made of, and so where it stands.
#[derive(Debug, Clone, Copy, PartialEq, Eq, Structural)]
pub enum ThumbnailSource {
    /// A picture, at the output.
    Picture,
    /// The first page of a document or its placeholder, as the page came out.
    Page,
    /// A placeholder, at the output.
    Placeholder,
    /// A placeholder, beside the output.
    PlaceholderBeside,
}

/// The next step on the way to a thumbnail.
#[derive(Debug, Clone, Copy, PartialEq, Eq, Structural)]
pub enum ThumbnailStep {
    /// Take a frame with ffmpeg and write it to the output.
    Frame,
    /// Decode and scale the image and write it to the output.
    Scale,
    /// Make the thumbnail of a document's first page.
    FirstPage,
    /// Write a placeholder to the output.
    Placeholder(PlaceholderKind),
    /// Write a placeholder beside the output.
    PlaceholderBeside(PlaceholderKind),
    /// A thumbnail was made.
    Finished(ThumbnailSource),
    /// No thumbnail could be made.
    Failed,
}

/// The step that a strategy begins with.
pub open spec fn step_of(strategy: ThumbnailStrategy) -> ThumbnailStep {
    match strategy {
        ThumbnailStrategy::Placeholder(kind) => ThumbnailStep::Placeholder(kind),
        ThumbnailStrategy::FirstPage => ThumbnailStep::FirstPage,
        ThumbnailStrategy::VideoFrame => ThumbnailStep::Frame,
        ThumbnailStrategy::Scale => ThumbnailStep::Scale,
        ThumbnailStrategy::FrameOrScale => ThumbnailStep::Frame,
        ThumbnailStrategy::PlaceholderBeside(kind) => ThumbnailStep::PlaceholderBeside(kind),
    }
}

/// The step that follows one that succeeded or failed. What fails is followed by the
/// next resort: after ffmpeg an image is decoded, where that is the strategy, and the
/// last resort of every picture is a placeholder beside the output.
pub open spec fn step_after(
    strategy: ThumbnailStrategy,
    step: ThumbnailStep,
    succeeded: bool,
) -> ThumbnailStep {
    match step {
        ThumbnailStep::Frame => if succeeded {
            ThumbnailStep::Finished(ThumbnailSource::Picture)
        } else if strategy is FrameOrScale {
            ThumbnailStep::Scale
        } else {
            ThumbnailStep::PlaceholderBeside(PlaceholderKind::Video)
        },
        ThumbnailStep::Scale => if succeeded {
            ThumbnailStep::Finished(ThumbnailSource::Picture)
        } else {
            ThumbnailStep::PlaceholderBeside(PlaceholderKind::Video)
        },
        ThumbnailStep::FirstPage => if succeeded {
            ThumbnailStep::Finished(ThumbnailSource::Page)
        } else {
            ThumbnailStep::Failed
        },
        ThumbnailStep::Placeholder(_) => if succeeded {
            ThumbnailStep::Finished(ThumbnailSource::Placeholder)
        } else {
            ThumbnailStep::Failed
        },
        ThumbnailStep::PlaceholderBeside(_) => if succeeded {
            ThumbnailStep::Finished(ThumbnailSource::PlaceholderBeside)
        } else {
            ThumbnailStep::Failed
        },
        _ => step,
    }
}

/// The step that a strategy begins with.
pub fn first_thumbnail_step(strategy: ThumbnailStrategy) -> (r: ThumbnailStep)
    ensures
        r == step_of(strategy),
{
    match strategy {
        ThumbnailStrategy::Placeholder(kind) => ThumbnailStep::Placeholder(kind),
        ThumbnailStrategy::FirstPage => ThumbnailStep::FirstPage,
        ThumbnailStrategy::VideoFrame | ThumbnailStrategy::FrameOrScale => ThumbnailStep::Frame,
        ThumbnailStrategy::Scale => ThumbnailStep::Scale,
        ThumbnailStrategy::PlaceholderBeside(kind) => ThumbnailStep::PlaceholderBeside(kind),
    }
}

/// The step that follows one that succeeded or failed.
pub fn next_thumbnail_step(strategy: ThumbnailStrategy, step: ThumbnailStep, succeeded: bool) -> (r:
    ThumbnailStep)
    ensures
        r == step_after(strategy, step, succeeded),
{
    match (step, succeeded) {
        (ThumbnailStep::Frame, true) | (ThumbnailStep::Scale, true) => {
            ThumbnailStep::Finished(ThumbnailSource::Picture)
        },
        (ThumbnailStep::FirstPage, true) => ThumbnailStep::Finished(ThumbnailSource::Page),
        (ThumbnailStep::Placeholder(_), true) => {
            ThumbnailStep::Finished(ThumbnailSource::Placeholder)
        },
        (ThumbnailStep::PlaceholderBeside(_), true) => {
            ThumbnailStep::Finished(ThumbnailSource::PlaceholderBeside)
        },
        (ThumbnailStep::Frame, false) => match strategy {
            ThumbnailStrategy::FrameOrScale => ThumbnailStep::Scale,
            _ => ThumbnailStep::PlaceholderBeside(PlaceholderKind::Video),
        },
        (ThumbnailStep::Scale, false) => ThumbnailStep::PlaceholderBeside(PlaceholderKind::Video),
        (ThumbnailStep::FirstPage, false) | (ThumbnailStep::Placeholder(_), false) | (
            ThumbnailStep::PlaceholderBeside(_),
            false,
        ) => ThumbnailStep::Failed,
        (ThumbnailStep::Finished(_), _) | (ThumbnailStep::Failed, _) => step,
    }
}

/// How many steps may follow.
pub open spec fn thumbnail_steps_left(step: ThumbnailStep) -> nat {
    match step {
        ThumbnailStep::Frame => 3,
        ThumbnailStep::Scale => 2,
        ThumbnailStep::FirstPage => 1,
        ThumbnailStep::Placeholder(_) => 1,
        ThumbnailStep::PlaceholderBeside(_) => 1,
        _ => 0,
    }
}

impl ThumbnailTrial {
    /// Whether the step succeeds.
    pub open spec fn succeeds(self, step: ThumbnailStep) -> bool {
        match step {
            ThumbnailStep::Frame => self.frame,
            ThumbnailStep::Scale => self.scaled,
            ThumbnailStep::FirstPage => self.first_page is Some,
            ThumbnailStep::Placeholder(_) => self.placeholder,
            ThumbnailStep::PlaceholderBeside(_) => self.placeholder,
            _ => true,
        }
    }

    /// Whether the step succeeds.
    fn success_of(&self, step: ThumbnailStep) -> (r: bool)
        ensures
            r == self.succeeds(step),
    {
        match step {
            ThumbnailStep::Frame => self.frame,
            ThumbnailStep::Scale => self.scaled,
            ThumbnailStep::FirstPage => self.first_page.is_some(),
            ThumbnailStep::Placeholder(_) | ThumbnailStep::PlaceholderBeside(_) => self.placeholder,
            _ => true,
        }
    }

    /// Where a thumbnail stands, by what it was made of, and whether it is a placeholder.
    pub open spec fn place(self, source: ThumbnailSource, output_path: Seq<char>) -> (
        Seq<char>,
        bool,
    ) {
        match source {
            ThumbnailSource::Picture => (output_path, false),
            ThumbnailSource::Page => if self.first_page matches Some(
                PdfThumbnailOutcome::Rendered { .. },
            ) {
                (output_path, false)
            } else {
                (placeholder_path(output_path), true)
            },
            ThumbnailSource::Placeholder => (output_path, true),
            ThumbnailSource::PlaceholderBeside => (placeholder_path(output_path), true),
        }
    }
}

/// What the thumbnail is made of, if one comes out, from the given step on.
pub open spec fn source_from(
    strategy: ThumbnailStrategy,
    trial: ThumbnailTrial,
    step: ThumbnailStep,
) -> Option<ThumbnailSource>
    decreases thumbnail_steps_left(step),
{
    match step {
        ThumbnailStep::Finished(source) => Some(source),
        ThumbnailStep::Failed => None,
        _ => source_from(strategy, trial, step_after(strategy, step, trial.succeeds(step))),
    }
}

/// The steps of a strategy, taken one after the other, end with the thumbnail that is
/// written, and with nothing exactly where none is.
pub proof fn law_steps_make_the_thumbnail(
    strategy: ThumbnailStrategy,
    output_path: Seq<char>,
    trial: ThumbnailTrial,
)
    ensures
        thumbnail_written(strategy, output_path, trial) == match source_from(
            strategy,
            trial,
            step_of(strategy),
        ) {
            Some(source) => Some(trial.place(source, output_path)),
            None => None,
        },
{
    reveal_with_fuel(source_from, 5);
}

/// The path of a thumbnail that was written.
pub open spec fn written_path(written: Option<(Seq<char>, bool)>) -> Option<Seq<char>> {
    match written {
        Some((path, _)) => Some(path),
        None => None,
    }
}

/// Makes a thumbnail, given what each way of making one comes to, and says where it
/// stands. Nothing comes back only where the placeholder could not be written either.
/// The path differs from `output_path` where a placeholder had to be written
/// whose extension would not match its content.
pub fn generate_thumbnail(
    mime: &str,
    output_path: &str,
    ffmpeg_available: bool,
    ffmpeg_webp_available: bool,
    trial: ThumbnailTrial,
) -> (r: Option<String>)
    ensures
        text::opt_view(r) == written_path(
            thumbnail_written(
                strategy_for(mime@, ffmpeg_available, ffmpeg_webp_available),
                output_path@,
                trial,
            ),
        ),
{
    let strategy = thumbnail_strategy(mime, ffmpeg_available, ffmpeg_webp_available);
    let mut step = first_thumbnail_step(strategy);
    let mut going = true;
    while going
        invariant
            source_from(strategy, trial, step) == source_from(strategy, trial, step_of(strategy)),
            !going ==> (step is Finished || step is Failed),
        decreases thumbnail_steps_left(step), going as int,
    {
        match step {
            ThumbnailStep::Finished(_) | ThumbnailStep::Failed => {
                going = false;
            },
            _ => {
                let succeeded = trial.success_of(step);
                step = next_thumbnail_step(strategy, step, succeeded);
            },
        }
    }
    proof {
        law_steps_make_the_thumbnail(strategy, output_path@, trial);
    }
    let beside = match step {
        ThumbnailStep::Finished(ThumbnailSource::Picture) => false,
        ThumbnailStep::Finished(ThumbnailSource::Placeholder) => false,
        ThumbnailStep::Finished(ThumbnailSource::PlaceholderBeside) => true,
        ThumbnailStep::Finished(ThumbnailSource::Page) => match trial.first_page {
            Some(PdfThumbnailOutcome::Rendered { .. }) => false,
            _ => true,
        },
        _ => {
            return None;
        },
    };
    if beside {
        Some(pdf_placeholder_output_path(output_path))
    } else {
        Some(output_path.to_owned())
    }
}

/// The extension of a thumbnail.
pub open spec fn extension_for(
    mime: Seq<char>,
    ffmpeg_available: bool,
    ffmpeg_webp_available: bool,
) -> Seq<char> {
    if mime == "image/svg+xml"@ || text::begins(mime, "audio/"@) || (text::begins(mime, "video/"@)
        && (!ffmpeg_available || !ffmpeg_webp_available)) {
        "svg"@
    } else {
        "webp"@
    }
}

/// The extension of a thumbnail: `webp`, unless only a placeholder can be made.
pub fn thumbnail_extension(mime: &str, ffmpeg_available: bool, ffmpeg_webp_available: bool) -> (r:
    &'static str)
    ensures
        r@ == extension_for(mime@, ffmpeg_available, ffmpeg_webp_available),
{
    if str_eq(mime, "image/svg+xml") || starts_with(mime, "audio/") {
        "svg"
    } else if starts_with(mime, "video/") && (!ffmpeg_available || !ffmpeg_webp_available) {
        "svg"
    } else {
        "webp"
    }
}

/// The path of a thumbnail.
pub open spec fn thumbnail_path(
    thumb_dir: Seq<char>,
    file_stem: Seq<char>,
    mime: Seq<char>,
    ffmpeg_available: bool,
    ffmpeg_webp_available: bool,
) -> Seq<char> {
    paths::joined_path(
        thumb_dir,
        file_stem + "."@ + extension_for(mime, ffmpeg_available, ffmpeg_webp_available),
    )
}

/// The path of a thumbnail.
pub fn thumbnail_output_path(
    thumb_dir: &str,
    file_stem: &str,
    mime: &str,
    ffmpeg_available: bool,
    ffmpeg_webp_available: bool,
) -> (r: String)
    ensures
        r@ == thumbnail_path(
            thumb_dir@,
            file_stem@,
            mime@,
            ffmpeg_available,
            ffmpeg_webp_available,
        ),
{
    let mut name = concat(file_stem, ".");
    name.append(thumbnail_extension(mime, ffmpeg_available, ffmpeg_webp_available));
    join_path(thumb_dir, name.as_str())
}

/// The arguments with which Poppler's renderer writes the first page to `png_path`.
pub open spec fn pdftoppm_args(
    input_path: Seq<char>,
    png_path: Seq<char>,
    max_dim: u32,
) -> Seq<Seq<char>> {
    seq![
        "-f"@,
        "1"@,
        "-l"@,
        "1"@,
        "-singlefile"@,
        "-png"@,
        "-scale-to"@,
        numbers::nat_text(max_dim as nat),
        input_path,
        paths::with_extension(png_path, ""@),
    ]
}

/// The arguments with which Poppler's renderer writes the first page to `png_path`.
pub fn build_pdftoppm_arguments(input_path: &str, png_path: &str, max_dim: u32) -> (r: Vec<String>)
    ensures
        text::views(r@) == pdftoppm_args(input_path@, png_path@, max_dim),
{
    let mut args: Vec<String> = Vec::new();
    args.push("-f".to_owned());
    args.push("1".to_owned());
    args.push("-l".to_owned());
    args.push("1".to_owned());
    args.push("-singlefile".to_owned());
    args.push("-png".to_owned());
    args.push("-scale-to".to_owned());
    args.push(decimal_u64(max_dim as u64));
    args.push(input_path.to_owned());
    args.push(path_with_extension(png_path, ""));
    assert(text::views(args@) =~= pdftoppm_args(input_path@, png_path@, max_dim));
    args
}

/// The arguments with which MuPDF's renderer writes the first page to `png_path`.
pub open spec fn mutool_args(
    input_path: Seq<char>,
    png_path: Seq<char>,
    max_dim: u32,
) -> Seq<Seq<char>> {
    seq![
        "draw"@,
        "-q"@,
        "-w"@,
        numbers::nat_text(max_dim as nat),
        "-h"@,
        numbers::nat_text(max_dim as nat),
        "-o"@,
        png_path,
        input_path,
        "1"@,
    ]
}

/// The arguments with which MuPDF's renderer writes the first page to `png_path`.
pub fn build_mutool_arguments(input_path: &str, png_path: &str, max_dim: u32) -> (r: Vec<String>)
    ensures
        text::views(r@) == mutool_args(input_path@, png_path@, max_dim),
{
    let mut args: Vec<String> = Vec::new();
    args.push("draw".to_owned());
    args.push("-q".to_owned());
    args.push("-w".to_owned());
    args.push(decimal_u64(max_dim as u64));
    args.push("-h".to_owned());
    args.push(decimal_u64(max_dim as u64));
    args.push("-o".to_owned());
    args.push(png_path.to_owned());
    args.push(input_path.to_owned());
    args.push("1".to_owned());
    assert(text::views(args@) =~= mutool_args(input_path@, png_path@, max_dim));
    args
}

/// The arguments with which the renderer of macOS writes a thumbnail into a directory.
pub open spec fn qlmanage_args(
    input_path: Seq<char>,
    temp_dir: Seq<char>,
    max_dim: u32,
) -> Seq<Seq<char>> {
    seq![
        "-t"@,
        "-s"@,
        numbers::nat_text(max_dim as nat),
        "-o"@,
        temp_dir,
        input_path,
    ]
}

/// The arguments with which the renderer of macOS writes a thumbnail into a directory.
pub fn build_qlmanage_arguments(input_path: &str, temp_dir: &str, max_dim: u32) -> (r: Vec<String>)
    ensures
        text::views(r@) == qlmanage_args(input_path@, temp_dir@, max_dim),
{
    let mut args: Vec<String> = Vec::new();
    args.push("-t".to_owned());
    args.push("-s".to_owned());
    args.push(decimal_u64(max_dim as u64));
    args.push("-o".to_owned());
    args.push(temp_dir.to_owned());
    args.push(input_path.to_owned());
    assert(text::views(args@) =~= qlmanage_args(input_path@, temp_dir@, max_dim));
    args
}

/// Where the renderer of macOS writes the thumbnail of a document, if the path of the
/// document names a file.
pub open spec fn qlmanage_output(input_path: Seq<char>, temp_dir: Seq<char>) -> Option<Seq<char>> {
    match paths::file_name(input_path) {
        Some(name) => Some(paths::joined_path(temp_dir, name + ".png"@)),
        None => None,
    }
}

/// Where the renderer of macOS writes the thumbnail of a document.
pub fn qlmanage_output_path(input_path: &str, temp_dir: &str) -> (r: Option<String>)
    ensures
        text::opt_view(r) == qlmanage_output(input_path@, temp_dir@),
{
    match path_file_name(input_path) {
        Some(name) => {
            let file = concat(name.as_str(), ".png");
            Some(join_path(temp_dir, file.as_str()))
        },
        None => None,
    }
}

/// The format in which a file of the given MIME type is decoded.
pub open spec fn image_kind(mime: Seq<char>) -> Option<ImageKind> {
    if mime == "image/jpeg"@ {
        Some(ImageKind::Jpeg)
    } else if mime == "image/png"@ {
        Some(ImageKind::Png)
    } else if mime == "image/gif"@ {
        Some(ImageKind::Gif)
    } else if mime == "image/webp"@ {
        Some(ImageKind::WebP)
    } else if mime == "image/bmp"@ {
        Some(ImageKind::Bmp)
    } else if mime == "image/tiff"@ {
        Some(ImageKind::Tiff)
    } else {
        None
    }
}

/// The format in which a file of the given MIME type is decoded.
pub fn mime_to_image_format(mime: &str) -> (r: Option<ImageKind>)
    ensures
        r == image_kind(mime@),
{
    if str_eq(mime, "image/jpeg") {
        Some(ImageKind::Jpeg)
    } else if str_eq(mime, "image/png") {
        Some(ImageKind::Png)
    } else if str_eq(mime, "image/gif") {
        Some(ImageKind::Gif)
    } else if str_eq(mime, "image/webp") {
        Some(ImageKind::WebP)
    } else if str_eq(mime, "image/bmp") {
        Some(ImageKind::Bmp)
    } else if str_eq(mime, "image/tiff") {
        Some(ImageKind::Tiff)
    } else {
        None
    }
}

/// Why no thumbnail is made of an image.
#[derive(Debug, Clone, Copy, PartialEq, Eq, Structural)]
pub enum ScaleError {
    /// The MIME type cannot be decoded.
    Unsupported,
    /// The dimensions could not be read.
    Unreadable,
    /// The image has too many pixels.
    TooLarge,
    /// The file could not be decoded.
    Undecodable,
}

/// Whether an image may be decoded for a thumbnail, and in which format.
pub open spec fn admitted(mime: Seq<char>, dimensions: Option<(u32, u32)>) -> Result<
    ImageKind,
    ScaleError,
> {
    match image_kind(mime) {
        None => Err(ScaleError::Unsupported),
        Some(kind) => match dimensions {
            None => Err(ScaleError::Unreadable),
            Some((width, height)) => if exceeds_pixel_limit(width, height) {
                Err(ScaleError::TooLarge)
            } else {
                Ok(kind)
            },
        },
    }
}

/// Decides whether an image may be decoded for a thumbnail, given the dimensions that
/// its header names, where they could be read.
pub fn admit_image(mime: &str, dimensions: Option<(u32, u32)>) -> (r: Result<
    ImageKind,
    ScaleError,
>)
    ensures
        r == admitted(mime@, dimensions),
{
    match mime_to_image_format(mime) {
        None => Err(ScaleError::Unsupported),
        Some(kind) => match dimensions {
            None => Err(ScaleError::Unreadable),
            Some((width, height)) => if over_pixel_limit(width, height) {
                Err(ScaleError::TooLarge)
            } else {
                Ok(kind)
            },
        },
    }
}

/// Decodes an image that a thumbnail is made of, and reads its extent.
pub fn decode_for_thumbnail(data: &[u8], kind: ImageKind) -> (r: Result<
    (image::DynamicImage, (u32, u32)),
    ScaleError,
>)
    ensures
        match r {
            Ok((image, extent)) => pixels::decoded_image(data@, kind) == Some(image) && (
                extent.0 as nat,
                extent.1 as nat,
            ) == pixels::image_extent(image),
            Err(e) => pixels::decoded_image(data@, kind) is None && e == ScaleError::Undecodable,
        },
{
    match decode(data, kind) {
        Some(image) => {
            let extent = dimensions(&image);
            Ok((image, extent))
        },
        None => Err(ScaleError::Undecodable),
    }
}

/// Whether an image fits the given width and height as it is.
pub open spec fn fits(image: image::DynamicImage, width: u32, height: u32) -> bool {
    pixels::image_extent(image).0 <= width && pixels::image_extent(image).1 <= height
}

/// Whether an image fits the given width and height, or can be scaled to.
pub open spec fn fittable(image: image::DynamicImage, width: u32, height: u32) -> bool {
    fits(image, width, height) || pixels::scalable(pixels::image_extent(image), width, height)
}

/// The image of a thumbnail: as it is where it already fits, else scaled.
pub open spec fn fitted(image: image::DynamicImage, width: u32, height: u32) -> image::DynamicImage {
    if fits(image, width, height) {
        image
    } else {
        pixels::resized_image(image, width, height)
    }
}

/// Scales an image to fit the given width and height, unless it already does.
pub fn fit_image(image: image::DynamicImage, width: u32, height: u32) -> (r: image::DynamicImage)
    requires
        fittable(image, width, height),
    ensures
        r == fitted(image, width, height),
        pixels::fits_sides(pixels::image_extent(r), width, height),
{
    let (w, h) = dimensions(&image);
    if w <= width && h <= height {
        image
    } else {
        resize(&image, width, height)
    }
}

/// Scales an image to fit the given width and height, unless it already does, or nothing
/// where it cannot be scaled so.
pub fn try_fit_image(image: image::DynamicImage, width: u32, height: u32) -> (r: Option<
    image::DynamicImage,
>)
    ensures
        match r {
            Some(thumb) => fittable(image, width, height) && thumb == fitted(image, width, height)
                && pixels::fits_sides(pixels::image_extent(thumb), width, height),
            None => !fittable(image, width, height),
        },
{
    let extent = dimensions(&image);
    if (extent.0 <= width && extent.1 <= height) || can_scale(extent, width, height) {
        Some(fit_image(image, width, height))
    } else {
        None
    }
}

/// Scales the rendered page of a document down to the given side.
pub fn page_thumbnail(page: &image::DynamicImage, max_dim: u32) -> (r: image::DynamicImage)
    requires
        pixels::shrinkable(*page, max_dim, max_dim),
    ensures
        r == pixels::shrunk_image(*page, max_dim, max_dim),
        pixels::fits_sides(pixels::image_extent(r), max_dim, max_dim),
{
    shrink(page, max_dim, max_dim)
}

/// Scales the rendered page of a document down to the given side, or nothing where the
/// scaled page could not be held in memory or its pixels cannot be averaged.
pub fn try_page_thumbnail(page: &image::DynamicImage, max_dim: u32) -> (r: Option<
    image::DynamicImage,
>)
    ensures
        match r {
            Some(thumb) => pixels::shrinkable(*page, max_dim, max_dim) && thumb
                == pixels::shrunk_image(*page, max_dim, max_dim) && pixels::fits_sides(
                pixels::image_extent(thumb),
                max_dim,
                max_dim,
            ),
            None => !pixels::shrinkable(*page, max_dim, max_dim),
        },
{
    if can_shrink(page, max_dim, max_dim) {
        Some(page_thumbnail(page, max_dim))
    } else {
        None
    }
}

/// The renderers are tried in order, and only after the one before has failed.
pub proof fn law_renderers_are_tried_in_order(step: PdfStep, event: PdfEvent, renderer: PdfRenderer)
    requires
        pdf_step(step, event) == PdfStep::Render(renderer),
    ensures
        renderer is Pdftoppm ==> step is Prepare && !(event is Failed),
        renderer is Mutool ==> step == PdfStep::Render(PdfRenderer::Pdftoppm) && event is Failed,
        renderer is Qlmanage ==> step == PdfStep::Render(PdfRenderer::Mutool) && event is Failed,
{
}

/// Once the temporary directory is made, a PDF thumbnail fails only where the
/// placeholder cannot be written.
pub proof fn law_pdf_falls_back_to_placeholder(step: PdfStep, event: PdfEvent)
    requires
        pdf_step(step, event) is Failed,
        !(step is Failed),
    ensures
        event is Failed,
        step is Prepare || step is WritePlaceholder,
{
}

/// A PDF thumbnail comes to an end: every step but the last two kinds leaves fewer
/// steps than before.
pub proof fn law_pdf_steps_end(step: PdfStep, event: PdfEvent)
    ensures
        step is Finished || step is Failed <==> steps_left(step) == 0,
        steps_left(step) > 0 ==> steps_left(pdf_step(step, event)) < steps_left(step),
{
}

/// A page that exceeds the pixel limit is never decoded.
pub proof fn law_large_pages_are_not_decoded(step: PdfStep, event: PdfEvent)
    requires
        pdf_step(step, event) is Decode,
    ensures
        event matches PdfEvent::Dimensions(width, height) && !exceeds_pixel_limit(width, height),
{
}

/// A thumbnail is lost only where its last resort is: of a document, where neither the
/// first page nor its placeholder could be written; of anything else, where the
/// placeholder could not be written and no picture was.
pub proof fn law_thumbnails_fall_back_to_placeholder(
    mime: Seq<char>,
    output_path: Seq<char>,
    ffmpeg_available: bool,
    ffmpeg_webp_available: bool,
    trial: ThumbnailTrial,
)
    ensures
        thumbnail_written(
            strategy_for(mime, ffmpeg_available, ffmpeg_webp_available),
            output_path,
            trial,
        ) is None ==> if mime == "application/pdf"@ {
            trial.first_page is None
        } else {
            !trial.placeholder
        },
{
    lemma_mime_families(mime);
}

/// What stands in a thumbnail agrees with its extension: a placeholder is always
/// written to a path that ends in `.svg`, and a picture to one that ends in `.webp`.
pub proof fn law_thumbnail_extension_matches_content(
    thumb_dir: Seq<char>,
    file_stem: Seq<char>,
    mime: Seq<char>,
    ffmpeg_available: bool,
    ffmpeg_webp_available: bool,
    trial: ThumbnailTrial,
)
    ensures
        ({
            let output = thumbnail_path(
                thumb_dir,
                file_stem,
                mime,
                ffmpeg_available,
                ffmpeg_webp_available,
            );
            let written = thumbnail_written(
                strategy_for(mime, ffmpeg_available, ffmpeg_webp_available),
                output,
                trial,
            );
            match written {
                Some((path, is_placeholder)) => if is_placeholder {
                    text::finishes(path, ".svg"@)
                } else {
                    text::finishes(path, ".webp"@)
                },
                None => true,
            }
        }),
{
    lemma_mime_families(mime);
    reveal_strlit(".svg");
    reveal_strlit("svg");
    reveal_strlit(".webp");
    reveal_strlit("webp");
    reveal_strlit(".");
    assert("."@ + "svg"@ =~= ".svg"@);
    assert("."@ + "webp"@ =~= ".webp"@);
    let ext = extension_for(mime, ffmpeg_available, ffmpeg_webp_available);
    let name = file_stem + "."@ + ext;
    assert(name =~= file_stem + ("."@ + ext));
    let output = paths::joined_path(thumb_dir, name);
    assert(output.skip(output.len() - ("."@ + ext).len()) =~= "."@ + ext);
    assert(output.last() == ("."@ + ext).last());
    paths::lemma_with_extension_ends(output, "svg"@);
}

/// The families of MIME types do not overlap.
pub(crate) proof fn lemma_mime_families(mime: Seq<char>)
    ensures
        text::begins(mime, "audio/"@) ==> !text::begins(mime, "video/"@) && !text::begins(
            mime,
            "image/"@,
        ) && mime != "application/pdf"@ && mime != "image/svg+xml"@,
        text::begins(mime, "video/"@) ==> !text::begins(mime, "image/"@) && mime
            != "application/pdf"@ && mime != "image/svg+xml"@,
        mime == "application/pdf"@ ==> mime != "image/svg+xml"@,
        mime == "image/webp"@ ==> mime != "image/svg+xml"@,
{
    reveal_strlit("audio/");
    reveal_strlit("video/");
    reveal_strlit("image/");
    reveal_strlit("application/pdf");
    reveal_strlit("image/svg+xml");
    reveal_strlit("image/webp");
    if text::begins(mime, "audio/"@) {
        assert(mime.take(6)[0] == 'a' && mime.take(6)[1] == 'u');
        assert(mime[0] == 'a' && mime[1] == 'u');
    }
    if text::begins(mime, "video/"@) {
        assert(mime.take(6)[0] == 'v');
        assert(mime[0] == 'v');
    }
    if text::begins(mime, "image/"@) {
        assert(mime.take(6)[0] == 'i');
        assert(mime[0] == 'i');
    }
    assert("application/pdf"@[0] == 'a' && "application/pdf"@[1] == 'p');
    assert("image/svg+xml"@[0] == 'i' && "image/svg+xml"@.len() == 13);
    assert("image/webp"@.len() == 10);
}

/// A picture is too large to be decoded where it has more than a hundred million pixels; it
/// is scaled exactly where its format is known, its size can be read and it is not.
pub proof fn law_pictures_are_scaled_within_the_limit(
    mime: Seq<char>,
    dimensions: Option<(u32, u32)>,
    width: u32,
    height: u32,
)
    ensures
        exceeds_pixel_limit(width, height) <==> width * height > 100_000_000,
        admitted(mime, dimensions) is Ok <==> image_kind(mime) is Some && dimensions is Some
            && dimensions->Some_0.0 * dimensions->Some_0.1 <= 100_000_000,
        admitted(mime, dimensions) is Ok ==> admitted(mime, dimensions)->Ok_0 == image_kind(
            mime,
        )->Some_0,
        image_kind(mime) is Some && dimensions is Some && dimensions->Some_0.0
            * dimensions->Some_0.1 > 100_000_000 ==> admitted(mime, dimensions)->Err_0 is TooLarge,
        image_kind(mime) is Some && dimensions is None ==> admitted(mime, dimensions)->Err_0
            is Unreadable,
        image_kind(mime) is None ==> admitted(mime, dimensions)->Err_0 is Unsupported,
{
}

/// The formats that are decoded here are known by their types of content, and no other is.
pub proof fn law_formats_are_known_by_their_type(mime: Seq<char>)
    ensures
        image_kind("image/jpeg"@) == Some(ImageKind::Jpeg),
        image_kind("image/png"@) == Some(ImageKind::Png),
        image_kind("image/gif"@) == Some(ImageKind::Gif),
        image_kind("image/webp"@) == Some(ImageKind::WebP),
        image_kind("image/bmp"@) == Some(ImageKind::Bmp),
        image_kind("image/tiff"@) == Some(ImageKind::Tiff),
        image_kind(mime) is Some ==> mime.len() >= 9 && mime.take(6) == "image/"@,
{
    reveal_strlit("image/");
    reveal_strlit("image/jpeg");
    reveal_strlit("image/png");
    reveal_strlit("image/gif");
    reveal_strlit("image/webp");
    reveal_strlit("image/bmp");
    reveal_strlit("image/tiff");
    assert("image/jpeg"@.len() == 10 && "image/jpeg"@[0] == 'i' && "image/jpeg"@[1] == 'm'
        && "image/jpeg"@[2] == 'a' && "image/jpeg"@[3] == 'g' && "image/jpeg"@[4] == 'e'
        && "image/jpeg"@[5] == '/' && "image/jpeg"@[6] == 'j' && "image/jpeg"@[7] == 'p'
        && "image/jpeg"@[8] == 'e' && "image/jpeg"@[9] == 'g');
    assert("image/png"@.len() == 9 && "image/png"@[0] == 'i' && "image/png"@[1] == 'm'
        && "image/png"@[2] == 'a' && "image/png"@[3] == 'g' && "image/png"@[4] == 'e'
        && "image/png"@[5] == '/' && "image/png"@[6] == 'p' && "image/png"@[7] == 'n'
        && "image/png"@[8] == 'g');
    assert("image/gif"@.len() == 9 && "image/gif"@[0] == 'i' && "image/gif"@[1] == 'm'
        && "image/gif"@[2] == 'a' && "image/gif"@[3] == 'g' && "image/gif"@[4] == 'e'
        && "image/gif"@[5] == '/' && "image/gif"@[6] == 'g' && "image/gif"@[7] == 'i'
        && "image/gif"@[8] == 'f');
    assert("image/webp"@.len() == 10 && "image/webp"@[0] == 'i' && "image/webp"@[1] == 'm'
        && "image/webp"@[2] == 'a' && "image/webp"@[3] == 'g' && "image/webp"@[4] == 'e'
        && "image/webp"@[5] == '/' && "image/webp"@[6] == 'w' && "image/webp"@[7] == 'e'
        && "image/webp"@[8] == 'b' && "image/webp"@[9] == 'p');
    assert("image/bmp"@.len() == 9 && "image/bmp"@[0] == 'i' && "image/bmp"@[1] == 'm'
        && "image/bmp"@[2] == 'a' && "image/bmp"@[3] == 'g' && "image/bmp"@[4] == 'e'
        && "image/bmp"@[5] == '/' && "image/bmp"@[6] == 'b' && "image/bmp"@[7] == 'm'
        && "image/bmp"@[8] == 'p');
    assert("image/tiff"@.len() == 10 && "image/tiff"@[0] == 'i' && "image/tiff"@[1] == 'm'
        && "image/tiff"@[2] == 'a' && "image/tiff"@[3] == 'g' && "image/tiff"@[4] == 'e'
        && "image/tiff"@[5] == '/' && "image/tiff"@[6] == 't' && "image/tiff"@[7] == 'i'
        && "image/tiff"@[8] == 'f' && "image/tiff"@[9] == 'f');
    assert("image/jpeg"@.take(6) =~= "image/"@);
    assert("image/png"@.take(6) =~= "image/"@);
    assert("image/gif"@.take(6) =~= "image/"@);
    assert("image/webp"@.take(6) =~= "image/"@);
    assert("image/bmp"@.take(6) =~= "image/"@);
    assert("image/tiff"@.take(6) =~= "image/"@);
}

/// A page is rendered exactly where the first program that can render it made a picture that
/// is not too large and could be decoded and saved; it is the first of the three that could.
/// Where it is not, a placeholder stands in, if it can be written.
pub proof fn law_pages_are_rendered_by_the_first_that_can(trial: PdfTrial)
    ensures
        ({
            let some = trial.pdftoppm || trial.mutool || trial.qlmanage;
            let good = trial.dimensions is Some && trial.dimensions->Some_0.0
                * trial.dimensions->Some_0.1 <= 100_000_000 && trial.decoded && trial.saved;
            let r = trial.outcome();
            let rendered = r is Some && r->Some_0 is Rendered;
            &&& rendered <==> trial.prepared && some && good
            &&& rendered ==> (r->Some_0->renderer is Pdftoppm <==> trial.pdftoppm)
            &&& rendered ==> (r->Some_0->renderer is Mutool <==> !trial.pdftoppm && trial.mutool)
            &&& rendered ==> (r->Some_0->renderer is Qlmanage <==> !trial.pdftoppm
                && !trial.mutool)
            &&& r is Some && r->Some_0 is Placeholder <==> trial.prepared && !(some && good)
                && trial.placeholder
            &&& outcome_from(trial, PdfStep::Prepare) == r
        }),
{
    reveal_with_fuel(outcome_from, 10);
}

/// What a thumbnail is made of is told by the type: sound, and what cannot be shown, have a
/// placeholder; a document its first page; a video a frame where one can be taken; a picture
/// is scaled, and one of another format than WebP is first tried as a frame.
pub proof fn law_thumbnails_are_made_by_type(rest: Seq<char>, ffmpeg: bool, webp: bool)
    ensures
        strategy_for("audio/"@ + rest, ffmpeg, webp) == ThumbnailStrategy::Placeholder(
            PlaceholderKind::Audio,
        ),
        strategy_for("video/"@ + rest, ffmpeg, webp) == if ffmpeg && webp {
            ThumbnailStrategy::VideoFrame
        } else {
            ThumbnailStrategy::Placeholder(PlaceholderKind::Video)
        },
        strategy_for("application/pdf"@, ffmpeg, webp) is FirstPage,
        strategy_for("image/webp"@, ffmpeg, webp) is Scale,
        strategy_for("image/svg+xml"@, ffmpeg, webp) == ThumbnailStrategy::Placeholder(
            PlaceholderKind::Video,
        ),
        rest != "webp"@ && rest != "svg+xml"@ ==> strategy_for("image/"@ + rest, ffmpeg, webp) == if ffmpeg {
            ThumbnailStrategy::FrameOrScale
        } else {
            ThumbnailStrategy::Scale
        },
        strategy_for("text/"@ + rest, ffmpeg, webp) == ThumbnailStrategy::PlaceholderBeside(
            PlaceholderKind::Video,
        ),
        extension_for("audio/"@ + rest, ffmpeg, webp) == "svg"@,
        extension_for("video/"@ + rest, ffmpeg, webp) == if ffmpeg && webp {
            "webp"@
        } else {
            "svg"@
        },
        extension_for("application/pdf"@, ffmpeg, webp) == "webp"@,
        rest != "svg+xml"@ ==> extension_for("image/"@ + rest, ffmpeg, webp) == "webp"@,
        extension_for("image/svg+xml"@, ffmpeg, webp) == "svg"@,
{
    reveal_strlit("audio/");
    reveal_strlit("video/");
    reveal_strlit("image/");
    reveal_strlit("application/pdf");
    reveal_strlit("image/webp");
    reveal_strlit("image/svg+xml");
    reveal_strlit("text/");
    reveal_strlit("webp");
    reveal_strlit("svg+xml");
    assert("audio/"@.len() == 6 && "audio/"@[0] == 'a' && "audio/"@[1] == 'u'
        && "audio/"@[2] == 'd' && "audio/"@[3] == 'i' && "audio/"@[4] == 'o'
        && "audio/"@[5] == '/');
    assert("video/"@.len() == 6 && "video/"@[0] == 'v' && "video/"@[1] == 'i'
        && "video/"@[2] == 'd' && "video/"@[3] == 'e' && "video/"@[4] == 'o'
        && "video/"@[5] == '/');
    assert("image/"@.len() == 6 && "image/"@[0] == 'i' && "image/"@[1] == 'm'
        && "image/"@[2] == 'a' && "image/"@[3] == 'g' && "image/"@[4] == 'e'
        && "image/"@[5] == '/');
    assert("application/pdf"@.len() == 15 && "application/pdf"@[0] == 'a'
        && "application/pdf"@[1] == 'p' && "application/pdf"@[2] == 'p'
        && "application/pdf"@[3] == 'l' && "application/pdf"@[4] == 'i'
        && "application/pdf"@[5] == 'c' && "application/pdf"@[6] == 'a'
        && "application/pdf"@[7] == 't' && "application/pdf"@[8] == 'i'
        && "application/pdf"@[9] == 'o' && "application/pdf"@[10] == 'n'
        && "application/pdf"@[11] == '/' && "application/pdf"@[12] == 'p'
        && "application/pdf"@[13] == 'd' && "application/pdf"@[14] == 'f');
    assert("image/webp"@.len() == 10 && "image/webp"@[0] == 'i' && "image/webp"@[1] == 'm'
        && "image/webp"@[2] == 'a' && "image/webp"@[3] == 'g' && "image/webp"@[4] == 'e'
        && "image/webp"@[5] == '/' && "image/webp"@[6] == 'w' && "image/webp"@[7] == 'e'
        && "image/webp"@[8] == 'b' && "image/webp"@[9] == 'p');
    assert("image/svg+xml"@.len() == 13 && "image/svg+xml"@[0] == 'i'
        && "image/svg+xml"@[1] == 'm' && "image/svg+xml"@[2] == 'a'
        && "image/svg+xml"@[3] == 'g' && "image/svg+xml"@[4] == 'e'
        && "image/svg+xml"@[5] == '/' && "image/svg+xml"@[6] == 's'
        && "image/svg+xml"@[7] == 'v' && "image/svg+xml"@[8] == 'g'
        && "image/svg+xml"@[9] == '+' && "image/svg+xml"@[10] == 'x'
        && "image/svg+xml"@[11] == 'm' && "image/svg+xml"@[12] == 'l');
    assert("text/"@.len() == 5 && "text/"@[0] == 't' && "text/"@[1] == 'e' && "text/"@[2] == 'x'
        && "text/"@[3] == 't' && "text/"@[4] == '/');
    assert("webp"@.len() == 4 && "webp"@[0] == 'w' && "webp"@[1] == 'e' && "webp"@[2] == 'b'
        && "webp"@[3] == 'p');
    assert("svg+xml"@.len() == 7 && "svg+xml"@[0] == 's' && "svg+xml"@[1] == 'v'
        && "svg+xml"@[2] == 'g' && "svg+xml"@[3] == '+' && "svg+xml"@[4] == 'x'
        && "svg+xml"@[5] == 'm' && "svg+xml"@[6] == 'l');
    let a = "audio/"@ + rest;
    let v = "video/"@ + rest;
    let i = "image/"@ + rest;
    let t = "text/"@ + rest;
    assert(a.take(6) =~= "audio/"@);
    assert(v.take(6) =~= "video/"@);
    assert(i.take(6) =~= "image/"@);
    assert(a[0] == 'a' && a[1] == 'u');
    assert(v[0] == 'v' && i[0] == 'i' && t[0] == 't');
    assert("audio/"@[0] == 'a' && "video/"@[0] == 'v' && "image/"@[0] == 'i');
    assert(v.take(6)[0] == 'v' && i.take(6)[0] == 'i');
    let p = "application/pdf"@;
    assert(p.take(6)[1] == 'p' && p.take(6)[0] == 'a');
    let w = "image/webp"@;
    assert(w.take(6)[0] == 'i');
    let s = "image/svg+xml"@;
    assert(s.take(6)[0] == 'i');
    if i == w {
        assert(i.skip(6) =~= rest);
        assert(w.skip(6) =~= "webp"@);
    }
    if i == s {
        assert(i.skip(6) =~= rest);
        assert(s.skip(6) =~= "svg+xml"@);
    }
    if t.len() >= 6 {
        assert(t.take(6)[0] == 't');
    }
}

/// Each program is told to render the first page alone, of the given file, into the given
/// picture or directory, no larger than the given side.
pub proof fn law_renderers_are_told_the_first_page(
    input: Seq<char>,
    dir: Seq<char>,
    stem: Seq<char>,
    max_dim: u32,
)
    requires
        stem.len() > 0,
        !stem.contains('/'),
    ensures
        ({
            let png = paths::joined_path(dir, stem + "."@ + "png"@);
            let a = pdftoppm_args(input, png, max_dim);
            let b = mutool_args(input, png, max_dim);
            let c = qlmanage_args(input, dir, max_dim);
            &&& a.len() == 10 && b.len() == 10 && c.len() == 6
            &&& a[0] == "-f"@ && a[1] == "1"@ && a[2] == "-l"@ && a[3] == "1"@
            &&& a[4] == "-singlefile"@ && a[5] == "-png"@ && a[6] == "-scale-to"@
            &&& a[8] == input && a[9] == paths::joined_path(dir, stem)
            &&& b[0] == "draw"@ && b[9] == "1"@ && b[6] == "-o"@ && b[7] == png && b[8] == input
            &&& b[2] == "-w"@ && b[4] == "-h"@ && b[3] == b[5]
            &&& c[0] == "-t"@ && c[1] == "-s"@ && c[3] == "-o"@ && c[4] == dir && c[5] == input
            &&& a[7] == b[3] && a[7] == c[2]
            &&& numbers::parsed_i64(a[7]) == Some(max_dim as i64)
        }),
{
    numbers::law_decimal_round_trip(max_dim as i64);
    reveal_strlit("");
    reveal_strlit("png");
    assert("png"@.len() == 3 && "png"@[0] == 'p' && "png"@[1] == 'n' && "png"@[2] == 'g');
    assert(!"png"@.contains('/') && !"png"@.contains('.'));
    paths::law_extensions_can_be_dropped(dir, stem, "png"@);
    assert(""@ =~= Seq::<char>::empty());
}

/// What the last program makes of a file is the file's name with another extension behind it,
/// in the directory that it was given.
pub proof fn law_previews_are_named_after_their_file(
    dir: Seq<char>,
    stem: Seq<char>,
    ext: Seq<char>,
    temp: Seq<char>,
)
    requires
        stem.len() > 0,
        !stem.contains('/'),
        ext.len() > 0,
        !ext.contains('/'),
        !ext.contains('.'),
    ensures
        qlmanage_output(paths::joined_path(dir, stem + "."@ + ext), temp) == Some(
            paths::joined_path(temp, stem + "."@ + ext + ".png"@),
        ),
{
    paths::law_paths_keep_their_parts(dir, stem, ext, ext);
}

/// The programs are named as they are called, and the installed ones are found in the order
/// in which they are tried.
pub proof fn law_installed_programs_are_found(pdftoppm: bool, mutool: bool, qlmanage: bool)
    ensures
        PdfRenderer::Pdftoppm.binary() == "pdftoppm"@,
        PdfRenderer::Mutool.binary() == "mutool"@,
        PdfRenderer::Qlmanage.binary() == "qlmanage"@,
        installed(true, true, true) == seq![
            PdfRenderer::Pdftoppm,
            PdfRenderer::Mutool,
            PdfRenderer::Qlmanage,
        ],
        installed(pdftoppm, mutool, qlmanage) == (if pdftoppm {
            seq![PdfRenderer::Pdftoppm]
        } else {
            Seq::empty()
        }) + (if mutool {
            seq![PdfRenderer::Mutool]
        } else {
            Seq::empty()
        }) + (if qlmanage {
            seq![PdfRenderer::Qlmanage]
        } else {
            Seq::empty()
        }),
{
    lemma_installed(pdftoppm, mutool, qlmanage);
    lemma_installed(true, true, true);
    assert(installed(true, true, true) =~= seq![
        PdfRenderer::Pdftoppm,
        PdfRenderer::Mutool,
        PdfRenderer::Qlmanage,
    ]);
}

proof fn lemma_installed(pdftoppm: bool, mutool: bool, qlmanage: bool)
    ensures
        installed(pdftoppm, mutool, qlmanage) =~= (if pdftoppm {
            seq![PdfRenderer::Pdftoppm]
        } else {
            Seq::empty()
        }) + (if mutool {
            seq![PdfRenderer::Mutool]
        } else {
            Seq::empty()
        }) + (if qlmanage {
            seq![PdfRenderer::Qlmanage]
        } else {
            Seq::empty()
        }),
{
    reveal_with_fuel(Seq::filter, 4);
    let a = (PdfRenderer::Pdftoppm, pdftoppm);
    let b = (PdfRenderer::Mutool, mutool);
    let c = (PdfRenderer::Qlmanage, qlmanage);
    assert(seq![a, b, c].drop_last() =~= seq![a, b]);
    assert(seq![a, b].drop_last() =~= seq![a]);
    assert(seq![a].drop_last() =~= Seq::empty());
    assert(seq![a, b, c].last() == c && seq![a, b].last() == b && seq![a].last() == a);
}

/// A placeholder that stands beside a thumbnail has its name, as a drawing.
pub proof fn law_placeholders_stand_beside(dir: Seq<char>, stem: Seq<char>, ext: Seq<char>)
    requires
        stem.len() > 0,
        !stem.contains('/'),
        ext.len() > 0,
        !ext.contains('/'),
        !ext.contains('.'),
    ensures
        placeholder_path(paths::joined_path(dir, stem + "."@ + ext)) == paths::joined_path(
            dir,
            stem + "."@ + "svg"@,
        ),
{
    reveal_strlit("svg");
    assert("svg"@.len() == 3 && "svg"@[0] == 's' && "svg"@[1] == 'v' && "svg"@[2] == 'g');
    assert(!"svg"@.contains('/'));
    paths::law_paths_keep_their_parts(dir, stem, ext, "svg"@);
}

/// A picture that already fits is kept as it is, and any other is scaled.
pub proof fn law_pictures_that_fit_are_kept(image: image::DynamicImage, width: u32, height: u32)
    ensures
        pixels::image_extent(image).0 <= width && pixels::image_extent(image).1 <= height ==> fitted(
            image,
            width,
            height,
        ) == image,
        pixels::image_extent(image).0 > width || pixels::image_extent(image).1 > height ==> fitted(
            image,
            width,
            height,
        ) == pixels::resized_image(image, width, height),
{
}

} // verus!
