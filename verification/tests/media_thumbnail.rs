use image::{DynamicImage, GenericImageView, Rgba, RgbaImage};
use rustchan::media::exif::{
    apply_exif_orientation, correct_orientation, first_orientation, read_exif_orientation,
};
use rustchan::media::pixels::{can_average, can_scale, can_shrink, ImageKind};
use rustchan::media::thumbnail::{
    admit_image, build_mutool_arguments, build_pdftoppm_arguments, build_qlmanage_arguments,
    decode_for_thumbnail, detect_pdf_renderers, first_thumbnail_step, fit_image,
    generate_thumbnail, mime_to_image_format, next_pdf_step, next_thumbnail_step,
    over_pixel_limit, page_thumbnail,
    pdf_first_page_thumbnail, pdf_placeholder_output_path, placeholder_svg, qlmanage_output_path,
    thumbnail_extension, thumbnail_output_path, thumbnail_strategy, try_fit_image,
    try_page_thumbnail, PdfEvent, PdfRenderer, PdfStep, PdfThumbnailOutcome, PdfTrial,
    PlaceholderKind, ScaleError, ThumbnailSource, ThumbnailStep, ThumbnailStrategy, ThumbnailTrial,
};

#[test]
fn thumbnail_ext_is_webp_for_images_no_ffmpeg() {
    // Images use image-crate fallback, so webp even without ffmpeg
    assert_eq!(thumbnail_extension("image/jpeg", false, false), "webp");
    assert_eq!(thumbnail_extension("image/png", false, false), "webp");
    assert_eq!(thumbnail_extension("image/webp", false, false), "webp");
}

#[test]
fn thumbnail_ext_is_svg_for_video_without_ffmpeg() {
    assert_eq!(thumbnail_extension("video/webm", false, false), "svg");
    assert_eq!(thumbnail_extension("video/mp4", false, false), "svg");
}

#[test]
fn thumbnail_ext_is_svg_for_video_with_ffmpeg_but_no_webp() {
    // ffmpeg available but libwebp missing — placeholder path must be .svg
    assert_eq!(thumbnail_extension("video/webm", true, false), "svg");
    assert_eq!(thumbnail_extension("video/mp4", true, false), "svg");
}

#[test]
fn thumbnail_ext_is_webp_for_video_with_ffmpeg_and_webp() {
    assert_eq!(thumbnail_extension("video/webm", true, true), "webp");
    assert_eq!(thumbnail_extension("video/mp4", true, true), "webp");
}

#[test]
fn thumbnail_ext_is_svg_for_audio() {
    assert_eq!(thumbnail_extension("audio/mpeg", true, true), "svg");
    assert_eq!(thumbnail_extension("audio/mpeg", false, false), "svg");
}

#[test]
fn thumbnail_ext_is_svg_for_svg_source() {
    assert_eq!(thumbnail_extension("image/svg+xml", true, true), "svg");
    assert_eq!(thumbnail_extension("image/svg+xml", false, false), "svg");
}

#[test]
fn pdf_thumbnail_prefers_svg_sibling_for_placeholder_paths() {
    let output = "/tmp/example.webp";
    assert_eq!(pdf_placeholder_output_path(output), "/tmp/example.svg");

    let svg = "/tmp/example.svg";
    assert_eq!(pdf_placeholder_output_path(svg), svg);
}

#[test]
fn write_pdf_placeholder_outputs_svg() {
    let svg = placeholder_svg(PlaceholderKind::Pdf);
    assert!(svg.contains("PDF"));
    assert!(svg.contains("<svg"));
}

#[test]
fn mutool_command_caps_render_dimensions() {
    let args = build_mutool_arguments("/tmp/input.pdf", "/tmp/page1.png", 250);
    assert_eq!(
        args,
        vec![
            "draw",
            "-q",
            "-w",
            "250",
            "-h",
            "250",
            "-o",
            "/tmp/page1.png",
            "/tmp/input.pdf",
            "1",
        ]
    );
}

#[test]
fn other_renderers_are_called_for_one_page() {
    let args = build_pdftoppm_arguments("/tmp/input.pdf", "/tmp/page1.png", 250);
    assert_eq!(args.last().map(String::as_str), Some("/tmp/page1"));
    assert!(args.iter().any(|a| a == "250"));
    assert!(args.iter().any(|a| a == "/tmp/input.pdf"));
    assert_eq!(
        build_qlmanage_arguments("/tmp/input.pdf", "/tmp/dir", 250),
        vec!["-t", "-s", "250", "-o", "/tmp/dir", "/tmp/input.pdf"]
    );
    assert_eq!(
        qlmanage_output_path("/tmp/input.pdf", "/tmp/dir").as_deref(),
        Some("/tmp/dir/input.pdf.png")
    );
    assert_eq!(qlmanage_output_path("/", "/tmp/dir"), None);
}

#[test]
fn placeholders_differ_by_kind() {
    let video = placeholder_svg(PlaceholderKind::Video);
    let audio = placeholder_svg(PlaceholderKind::Audio);
    assert!(video.contains("<svg") && audio.contains("<svg"));
    assert_ne!(video, audio);
}

#[test]
fn renderers_are_listed_in_the_order_of_trial() {
    assert_eq!(
        detect_pdf_renderers(true, true, true),
        vec![PdfRenderer::Pdftoppm, PdfRenderer::Mutool, PdfRenderer::Qlmanage]
    );
    assert_eq!(detect_pdf_renderers(false, true, false), vec![PdfRenderer::Mutool]);
    assert_eq!(PdfRenderer::Pdftoppm.binary_name(), "pdftoppm");
    assert_eq!(PdfRenderer::Mutool.binary_name(), "mutool");
    assert_eq!(PdfRenderer::Qlmanage.binary_name(), "qlmanage");
    assert_eq!(PdfRenderer::Pdftoppm.next(), Some(PdfRenderer::Mutool));
    assert_eq!(PdfRenderer::Qlmanage.next(), None);
}

fn pdf() -> PdfTrial {
    PdfTrial {
        prepared: true,
        pdftoppm: false,
        mutool: true,
        qlmanage: true,
        dimensions: Some((250, 180)),
        decoded: true,
        saved: true,
        placeholder: true,
    }
}

#[test]
fn the_first_renderer_that_works_is_used() {
    assert_eq!(
        pdf_first_page_thumbnail(&pdf()),
        Some(PdfThumbnailOutcome::Rendered { renderer: PdfRenderer::Mutool })
    );
}

#[test]
fn unusable_pages_become_placeholders() {
    let placeholder = Some(PdfThumbnailOutcome::Placeholder);
    let mut none = pdf();
    none.mutool = false;
    none.qlmanage = false;
    assert_eq!(pdf_first_page_thumbnail(&none), placeholder);
    let mut large = pdf();
    large.dimensions = Some((10_001, 10_000));
    assert_eq!(pdf_first_page_thumbnail(&large), placeholder);
    let mut unread = pdf();
    unread.dimensions = None;
    assert_eq!(pdf_first_page_thumbnail(&unread), placeholder);
    let mut undecoded = pdf();
    undecoded.decoded = false;
    assert_eq!(pdf_first_page_thumbnail(&undecoded), placeholder);
    let mut unsaved = pdf();
    unsaved.saved = false;
    assert_eq!(pdf_first_page_thumbnail(&unsaved), placeholder);
    unsaved.placeholder = false;
    assert_eq!(pdf_first_page_thumbnail(&unsaved), None);
    let mut unprepared = pdf();
    unprepared.prepared = false;
    assert_eq!(pdf_first_page_thumbnail(&unprepared), None);
}

#[test]
fn steps_of_a_document_end() {
    let mut step = PdfStep::Prepare;
    let mut taken = 0;
    while !matches!(step, PdfStep::Finished(_) | PdfStep::Failed) {
        step = next_pdf_step(step, PdfEvent::Failed);
        taken += 1;
        assert!(taken < 10);
    }
    assert_eq!(step, PdfStep::Failed);
    assert_eq!(
        next_pdf_step(PdfStep::Save(PdfRenderer::Mutool), PdfEvent::Failed),
        PdfStep::Discard
    );
    assert_eq!(
        next_pdf_step(PdfStep::Inspect(PdfRenderer::Mutool), PdfEvent::Dimensions(10_000, 10_000)),
        PdfStep::Decode(PdfRenderer::Mutool)
    );
}

#[test]
fn strategies_follow_the_mime_type() {
    assert_eq!(
        thumbnail_strategy("image/svg+xml", true, true),
        ThumbnailStrategy::Placeholder(PlaceholderKind::Video)
    );
    assert_eq!(
        thumbnail_strategy("audio/ogg", true, true),
        ThumbnailStrategy::Placeholder(PlaceholderKind::Audio)
    );
    assert_eq!(thumbnail_strategy("application/pdf", false, false), ThumbnailStrategy::FirstPage);
    assert_eq!(thumbnail_strategy("video/mp4", true, true), ThumbnailStrategy::VideoFrame);
    assert_eq!(thumbnail_strategy("image/webp", true, true), ThumbnailStrategy::Scale);
    assert_eq!(thumbnail_strategy("image/png", true, false), ThumbnailStrategy::FrameOrScale);
    assert_eq!(thumbnail_strategy("image/png", false, false), ThumbnailStrategy::Scale);
}

#[test]
fn a_video_without_a_frame_gets_a_placeholder_beside_its_output() {
    let trial = ThumbnailTrial { frame: false, scaled: false, placeholder: true, first_page: None };
    assert_eq!(
        generate_thumbnail("video/mp4", "/t/a.webp", true, true, trial).as_deref(),
        Some("/t/a.svg")
    );
    let lost = ThumbnailTrial { frame: false, scaled: false, placeholder: false, first_page: None };
    assert_eq!(generate_thumbnail("video/mp4", "/t/a.webp", true, true, lost), None);
    let frame = ThumbnailTrial { frame: true, scaled: false, placeholder: true, first_page: None };
    assert_eq!(
        generate_thumbnail("video/mp4", "/t/a.webp", true, true, frame).as_deref(),
        Some("/t/a.webp")
    );
    assert_eq!(
        thumbnail_output_path("/t", "a", "video/mp4", false, false),
        "/t/a.svg"
    );
}

#[test]
fn images_are_admitted_by_format_and_size() {
    assert_eq!(admit_image("image/png", Some((10_000, 10_000))), Ok(ImageKind::Png));
    assert_eq!(admit_image("image/heic", Some((1, 1))), Err(ScaleError::Unsupported));
    assert_eq!(admit_image("image/png", None), Err(ScaleError::Unreadable));
    assert_eq!(admit_image("image/png", Some((10_001, 10_000))), Err(ScaleError::TooLarge));
    assert_eq!(mime_to_image_format("image/tiff"), Some(ImageKind::Tiff));
    assert!(over_pixel_limit(u32::MAX, u32::MAX));
    assert!(!over_pixel_limit(10_000, 10_000));
}

/// An image whose pixels tell their column and their row.
fn numbered(width: u32, height: u32) -> DynamicImage {
    let mut buffer = RgbaImage::new(width, height);
    for y in 0..height {
        for x in 0..width {
            buffer.put_pixel(x, y, Rgba([x as u8, y as u8, 7, 255]));
        }
    }
    DynamicImage::ImageRgba8(buffer)
}

fn encoded(image: &DynamicImage, format: image::ImageFormat) -> Vec<u8> {
    let mut bytes = std::io::Cursor::new(Vec::new());
    image.write_to(&mut bytes, format).expect("encoded");
    bytes.into_inner()
}

#[test]
fn decoding_gives_back_the_pixels() {
    let image = numbered(3, 2);
    for (kind, format) in [
        (ImageKind::Png, image::ImageFormat::Png),
        (ImageKind::Tiff, image::ImageFormat::Tiff),
        (ImageKind::WebP, image::ImageFormat::WebP),
    ] {
        let (decoded, extent) =
            decode_for_thumbnail(&encoded(&image, format), kind).expect("decoded");
        assert_eq!(extent, (3, 2));
        assert_eq!(decoded.get_pixel(2, 1), Rgba([2, 1, 7, 255]));
    }
    assert_eq!(
        decode_for_thumbnail(&[1, 2, 3], ImageKind::Png).err(),
        Some(ScaleError::Undecodable)
    );
    let png = encoded(&image, image::ImageFormat::Png);
    assert_eq!(decode_for_thumbnail(&png, ImageKind::Jpeg).err(), Some(ScaleError::Undecodable));
    assert_eq!(decode_for_thumbnail(&png, ImageKind::Gif).err(), Some(ScaleError::Undecodable));
    assert_eq!(decode_for_thumbnail(&png, ImageKind::Bmp).err(), Some(ScaleError::Undecodable));
}

#[test]
fn images_that_fit_are_not_scaled() {
    let kept = fit_image(numbered(3, 2), 3, 2);
    assert_eq!(kept.dimensions(), (3, 2));
    assert_eq!(kept.get_pixel(1, 1), Rgba([1, 1, 7, 255]));
    let scaled = fit_image(numbered(200, 100), 50, 50);
    assert_eq!(scaled.dimensions(), (50, 25));
    assert_eq!(try_fit_image(numbered(200, 100), 50, 50).map(|i| i.dimensions()), Some((50, 25)));
    let small = try_fit_image(numbered(2, 1), u32::MAX, u32::MAX);
    assert_eq!(small.map(|i| i.dimensions()), Some((2, 1)));
    assert!(try_fit_image(numbered(2, 1), 1, u32::MAX).is_none());
    assert!(!can_scale((2, 1), u32::MAX, u32::MAX));
    assert!(can_scale((2, 1), 0, 0));
}

#[test]
fn pages_are_scaled_down() {
    let page = numbered(200, 100);
    assert_eq!(page_thumbnail(&page, 50).dimensions(), (50, 25));
    assert_eq!(try_page_thumbnail(&page, 50).map(|i| i.dimensions()), Some((50, 25)));
    assert!(try_page_thumbnail(&page, u32::MAX).is_none());
    assert_eq!(try_page_thumbnail(&page, 0).map(|i| i.dimensions()), Some((1, 1)));
}

#[test]
fn blocks_that_overflow_their_sum_are_not_averaged() {
    assert!(!can_average((65_536, 65_536), 4, 4, 1, 1));
    assert!(!can_average((65_536, 65_536), 12, 3, 1, 1));
    assert!(can_average((65_535, 65_535), 12, 3, 1, 1));
    assert!(can_average((4_100, 4_100), 4, 4, 1, 1));
    assert!(!can_average((4_100, 4_101), 4, 4, 1, 1));
    assert!(can_average((10_000, 10_000), 4, 4, 4, 4));
    assert!(!can_average((5_000, 6_800), 4, 4, 2, 2));
    assert!(can_average((256, 256), 8, 4, 1, 1));
    assert!(!can_average((256, 257), 8, 4, 1, 1));
    assert!(can_average((10_000, 10_000), 8, 4, 250, 250));
    assert!(can_average((1, 100_000_000), 3, 3, 250, 250));
    let deep = DynamicImage::new_rgb16(256, 257);
    assert!(!can_shrink(&deep, 1, 1));
    assert!(can_shrink(&deep, 10, 10));
    assert!(try_page_thumbnail(&deep, 1).is_none());
    assert!(can_shrink(&DynamicImage::new_rgb8(256, 257), 1, 1));
}

#[test]
fn white_stays_white_in_the_largest_block() {
    let white = DynamicImage::ImageLuma8(image::GrayImage::from_pixel(4_096, 4_096, image::Luma([255])));
    let thumb = try_page_thumbnail(&white, 1).expect("averaged");
    assert_eq!(thumb.dimensions(), (1, 1));
    assert_eq!(thumb.get_pixel(0, 0), Rgba([255, 255, 255, 255]));
}

/// Where each orientation takes the pixel of column 2 and row 0 of a 3 by 2 image.
#[test]
fn orientations_move_the_top_right_corner() {
    for (orientation, extent, place) in [
        (1, (3, 2), (2, 0)),
        (2, (3, 2), (0, 0)),
        (3, (3, 2), (0, 1)),
        (4, (3, 2), (2, 1)),
        (5, (2, 3), (0, 2)),
        (6, (2, 3), (1, 2)),
        (7, (2, 3), (1, 0)),
        (8, (2, 3), (0, 0)),
        (9, (3, 2), (2, 0)),
    ] {
        let turned = apply_exif_orientation(numbered(3, 2), orientation);
        assert_eq!(turned.dimensions(), extent, "orientation {orientation}");
        assert_eq!(
            turned.get_pixel(place.0, place.1),
            Rgba([2, 0, 7, 255]),
            "orientation {orientation}"
        );
        let checked = correct_orientation(numbered(3, 2), orientation).expect("turned");
        assert_eq!(checked, turned);
    }
}

#[test]
fn orientations_can_be_undone() {
    for (orientation, back) in [(2, 2), (3, 3), (4, 4), (5, 5), (6, 8), (7, 7), (8, 6)] {
        let turned = apply_exif_orientation(numbered(3, 2), orientation);
        assert_eq!(apply_exif_orientation(turned, back), numbered(3, 2));
    }
}

/// A JPEG file with nothing but an orientation.
fn oriented_jpeg(orientation: u8) -> Vec<u8> {
    let mut bytes = vec![0xff, 0xd8, 0xff, 0xe1, 0x00, 0x22];
    bytes.extend_from_slice(b"Exif\0\0");
    bytes.extend_from_slice(b"II\x2a\x00\x08\x00\x00\x00");
    bytes.extend_from_slice(&[0x01, 0x00, 0x12, 0x01, 0x03, 0x00, 0x01, 0x00, 0x00, 0x00]);
    bytes.extend_from_slice(&[orientation, 0x00, 0x00, 0x00, 0x00, 0x00, 0x00, 0x00]);
    bytes.extend_from_slice(&[0xff, 0xda, 0x00, 0x02, 0xff, 0xd9]);
    bytes
}

#[test]
fn orientations_are_read_from_the_file() {
    for orientation in 1..=8u8 {
        assert_eq!(
            read_exif_orientation(&oriented_jpeg(orientation)),
            u32::from(orientation)
        );
    }
    assert_eq!(read_exif_orientation(b"not an image"), 1);
    assert_eq!(first_orientation(None), 1);
    assert_eq!(first_orientation(Some(Vec::new())), 1);
    assert_eq!(first_orientation(Some(vec![6, 1])), 6);
}

#[test]
fn an_image_that_cannot_be_decoded_gets_a_placeholder_beside_its_output() {
    let trial = ThumbnailTrial { frame: false, scaled: false, placeholder: true, first_page: None };
    let lost = ThumbnailTrial { frame: false, scaled: false, placeholder: false, first_page: None };
    for (mime, ffmpeg) in [("image/png", false), ("image/png", true), ("image/webp", true)] {
        assert_eq!(
            generate_thumbnail(mime, "/t/a.webp", ffmpeg, ffmpeg, trial).as_deref(),
            Some("/t/a.svg")
        );
        assert_eq!(generate_thumbnail(mime, "/t/a.webp", ffmpeg, ffmpeg, lost), None);
    }
}

#[test]
fn a_file_of_unknown_type_gets_a_placeholder_beside_its_output() {
    let output = thumbnail_output_path("/t", "a", "application/zip", true, true);
    assert_eq!(output, "/t/a.webp");
    let trial = ThumbnailTrial { frame: true, scaled: true, placeholder: true, first_page: None };
    assert_eq!(
        generate_thumbnail("application/zip", &output, true, true, trial).as_deref(),
        Some("/t/a.svg")
    );
    let lost = ThumbnailTrial { frame: true, scaled: true, placeholder: false, first_page: None };
    assert_eq!(generate_thumbnail("application/zip", &output, true, true, lost), None);
}

#[test]
fn long_sides_are_scaled_only_to_what_floats_can_place() {
    assert!(!can_scale((16_777_213, 1), 16_777_212, 1));
    assert!(can_scale((16_777_213, 1), 0x10_0000, 1));
    assert!(!can_scale((16_777_213, 1), 0x10_0001, 1));
    assert!(can_scale((u32::MAX, 1), 250, 1));
    let long = DynamicImage::new_luma8(0x10_0003, 1);
    let thumb = try_fit_image(long, 0x10_0000, 1).expect("scaled");
    assert_eq!(thumb.dimensions(), (0x10_0000, 1));
    assert!(try_fit_image(DynamicImage::new_luma8(16_777_213, 1), 16_777_212, 1).is_none());
}

#[test]
fn a_thumbnail_falls_back_step_by_step() {
    let strategy = thumbnail_strategy("image/png", true, true);
    let first = first_thumbnail_step(strategy);
    assert_eq!(first, ThumbnailStep::Frame);
    assert_eq!(
        next_thumbnail_step(strategy, first, true),
        ThumbnailStep::Finished(ThumbnailSource::Picture)
    );
    let second = next_thumbnail_step(strategy, first, false);
    assert_eq!(second, ThumbnailStep::Scale);
    let third = next_thumbnail_step(strategy, second, false);
    assert_eq!(third, ThumbnailStep::PlaceholderBeside(PlaceholderKind::Video));
    assert_eq!(
        next_thumbnail_step(strategy, third, true),
        ThumbnailStep::Finished(ThumbnailSource::PlaceholderBeside)
    );
    assert_eq!(next_thumbnail_step(strategy, third, false), ThumbnailStep::Failed);

    let video = thumbnail_strategy("video/mp4", true, true);
    assert_eq!(
        next_thumbnail_step(video, first_thumbnail_step(video), false),
        ThumbnailStep::PlaceholderBeside(PlaceholderKind::Video)
    );
    let pdf = thumbnail_strategy("application/pdf", true, true);
    assert_eq!(next_thumbnail_step(pdf, first_thumbnail_step(pdf), false), ThumbnailStep::Failed);
    let audio = thumbnail_strategy("audio/mpeg", true, true);
    assert_eq!(
        next_thumbnail_step(audio, first_thumbnail_step(audio), true),
        ThumbnailStep::Finished(ThumbnailSource::Placeholder)
    );
}
