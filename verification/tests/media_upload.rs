use rustchan::media::convert::{
    conversion_action, convert_file, convert_png_if_smaller, convert_to_webp,
    ext_for_original_mime, ext_to_static_mime, output_path, planned_action, sibling, temp_sibling,
    ConversionAction, ConversionError, Encoding, Placement,
};
use rustchan::media::process::{
    kill_arguments, next_child_step, renderer_succeeded, ChildStep, ProcessGroupGuard,
    PDF_RENDERER_TIMEOUT_NANOS,
};
use rustchan::media::thumbnail::{PdfRenderer, PdfThumbnailOutcome, ThumbnailTrial};
use rustchan::media::{MediaProcessor, UploadError, UploadTrial};

#[test]
fn jpeg_maps_to_webp() {
    assert_eq!(conversion_action("image/jpeg"), ConversionAction::ToWebp);
}

#[test]
fn gif_maps_to_webp() {
    assert_eq!(conversion_action("image/gif"), ConversionAction::ToWebp);
}

#[test]
fn png_maps_to_try_webp() {
    assert_eq!(
        conversion_action("image/png"),
        ConversionAction::ToWebpIfSmaller
    );
}

#[test]
fn webp_is_keep_as_is() {
    assert_eq!(conversion_action("image/webp"), ConversionAction::KeepAsIs);
}

#[test]
fn heic_maps_to_webp() {
    assert_eq!(conversion_action("image/heic"), ConversionAction::ToWebp);
}

#[test]
fn heif_maps_to_webp() {
    assert_eq!(conversion_action("image/heif"), ConversionAction::ToWebp);
}

#[test]
fn webm_is_keep_as_is() {
    assert_eq!(conversion_action("video/webm"), ConversionAction::KeepAsIs);
}

#[test]
fn bmp_maps_to_webp() {
    assert_eq!(conversion_action("image/bmp"), ConversionAction::ToWebp);
}

#[test]
fn tiff_maps_to_webp() {
    assert_eq!(conversion_action("image/tiff"), ConversionAction::ToWebp);
}

#[test]
fn audio_is_keep_as_is() {
    for mime in &["audio/mpeg", "audio/ogg", "audio/flac", "audio/wav"] {
        assert_eq!(
            conversion_action(mime),
            ConversionAction::KeepAsIs,
            "expected KeepAsIs for {mime}"
        );
    }
}

#[test]
fn unknown_mime_is_keep_as_is() {
    assert_eq!(
        conversion_action("application/octet-stream"),
        ConversionAction::KeepAsIs
    );
}

/// Constructing `MediaProcessor` with ffmpeg=false should not panic.
#[test]
fn new_with_ffmpeg_false_does_not_panic() {
    let p = MediaProcessor::new_with_ffmpeg(false);
    assert!(!p.ffmpeg_available);
}

/// Constructing `MediaProcessor` with ffmpeg=true should not panic.
#[test]
fn new_with_ffmpeg_true_does_not_panic() {
    let p = MediaProcessor::new_with_ffmpeg(true);
    assert!(p.ffmpeg_available);
}

fn written(original_size: u64, webp_size: u64) -> Encoding {
    Encoding::Written {
        original_size: Some(original_size),
        webp_size: Some(webp_size),
    }
}

#[test]
fn nothing_is_converted_without_both_encoders() {
    for mime in ["image/jpeg", "image/png", "image/gif"] {
        assert_eq!(planned_action(mime, false, false), ConversionAction::KeepAsIs);
        assert_eq!(planned_action(mime, true, false), ConversionAction::KeepAsIs);
        assert_eq!(planned_action(mime, false, true), ConversionAction::KeepAsIs);
    }
    assert_eq!(planned_action("image/jpeg", true, true), ConversionAction::ToWebp);
}

#[test]
fn a_jpeg_becomes_a_webp_file() {
    let done = convert_file(
        "/tmp/in.jpg", "image/jpeg", "jpg", "/up/b", "stem", true, true,
        written(100, 120), true, Some(120),
    )
    .expect("converted");
    assert_eq!(done.final_path, "/up/b/stem.webp");
    assert_eq!(done.final_mime, "image/webp");
    assert!(done.was_converted);
    assert_eq!(done.final_size, 120);
}

#[test]
fn a_failed_encoder_keeps_the_upload() {
    let done = convert_file(
        "/tmp/in.jpeg", "image/jpeg", "jpg", "/up/b", "stem", true, true,
        Encoding::Failed, true, Some(100),
    )
    .expect("kept");
    assert_eq!(done.final_path, "/up/b/stem.jpg");
    assert_eq!(done.final_mime, "image/jpeg");
    assert!(!done.was_converted);
    assert_eq!(done.final_size, 100);
}

#[test]
fn a_png_is_converted_only_where_that_makes_it_smaller() {
    let smaller = convert_png_if_smaller("/up/b", "stem", written(100, 99)).expect("smaller");
    assert_eq!(smaller.placement, Placement::MoveEncoded);
    assert_eq!(smaller.final_path, "/up/b/stem.webp");
    assert_eq!(smaller.known_size, Some(99));
    let equal = convert_png_if_smaller("/up/b", "stem", written(100, 100)).expect("equal");
    assert_eq!(equal.placement, Placement::CopyUpload);
    assert_eq!(equal.final_path, "/up/b/stem.png");
    assert_eq!(equal.final_mime, "image/png");
}

#[test]
fn conversion_errors_name_their_cause() {
    let unread = Encoding::Written { original_size: None, webp_size: Some(1) };
    assert_eq!(
        convert_png_if_smaller("/up/b", "stem", unread).err(),
        Some(ConversionError::Unreadable)
    );
    let not_placed = convert_file(
        "/tmp/in.jpg", "image/jpeg", "jpg", "/up/b", "stem", true, true,
        written(2, 1), false, None,
    );
    assert_eq!(not_placed.err(), Some(ConversionError::NotPlaced));
    let unread_size = convert_file(
        "/tmp/in.jpg", "image/jpeg", "jpg", "/up/b", "stem", true, true,
        written(2, 1), true, None,
    );
    assert_eq!(unread_size.err(), Some(ConversionError::Unreadable));
}

#[test]
fn stored_mime_follows_the_extension() {
    let step = convert_to_webp("/tmp/in.tif", "/up/b", "stem", Encoding::Failed);
    assert_eq!(step.final_path, "/up/b/stem.tiff");
    assert_eq!(step.final_mime, "image/tiff");
    assert_eq!(ext_for_original_mime("/tmp/no_extension"), "bin");
    assert_eq!(ext_for_original_mime("/tmp/a.b.pdf"), "pdf");
    assert_eq!(ext_to_static_mime("m4a"), "audio/mp4");
    assert_eq!(ext_to_static_mime("exe"), "application/octet-stream");
    assert_eq!(output_path("/up/b/", "stem", "png"), "/up/b/stem.png");
}

#[test]
fn temporary_files_stand_beside_their_target() {
    assert_eq!(sibling("/up/b/stem.webp", "00ff"), "/up/b/.tmp_00ff.webp");
    assert_eq!(sibling("stem", "00ff"), ".tmp_00ff");
    let first = temp_sibling("/up/b/stem.webp");
    let second = temp_sibling("/up/b/stem.webp");
    assert_ne!(first, second);
    assert!(first.starts_with("/up/b/.tmp_"));
    assert!(first.ends_with(".webp"));
    let token = &first["/up/b/.tmp_".len()..first.len() - ".webp".len()];
    assert_eq!(token.len(), 32);
    assert!(token.chars().all(|c| c.is_ascii_hexdigit() && !c.is_ascii_uppercase()));
}

fn thumbnails() -> ThumbnailTrial {
    ThumbnailTrial {
        frame: true,
        scaled: true,
        placeholder: true,
        first_page: Some(PdfThumbnailOutcome::Rendered { renderer: PdfRenderer::Mutool }),
    }
}

fn upload() -> UploadTrial {
    UploadTrial {
        readable: true,
        encoding: written(100, 60),
        placed: true,
        placed_size: Some(60),
        thumbnail: thumbnails(),
        thumbnail_is_file: true,
    }
}

#[test]
fn an_upload_is_stored_with_its_thumbnail() {
    let done = MediaProcessor::new_with_ffmpeg(true)
        .process_upload("/tmp/in.jpg", "image/jpeg", "jpg", "/up/b", "stem", "/up/b/thumbs", upload())
        .expect("processed");
    assert_eq!(done.file_path, "/up/b/stem.webp");
    assert_eq!(done.mime_type, "image/webp");
    assert_eq!(done.thumbnail_path.as_deref(), Some("/up/b/thumbs/stem.webp"));
    assert!(done.was_converted);
    assert_eq!(done.final_size, 60);
}

#[test]
fn a_lost_thumbnail_never_costs_the_upload() {
    let mut trial = upload();
    trial.thumbnail = ThumbnailTrial { frame: false, scaled: false, placeholder: false, first_page: None };
    let done = MediaProcessor::new_with_ffmpeg(true)
        .process_upload("/tmp/in.jpg", "image/jpeg", "jpg", "/up/b", "stem", "/up/b/thumbs", trial)
        .expect("processed");
    assert_eq!(done.file_path, "/up/b/stem.webp");
    assert_eq!(done.thumbnail_path, None);

    let mut gone = upload();
    gone.thumbnail_is_file = false;
    let done = MediaProcessor::new_with_ffmpeg(true)
        .process_upload("/tmp/in.jpg", "image/jpeg", "jpg", "/up/b", "stem", "/up/b/thumbs", gone)
        .expect("processed");
    assert_eq!(done.thumbnail_path, None);
}

#[test]
fn unreadable_uploads_are_refused() {
    let mut trial = upload();
    trial.readable = false;
    let refused = MediaProcessor::new(true, true)
        .process_upload("/tmp/in.jpg", "image/jpeg", "jpg", "/up/b", "stem", "/up/b/thumbs", trial);
    assert_eq!(refused.err(), Some(UploadError::Unreadable));
    let mut trial = upload();
    trial.placed = false;
    let refused = MediaProcessor::new(true, true)
        .process_upload("/tmp/in.jpg", "image/jpeg", "jpg", "/up/b", "stem", "/up/b/thumbs", trial);
    assert_eq!(
        refused.err(),
        Some(UploadError::Conversion(ConversionError::NotPlaced))
    );
}

#[test]
fn capabilities_are_those_that_were_detected() {
    let p = MediaProcessor::new_with_ffmpeg_caps(true, false);
    assert!(p.ffmpeg_available);
    assert!(!p.ffmpeg_webp_available);
    let p = MediaProcessor::new(false, true);
    assert!(!p.ffmpeg_available);
    assert!(!p.ffmpeg_webp_available);
}

#[test]
fn subprocesses_end_at_their_deadline() {
    assert_eq!(next_child_step(true, PDF_RENDERER_TIMEOUT_NANOS, PDF_RENDERER_TIMEOUT_NANOS), ChildStep::Collect);
    assert_eq!(next_child_step(false, PDF_RENDERER_TIMEOUT_NANOS, PDF_RENDERER_TIMEOUT_NANOS), ChildStep::Kill);
    assert_eq!(next_child_step(false, PDF_RENDERER_TIMEOUT_NANOS - 1, PDF_RENDERER_TIMEOUT_NANOS), ChildStep::Wait);
    assert!(renderer_succeeded(true, true));
    assert!(!renderer_succeeded(true, false));
    assert!(!renderer_succeeded(false, true));
}

#[test]
fn a_process_group_is_ended_once() {
    let mut guard = ProcessGroupGuard::new(Some(42));
    assert_eq!(guard.terminate_remaining(), Some(42));
    assert_eq!(guard.terminate_remaining(), None);
    assert_eq!(kill_arguments(42), vec!["-KILL", "--", "-42"]);
}

#[test]
fn an_image_that_nothing_decodes_gets_a_placeholder() {
    let trial = ThumbnailTrial { frame: false, scaled: false, placeholder: true, first_page: None };
    let processor = MediaProcessor::new_with_ffmpeg_caps(false, false);
    assert_eq!(
        processor.generate_thumbnail("image/heic", "/up/b/thumbs", "stem", trial).as_deref(),
        Some("/up/b/thumbs/stem.svg")
    );
}
