//! Uploaded media: conversion, thumbnails, pruning and reconciliation.

use vstd::prelude::*;
use vstd::string::*;
use crate::paths;
use crate::text;
use self::convert::{convert_file, ConversionError, ConversionResultView, Encoding};
use self::thumbnail::{thumbnail_output_path, PdfThumbnailOutcome, ThumbnailTrial};

pub mod convert;
pub mod exif;
pub mod pixels;
pub mod process;
pub mod prune;
pub mod reconcile;
pub mod thumbnail;

verus! {

/// What became of an upload.
#[derive(Debug)]
pub struct ProcessedMedia {
    /// The path of the stored file.
    pub file_path: String,
    /// The path of the thumbnail, or of its placeholder, where one was written.
    pub thumbnail_path: Option<String>,
    /// The MIME type of the stored file.
    pub mime_type: String,
    /// Whether the file was converted to another format.
    pub was_converted: bool,
    /// The size of the stored file in bytes.
    pub final_size: u64,
}

/// The model of a processed upload.
#[verifier::ext_equal]
pub struct ProcessedMediaView {
    /// The path of the stored file.
    pub file_path: Seq<char>,
    /// The path of the thumbnail, or of its placeholder, where one was written.
    pub thumbnail_path: Option<Seq<char>>,
    /// The MIME type of the stored file.
    pub mime_type: Seq<char>,
    /// Whether the file was converted to another format.
    pub was_converted: bool,
    /// The size of the stored file in bytes.
    pub final_size: u64,
}

impl View for ProcessedMedia {
    type V = ProcessedMediaView;

    open spec fn view(&self) -> ProcessedMediaView {
        ProcessedMediaView {
            file_path: self.file_path@,
            thumbnail_path: text::opt_view(self.thumbnail_path),
            mime_type: self.mime_type@,
            was_converted: self.was_converted,
            final_size: self.final_size,
        }
    }
}

/// Why an upload could not be processed.
#[derive(Debug, Clone, Copy, PartialEq, Eq, Structural)]
pub enum UploadError {
    /// The uploaded file could not be inspected.
    Unreadable,
    /// The conversion failed.
    Conversion(ConversionError),
}

/// What the steps of processing an upload come to, as far as they are taken.
#[derive(Debug, Clone, Copy)]
pub struct UploadTrial {
    /// Whether the uploaded file can be inspected.
    pub readable: bool,
    /// What the encoder comes to.
    pub encoding: Encoding,
    /// Whether the stored file can be put in place.
    pub placed: bool,
    /// The size of the stored file in place, where it can be read.
    pub placed_size: Option<u64>,
    /// What the ways of making a thumbnail come to.
    pub thumbnail: ThumbnailTrial,
    /// Whether a regular file stands at the path of the thumbnail afterwards.
    pub thumbnail_is_file: bool,
}

/// Converts uploads and makes their thumbnails with the encoders of the server.
#[derive(Debug, Clone, Copy, PartialEq, Eq, Structural)]
pub struct MediaProcessor {
    /// Whether ffmpeg is installed.
    pub ffmpeg_available: bool,
    /// Whether ffmpeg has a WebP encoder.
    pub ffmpeg_webp_available: bool,
}

/// The model of a fallible upload.
pub open spec fn upload_view(r: Result<ProcessedMedia, UploadError>) -> Result<
    ProcessedMediaView,
    UploadError,
> {
    match r {
        Ok(done) => Ok(done@),
        Err(e) => Err(e),
    }
}

impl MediaProcessor {
    /// A processor for a server on which ffmpeg answered a probe or not, and its WebP
    /// encoder another: without ffmpeg there is no encoder.
    pub fn new(ffmpeg_detected: bool, webp_encoder_detected: bool) -> (r: Self)
        ensures
            r.ffmpeg_available == ffmpeg_detected,
            r.ffmpeg_webp_available == (ffmpeg_detected && webp_encoder_detected),
    {
        let mut processor = MediaProcessor::new_with_ffmpeg(ffmpeg_detected);
        processor.ffmpeg_webp_available = ffmpeg_detected && webp_encoder_detected;
        processor
    }

    /// A processor with the given capabilities.
    pub fn new_with_ffmpeg_caps(ffmpeg_available: bool, ffmpeg_webp_available: bool) -> (r: Self)
        ensures
            r.ffmpeg_available == ffmpeg_available,
            r.ffmpeg_webp_available == ffmpeg_webp_available,
    {
        MediaProcessor { ffmpeg_available, ffmpeg_webp_available }
    }

    /// A processor for which the WebP encoder is taken to come with ffmpeg.
    pub fn new_with_ffmpeg(ffmpeg_available: bool) -> (r: Self)
        ensures
            r.ffmpeg_available == ffmpeg_available,
            r.ffmpeg_webp_available == ffmpeg_available,
    {
        MediaProcessor { ffmpeg_available, ffmpeg_webp_available: ffmpeg_available }
    }

    /// Where the thumbnail of a file stands, if one could be written.
    pub open spec fn thumbnail_of(
        self,
        mime: Seq<char>,
        thumb_dir: Seq<char>,
        file_stem: Seq<char>,
        trial: ThumbnailTrial,
    ) -> Option<Seq<char>> {
        thumbnail::written_path(
            thumbnail::thumbnail_written(
                thumbnail::strategy_for(mime, self.ffmpeg_available, self.ffmpeg_webp_available),
                thumbnail::thumbnail_path(
                    thumb_dir,
                    file_stem,
                    mime,
                    self.ffmpeg_available,
                    self.ffmpeg_webp_available,
                ),
                trial,
            ),
        )
    }

    /// Makes the thumbnail of a stored file, given what each way of making one comes to,
    /// and says where it stands.
    pub fn generate_thumbnail(
        self,
        mime: &str,
        thumb_dir: &str,
        file_stem: &str,
        trial: ThumbnailTrial,
    ) -> (r: Option<String>)
        ensures
            text::opt_view(r) == self.thumbnail_of(mime@, thumb_dir@, file_stem@, trial),
    {
        let output = thumbnail_output_path(
            thumb_dir,
            file_stem,
            mime,
            self.ffmpeg_available,
            self.ffmpeg_webp_available,
        );
        thumbnail::generate_thumbnail(
            mime,
            output.as_str(),
            self.ffmpeg_available,
            self.ffmpeg_webp_available,
            trial,
        )
    }

    /// What an upload becomes once its file has been stored.
    pub open spec fn stored(
        self,
        conversion: ConversionResultView,
        thumb_dir: Seq<char>,
        file_stem: Seq<char>,
        trial: UploadTrial,
    ) -> ProcessedMediaView {
        ProcessedMediaView {
            file_path: conversion.final_path,
            thumbnail_path: if trial.thumbnail_is_file {
                self.thumbnail_of(conversion.final_mime, thumb_dir, file_stem, trial.thumbnail)
            } else {
                None
            },
            mime_type: conversion.final_mime,
            was_converted: conversion.was_converted,
            final_size: conversion.final_size,
        }
    }

    /// What an upload comes to.
    pub open spec fn processed(
        self,
        input_path: Seq<char>,
        mime: Seq<char>,
        original_ext: Seq<char>,
        output_dir: Seq<char>,
        file_stem: Seq<char>,
        thumb_dir: Seq<char>,
        trial: UploadTrial,
    ) -> Result<ProcessedMediaView, UploadError> {
        if !trial.readable {
            Err(UploadError::Unreadable)
        } else {
            let step = convert::next_step(
                input_path,
                original_ext,
                output_dir,
                file_stem,
                convert::effective_action(
                    mime,
                    self.ffmpeg_available,
                    self.ffmpeg_webp_available,
                ),
                trial.encoding,
            );
            match convert::converted(step, trial.placed, trial.placed_size) {
                Ok(conversion) => Ok(self.stored(conversion, thumb_dir, file_stem, trial)),
                Err(e) => Err(UploadError::Conversion(e)),
            }
        }
    }

    /// Processes an upload: stores the file, converted where that pays, and makes a
    /// thumbnail of it. `trial` says what each step comes to.
    pub fn process_upload(
        self,
        input_path: &str,
        mime: &str,
        original_ext: &str,
        output_dir: &str,
        file_stem: &str,
        thumb_dir: &str,
        trial: UploadTrial,
    ) -> (r: Result<ProcessedMedia, UploadError>)
        ensures
            upload_view(r) == self.processed(
                input_path@,
                mime@,
                original_ext@,
                output_dir@,
                file_stem@,
                thumb_dir@,
                trial,
            ),
    {
        if !trial.readable {
            return Err(UploadError::Unreadable);
        }
        match convert_file(
            input_path,
            mime,
            original_ext,
            output_dir,
            file_stem,
            self.ffmpeg_available,
            self.ffmpeg_webp_available,
            trial.encoding,
            trial.placed,
            trial.placed_size,
        ) {
            Err(e) => Err(UploadError::Conversion(e)),
            Ok(conversion) => {
                let generated = self.generate_thumbnail(
                    conversion.final_mime,
                    thumb_dir,
                    file_stem,
                    trial.thumbnail,
                );
                let thumbnail_path = if trial.thumbnail_is_file {
                    generated
                } else {
                    None
                };
                Ok(
                    ProcessedMedia {
                        file_path: conversion.final_path,
                        thumbnail_path,
                        mime_type: conversion.final_mime.to_owned(),
                        was_converted: conversion.was_converted,
                        final_size: conversion.final_size,
                    },
                )
            },
        }
    }
}

/// A thumbnail that cannot be made never costs the upload: whatever its making comes
/// to, the same file is stored.
pub proof fn law_thumbnails_never_cost_the_upload(
    processor: MediaProcessor,
    input_path: Seq<char>,
    mime: Seq<char>,
    original_ext: Seq<char>,
    output_dir: Seq<char>,
    file_stem: Seq<char>,
    thumb_dir: Seq<char>,
    trial: UploadTrial,
    other: UploadTrial,
)
    requires
        trial.readable == other.readable,
        trial.encoding == other.encoding,
        trial.placed == other.placed,
        trial.placed_size == other.placed_size,
    ensures
        ({
            let first = processor.processed(
                input_path,
                mime,
                original_ext,
                output_dir,
                file_stem,
                thumb_dir,
                trial,
            );
            let second = processor.processed(
                input_path,
                mime,
                original_ext,
                output_dir,
                file_stem,
                thumb_dir,
                other,
            );
            match first {
                Ok(done) => second is Ok && second->Ok_0 == (ProcessedMediaView {
                    thumbnail_path: second->Ok_0.thumbnail_path,
                    ..done
                }),
                Err(e) => second == first,
            }
        }),
{
}

/// A path is recorded for a thumbnail only where a regular file stands there.
pub proof fn law_recorded_thumbnails_exist(
    processor: MediaProcessor,
    input_path: Seq<char>,
    mime: Seq<char>,
    original_ext: Seq<char>,
    output_dir: Seq<char>,
    file_stem: Seq<char>,
    thumb_dir: Seq<char>,
    trial: UploadTrial,
)
    ensures
        processor.processed(
            input_path,
            mime,
            original_ext,
            output_dir,
            file_stem,
            thumb_dir,
            trial,
        ) matches Ok(done) ==> (done.thumbnail_path is Some ==> trial.thumbnail_is_file),
{
}

/// A file that is kept as it is keeps its type: a video, a sound, a document or a WebP or
/// SVG picture on every server, and any other picture where nothing can be converted. It
/// is stored under its own extension, unconverted, with the size that it has there; and
/// where it could be read, put in place and measured, the upload succeeds.
pub proof fn law_kept_uploads_keep_their_type(
    processor: MediaProcessor,
    input_path: Seq<char>,
    mime: Seq<char>,
    original_ext: Seq<char>,
    output_dir: Seq<char>,
    file_stem: Seq<char>,
    thumb_dir: Seq<char>,
    trial: UploadTrial,
)
    requires
        ({
            ||| mime == "image/webp"@ && original_ext == "webp"@
            ||| mime == "image/svg+xml"@ && original_ext == "svg"@
            ||| mime == "application/pdf"@ && original_ext == "pdf"@
            ||| mime == "video/webm"@ && original_ext == "webm"@
            ||| mime == "video/mp4"@ && original_ext == "mp4"@
            ||| mime == "audio/mpeg"@ && original_ext == "mp3"@
            ||| mime == "audio/ogg"@ && original_ext == "ogg"@
            ||| mime == "audio/flac"@ && original_ext == "flac"@
            ||| mime == "audio/wav"@ && original_ext == "wav"@
            ||| mime == "audio/mp4"@ && original_ext == "m4a"@
            ||| mime == "audio/aac"@ && original_ext == "aac"@
            ||| !(processor.ffmpeg_available && processor.ffmpeg_webp_available) && ({
                ||| mime == "image/jpeg"@ && original_ext == "jpg"@
                ||| mime == "image/jpeg"@ && original_ext == "jpeg"@
                ||| mime == "image/png"@ && original_ext == "png"@
                ||| mime == "image/gif"@ && original_ext == "gif"@
                ||| mime == "image/heic"@ && original_ext == "heic"@
                ||| mime == "image/heif"@ && original_ext == "heif"@
                ||| mime == "image/bmp"@ && original_ext == "bmp"@
                ||| mime == "image/tiff"@ && original_ext == "tiff"@
                ||| mime == "image/tiff"@ && original_ext == "tif"@
            })
        }),
        output_dir.len() > 0,
        output_dir.last() != '/',
        file_stem.len() > 0,
        file_stem[0] != '/',
    ensures
        ({
            let done = processor.processed(
                input_path,
                mime,
                original_ext,
                output_dir,
                file_stem,
                thumb_dir,
                trial,
            );
            &&& done is Ok <==> trial.readable && trial.placed && trial.placed_size is Some
            &&& done is Ok ==> {
                &&& done->Ok_0.file_path == output_dir + "/"@ + (file_stem + "."@ + original_ext)
                &&& done->Ok_0.mime_type == mime
                &&& !done->Ok_0.was_converted
                &&& done->Ok_0.final_size == trial.placed_size->Some_0
            }
        }),
{
    convert::law_extensions_stand_for_their_types(original_ext);
    convert::law_only_images_of_other_formats_are_converted(
        mime,
        processor.ffmpeg_available,
        processor.ffmpeg_webp_available,
    );
    reveal_strlit("image/webp");
    reveal_strlit("image/svg+xml");
    reveal_strlit("application/pdf");
    reveal_strlit("video/webm");
    reveal_strlit("video/mp4");
    reveal_strlit("audio/mpeg");
    reveal_strlit("audio/ogg");
    reveal_strlit("audio/flac");
    reveal_strlit("audio/wav");
    reveal_strlit("audio/mp4");
    reveal_strlit("audio/aac");
    reveal_strlit("image/jpeg");
    reveal_strlit("image/png");
    reveal_strlit("image/gif");
    reveal_strlit("image/heic");
    reveal_strlit("image/heif");
    reveal_strlit("image/bmp");
    reveal_strlit("image/tiff");
    assert("image/webp"@.len() == 10 && "image/webp"@[0] == 'i' && "image/webp"@[1] == 'm'
        && "image/webp"@[2] == 'a' && "image/webp"@[3] == 'g' && "image/webp"@[4] == 'e'
        && "image/webp"@[5] == '/' && "image/webp"@[6] == 'w' && "image/webp"@[7] == 'e'
        && "image/webp"@[8] == 'b' && "image/webp"@[9] == 'p');
    assert("image/svg+xml"@.len() == 13 && "image/svg+xml"@[0] == 'i'
        && "image/svg+xml"@[1] == 'm' && "image/svg+xml"@[2] == 'a'
        && "image/svg+xml"@[3] == 'g' && "image/svg+xml"@[4] == 'e'
        && "image/svg+xml"@[5] == '/' && "image/svg+xml"@[6] == 's'
        && "image/svg+xml"@[7] == 'v' && "image/svg+xml"@[8] == 'g'
        && "image/svg+xml"@[9] == '+' && "image/svg+xml"@[10] == 'x'
        && "image/svg+xml"@[11] == 'm' && "image/svg+xml"@[12] == 'l');
    assert("application/pdf"@.len() == 15 && "application/pdf"@[0] == 'a'
        && "application/pdf"@[1] == 'p' && "application/pdf"@[2] == 'p'
        && "application/pdf"@[3] == 'l' && "application/pdf"@[4] == 'i'
        && "application/pdf"@[5] == 'c' && "application/pdf"@[6] == 'a'
        && "application/pdf"@[7] == 't' && "application/pdf"@[8] == 'i'
        && "application/pdf"@[9] == 'o' && "application/pdf"@[10] == 'n'
        && "application/pdf"@[11] == '/' && "application/pdf"@[12] == 'p'
        && "application/pdf"@[13] == 'd' && "application/pdf"@[14] == 'f');
    assert("video/webm"@.len() == 10 && "video/webm"@[0] == 'v' && "video/webm"@[1] == 'i'
        && "video/webm"@[2] == 'd' && "video/webm"@[3] == 'e' && "video/webm"@[4] == 'o'
        && "video/webm"@[5] == '/' && "video/webm"@[6] == 'w' && "video/webm"@[7] == 'e'
        && "video/webm"@[8] == 'b' && "video/webm"@[9] == 'm');
    assert("video/mp4"@.len() == 9 && "video/mp4"@[0] == 'v' && "video/mp4"@[1] == 'i'
        && "video/mp4"@[2] == 'd' && "video/mp4"@[3] == 'e' && "video/mp4"@[4] == 'o'
        && "video/mp4"@[5] == '/' && "video/mp4"@[6] == 'm' && "video/mp4"@[7] == 'p'
        && "video/mp4"@[8] == '4');
    assert("audio/mpeg"@.len() == 10 && "audio/mpeg"@[0] == 'a' && "audio/mpeg"@[1] == 'u'
        && "audio/mpeg"@[2] == 'd' && "audio/mpeg"@[3] == 'i' && "audio/mpeg"@[4] == 'o'
        && "audio/mpeg"@[5] == '/' && "audio/mpeg"@[6] == 'm' && "audio/mpeg"@[7] == 'p'
        && "audio/mpeg"@[8] == 'e' && "audio/mpeg"@[9] == 'g');
    assert("audio/ogg"@.len() == 9 && "audio/ogg"@[0] == 'a' && "audio/ogg"@[1] == 'u'
        && "audio/ogg"@[2] == 'd' && "audio/ogg"@[3] == 'i' && "audio/ogg"@[4] == 'o'
        && "audio/ogg"@[5] == '/' && "audio/ogg"@[6] == 'o' && "audio/ogg"@[7] == 'g'
        && "audio/ogg"@[8] == 'g');
    assert("audio/flac"@.len() == 10 && "audio/flac"@[0] == 'a' && "audio/flac"@[1] == 'u'
        && "audio/flac"@[2] == 'd' && "audio/flac"@[3] == 'i' && "audio/flac"@[4] == 'o'
        && "audio/flac"@[5] == '/' && "audio/flac"@[6] == 'f' && "audio/flac"@[7] == 'l'
        && "audio/flac"@[8] == 'a' && "audio/flac"@[9] == 'c');
    assert("audio/wav"@.len() == 9 && "audio/wav"@[0] == 'a' && "audio/wav"@[1] == 'u'
        && "audio/wav"@[2] == 'd' && "audio/wav"@[3] == 'i' && "audio/wav"@[4] == 'o'
        && "audio/wav"@[5] == '/' && "audio/wav"@[6] == 'w' && "audio/wav"@[7] == 'a'
        && "audio/wav"@[8] == 'v');
    assert("audio/mp4"@.len() == 9 && "audio/mp4"@[0] == 'a' && "audio/mp4"@[1] == 'u'
        && "audio/mp4"@[2] == 'd' && "audio/mp4"@[3] == 'i' && "audio/mp4"@[4] == 'o'
        && "audio/mp4"@[5] == '/' && "audio/mp4"@[6] == 'm' && "audio/mp4"@[7] == 'p'
        && "audio/mp4"@[8] == '4');
    assert("audio/aac"@.len() == 9 && "audio/aac"@[0] == 'a' && "audio/aac"@[1] == 'u'
        && "audio/aac"@[2] == 'd' && "audio/aac"@[3] == 'i' && "audio/aac"@[4] == 'o'
        && "audio/aac"@[5] == '/' && "audio/aac"@[6] == 'a' && "audio/aac"@[7] == 'a'
        && "audio/aac"@[8] == 'c');
    assert("image/jpeg"@.len() == 10 && "image/jpeg"@[0] == 'i' && "image/jpeg"@[1] == 'm'
        && "image/jpeg"@[2] == 'a' && "image/jpeg"@[3] == 'g' && "image/jpeg"@[4] == 'e'
        && "image/jpeg"@[5] == '/' && "image/jpeg"@[6] == 'j' && "image/jpeg"@[7] == 'p'
        && "image/jpeg"@[8] == 'e' && "image/jpeg"@[9] == 'g');
    assert("image/png"@.len() == 9 && "image/png"@[0] == 'i' && "image/png"@[1] == 'm'
        && "image/png"@[2] == 'a' && "image/png"@[3] == 'g' && "image/png"@[4] == 'e'
        && "image/png"@[5] == '/' && "image/png"@[6] == 'p' && "image/png"@[7] == 'n'
        && "image/png"@[8] == 'g');
    assert("image/gif"@.len() == 9 && "image/gif"@[0] == 'i' && "image/gif"@[1] == 'm'
        && "image/gif"@[2] == 'a' && "image/gif"@[3] == 'g' && "image/gif"@[4] == 'e'
        && "image/gif"@[5] == '/' && "image/gif"@[6] == 'g' && "image/gif"@[7] == 'i'
        && "image/gif"@[8] == 'f');
    assert("image/heic"@.len() == 10 && "image/heic"@[0] == 'i' && "image/heic"@[1] == 'm'
        && "image/heic"@[2] == 'a' && "image/heic"@[3] == 'g' && "image/heic"@[4] == 'e'
        && "image/heic"@[5] == '/' && "image/heic"@[6] == 'h' && "image/heic"@[7] == 'e'
        && "image/heic"@[8] == 'i' && "image/heic"@[9] == 'c');
    assert("image/heif"@.len() == 10 && "image/heif"@[0] == 'i' && "image/heif"@[1] == 'm'
        && "image/heif"@[2] == 'a' && "image/heif"@[3] == 'g' && "image/heif"@[4] == 'e'
        && "image/heif"@[5] == '/' && "image/heif"@[6] == 'h' && "image/heif"@[7] == 'e'
        && "image/heif"@[8] == 'i' && "image/heif"@[9] == 'f');
    assert("image/bmp"@.len() == 9 && "image/bmp"@[0] == 'i' && "image/bmp"@[1] == 'm'
        && "image/bmp"@[2] == 'a' && "image/bmp"@[3] == 'g' && "image/bmp"@[4] == 'e'
        && "image/bmp"@[5] == '/' && "image/bmp"@[6] == 'b' && "image/bmp"@[7] == 'm'
        && "image/bmp"@[8] == 'p');
    assert("image/tiff"@.len() == 10 && "image/tiff"@[0] == 'i' && "image/tiff"@[1] == 'm'
        && "image/tiff"@[2] == 'a' && "image/tiff"@[3] == 'g' && "image/tiff"@[4] == 'e'
        && "image/tiff"@[5] == '/' && "image/tiff"@[6] == 't' && "image/tiff"@[7] == 'i'
        && "image/tiff"@[8] == 'f' && "image/tiff"@[9] == 'f');
}

/// A picture in a format that browsers do not share is stored as WebP on a server that
/// can convert it, and so is a PNG that shrinks by it; one that does not shrink stays a
/// PNG. A picture whose encoding failed is still stored, unconverted.
pub proof fn law_pictures_are_stored_as_webp(
    processor: MediaProcessor,
    input_path: Seq<char>,
    mime: Seq<char>,
    original_ext: Seq<char>,
    output_dir: Seq<char>,
    file_stem: Seq<char>,
    thumb_dir: Seq<char>,
    trial: UploadTrial,
)
    requires
        processor.ffmpeg_available,
        processor.ffmpeg_webp_available,
        mime == "image/jpeg"@ || mime == "image/heic"@ || mime == "image/heif"@ || mime
            == "image/bmp"@ || mime == "image/tiff"@ || mime == "image/gif"@ || mime
            == "image/png"@,
        trial.readable,
        trial.placed,
        trial.placed_size is Some,
    ensures
        ({
            let done = processor.processed(
                input_path,
                mime,
                original_ext,
                output_dir,
                file_stem,
                thumb_dir,
                trial,
            );
            let webp = paths::joined_path(output_dir, file_stem + "."@ + "webp"@);
            let png = paths::joined_path(output_dir, file_stem + "."@ + "png"@);
            &&& trial.encoding is Failed ==> done is Ok && !done->Ok_0.was_converted
            &&& mime != "image/png"@ && trial.encoding is Written ==> {
                &&& done is Ok
                &&& done->Ok_0.file_path == webp
                &&& done->Ok_0.mime_type == "image/webp"@
                &&& done->Ok_0.was_converted
                &&& done->Ok_0.final_size == trial.placed_size->Some_0
            }
            &&& mime == "image/png"@ ==> match trial.encoding {
                Encoding::Written { original_size: Some(before), webp_size: Some(after) } => {
                    &&& done is Ok
                    &&& done->Ok_0.was_converted <==> after < before
                    &&& after < before ==> done->Ok_0.file_path == webp && done->Ok_0.mime_type
                        == "image/webp"@ && done->Ok_0.final_size == after
                    &&& after >= before ==> done->Ok_0.file_path == png && done->Ok_0.mime_type
                        == "image/png"@ && done->Ok_0.final_size == trial.placed_size->Some_0
                },
                Encoding::Written { .. } => done == Err::<ProcessedMediaView, UploadError>(
                    UploadError::Conversion(ConversionError::Unreadable),
                ),
                Encoding::Failed => done is Ok && done->Ok_0.file_path == png
                    && done->Ok_0.mime_type == "image/png"@,
            }
        }),
{
    convert::law_only_images_of_other_formats_are_converted(mime, true, true);
    convert::law_extensions_stand_for_their_types("png"@);
    reveal_strlit("image/jpeg");
    reveal_strlit("image/heic");
    reveal_strlit("image/heif");
    reveal_strlit("image/bmp");
    reveal_strlit("image/tiff");
    reveal_strlit("image/gif");
    reveal_strlit("image/png");
    assert("image/jpeg"@.len() == 10 && "image/jpeg"@[0] == 'i' && "image/jpeg"@[1] == 'm'
        && "image/jpeg"@[2] == 'a' && "image/jpeg"@[3] == 'g' && "image/jpeg"@[4] == 'e'
        && "image/jpeg"@[5] == '/' && "image/jpeg"@[6] == 'j' && "image/jpeg"@[7] == 'p'
        && "image/jpeg"@[8] == 'e' && "image/jpeg"@[9] == 'g');
    assert("image/heic"@.len() == 10 && "image/heic"@[0] == 'i' && "image/heic"@[1] == 'm'
        && "image/heic"@[2] == 'a' && "image/heic"@[3] == 'g' && "image/heic"@[4] == 'e'
        && "image/heic"@[5] == '/' && "image/heic"@[6] == 'h' && "image/heic"@[7] == 'e'
        && "image/heic"@[8] == 'i' && "image/heic"@[9] == 'c');
    assert("image/heif"@.len() == 10 && "image/heif"@[0] == 'i' && "image/heif"@[1] == 'm'
        && "image/heif"@[2] == 'a' && "image/heif"@[3] == 'g' && "image/heif"@[4] == 'e'
        && "image/heif"@[5] == '/' && "image/heif"@[6] == 'h' && "image/heif"@[7] == 'e'
        && "image/heif"@[8] == 'i' && "image/heif"@[9] == 'f');
    assert("image/bmp"@.len() == 9 && "image/bmp"@[0] == 'i' && "image/bmp"@[1] == 'm'
        && "image/bmp"@[2] == 'a' && "image/bmp"@[3] == 'g' && "image/bmp"@[4] == 'e'
        && "image/bmp"@[5] == '/' && "image/bmp"@[6] == 'b' && "image/bmp"@[7] == 'm'
        && "image/bmp"@[8] == 'p');
    assert("image/tiff"@.len() == 10 && "image/tiff"@[0] == 'i' && "image/tiff"@[1] == 'm'
        && "image/tiff"@[2] == 'a' && "image/tiff"@[3] == 'g' && "image/tiff"@[4] == 'e'
        && "image/tiff"@[5] == '/' && "image/tiff"@[6] == 't' && "image/tiff"@[7] == 'i'
        && "image/tiff"@[8] == 'f' && "image/tiff"@[9] == 'f');
    assert("image/gif"@.len() == 9 && "image/gif"@[0] == 'i' && "image/gif"@[1] == 'm'
        && "image/gif"@[2] == 'a' && "image/gif"@[3] == 'g' && "image/gif"@[4] == 'e'
        && "image/gif"@[5] == '/' && "image/gif"@[6] == 'g' && "image/gif"@[7] == 'i'
        && "image/gif"@[8] == 'f');
    assert("image/png"@.len() == 9 && "image/png"@[0] == 'i' && "image/png"@[1] == 'm'
        && "image/png"@[2] == 'a' && "image/png"@[3] == 'g' && "image/png"@[4] == 'e'
        && "image/png"@[5] == '/' && "image/png"@[6] == 'p' && "image/png"@[7] == 'n'
        && "image/png"@[8] == 'g');
}

/// Where the thumbnail of a file stands, by the type of the file: a picture is WebP, a
/// placeholder is SVG, and both have the stem of the file. A picture is made of a video
/// with ffmpeg and its WebP encoder, of the first page of a document, and of every image
/// but SVG; where none comes out, and of everything else, a placeholder stands in.
pub proof fn law_thumbnails_stand_by_type(
    processor: MediaProcessor,
    mime: Seq<char>,
    thumb_dir: Seq<char>,
    file_stem: Seq<char>,
    trial: ThumbnailTrial,
)
    requires
        file_stem.len() > 0,
        !file_stem.contains('/'),
    ensures
        ({
            let made = processor.thumbnail_of(mime, thumb_dir, file_stem, trial);
            let picture = Some(paths::joined_path(thumb_dir, file_stem + "."@ + "webp"@));
            let drawn = if trial.placeholder {
                Some(paths::joined_path(thumb_dir, file_stem + "."@ + "svg"@))
            } else {
                None
            };
            let able = processor.ffmpeg_available && processor.ffmpeg_webp_available;
            &&& text::begins(mime, "video/"@) ==> made == if able && trial.frame {
                picture
            } else {
                drawn
            }
            &&& text::begins(mime, "audio/"@) ==> made == drawn
            &&& mime == "image/svg+xml"@ ==> made == drawn
            &&& mime == "application/pdf"@ ==> made == match trial.first_page {
                Some(PdfThumbnailOutcome::Rendered { .. }) => picture,
                Some(PdfThumbnailOutcome::Placeholder) => Some(
                    paths::joined_path(thumb_dir, file_stem + "."@ + "svg"@),
                ),
                None => None,
            }
            &&& mime == "image/webp"@ ==> made == if trial.scaled {
                picture
            } else {
                drawn
            }
            &&& text::begins(mime, "image/"@) && mime != "image/svg+xml"@ && mime != "image/webp"@
                ==> made == if (processor.ffmpeg_available && trial.frame) || trial.scaled {
                picture
            } else {
                drawn
            }
            &&& !text::begins(mime, "video/"@) && !text::begins(mime, "audio/"@) && !text::begins(
                mime,
                "image/"@,
            ) && mime != "application/pdf"@ ==> made == drawn
        }),
{
    thumbnail::lemma_mime_families(mime);
    reveal_strlit("webp");
    reveal_strlit("svg");
    paths::law_paths_keep_their_parts(thumb_dir, file_stem, "webp"@, "svg"@);
    paths::law_paths_keep_their_parts(thumb_dir, file_stem, "svg"@, "svg"@);
    reveal_strlit("image/svg+xml");
    reveal_strlit("image/webp");
    reveal_strlit("image/");
    reveal_strlit("video/");
    reveal_strlit("audio/");
    reveal_strlit("application/pdf");
    assert("image/svg+xml"@.len() == 13 && "image/svg+xml"@[0] == 'i'
        && "image/svg+xml"@[1] == 'm' && "image/svg+xml"@[2] == 'a'
        && "image/svg+xml"@[3] == 'g' && "image/svg+xml"@[4] == 'e'
        && "image/svg+xml"@[5] == '/' && "image/svg+xml"@[6] == 's'
        && "image/svg+xml"@[7] == 'v' && "image/svg+xml"@[8] == 'g'
        && "image/svg+xml"@[9] == '+' && "image/svg+xml"@[10] == 'x'
        && "image/svg+xml"@[11] == 'm' && "image/svg+xml"@[12] == 'l');
    assert("image/webp"@.len() == 10 && "image/webp"@[0] == 'i' && "image/webp"@[1] == 'm'
        && "image/webp"@[2] == 'a' && "image/webp"@[3] == 'g' && "image/webp"@[4] == 'e'
        && "image/webp"@[5] == '/' && "image/webp"@[6] == 'w' && "image/webp"@[7] == 'e'
        && "image/webp"@[8] == 'b' && "image/webp"@[9] == 'p');
    assert("image/"@.len() == 6 && "image/"@[0] == 'i' && "image/"@[1] == 'm'
        && "image/"@[2] == 'a' && "image/"@[3] == 'g' && "image/"@[4] == 'e'
        && "image/"@[5] == '/');
    assert("video/"@.len() == 6 && "video/"@[0] == 'v' && "video/"@[1] == 'i'
        && "video/"@[2] == 'd' && "video/"@[3] == 'e' && "video/"@[4] == 'o'
        && "video/"@[5] == '/');
    assert("audio/"@.len() == 6 && "audio/"@[0] == 'a' && "audio/"@[1] == 'u'
        && "audio/"@[2] == 'd' && "audio/"@[3] == 'i' && "audio/"@[4] == 'o'
        && "audio/"@[5] == '/');
    assert("application/pdf"@.len() == 15 && "application/pdf"@[0] == 'a'
        && "application/pdf"@[1] == 'p' && "application/pdf"@[2] == 'p'
        && "application/pdf"@[3] == 'l' && "application/pdf"@[4] == 'i'
        && "application/pdf"@[5] == 'c' && "application/pdf"@[6] == 'a'
        && "application/pdf"@[7] == 't' && "application/pdf"@[8] == 'i'
        && "application/pdf"@[9] == 'o' && "application/pdf"@[10] == 'n'
        && "application/pdf"@[11] == '/' && "application/pdf"@[12] == 'p'
        && "application/pdf"@[13] == 'd' && "application/pdf"@[14] == 'f');
    if mime == "image/webp"@ {
        assert(mime.take(6) =~= "image/"@);
    }
    if mime == "image/svg+xml"@ {
        assert(mime.take(6) =~= "image/"@);
    }
}

/// A stored upload has the thumbnail of its stored type, where a file stands there, and
/// else none.
pub proof fn law_uploads_have_the_thumbnail_of_their_stored_type(
    processor: MediaProcessor,
    input_path: Seq<char>,
    mime: Seq<char>,
    original_ext: Seq<char>,
    output_dir: Seq<char>,
    file_stem: Seq<char>,
    thumb_dir: Seq<char>,
    trial: UploadTrial,
)
    ensures
        processor.processed(
            input_path,
            mime,
            original_ext,
            output_dir,
            file_stem,
            thumb_dir,
            trial,
        ) matches Ok(done) ==> done.thumbnail_path == if trial.thumbnail_is_file {
            processor.thumbnail_of(done.mime_type, thumb_dir, file_stem, trial.thumbnail)
        } else {
            None
        },
{
}

} // verus!
