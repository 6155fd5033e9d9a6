//! Conversion of uploaded files to web formats.
//!
//! JPEG, HEIC, HEIF, BMP, TIFF and GIF become WebP; PNG becomes WebP only where
//! that is smaller; everything else is kept. An encoder that fails never loses the
//! upload: the original file is stored instead.

use vstd::prelude::*;
use vstd::string::*;
use crate::paths;
use crate::paths::{join_path, path_extension, path_parent};
use crate::text;
use crate::text::{concat, str_eq};

verus! {

/// What the conversion does with a file of a given MIME type.
#[derive(Debug, Clone, Copy, PartialEq, Eq, Structural)]
pub enum ConversionAction {
    /// Convert to WebP.
    ToWebp,
    /// Convert to WebP, and keep the original unless the WebP file is smaller.
    ToWebpIfSmaller,
    /// Store the file as it is.
    KeepAsIs,
}

/// The MIME types that are always converted.
pub open spec fn always_converted(mime: Seq<char>) -> bool {
    ||| mime == "image/jpeg"@
    ||| mime == "image/heic"@
    ||| mime == "image/heif"@
    ||| mime == "image/bmp"@
    ||| mime == "image/tiff"@
    ||| mime == "image/gif"@
}

/// What the conversion does with a file of the given MIME type.
pub open spec fn action_for(mime: Seq<char>) -> ConversionAction {
    if always_converted(mime) {
        ConversionAction::ToWebp
    } else if mime == "image/png"@ {
        ConversionAction::ToWebpIfSmaller
    } else {
        ConversionAction::KeepAsIs
    }
}

/// What the conversion does with a file of the given MIME type. A type that is not
/// known is kept.
pub fn conversion_action(mime: &str) -> (r: ConversionAction)
    ensures
        r == action_for(mime@),
{
    if str_eq(mime, "image/jpeg") || str_eq(mime, "image/heic") || str_eq(mime, "image/heif")
        || str_eq(mime, "image/bmp") || str_eq(mime, "image/tiff") || str_eq(mime, "image/gif") {
        ConversionAction::ToWebp
    } else if str_eq(mime, "image/png") {
        ConversionAction::ToWebpIfSmaller
    } else {
        ConversionAction::KeepAsIs
    }
}

/// What the conversion does on a server with the given encoders: nothing is
/// converted without ffmpeg and its WebP encoder.
pub open spec fn effective_action(
    mime: Seq<char>,
    ffmpeg_available: bool,
    ffmpeg_webp_available: bool,
) -> ConversionAction {
    if ffmpeg_available && ffmpeg_webp_available {
        action_for(mime)
    } else {
        ConversionAction::KeepAsIs
    }
}

/// What the conversion does on a server with the given encoders.
pub fn planned_action(mime: &str, ffmpeg_available: bool, ffmpeg_webp_available: bool) -> (r:
    ConversionAction)
    ensures
        r == effective_action(mime@, ffmpeg_available, ffmpeg_webp_available),
{
    if ffmpeg_available && ffmpeg_webp_available {
        conversion_action(mime)
    } else {
        ConversionAction::KeepAsIs
    }
}

/// The outcome of a conversion.
#[derive(Debug)]
pub struct ConversionResult {
    /// The path of the stored file.
    pub final_path: String,
    /// The MIME type of the stored file.
    pub final_mime: &'static str,
    /// Whether the file was converted to another format.
    pub was_converted: bool,
    /// The size of the stored file in bytes.
    pub final_size: u64,
}

/// The model of a conversion's outcome.
#[verifier::ext_equal]
pub struct ConversionResultView {
    /// The path of the stored file.
    pub final_path: Seq<char>,
    /// The MIME type of the stored file.
    pub final_mime: Seq<char>,
    /// Whether the file was converted to another format.
    pub was_converted: bool,
    /// The size of the stored file in bytes.
    pub final_size: u64,
}

impl View for ConversionResult {
    type V = ConversionResultView;

    open spec fn view(&self) -> ConversionResultView {
        ConversionResultView {
            final_path: self.final_path@,
            final_mime: self.final_mime@,
            was_converted: self.was_converted,
            final_size: self.final_size,
        }
    }
}

/// What became of the attempt to encode a file as WebP beside its destination.
#[derive(Debug, Clone, Copy, PartialEq, Eq, Structural)]
pub enum Encoding {
    /// The encoder failed, or was not run.
    Failed,
    /// The encoder wrote a file.
    Written {
        /// The size of the upload, where it could be read.
        original_size: Option<u64>,
        /// The size of the encoded file, where it could be read.
        webp_size: Option<u64>,
    },
}

/// What puts the stored file in place.
#[derive(Debug, Clone, Copy, PartialEq, Eq, Structural)]
pub enum Placement {
    /// The encoded file is moved to its destination.
    MoveEncoded,
    /// The upload is copied, and the encoded file, if any, is removed.
    CopyUpload,
}

/// How a conversion goes on after the encoder has run.
#[derive(Debug)]
pub struct ConversionStep {
    /// What puts the stored file in place.
    pub placement: Placement,
    /// The path of the stored file.
    pub final_path: String,
    /// The MIME type of the stored file.
    pub final_mime: &'static str,
    /// The size of the stored file, where it is known before it is in place.
    pub known_size: Option<u64>,
}

/// The model of a conversion's next step.
#[verifier::ext_equal]
pub struct ConversionStepView {
    /// What puts the stored file in place.
    pub placement: Placement,
    /// The path of the stored file.
    pub final_path: Seq<char>,
    /// The MIME type of the stored file.
    pub final_mime: Seq<char>,
    /// The size of the stored file, where it is known before it is in place.
    pub known_size: Option<u64>,
}

impl View for ConversionStep {
    type V = ConversionStepView;

    open spec fn view(&self) -> ConversionStepView {
        ConversionStepView {
            placement: self.placement,
            final_path: self.final_path@,
            final_mime: self.final_mime@,
            known_size: self.known_size,
        }
    }
}

/// Why a conversion failed.
#[derive(Debug, Clone, Copy, PartialEq, Eq, Structural)]
pub enum ConversionError {
    /// The size of a file could not be read.
    Unreadable,
    /// The stored file could not be put in place.
    NotPlaced,
}

/// The name of the stored file.
pub open spec fn stored_name(file_stem: Seq<char>, ext: Seq<char>) -> Seq<char> {
    file_stem + "."@ + ext
}

/// The path of the stored file.
pub open spec fn stored_path(
    output_dir: Seq<char>,
    file_stem: Seq<char>,
    ext: Seq<char>,
) -> Seq<char> {
    paths::joined_path(output_dir, stored_name(file_stem, ext))
}

/// The path of the stored file.
pub fn output_path(output_dir: &str, file_stem: &str, ext: &str) -> (r: String)
    ensures
        r@ == stored_path(output_dir@, file_stem@, ext@),
{
    let mut name = concat(file_stem, ".");
    name.append(ext);
    join_path(output_dir, name.as_str())
}

/// The extension under which a file is stored unconverted, from the extension of the
/// upload.
pub open spec fn kept_extension(ext: Option<Seq<char>>) -> Seq<char> {
    match ext {
        Some(e) => if e == "jpg"@ || e == "jpeg"@ {
            "jpg"@
        } else if e == "png"@ || e == "gif"@ || e == "heic"@ || e == "heif"@ || e == "bmp"@ {
            e
        } else if e == "tiff"@ || e == "tif"@ {
            "tiff"@
        } else if e == "webp"@ || e == "webm"@ || e == "svg"@ || e == "pdf"@ {
            e
        } else {
            "bin"@
        },
        None => "bin"@,
    }
}

/// The extension under which a file is stored unconverted, from the path of the
/// upload.
pub fn ext_for_original_mime(path: &str) -> (r: &'static str)
    ensures
        r@ == kept_extension(paths::extension(path@)),
{
    match path_extension(path) {
        Some(e) => {
            let e = e.as_str();
            if str_eq(e, "jpg") || str_eq(e, "jpeg") {
                "jpg"
            } else if str_eq(e, "png") {
                "png"
            } else if str_eq(e, "gif") {
                "gif"
            } else if str_eq(e, "heic") {
                "heic"
            } else if str_eq(e, "heif") {
                "heif"
            } else if str_eq(e, "bmp") {
                "bmp"
            } else if str_eq(e, "tiff") || str_eq(e, "tif") {
                "tiff"
            } else if str_eq(e, "webp") {
                "webp"
            } else if str_eq(e, "webm") {
                "webm"
            } else if str_eq(e, "svg") {
                "svg"
            } else if str_eq(e, "pdf") {
                "pdf"
            } else {
                "bin"
            }
        },
        None => "bin",
    }
}

/// The MIME type of a file with the given extension.
pub open spec fn extension_mime(ext: Seq<char>) -> Seq<char> {
    if ext == "jpg"@ || ext == "jpeg"@ {
        "image/jpeg"@
    } else if ext == "png"@ {
        "image/png"@
    } else if ext == "gif"@ {
        "image/gif"@
    } else if ext == "heic"@ {
        "image/heic"@
    } else if ext == "heif"@ {
        "image/heif"@
    } else if ext == "bmp"@ {
        "image/bmp"@
    } else if ext == "tiff"@ || ext == "tif"@ {
        "image/tiff"@
    } else if ext == "webp"@ {
        "image/webp"@
    } else if ext == "svg"@ {
        "image/svg+xml"@
    } else if ext == "pdf"@ {
        "application/pdf"@
    } else if ext == "webm"@ {
        "video/webm"@
    } else if ext == "mp4"@ {
        "video/mp4"@
    } else if ext == "mp3"@ {
        "audio/mpeg"@
    } else if ext == "ogg"@ {
        "audio/ogg"@
    } else if ext == "flac"@ {
        "audio/flac"@
    } else if ext == "wav"@ {
        "audio/wav"@
    } else if ext == "m4a"@ {
        "audio/mp4"@
    } else if ext == "aac"@ {
        "audio/aac"@
    } else {
        "application/octet-stream"@
    }
}

/// The MIME type of a file with the given extension.
pub fn ext_to_static_mime(ext: &str) -> (r: &'static str)
    ensures
        r@ == extension_mime(ext@),
{
    if str_eq(ext, "jpg") || str_eq(ext, "jpeg") {
        "image/jpeg"
    } else if str_eq(ext, "png") {
        "image/png"
    } else if str_eq(ext, "gif") {
        "image/gif"
    } else if str_eq(ext, "heic") {
        "image/heic"
    } else if str_eq(ext, "heif") {
        "image/heif"
    } else if str_eq(ext, "bmp") {
        "image/bmp"
    } else if str_eq(ext, "tiff") || str_eq(ext, "tif") {
        "image/tiff"
    } else if str_eq(ext, "webp") {
        "image/webp"
    } else if str_eq(ext, "svg") {
        "image/svg+xml"
    } else if str_eq(ext, "pdf") {
        "application/pdf"
    } else if str_eq(ext, "webm") {
        "video/webm"
    } else if str_eq(ext, "mp4") {
        "video/mp4"
    } else if str_eq(ext, "mp3") {
        "audio/mpeg"
    } else if str_eq(ext, "ogg") {
        "audio/ogg"
    } else if str_eq(ext, "flac") {
        "audio/flac"
    } else if str_eq(ext, "wav") {
        "audio/wav"
    } else if str_eq(ext, "m4a") {
        "audio/mp4"
    } else if str_eq(ext, "aac") {
        "audio/aac"
    } else {
        "application/octet-stream"
    }
}

/// The step that stores the encoded file.
pub open spec fn moving(
    output_dir: Seq<char>,
    file_stem: Seq<char>,
    known_size: Option<u64>,
) -> ConversionStepView {
    ConversionStepView {
        placement: Placement::MoveEncoded,
        final_path: stored_path(output_dir, file_stem, "webp"@),
        final_mime: "image/webp"@,
        known_size,
    }
}

/// The step that stores the upload under the given extension.
pub open spec fn copying(
    output_dir: Seq<char>,
    file_stem: Seq<char>,
    ext: Seq<char>,
) -> ConversionStepView {
    ConversionStepView {
        placement: Placement::CopyUpload,
        final_path: stored_path(output_dir, file_stem, ext),
        final_mime: extension_mime(ext),
        known_size: None,
    }
}

/// Stores the encoded file.
fn move_encoded(output_dir: &str, file_stem: &str, known_size: Option<u64>) -> (r: ConversionStep)
    ensures
        r@ == moving(output_dir@, file_stem@, known_size),
{
    ConversionStep {
        placement: Placement::MoveEncoded,
        final_path: output_path(output_dir, file_stem, "webp"),
        final_mime: "image/webp",
        known_size,
    }
}

/// Stores the upload under the given extension.
fn copy_as_is_with_ext(output_dir: &str, file_stem: &str, ext: &str) -> (r: ConversionStep)
    ensures
        r@ == copying(output_dir@, file_stem@, ext@),
{
    ConversionStep {
        placement: Placement::CopyUpload,
        final_path: output_path(output_dir, file_stem, ext),
        final_mime: ext_to_static_mime(ext),
        known_size: None,
    }
}

/// How an upload goes on that is always converted.
pub open spec fn webp_step(
    input_path: Seq<char>,
    output_dir: Seq<char>,
    file_stem: Seq<char>,
    encoding: Encoding,
) -> ConversionStepView {
    match encoding {
        Encoding::Written { .. } => moving(output_dir, file_stem, None),
        Encoding::Failed => copying(
            output_dir,
            file_stem,
            kept_extension(paths::extension(input_path)),
        ),
    }
}

/// Stores the WebP file, or the upload where the encoder failed.
pub fn convert_to_webp(
    input_path: &str,
    output_dir: &str,
    file_stem: &str,
    encoding: Encoding,
) -> (r: ConversionStep)
    ensures
        r@ == webp_step(input_path@, output_dir@, file_stem@, encoding),
{
    match encoding {
        Encoding::Written { .. } => move_encoded(output_dir, file_stem, None),
        Encoding::Failed => {
            let ext = ext_for_original_mime(input_path);
            copy_as_is_with_ext(output_dir, file_stem, ext)
        },
    }
}

/// How a PNG upload goes on: the WebP file is stored only where it is smaller.
pub open spec fn png_step(
    output_dir: Seq<char>,
    file_stem: Seq<char>,
    encoding: Encoding,
) -> Result<ConversionStepView, ConversionError> {
    match encoding {
        Encoding::Written { original_size: Some(original), webp_size: Some(webp) } => if webp
            < original {
            Ok(moving(output_dir, file_stem, Some(webp)))
        } else {
            Ok(copying(output_dir, file_stem, "png"@))
        },
        Encoding::Written { .. } => Err(ConversionError::Unreadable),
        Encoding::Failed => Ok(copying(output_dir, file_stem, "png"@)),
    }
}

/// The model of a fallible step.
pub open spec fn step_view(r: Result<ConversionStep, ConversionError>) -> Result<
    ConversionStepView,
    ConversionError,
> {
    match r {
        Ok(step) => Ok(step@),
        Err(e) => Err(e),
    }
}

/// Stores the WebP file where it is smaller than the PNG file, else the upload.
pub fn convert_png_if_smaller(output_dir: &str, file_stem: &str, encoding: Encoding) -> (r: Result<
    ConversionStep,
    ConversionError,
>)
    ensures
        step_view(r) == png_step(output_dir@, file_stem@, encoding),
{
    match encoding {
        Encoding::Written { original_size: Some(original), webp_size: Some(webp) } => {
            if webp < original {
                Ok(move_encoded(output_dir, file_stem, Some(webp)))
            } else {
                Ok(copy_as_is_with_ext(output_dir, file_stem, "png"))
            }
        },
        Encoding::Written { .. } => Err(ConversionError::Unreadable),
        Encoding::Failed => Ok(copy_as_is_with_ext(output_dir, file_stem, "png")),
    }
}

/// How a conversion goes on once the encoder has run, where it is run at all. A file
/// that is kept is stored under `original_ext`, the extension of its MIME type.
pub open spec fn next_step(
    input_path: Seq<char>,
    original_ext: Seq<char>,
    output_dir: Seq<char>,
    file_stem: Seq<char>,
    action: ConversionAction,
    encoding: Encoding,
) -> Result<ConversionStepView, ConversionError> {
    match action {
        ConversionAction::ToWebp => Ok(webp_step(input_path, output_dir, file_stem, encoding)),
        ConversionAction::ToWebpIfSmaller => png_step(output_dir, file_stem, encoding),
        ConversionAction::KeepAsIs => Ok(copying(output_dir, file_stem, original_ext)),
    }
}

/// Decides how a conversion goes on once the encoder has run.
pub fn settle_encoding(
    input_path: &str,
    original_ext: &str,
    output_dir: &str,
    file_stem: &str,
    action: ConversionAction,
    encoding: Encoding,
) -> (r: Result<ConversionStep, ConversionError>)
    ensures
        step_view(r) == next_step(
            input_path@,
            original_ext@,
            output_dir@,
            file_stem@,
            action,
            encoding,
        ),
{
    match action {
        ConversionAction::ToWebp => Ok(
            convert_to_webp(input_path, output_dir, file_stem, encoding),
        ),
        ConversionAction::ToWebpIfSmaller => convert_png_if_smaller(
            output_dir,
            file_stem,
            encoding,
        ),
        ConversionAction::KeepAsIs => Ok(
            copy_as_is_with_ext(output_dir, file_stem, original_ext),
        ),
    }
}

/// The outcome of a conversion whose stored file was put in place or not, and whose
/// size was then read, or not.
pub open spec fn converted(
    step: Result<ConversionStepView, ConversionError>,
    placed: bool,
    placed_size: Option<u64>,
) -> Result<ConversionResultView, ConversionError> {
    match step {
        Err(e) => Err(e),
        Ok(step) => if !placed {
            Err(ConversionError::NotPlaced)
        } else {
            let size = match step.known_size {
                Some(known) => Some(known),
                None => placed_size,
            };
            match size {
                Some(bytes) => Ok(
                    ConversionResultView {
                        final_path: step.final_path,
                        final_mime: step.final_mime,
                        was_converted: step.placement is MoveEncoded,
                        final_size: bytes,
                    },
                ),
                None => Err(ConversionError::Unreadable),
            }
        },
    }
}

/// The model of a fallible conversion.
pub open spec fn result_view(r: Result<ConversionResult, ConversionError>) -> Result<
    ConversionResultView,
    ConversionError,
> {
    match r {
        Ok(done) => Ok(done@),
        Err(e) => Err(e),
    }
}

/// Converts an upload, given what its encoder wrote, whether the stored file could be
/// put in place, and the size that was read of it there.
pub fn convert_file(
    input_path: &str,
    mime: &str,
    original_ext: &str,
    output_dir: &str,
    file_stem: &str,
    ffmpeg_available: bool,
    ffmpeg_webp_available: bool,
    encoding: Encoding,
    placed: bool,
    placed_size: Option<u64>,
) -> (r: Result<ConversionResult, ConversionError>)
    ensures
        result_view(r) == converted(
            next_step(
                input_path@,
                original_ext@,
                output_dir@,
                file_stem@,
                effective_action(mime@, ffmpeg_available, ffmpeg_webp_available),
                encoding,
            ),
            placed,
            placed_size,
        ),
{
    let action = planned_action(mime, ffmpeg_available, ffmpeg_webp_available);
    match settle_encoding(input_path, original_ext, output_dir, file_stem, action, encoding) {
        Err(e) => Err(e),
        Ok(step) => {
            if !placed {
                return Err(ConversionError::NotPlaced);
            }
            let size: Option<u64> = match step.known_size {
                Some(known) => Some(known),
                None => placed_size,
            };
            match size {
                Some(bytes) => Ok(
                    ConversionResult {
                        final_path: step.final_path,
                        final_mime: step.final_mime,
                        was_converted: step.placement == Placement::MoveEncoded,
                        final_size: bytes,
                    },
                ),
                None => Err(ConversionError::Unreadable),
            }
        },
    }
}

/// The name of a temporary file with the extension of its target.
pub open spec fn temp_name(token: Seq<char>, ext: Option<Seq<char>>) -> Seq<char> {
    match ext {
        Some(e) => if e.len() == 0 {
            ".tmp_"@ + token
        } else {
            ".tmp_"@ + token + "."@ + e
        },
        None => ".tmp_"@ + token,
    }
}

/// The path of a temporary file beside its target.
pub open spec fn sibling_path(target: Seq<char>, token: Seq<char>) -> Seq<char> {
    let name = temp_name(token, paths::extension(target));
    match paths::parent(target) {
        Some(dir) => paths::joined_path(dir, name),
        None => name,
    }
}

/// The path of a temporary file beside its target, named by the token. It has the
/// extension of the target, by which an encoder chooses the format.
pub fn sibling(target: &str, token: &str) -> (r: String)
    ensures
        r@ == sibling_path(target@, token@),
{
    let mut name = concat(".tmp_", token);
    match path_extension(target) {
        Some(e) => {
            if !e.as_str().is_empty() {
                name.append(".");
                name.append(e.as_str());
            }
        },
        None => {},
    }
    match path_parent(target) {
        Some(dir) => join_path(dir.as_str(), name.as_str()),
        None => name,
    }
}

/// Whether a text can be the plain form of a random identifier.
pub open spec fn is_token(token: Seq<char>) -> bool {
    token.len() == 32 && forall|i: int| 0 <= i < 32 ==> text::is_hex_digit(#[trigger] token[i])
}

/// `uuid::Uuid::new_v4` and `uuid::Uuid::simple`: the 32 hexadecimal digits of a random
/// identifier.
#[verifier::external_body]
fn fresh_token() -> (r: String)
    ensures
        is_token(r@),
{
    uuid::Uuid::new_v4().simple().to_string()
}

/// A fresh path for a temporary file beside its target.
pub fn temp_sibling(target: &str) -> (r: String)
    ensures
        exists|token: Seq<char>| #[trigger]
            is_token(token) && r@ == sibling_path(target@, token),
{
    let token = fresh_token();
    sibling(target, token.as_str())
}

/// Without both encoders every upload is stored unconverted.
pub proof fn law_nothing_is_converted_without_encoders(
    input_path: Seq<char>,
    mime: Seq<char>,
    original_ext: Seq<char>,
    output_dir: Seq<char>,
    file_stem: Seq<char>,
    ffmpeg_available: bool,
    ffmpeg_webp_available: bool,
    encoding: Encoding,
)
    requires
        !ffmpeg_available || !ffmpeg_webp_available,
    ensures
        next_step(
            input_path,
            original_ext,
            output_dir,
            file_stem,
            effective_action(mime, ffmpeg_available, ffmpeg_webp_available),
            encoding,
        ) == Ok::<ConversionStepView, ConversionError>(
            copying(output_dir, file_stem, original_ext),
        ),
{
}

/// An encoder that fails never fails the upload: the upload itself is stored, and the
/// conversion succeeds wherever it could be put in place and its size read.
pub proof fn law_encoder_failures_keep_the_upload(
    input_path: Seq<char>,
    original_ext: Seq<char>,
    output_dir: Seq<char>,
    file_stem: Seq<char>,
    action: ConversionAction,
    size: u64,
)
    ensures
        ({
            let step = next_step(
                input_path,
                original_ext,
                output_dir,
                file_stem,
                action,
                Encoding::Failed,
            );
            let done = converted(step, true, Some(size));
            &&& step is Ok
            &&& step->Ok_0.placement is CopyUpload
            &&& done is Ok
            &&& !done->Ok_0.was_converted
            &&& done->Ok_0.final_size == size
        }),
{
}

/// A PNG upload never grows: what is stored is not larger than the upload, where the
/// stored copy has the size of the upload.
pub proof fn law_png_never_grows(
    output_dir: Seq<char>,
    file_stem: Seq<char>,
    original: u64,
    webp: u64,
    placed: bool,
)
    ensures
        ({
            let encoding = Encoding::Written {
                original_size: Some(original),
                webp_size: Some(webp),
            };
            let step = png_step(output_dir, file_stem, encoding);
            converted(step, placed, Some(original)) matches Ok(done) ==> {
                &&& done.final_size <= original
                &&& done.was_converted == (webp < original)
            }
        }),
{
}

/// The MIME type of a stored file is that of the extension it is stored under.
pub proof fn law_stored_mime_matches_extension(
    input_path: Seq<char>,
    original_ext: Seq<char>,
    output_dir: Seq<char>,
    file_stem: Seq<char>,
    action: ConversionAction,
    encoding: Encoding,
)
    ensures
        next_step(
            input_path,
            original_ext,
            output_dir,
            file_stem,
            action,
            encoding,
        ) matches Ok(step) ==> exists|ext: Seq<char>|
            step.final_path == #[trigger] stored_path(output_dir, file_stem, ext)
                && step.final_mime == extension_mime(ext),
{
    reveal_strlit("webp");
    reveal_strlit("jpg");
    reveal_strlit("jpeg");
    reveal_strlit("png");
    reveal_strlit("gif");
    reveal_strlit("heic");
    reveal_strlit("heif");
    reveal_strlit("bmp");
    reveal_strlit("tiff");
    reveal_strlit("tif");
    let step = next_step(input_path, original_ext, output_dir, file_stem, action, encoding);
    if step is Ok {
        assert(step->Ok_0.placement is MoveEncoded ==> step->Ok_0.final_path == stored_path(
            output_dir,
            file_stem,
            "webp"@,
        ));
        assert("webp"@.len() == 4 && "heic"@.len() == 4 && "heif"@.len() == 4 && "tiff"@.len() == 4
            && "jpeg"@.len() == 4);
        assert("webp"@[0] == 'w' && "heic"@[0] == 'h' && "heif"@[0] == 'h' && "tiff"@[0] == 't'
            && "jpeg"@[0] == 'j');
        assert(extension_mime("webp"@) == "image/webp"@);
    }
}

/// Every supported type has its own extension, and a file that is stored under it is of
/// that type; what is stored under any other extension is of no known type.
pub proof fn law_extensions_stand_for_their_types(ext: Seq<char>)
    ensures
        ext == "jpg"@ ==> extension_mime(ext) == "image/jpeg"@,
        ext == "jpeg"@ ==> extension_mime(ext) == "image/jpeg"@,
        ext == "png"@ ==> extension_mime(ext) == "image/png"@,
        ext == "gif"@ ==> extension_mime(ext) == "image/gif"@,
        ext == "heic"@ ==> extension_mime(ext) == "image/heic"@,
        ext == "heif"@ ==> extension_mime(ext) == "image/heif"@,
        ext == "bmp"@ ==> extension_mime(ext) == "image/bmp"@,
        ext == "tiff"@ ==> extension_mime(ext) == "image/tiff"@,
        ext == "tif"@ ==> extension_mime(ext) == "image/tiff"@,
        ext == "webp"@ ==> extension_mime(ext) == "image/webp"@,
        ext == "svg"@ ==> extension_mime(ext) == "image/svg+xml"@,
        ext == "pdf"@ ==> extension_mime(ext) == "application/pdf"@,
        ext == "webm"@ ==> extension_mime(ext) == "video/webm"@,
        ext == "mp4"@ ==> extension_mime(ext) == "video/mp4"@,
        ext == "mp3"@ ==> extension_mime(ext) == "audio/mpeg"@,
        ext == "ogg"@ ==> extension_mime(ext) == "audio/ogg"@,
        ext == "flac"@ ==> extension_mime(ext) == "audio/flac"@,
        ext == "wav"@ ==> extension_mime(ext) == "audio/wav"@,
        ext == "m4a"@ ==> extension_mime(ext) == "audio/mp4"@,
        ext == "aac"@ ==> extension_mime(ext) == "audio/aac"@,
        ext != "jpg"@ && ext != "jpeg"@ && ext != "png"@ && ext != "gif"@ && ext != "heic"@ && ext != "heif"@ && ext != "bmp"@ && ext != "tiff"@ && ext != "tif"@ && ext != "webp"@ && ext != "svg"@ && ext != "pdf"@ && ext != "webm"@ && ext != "mp4"@ && ext != "mp3"@ && ext != "ogg"@ && ext != "flac"@ && ext != "wav"@ && ext != "m4a"@ && ext != "aac"@
            ==> extension_mime(ext) == "application/octet-stream"@,
{
    reveal_strlit("jpg");
    reveal_strlit("jpeg");
    reveal_strlit("png");
    reveal_strlit("gif");
    reveal_strlit("heic");
    reveal_strlit("heif");
    reveal_strlit("bmp");
    reveal_strlit("tiff");
    reveal_strlit("tif");
    reveal_strlit("webp");
    reveal_strlit("svg");
    reveal_strlit("pdf");
    reveal_strlit("webm");
    reveal_strlit("mp4");
    reveal_strlit("mp3");
    reveal_strlit("ogg");
    reveal_strlit("flac");
    reveal_strlit("wav");
    reveal_strlit("m4a");
    reveal_strlit("aac");
    assert("jpg"@.len() == 3 && "jpg"@[0] == 'j' && "jpg"@[1] == 'p' && "jpg"@[2] == 'g');
    assert("jpeg"@.len() == 4 && "jpeg"@[0] == 'j' && "jpeg"@[1] == 'p' && "jpeg"@[2] == 'e'
        && "jpeg"@[3] == 'g');
    assert("png"@.len() == 3 && "png"@[0] == 'p' && "png"@[1] == 'n' && "png"@[2] == 'g');
    assert("gif"@.len() == 3 && "gif"@[0] == 'g' && "gif"@[1] == 'i' && "gif"@[2] == 'f');
    assert("heic"@.len() == 4 && "heic"@[0] == 'h' && "heic"@[1] == 'e' && "heic"@[2] == 'i'
        && "heic"@[3] == 'c');
    assert("heif"@.len() == 4 && "heif"@[0] == 'h' && "heif"@[1] == 'e' && "heif"@[2] == 'i'
        && "heif"@[3] == 'f');
    assert("bmp"@.len() == 3 && "bmp"@[0] == 'b' && "bmp"@[1] == 'm' && "bmp"@[2] == 'p');
    assert("tiff"@.len() == 4 && "tiff"@[0] == 't' && "tiff"@[1] == 'i' && "tiff"@[2] == 'f'
        && "tiff"@[3] == 'f');
    assert("tif"@.len() == 3 && "tif"@[0] == 't' && "tif"@[1] == 'i' && "tif"@[2] == 'f');
    assert("webp"@.len() == 4 && "webp"@[0] == 'w' && "webp"@[1] == 'e' && "webp"@[2] == 'b'
        && "webp"@[3] == 'p');
    assert("svg"@.len() == 3 && "svg"@[0] == 's' && "svg"@[1] == 'v' && "svg"@[2] == 'g');
    assert("pdf"@.len() == 3 && "pdf"@[0] == 'p' && "pdf"@[1] == 'd' && "pdf"@[2] == 'f');
    assert("webm"@.len() == 4 && "webm"@[0] == 'w' && "webm"@[1] == 'e' && "webm"@[2] == 'b'
        && "webm"@[3] == 'm');
    assert("mp4"@.len() == 3 && "mp4"@[0] == 'm' && "mp4"@[1] == 'p' && "mp4"@[2] == '4');
    assert("mp3"@.len() == 3 && "mp3"@[0] == 'm' && "mp3"@[1] == 'p' && "mp3"@[2] == '3');
    assert("ogg"@.len() == 3 && "ogg"@[0] == 'o' && "ogg"@[1] == 'g' && "ogg"@[2] == 'g');
    assert("flac"@.len() == 4 && "flac"@[0] == 'f' && "flac"@[1] == 'l' && "flac"@[2] == 'a'
        && "flac"@[3] == 'c');
    assert("wav"@.len() == 3 && "wav"@[0] == 'w' && "wav"@[1] == 'a' && "wav"@[2] == 'v');
    assert("m4a"@.len() == 3 && "m4a"@[0] == 'm' && "m4a"@[1] == '4' && "m4a"@[2] == 'a');
    assert("aac"@.len() == 3 && "aac"@[0] == 'a' && "aac"@[1] == 'a' && "aac"@[2] == 'c');
}

/// Exactly seven types of images are ever converted: six of them always, and PNG where
/// that is smaller. All other types are kept as they are.
pub proof fn law_only_images_of_other_formats_are_converted(
    mime: Seq<char>,
    ffmpeg_available: bool,
    ffmpeg_webp_available: bool,
)
    ensures
        ({
            let action = effective_action(mime, ffmpeg_available, ffmpeg_webp_available);
            let able = ffmpeg_available && ffmpeg_webp_available;
            &&& action is ToWebp <==> able && (mime == "image/jpeg"@ || mime == "image/heic"@
                || mime == "image/heif"@ || mime == "image/bmp"@ || mime == "image/tiff"@ || mime
                == "image/gif"@)
            &&& action is ToWebpIfSmaller <==> able && mime == "image/png"@
        }),
{
    reveal_strlit("image/jpeg");
    reveal_strlit("image/heic");
    reveal_strlit("image/heif");
    reveal_strlit("image/bmp");
    reveal_strlit("image/tiff");
    reveal_strlit("image/gif");
    reveal_strlit("image/png");
    assert("image/jpeg"@.len() == 10 && "image/jpeg"@[0] == 'i' && "image/jpeg"@[1] == 'm'
        && "image/jpeg"@[2] == 'a' && "image/jpeg"@[3] == 'g' && "image/jpeg"@[4] == 'e'
        && "image/jpeg"@[5] == '/' && "image/jpeg"@[6] == 'j' && "image/jpeg"@[7] == 'p'
        && "image/jpeg"@[8] == 'e' && "image/jpeg"@[9] == 'g');
    assert("image/heic"@.len() == 10 && "image/heic"@[0] == 'i' && "image/heic"@[1] == 'm'
        && "image/heic"@[2] == 'a' && "image/heic"@[3] == 'g' && "image/heic"@[4] == 'e'
        && "image/heic"@[5] == '/' && "image/heic"@[6] == 'h' && "image/heic"@[7] == 'e'
        && "image/heic"@[8] == 'i' && "image/heic"@[9] == 'c');
    assert("image/heif"@.len() == 10 && "image/heif"@[0] == 'i' && "image/heif"@[1] == 'm'
        && "image/heif"@[2] == 'a' && "image/heif"@[3] == 'g' && "image/heif"@[4] == 'e'
        && "image/heif"@[5] == '/' && "image/heif"@[6] == 'h' && "image/heif"@[7] == 'e'
        && "image/heif"@[8] == 'i' && "image/heif"@[9] == 'f');
    assert("image/bmp"@.len() == 9 && "image/bmp"@[0] == 'i' && "image/bmp"@[1] == 'm'
        && "image/bmp"@[2] == 'a' && "image/bmp"@[3] == 'g' && "image/bmp"@[4] == 'e'
        && "image/bmp"@[5] == '/' && "image/bmp"@[6] == 'b' && "image/bmp"@[7] == 'm'
        && "image/bmp"@[8] == 'p');
    assert("image/tiff"@.len() == 10 && "image/tiff"@[0] == 'i' && "image/tiff"@[1] == 'm'
        && "image/tiff"@[2] == 'a' && "image/tiff"@[3] == 'g' && "image/tiff"@[4] == 'e'
        && "image/tiff"@[5] == '/' && "image/tiff"@[6] == 't' && "image/tiff"@[7] == 'i'
        && "image/tiff"@[8] == 'f' && "image/tiff"@[9] == 'f');
    assert("image/gif"@.len() == 9 && "image/gif"@[0] == 'i' && "image/gif"@[1] == 'm'
        && "image/gif"@[2] == 'a' && "image/gif"@[3] == 'g' && "image/gif"@[4] == 'e'
        && "image/gif"@[5] == '/' && "image/gif"@[6] == 'g' && "image/gif"@[7] == 'i'
        && "image/gif"@[8] == 'f');
    assert("image/png"@.len() == 9 && "image/png"@[0] == 'i' && "image/png"@[1] == 'm'
        && "image/png"@[2] == 'a' && "image/png"@[3] == 'g' && "image/png"@[4] == 'e'
        && "image/png"@[5] == '/' && "image/png"@[6] == 'p' && "image/png"@[7] == 'n'
        && "image/png"@[8] == 'g');
}

/// An image whose encoding failed is stored under the extension of its own format, as a
/// file of that format; where the upload has no known extension, as a file of no known
/// type.
pub proof fn law_failed_encodings_keep_the_format(
    input_path: Seq<char>,
    output_dir: Seq<char>,
    file_stem: Seq<char>,
    original_ext: Seq<char>,
)
    ensures
        ({
            let step = next_step(
                input_path,
                original_ext,
                output_dir,
                file_stem,
                ConversionAction::ToWebp,
                Encoding::Failed,
            );
            let ext = paths::extension(input_path);
            let kept = |stored: Seq<char>, mime: Seq<char>|
                {
                    &&& step is Ok
                    &&& step->Ok_0.placement is CopyUpload
                    &&& step->Ok_0.final_path == paths::joined_path(
                        output_dir,
                        file_stem + "."@ + stored,
                    )
                    &&& step->Ok_0.final_mime == mime
                    &&& step->Ok_0.known_size is None
                };
            &&& ext == Some("jpg"@) ==> kept("jpg"@, "image/jpeg"@)
            &&& ext == Some("jpeg"@) ==> kept("jpg"@, "image/jpeg"@)
            &&& ext == Some("png"@) ==> kept("png"@, "image/png"@)
            &&& ext == Some("gif"@) ==> kept("gif"@, "image/gif"@)
            &&& ext == Some("heic"@) ==> kept("heic"@, "image/heic"@)
            &&& ext == Some("heif"@) ==> kept("heif"@, "image/heif"@)
            &&& ext == Some("bmp"@) ==> kept("bmp"@, "image/bmp"@)
            &&& ext == Some("tiff"@) ==> kept("tiff"@, "image/tiff"@)
            &&& ext == Some("tif"@) ==> kept("tiff"@, "image/tiff"@)
            &&& ext == Some("webp"@) ==> kept("webp"@, "image/webp"@)
            &&& ext == Some("webm"@) ==> kept("webm"@, "video/webm"@)
            &&& ext == Some("svg"@) ==> kept("svg"@, "image/svg+xml"@)
            &&& ext == Some("pdf"@) ==> kept("pdf"@, "application/pdf"@)
            &&& ext is None ==> kept("bin"@, "application/octet-stream"@)
        }),
{
    law_extensions_stand_for_their_types(kept_extension(paths::extension(input_path)));
    law_extensions_stand_for_their_types("bin"@);
    reveal_strlit("jpg");
    reveal_strlit("jpeg");
    reveal_strlit("png");
    reveal_strlit("gif");
    reveal_strlit("heic");
    reveal_strlit("heif");
    reveal_strlit("bmp");
    reveal_strlit("tiff");
    reveal_strlit("tif");
    reveal_strlit("webp");
    reveal_strlit("svg");
    reveal_strlit("pdf");
    reveal_strlit("webm");
    reveal_strlit("mp4");
    reveal_strlit("mp3");
    reveal_strlit("ogg");
    reveal_strlit("flac");
    reveal_strlit("wav");
    reveal_strlit("m4a");
    reveal_strlit("aac");
    reveal_strlit("bin");
    assert("jpg"@.len() == 3 && "jpg"@[0] == 'j' && "jpg"@[1] == 'p' && "jpg"@[2] == 'g');
    assert("jpeg"@.len() == 4 && "jpeg"@[0] == 'j' && "jpeg"@[1] == 'p' && "jpeg"@[2] == 'e'
        && "jpeg"@[3] == 'g');
    assert("png"@.len() == 3 && "png"@[0] == 'p' && "png"@[1] == 'n' && "png"@[2] == 'g');
    assert("gif"@.len() == 3 && "gif"@[0] == 'g' && "gif"@[1] == 'i' && "gif"@[2] == 'f');
    assert("heic"@.len() == 4 && "heic"@[0] == 'h' && "heic"@[1] == 'e' && "heic"@[2] == 'i'
        && "heic"@[3] == 'c');
    assert("heif"@.len() == 4 && "heif"@[0] == 'h' && "heif"@[1] == 'e' && "heif"@[2] == 'i'
        && "heif"@[3] == 'f');
    assert("bmp"@.len() == 3 && "bmp"@[0] == 'b' && "bmp"@[1] == 'm' && "bmp"@[2] == 'p');
    assert("tiff"@.len() == 4 && "tiff"@[0] == 't' && "tiff"@[1] == 'i' && "tiff"@[2] == 'f'
        && "tiff"@[3] == 'f');
    assert("tif"@.len() == 3 && "tif"@[0] == 't' && "tif"@[1] == 'i' && "tif"@[2] == 'f');
    assert("webp"@.len() == 4 && "webp"@[0] == 'w' && "webp"@[1] == 'e' && "webp"@[2] == 'b'
        && "webp"@[3] == 'p');
    assert("svg"@.len() == 3 && "svg"@[0] == 's' && "svg"@[1] == 'v' && "svg"@[2] == 'g');
    assert("pdf"@.len() == 3 && "pdf"@[0] == 'p' && "pdf"@[1] == 'd' && "pdf"@[2] == 'f');
    assert("webm"@.len() == 4 && "webm"@[0] == 'w' && "webm"@[1] == 'e' && "webm"@[2] == 'b'
        && "webm"@[3] == 'm');
    assert("mp4"@.len() == 3 && "mp4"@[0] == 'm' && "mp4"@[1] == 'p' && "mp4"@[2] == '4');
    assert("mp3"@.len() == 3 && "mp3"@[0] == 'm' && "mp3"@[1] == 'p' && "mp3"@[2] == '3');
    assert("ogg"@.len() == 3 && "ogg"@[0] == 'o' && "ogg"@[1] == 'g' && "ogg"@[2] == 'g');
    assert("flac"@.len() == 4 && "flac"@[0] == 'f' && "flac"@[1] == 'l' && "flac"@[2] == 'a'
        && "flac"@[3] == 'c');
    assert("wav"@.len() == 3 && "wav"@[0] == 'w' && "wav"@[1] == 'a' && "wav"@[2] == 'v');
    assert("m4a"@.len() == 3 && "m4a"@[0] == 'm' && "m4a"@[1] == '4' && "m4a"@[2] == 'a');
    assert("aac"@.len() == 3 && "aac"@[0] == 'a' && "aac"@[1] == 'a' && "aac"@[2] == 'c');
    assert("bin"@.len() == 3 && "bin"@[0] == 'b' && "bin"@[1] == 'i' && "bin"@[2] == 'n');
}

/// What becomes of an upload that an encoder was run on: the WebP file is stored where it
/// was written, of a PNG only where it is the smaller of the two, and its size is then
/// known; else the PNG itself.
pub proof fn law_encoded_uploads_are_stored_as_webp(
    input_path: Seq<char>,
    original_ext: Seq<char>,
    output_dir: Seq<char>,
    file_stem: Seq<char>,
    original: u64,
    webp: u64,
    placed_size: Option<u64>,
)
    ensures
        ({
            let encoding = Encoding::Written {
                original_size: Some(original),
                webp_size: Some(webp),
            };
            let always = converted(
                next_step(
                    input_path,
                    original_ext,
                    output_dir,
                    file_stem,
                    ConversionAction::ToWebp,
                    encoding,
                ),
                true,
                placed_size,
            );
            let smaller = converted(
                next_step(
                    input_path,
                    original_ext,
                    output_dir,
                    file_stem,
                    ConversionAction::ToWebpIfSmaller,
                    encoding,
                ),
                true,
                placed_size,
            );
            let stored = |ext: Seq<char>, mime: Seq<char>, was_converted: bool, size: u64|
                Ok::<ConversionResultView, ConversionError>(
                    ConversionResultView {
                        final_path: paths::joined_path(output_dir, file_stem + "."@ + ext),
                        final_mime: mime,
                        was_converted,
                        final_size: size,
                    },
                );
            &&& placed_size is Some ==> always == stored(
                "webp"@,
                "image/webp"@,
                true,
                placed_size->Some_0,
            )
            &&& webp < original ==> smaller == stored("webp"@, "image/webp"@, true, webp)
            &&& webp >= original && placed_size is Some ==> smaller == stored(
                "png"@,
                "image/png"@,
                false,
                placed_size->Some_0,
            )
            &&& placed_size is None ==> always == Err::<ConversionResultView, ConversionError>(
                ConversionError::Unreadable,
            )
        }),
{
    law_extensions_stand_for_their_types("png"@);
}

/// A conversion fails only for the sizes of files and the place of the result: it never
/// succeeds where the file was not put in place.
pub proof fn law_conversions_fail_for_files_only(
    step: Result<ConversionStepView, ConversionError>,
    placed: bool,
    placed_size: Option<u64>,
)
    ensures
        converted(step, placed, placed_size) is Ok <==> step is Ok && placed && (
        step->Ok_0.known_size is Some || placed_size is Some),
        step is Ok && !placed ==> converted(step, placed, placed_size) == Err::<
            ConversionResultView,
            ConversionError,
        >(ConversionError::NotPlaced),
        step is Err ==> converted(step, placed, placed_size) == Err::<
            ConversionResultView,
            ConversionError,
        >(step->Err_0),
{
}

/// A temporary file stands in the directory of its target, under a name that begins with
/// a dot and has the extension of the target.
pub proof fn law_temporary_files_stand_beside_their_target(
    target: Seq<char>,
    token: Seq<char>,
)
    requires
        is_token(token),
    ensures
        ({
            let path = sibling_path(target, token);
            let ext = paths::extension(target);
            let name = ".tmp_"@ + token + if ext is Some && ext->Some_0.len() > 0 {
                "."@ + ext->Some_0
            } else {
                Seq::empty()
            };
            path == match paths::parent(target) {
                Some(dir) => paths::joined_path(dir, name),
                None => name,
            }
        }),
{
    let ext = paths::extension(target);
    let short = ".tmp_"@ + token;
    assert(short + Seq::<char>::empty() =~= short);
    if ext is Some {
        assert(short + ("."@ + ext->Some_0) =~= short + "."@ + ext->Some_0);
    }
}

} // verus!
