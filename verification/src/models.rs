//! The records of an imageboard, and the rules that belong to them.

use vstd::prelude::*;
use vstd::string::*;
use crate::text;
use crate::text::{starts_with, str_eq};

verus! {

/// What an uploaded file is.
#[derive(Debug, Clone, Copy, PartialEq, Eq, Structural)]
pub enum MediaType {
    /// A picture, still or animated.
    Image,
    /// A video.
    Video,
    /// A sound.
    Audio,
    /// A PDF document.
    Pdf,
    /// Anything else.
    Other,
}

impl MediaType {
    /// The text that the database holds for the value.
    pub open spec fn db_text(self) -> Seq<char> {
        match self {
            MediaType::Image => "image"@,
            MediaType::Video => "video"@,
            MediaType::Audio => "audio"@,
            MediaType::Pdf => "pdf"@,
            MediaType::Other => "other"@,
        }
    }

    /// The value that the database means by a text.
    pub open spec fn of_db_text(s: Seq<char>) -> Option<MediaType> {
        if s == "image"@ {
            Some(MediaType::Image)
        } else if s == "video"@ {
            Some(MediaType::Video)
        } else if s == "audio"@ {
            Some(MediaType::Audio)
        } else if s == "pdf"@ {
            Some(MediaType::Pdf)
        } else if s == "other"@ {
            Some(MediaType::Other)
        } else {
            None
        }
    }

    /// The text that the database holds for the value.
    pub fn as_str(self) -> (r: &'static str)
        ensures
            r@ == self.db_text(),
    {
        match self {
            MediaType::Image => "image",
            MediaType::Video => "video",
            MediaType::Audio => "audio",
            MediaType::Pdf => "pdf",
            MediaType::Other => "other",
        }
    }

    /// The text of the value as it is shown.
    pub fn display(self) -> (r: String)
        ensures
            r@ == self.db_text(),
    {
        self.as_str().to_owned()
    }

    /// The value that the database means by a text; nothing where it means none.
    pub fn from_db_str(s: &str) -> (r: Option<MediaType>)
        ensures
            r == MediaType::of_db_text(s@),
    {
        if str_eq(s, "image") {
            Some(MediaType::Image)
        } else if str_eq(s, "video") {
            Some(MediaType::Video)
        } else if str_eq(s, "audio") {
            Some(MediaType::Audio)
        } else if str_eq(s, "pdf") {
            Some(MediaType::Pdf)
        } else if str_eq(s, "other") {
            Some(MediaType::Other)
        } else {
            None
        }
    }
}

/// The database form of a value is read back as that value, and no other text is.
pub proof fn law_media_type_round_trip(value: MediaType, s: Seq<char>)
    ensures
        MediaType::of_db_text(value.db_text()) == Some(value),
        MediaType::of_db_text(s) == Some(value) <==> s == value.db_text(),
{
    reveal_strlit("image");
    reveal_strlit("video");
    reveal_strlit("audio");
    reveal_strlit("pdf");
    reveal_strlit("other");
    assert("image"@[0] != "video"@[0]);
    assert("image"@[0] != "audio"@[0]);
    assert("image"@.len() != "pdf"@.len());
    assert("image"@[0] != "other"@[0]);
    assert("video"@[0] != "audio"@[0]);
    assert("video"@.len() != "pdf"@.len());
    assert("video"@[0] != "other"@[0]);
    assert("audio"@.len() != "pdf"@.len());
    assert("audio"@[0] != "other"@[0]);
    assert("pdf"@.len() != "other"@.len());
}

impl MediaType {
    /// What a file of the given MIME type is.
    pub open spec fn of_mime(mime: Seq<char>) -> MediaType {
        if text::begins(mime, "image/"@) {
            MediaType::Image
        } else if text::begins(mime, "video/"@) {
            MediaType::Video
        } else if text::begins(mime, "audio/"@) {
            MediaType::Audio
        } else if mime == "application/pdf"@ {
            MediaType::Pdf
        } else {
            MediaType::Other
        }
    }

    /// What a file of the given MIME type is.
    pub fn from_mime(mime: &str) -> (r: MediaType)
        ensures
            r == MediaType::of_mime(mime@),
    {
        if starts_with(mime, "image/") {
            MediaType::Image
        } else if starts_with(mime, "video/") {
            MediaType::Video
        } else if starts_with(mime, "audio/") {
            MediaType::Audio
        } else if str_eq(mime, "application/pdf") {
            MediaType::Pdf
        } else {
            MediaType::Other
        }
    }

    /// What a file with the given extension is, written in lower case without a dot.
    pub open spec fn of_ext(ext: Seq<char>) -> MediaType {
        if ext == "jpg"@ || ext == "jpeg"@ || ext == "png"@ || ext == "gif"@ || ext == "webp"@
            || ext == "heic"@ || ext == "heif"@ || ext == "bmp"@ || ext == "tiff"@ || ext == "tif"@
            || ext == "svg"@ {
            MediaType::Image
        } else if ext == "mp4"@ || ext == "webm"@ || ext == "mkv"@ {
            MediaType::Video
        } else if ext == "mp3"@ || ext == "ogg"@ || ext == "flac"@ || ext == "wav"@ || ext == "m4a"@
            || ext == "aac"@ || ext == "opus"@ {
            MediaType::Audio
        } else if ext == "pdf"@ {
            MediaType::Pdf
        } else {
            MediaType::Other
        }
    }

    /// What a file with the given extension is, written in lower case without a dot.
    pub fn from_ext(ext: &str) -> (r: MediaType)
        ensures
            r == MediaType::of_ext(ext@),
    {
        if str_eq(ext, "jpg") || str_eq(ext, "jpeg") || str_eq(ext, "png") || str_eq(ext, "gif")
            || str_eq(ext, "webp") || str_eq(ext, "heic") || str_eq(ext, "heif") || str_eq(ext, "bmp")
            || str_eq(ext, "tiff") || str_eq(ext, "tif") || str_eq(ext, "svg") {
            MediaType::Image
        } else if str_eq(ext, "mp4") || str_eq(ext, "webm") || str_eq(ext, "mkv") {
            MediaType::Video
        } else if str_eq(ext, "mp3") || str_eq(ext, "ogg") || str_eq(ext, "flac") || str_eq(
            ext,
            "wav",
        ) || str_eq(ext, "m4a") || str_eq(ext, "aac") || str_eq(ext, "opus") {
            MediaType::Audio
        } else if str_eq(ext, "pdf") {
            MediaType::Pdf
        } else {
            MediaType::Other
        }
    }
}

/// Who may see a board and post to it.
#[derive(Debug, Clone, Copy, PartialEq, Eq, Structural)]
pub enum BoardAccessMode {
    /// Anyone may see the board and post to it.
    Public,
    /// The board is seen only with its password.
    ViewPassword,
    /// The board is posted to only with its password.
    PostPassword,
}

impl BoardAccessMode {
    /// The text that the database holds for the value.
    pub open spec fn db_text(self) -> Seq<char> {
        match self {
            BoardAccessMode::Public => "public"@,
            BoardAccessMode::ViewPassword => "view_password"@,
            BoardAccessMode::PostPassword => "post_password"@,
        }
    }

    /// The value that the database means by a text.
    pub open spec fn of_db_text(s: Seq<char>) -> Option<BoardAccessMode> {
        if s == "public"@ {
            Some(BoardAccessMode::Public)
        } else if s == "view_password"@ {
            Some(BoardAccessMode::ViewPassword)
        } else if s == "post_password"@ {
            Some(BoardAccessMode::PostPassword)
        } else {
            None
        }
    }

    /// The text that the database holds for the value.
    pub fn as_str(self) -> (r: &'static str)
        ensures
            r@ == self.db_text(),
    {
        match self {
            BoardAccessMode::Public => "public",
            BoardAccessMode::ViewPassword => "view_password",
            BoardAccessMode::PostPassword => "post_password",
        }
    }

    /// The text of the value as it is shown.
    pub fn display(self) -> (r: String)
        ensures
            r@ == self.db_text(),
    {
        self.as_str().to_owned()
    }

    /// The value that the database means by a text; nothing where it means none.
    pub fn from_db_str(s: &str) -> (r: Option<BoardAccessMode>)
        ensures
            r == BoardAccessMode::of_db_text(s@),
    {
        if str_eq(s, "public") {
            Some(BoardAccessMode::Public)
        } else if str_eq(s, "view_password") {
            Some(BoardAccessMode::ViewPassword)
        } else if str_eq(s, "post_password") {
            Some(BoardAccessMode::PostPassword)
        } else {
            None
        }
    }
}

impl Default for BoardAccessMode {
    fn default() -> (r: Self)
        ensures
            r == BoardAccessMode::Public,
    {
        BoardAccessMode::Public
    }
}

/// The database form of a value is read back as that value, and no other text is.
pub proof fn law_board_access_mode_round_trip(value: BoardAccessMode, s: Seq<char>)
    ensures
        BoardAccessMode::of_db_text(value.db_text()) == Some(value),
        BoardAccessMode::of_db_text(s) == Some(value) <==> s == value.db_text(),
{
    reveal_strlit("public");
    reveal_strlit("view_password");
    reveal_strlit("post_password");
    assert("public"@.len() != "view_password"@.len());
    assert("public"@.len() != "post_password"@.len());
    assert("view_password"@[0] != "post_password"@[0]);
}

impl BoardAccessMode {
    /// Whether the board is seen only with its password.
    pub fn requires_view_password(self) -> (r: bool)
        ensures
            r == (self is ViewPassword),
    {
        match self {
            BoardAccessMode::ViewPassword => true,
            _ => false,
        }
    }

    /// Whether the password protects seeing the board or posting to it.
    pub fn is_password_protected(self) -> (r: bool)
        ensures
            r == !(self is Public),
    {
        match self {
            BoardAccessMode::Public => false,
            _ => true,
        }
    }

    /// Whether the board has to be unlocked before it is posted to.
    pub fn requires_unlock_for_posting(self) -> (r: bool)
        ensures
            r == !(self is Public),
    {
        self.is_password_protected()
    }

    /// Whether the board is posted to only with its password.
    pub fn requires_post_password(self) -> (r: bool)
        ensures
            r == !(self is Public),
    {
        self.requires_unlock_for_posting()
    }
}

/// Where a board has its banners from.
#[derive(Debug, Clone, Copy, PartialEq, Eq, Structural)]
pub enum BoardBannerMode {
    /// From the site.
    Inherit,
    /// The board shows no banners.
    NoBanners,
    /// From the board itself.
    Override,
}

impl BoardBannerMode {
    /// The text that the database holds for the value.
    pub open spec fn db_text(self) -> Seq<char> {
        match self {
            BoardBannerMode::Inherit => "inherit"@,
            BoardBannerMode::NoBanners => "none"@,
            BoardBannerMode::Override => "override"@,
        }
    }

    /// The value that the database means by a text.
    pub open spec fn of_db_text(s: Seq<char>) -> Option<BoardBannerMode> {
        if s == "inherit"@ {
            Some(BoardBannerMode::Inherit)
        } else if s == "none"@ {
            Some(BoardBannerMode::NoBanners)
        } else if s == "override"@ {
            Some(BoardBannerMode::Override)
        } else {
            None
        }
    }

    /// The text that the database holds for the value.
    pub fn as_str(self) -> (r: &'static str)
        ensures
            r@ == self.db_text(),
    {
        match self {
            BoardBannerMode::Inherit => "inherit",
            BoardBannerMode::NoBanners => "none",
            BoardBannerMode::Override => "override",
        }
    }

    /// The text of the value as it is shown.
    pub fn display(self) -> (r: String)
        ensures
            r@ == self.db_text(),
    {
        self.as_str().to_owned()
    }

    /// The value that the database means by a text; nothing where it means none.
    pub fn from_db_str(s: &str) -> (r: Option<BoardBannerMode>)
        ensures
            r == BoardBannerMode::of_db_text(s@),
    {
        if str_eq(s, "inherit") {
            Some(BoardBannerMode::Inherit)
        } else if str_eq(s, "none") {
            Some(BoardBannerMode::NoBanners)
        } else if str_eq(s, "override") {
            Some(BoardBannerMode::Override)
        } else {
            None
        }
    }
}

impl Default for BoardBannerMode {
    fn default() -> (r: Self)
        ensures
            r == BoardBannerMode::Inherit,
    {
        BoardBannerMode::Inherit
    }
}

/// The database form of a value is read back as that value, and no other text is.
pub proof fn law_board_banner_mode_round_trip(value: BoardBannerMode, s: Seq<char>)
    ensures
        BoardBannerMode::of_db_text(value.db_text()) == Some(value),
        BoardBannerMode::of_db_text(s) == Some(value) <==> s == value.db_text(),
{
    reveal_strlit("inherit");
    reveal_strlit("none");
    reveal_strlit("override");
    assert("inherit"@.len() != "none"@.len());
    assert("inherit"@.len() != "override"@.len());
    assert("none"@.len() != "override"@.len());
}

/// Where a banner may appear.
#[derive(Debug, Clone, Copy, PartialEq, Eq, Structural)]
pub enum BannerScope {
    /// Anywhere on the site.
    Global,
    /// On one board.
    Board,
    /// On the home page.
    Home,
}

impl BannerScope {
    /// The text that the database holds for the value.
    pub open spec fn db_text(self) -> Seq<char> {
        match self {
            BannerScope::Global => "global"@,
            BannerScope::Board => "board"@,
            BannerScope::Home => "home"@,
        }
    }

    /// The value that the database means by a text.
    pub open spec fn of_db_text(s: Seq<char>) -> Option<BannerScope> {
        if s == "global"@ {
            Some(BannerScope::Global)
        } else if s == "board"@ {
            Some(BannerScope::Board)
        } else if s == "home"@ {
            Some(BannerScope::Home)
        } else {
            None
        }
    }

    /// The text that the database holds for the value.
    pub fn as_str(self) -> (r: &'static str)
        ensures
            r@ == self.db_text(),
    {
        match self {
            BannerScope::Global => "global",
            BannerScope::Board => "board",
            BannerScope::Home => "home",
        }
    }

    /// The text of the value as it is shown.
    pub fn display(self) -> (r: String)
        ensures
            r@ == self.db_text(),
    {
        self.as_str().to_owned()
    }

    /// The value that the database means by a text; nothing where it means none.
    pub fn from_db_str(s: &str) -> (r: Option<BannerScope>)
        ensures
            r == BannerScope::of_db_text(s@),
    {
        if str_eq(s, "global") {
            Some(BannerScope::Global)
        } else if str_eq(s, "board") {
            Some(BannerScope::Board)
        } else if str_eq(s, "home") {
            Some(BannerScope::Home)
        } else {
            None
        }
    }
}

/// The database form of a value is read back as that value, and no other text is.
pub proof fn law_banner_scope_round_trip(value: BannerScope, s: Seq<char>)
    ensures
        BannerScope::of_db_text(value.db_text()) == Some(value),
        BannerScope::of_db_text(s) == Some(value) <==> s == value.db_text(),
{
    reveal_strlit("global");
    reveal_strlit("board");
    reveal_strlit("home");
    assert("global"@.len() != "board"@.len());
    assert("global"@.len() != "home"@.len());
    assert("board"@.len() != "home"@.len());
}

/// Where a banner leads.
#[derive(Debug, Clone, Copy, PartialEq, Eq, Structural)]
pub enum BannerTargetType {
    /// Nowhere.
    NoTarget,
    /// To a board, by its short name.
    InternalBoard,
    /// To a path of the site.
    InternalPath,
    /// To another site.
    ExternalUrl,
}

impl BannerTargetType {
    /// The text that the database holds for the value.
    pub open spec fn db_text(self) -> Seq<char> {
        match self {
            BannerTargetType::NoTarget => "none"@,
            BannerTargetType::InternalBoard => "internal_board"@,
            BannerTargetType::InternalPath => "internal_path"@,
            BannerTargetType::ExternalUrl => "external_url"@,
        }
    }

    /// The value that the database means by a text.
    pub open spec fn of_db_text(s: Seq<char>) -> Option<BannerTargetType> {
        if s == "none"@ {
            Some(BannerTargetType::NoTarget)
        } else if s == "internal_board"@ {
            Some(BannerTargetType::InternalBoard)
        } else if s == "internal_path"@ {
            Some(BannerTargetType::InternalPath)
        } else if s == "external_url"@ {
            Some(BannerTargetType::ExternalUrl)
        } else {
            None
        }
    }

    /// The text that the database holds for the value.
    pub fn as_str(self) -> (r: &'static str)
        ensures
            r@ == self.db_text(),
    {
        match self {
            BannerTargetType::NoTarget => "none",
            BannerTargetType::InternalBoard => "internal_board",
            BannerTargetType::InternalPath => "internal_path",
            BannerTargetType::ExternalUrl => "external_url",
        }
    }

    /// The text of the value as it is shown.
    pub fn display(self) -> (r: String)
        ensures
            r@ == self.db_text(),
    {
        self.as_str().to_owned()
    }

    /// The value that the database means by a text; nothing where it means none.
    pub fn from_db_str(s: &str) -> (r: Option<BannerTargetType>)
        ensures
            r == BannerTargetType::of_db_text(s@),
    {
        if str_eq(s, "none") {
            Some(BannerTargetType::NoTarget)
        } else if str_eq(s, "internal_board") {
            Some(BannerTargetType::InternalBoard)
        } else if str_eq(s, "internal_path") {
            Some(BannerTargetType::InternalPath)
        } else if str_eq(s, "external_url") {
            Some(BannerTargetType::ExternalUrl)
        } else {
            None
        }
    }
}

/// The database form of a value is read back as that value, and no other text is.
pub proof fn law_banner_target_type_round_trip(value: BannerTargetType, s: Seq<char>)
    ensures
        BannerTargetType::of_db_text(value.db_text()) == Some(value),
        BannerTargetType::of_db_text(s) == Some(value) <==> s == value.db_text(),
{
    reveal_strlit("none");
    reveal_strlit("internal_board");
    reveal_strlit("internal_path");
    reveal_strlit("external_url");
    assert("none"@.len() != "internal_board"@.len());
    assert("none"@.len() != "internal_path"@.len());
    assert("none"@.len() != "external_url"@.len());
    assert("internal_board"@.len() != "internal_path"@.len());
    assert("internal_board"@.len() != "external_url"@.len());
    assert("internal_path"@.len() != "external_url"@.len());
}

/// The pages of a board that show a banner.
#[derive(Debug, Clone, Copy, PartialEq, Eq, Structural)]
pub enum BannerPlacement {
    /// The index.
    Index,
    /// The catalog.
    Catalog,
}

/// A board, such as /tech/.
#[derive(Debug, Clone)]
pub struct Board {
    /// Database primary key.
    pub id: i64,
    /// Relative display order on the board list.
    pub display_order: i64,
    /// URL-safe board identifier without surrounding slashes, such as `tech`.
    pub short_name: String,
    /// Human-readable board name, such as `Technology`.
    pub name: String,
    /// Short board description shown to visitors.
    pub description: String,
    /// Whether the board is designated not safe for work.
    pub nsfw: bool,
    /// Maximum number of active threads retained on the board.
    pub max_threads: i64,
    /// Maximum number of archived threads retained on the board.
    pub max_archived_threads: i64,
    /// Reply count after which a thread no longer bumps.
    pub bump_limit: i64,
    /// Whether image uploads are accepted.
    pub allow_images: bool,
    /// Whether video uploads are accepted.
    pub allow_video: bool,
    /// Whether audio uploads are accepted.
    pub allow_audio: bool,
    /// Board-specific image size limit in bytes.
    pub max_image_size: i64,
    /// Board-specific video size limit in bytes.
    pub max_video_size: i64,
    /// Board-specific audio size limit in bytes.
    pub max_audio_size: i64,
    /// Board-specific PDF size limit in bytes.
    pub max_pdf_size: i64,
    /// Whether PDF uploads are accepted.
    pub allow_pdf: bool,
    /// Whether generic file uploads are accepted.
    pub allow_any_files: bool,
    /// Whether posters may use tripcodes.
    pub allow_tripcodes: bool,
    /// Whether posters may edit their posts.
    pub allow_editing: bool,
    /// Whether posters may delete their posts.
    pub allow_self_delete: bool,
    /// Legacy edit window in seconds; self-actions use the fixed grace window.
    pub edit_window_secs: i64,
    /// Whether overflow threads are archived instead of deleted.
    pub allow_archive: bool,
    /// Whether supported video links are expanded inline.
    pub allow_video_embeds: bool,
    /// Whether new threads and replies require a CAPTCHA.
    pub allow_captcha: bool,
    /// Whether post headers show thread-local poster identifiers.
    pub show_poster_ids: bool,
    /// Whether long greentext blocks are collapsed automatically.
    pub collapse_greentext: bool,
    /// Required delay between posts in seconds, or zero when disabled.
    pub post_cooldown_secs: i64,
    /// Theme slug used by default, or an empty string to inherit the site theme.
    pub default_theme: String,
    /// Banner selection behavior for the board.
    pub banner_mode: BoardBannerMode,
    /// Password-protection behavior for the board.
    pub access_mode: BoardAccessMode,
    /// Encoded hash for the board access password.
    pub access_password_hash: String,
    /// Creation time as a Unix timestamp.
    pub created_at: i64,
}

/// The upload limits of the site, in bytes, for boards that set none.
#[derive(Debug, Clone, Copy)]
pub struct UploadLimits {
    /// For pictures, and for PDF documents.
    pub max_image_size: usize,
    /// For videos.
    pub max_video_size: usize,
    /// For sounds.
    pub max_audio_size: usize,
}

/// The limit in force: that of the board where it is positive and an address space
/// can hold it, else that of the site.
pub open spec fn limit_in_force(own: i64, site: usize) -> usize {
    if 0 < own <= usize::MAX {
        own as usize
    } else {
        site
    }
}

/// The limit in force.
fn effective_limit(own: i64, site: usize) -> (r: usize)
    ensures
        r == limit_in_force(own, site),
{
    if own > 0 && own as u64 <= usize::MAX as u64 {
        own as usize
    } else {
        site
    }
}

/// The larger of two limits.
pub open spec fn larger(a: usize, b: usize) -> usize {
    if a >= b {
        a
    } else {
        b
    }
}

impl Board {
    /// The most bytes that a picture may have.
    pub fn max_image_size_bytes(&self, site: &UploadLimits) -> (r: usize)
        ensures
            r == limit_in_force(self.max_image_size, site.max_image_size),
    {
        effective_limit(self.max_image_size, site.max_image_size)
    }

    /// The most bytes that a video may have.
    pub fn max_video_size_bytes(&self, site: &UploadLimits) -> (r: usize)
        ensures
            r == limit_in_force(self.max_video_size, site.max_video_size),
    {
        effective_limit(self.max_video_size, site.max_video_size)
    }

    /// The most bytes that a sound may have.
    pub fn max_audio_size_bytes(&self, site: &UploadLimits) -> (r: usize)
        ensures
            r == limit_in_force(self.max_audio_size, site.max_audio_size),
    {
        effective_limit(self.max_audio_size, site.max_audio_size)
    }

    /// The most bytes that a PDF document may have.
    pub fn max_pdf_size_bytes(&self, site: &UploadLimits) -> (r: usize)
        ensures
            r == limit_in_force(self.max_pdf_size, site.max_image_size),
    {
        effective_limit(self.max_pdf_size, site.max_image_size)
    }

    /// The largest of the limits in force.
    pub open spec fn largest_limit(&self, site: UploadLimits) -> usize {
        larger(
            larger(
                larger(
                    limit_in_force(self.max_image_size, site.max_image_size),
                    limit_in_force(self.max_video_size, site.max_video_size),
                ),
                limit_in_force(self.max_audio_size, site.max_audio_size),
            ),
            limit_in_force(self.max_pdf_size, site.max_image_size),
        )
    }

    /// The most bytes that a file of any kind may have.
    pub fn max_generic_upload_size_bytes(&self, site: &UploadLimits) -> (r: usize)
        ensures
            r == self.largest_limit(*site),
    {
        let mut most: usize = self.max_image_size_bytes(site);
        let video: usize = self.max_video_size_bytes(site);
        if video > most {
            most = video;
        }
        let audio: usize = self.max_audio_size_bytes(site);
        if audio > most {
            most = audio;
        }
        let pdf: usize = self.max_pdf_size_bytes(site);
        if pdf > most {
            most = pdf;
        }
        most
    }
}

/// A stored banner, where it appears and where it leads.
#[derive(Debug, Clone)]
pub struct BannerAsset {
    /// Database primary key.
    pub id: i64,
    /// Pages on which the banner is eligible to appear.
    pub scope: BannerScope,
    /// Owning board identifier for board-scoped banners.
    pub board_id: Option<i64>,
    /// Owning board short name, when joined for display.
    pub board_short: Option<String>,
    /// Relative key used to load the banner from storage.
    pub storage_key: String,
    /// Banner width in pixels.
    pub width: i64,
    /// Banner height in pixels.
    pub height: i64,
    /// Stored file size in bytes.
    pub file_size: i64,
    /// Whether the banner is eligible for selection.
    pub enabled: bool,
    /// Relative order used during deterministic selection.
    pub sort_order: i64,
    /// Kind of navigation performed when the banner is clicked.
    pub target_type: BannerTargetType,
    /// Board name, local path, or URL interpreted according to `target_type`.
    pub target_value: String,
    /// Whether the banner may appear on board index pages.
    pub show_on_index: bool,
    /// Whether the banner may appear on board catalog pages.
    pub show_on_catalog: bool,
    /// Creation time as a Unix timestamp.
    pub created_at: i64,
}

/// A theme of the site, built in or made by an administrator.
#[derive(Debug, Clone)]
pub struct Theme {
    /// Stable identifier used by configuration, markup, and CSS selectors.
    pub slug: String,
    /// Human-readable name shown in theme selectors.
    pub display_name: String,
    /// Short description of the theme.
    pub description: String,
    /// Representative color used for previews.
    pub swatch_hex: String,
    /// Whether visitors may select the theme.
    pub enabled: bool,
    /// Relative display order.
    pub sort_order: i64,
    /// Whether the theme ships with the software.
    pub is_builtin: bool,
    /// Administrator-provided CSS for custom themes.
    pub custom_css: String,
}

/// A thread: what its opening post and its replies share.
#[derive(Debug, Clone)]
pub struct Thread {
    /// Database primary key and public thread number.
    pub id: i64,
    /// Identifier of the board containing the thread.
    pub board_id: i64,
    /// Optional subject from the opening post.
    pub subject: Option<String>,
    /// Creation time as a Unix timestamp.
    pub created_at: i64,
    /// Last bump time as a Unix timestamp.
    pub bumped_at: i64,
    /// Whether new replies are prohibited.
    pub locked: bool,
    /// Whether the thread remains ahead of non-sticky threads.
    pub sticky: bool,
    /// Whether the thread has moved out of the active index.
    pub archived: bool,
    /// Number of replies after the opening post.
    pub reply_count: i64,
    /// Number of posts with image attachments.
    pub image_count: i64,
    /// Opening-post body joined for catalog previews.
    pub op_body: Option<String>,
    /// Opening-post media path joined for catalog previews.
    pub op_file: Option<String>,
    /// Opening-post thumbnail path joined for catalog previews.
    pub op_thumb: Option<String>,
    /// Opening-post name joined for catalog previews.
    pub op_name: Option<String>,
    /// Opening-post tripcode joined for catalog previews.
    pub op_tripcode: Option<String>,
    /// Opening-post identifier joined for catalog previews.
    pub op_id: Option<i64>,
}

/// A post: the opening post of a thread or a reply.
#[derive(Debug, Clone)]
pub struct Post {
    /// Database primary key and public post number.
    pub id: i64,
    /// Identifier of the containing thread.
    pub thread_id: i64,
    /// Identifier of the containing board.
    pub board_id: i64,
    /// Poster display name.
    pub name: String,
    /// Optional generated tripcode.
    pub tripcode: Option<String>,
    /// Optional post subject.
    pub subject: Option<String>,
    /// Original plain-text post body.
    pub body: String,
    /// Sanitized, pre-rendered post-body HTML.
    pub body_html: String,
    /// SHA-256(IP + secret). `None` for gateway-inserted federation posts
    /// which have no inbound client IP.
    pub ip_hash: Option<String>,
    /// Relative path to the primary attachment.
    pub file_path: Option<String>,
    /// Original filename of the primary attachment.
    pub file_name: Option<String>,
    /// Size of the primary attachment in bytes.
    pub file_size: Option<i64>,
    /// Relative path to the generated thumbnail.
    pub thumb_path: Option<String>,
    /// MIME type of the primary attachment.
    pub mime_type: Option<String>,
    /// Explicit media classification — set on all new posts; backfilled for old ones.
    pub media_type: Option<MediaType>,
    /// Secondary audio file for image+audio combo posts (audio path only).
    pub audio_file_path: Option<String>,
    /// Original filename of the secondary audio attachment.
    pub audio_file_name: Option<String>,
    /// Size of the secondary audio attachment in bytes.
    pub audio_file_size: Option<i64>,
    /// MIME type of the secondary audio attachment.
    pub audio_mime_type: Option<String>,
    /// Creation time as a Unix timestamp.
    pub created_at: i64,
    /// Opaque token authorizing poster-initiated actions.
    pub deletion_token: String,
    /// Whether this post opens its thread.
    pub is_op: bool,
    /// Set when the post body has been edited; None means never edited.
    pub edited_at: Option<i64>,
    /// Present while async media work is queued/running, or after it has failed.
    pub media_processing_state: Option<String>,
    /// Human-readable detail for failed async media processing.
    pub media_processing_error: Option<String>,
}

/// An administrator.
#[derive(Debug, Clone)]
pub struct AdminUser {
    /// Database primary key.
    pub id: i64,
    /// Unique administrator login name.
    pub username: String,
    /// Excluded from Serialize in practice — be careful not to expose this.
    pub password_hash: String,
    /// Account creation time as a Unix timestamp.
    pub created_at: i64,
}

/// The session of an administrator.
#[derive(Debug, Clone)]
pub struct AdminSession {
    /// Opaque session identifier stored in the authentication cookie.
    pub id: String,
    /// Identifier of the authenticated administrator.
    pub admin_id: i64,
    /// Session creation time as a Unix timestamp.
    pub created_at: i64,
    /// Session expiration time as a Unix timestamp.
    pub expires_at: i64,
}

/// A ban of an address.
#[derive(Debug, Clone)]
pub struct Ban {
    /// Database primary key.
    pub id: i64,
    /// Privacy-preserving hash identifying the banned address.
    pub ip_hash: String,
    /// Optional moderator-provided explanation.
    pub reason: Option<String>,
    /// Expiration time as a Unix timestamp, or `None` for a permanent ban.
    pub expires_at: Option<i64>,
    /// Creation time as a Unix timestamp.
    pub created_at: i64,
}

/// A rule that replaces words.
#[derive(Debug, Clone)]
pub struct WordFilter {
    /// Database primary key.
    pub id: i64,
    /// Pattern matched against submitted text.
    pub pattern: String,
    /// Text substituted for each match.
    pub replacement: String,
}

/// A board and the number of its threads.
#[derive(Debug, Clone)]
pub struct BoardStats {
    /// Board configuration and identity.
    pub board: Board,
    /// Current number of active threads.
    pub thread_count: i64,
}

/// A thread on the index of a board, with its last replies.
#[derive(Debug, Clone)]
pub struct ThreadSummary {
    /// Thread metadata and opening-post preview fields.
    pub thread: Thread,
    /// Latest N replies (for board index preview)
    pub preview_posts: Vec<Post>,
    /// How many replies are hidden (total - preview shown)
    pub omitted: i64,
}

/// A poll of a thread.
#[derive(Debug, Clone)]
pub struct Poll {
    /// Database primary key.
    pub id: i64,
    /// Identifier of the thread that owns the poll.
    pub thread_id: i64,
    /// Question displayed above the choices.
    pub question: String,
    /// Expiration time as a Unix timestamp.
    pub expires_at: i64,
    /// Creation time as a Unix timestamp.
    pub created_at: i64,
}

/// A choice of a poll and its votes.
#[derive(Debug, Clone)]
pub struct PollOption {
    /// Database primary key.
    pub id: i64,
    /// Identifier of the owning poll.
    pub poll_id: i64,
    /// Choice text displayed to voters.
    pub text: String,
    /// Relative display order.
    pub position: i64,
    /// Current number of recorded votes.
    pub vote_count: i64,
}

/// A poll with its choices, as it is shown.
#[derive(Debug, Clone)]
pub struct PollData {
    /// Poll metadata.
    pub poll: Poll,
    /// Choices in display order.
    pub options: Vec<PollOption>,
    /// Sum of votes across all choices.
    pub total_votes: i64,
    /// Which `option_id` this user voted for, if any
    pub user_voted_option: Option<i64>,
    /// true when `expires_at` <= now
    pub is_expired: bool,
}

/// The most characters that a search text may have.
pub const SEARCH_QUERY_MAX_CHARS: usize = 256;

/// What the search page is asked for.
#[derive(Debug)]
pub struct SearchQuery {
    /// User-supplied search text.
    pub q: String,
    /// One-based result page.
    pub page: i64,
}

impl Default for SearchQuery {
    fn default() -> (r: Self)
        ensures
            r.q@.len() == 0,
            r.page == 1,
    {
        SearchQuery { q: String::new(), page: 1 }
    }
}

/// A page of a list of records.
#[derive(Debug, Clone)]
pub struct Pagination {
    /// Current one-based page.
    pub page: i64,
    /// Maximum number of records on a page.
    pub per_page: i64,
    /// Total number of matching records.
    pub total: i64,
}

/// A number, but not less than another.
pub open spec fn at_least(least: int, n: int) -> int {
    if n < least {
        least
    } else {
        n
    }
}

/// A number, but not less than another.
fn clamp_low(least: i64, n: i64) -> (r: i64)
    ensures
        r == at_least(least as int, n as int),
{
    if n < least {
        least
    } else {
        n
    }
}

impl Pagination {
    /// A page of a list: pages count from one, and hold at least one record.
    pub fn new(page: i64, per_page: i64, total: i64) -> (r: Self)
        ensures
            r.page == at_least(1, page as int),
            r.per_page == at_least(1, per_page as int),
            r.total == at_least(0, total as int),
    {
        Pagination {
            page: clamp_low(1, page),
            per_page: clamp_low(1, per_page),
            total: clamp_low(0, total),
        }
    }

    /// How many records a page holds.
    pub open spec fn size(self) -> int {
        at_least(1, self.per_page as int)
    }

    /// How many records there are.
    pub open spec fn records(self) -> int {
        at_least(0, self.total as int)
    }

    /// How many pages there are, at least one.
    pub open spec fn pages(self) -> int {
        at_least(1, (self.records() + self.size() - 1) / self.size())
    }

    /// How many pages there are, at least one.
    pub fn total_pages(&self) -> (r: i64)
        ensures
            r == self.pages(),
    {
        let size: i64 = clamp_low(1, self.per_page);
        let records: i64 = clamp_low(0, self.total);
        if records == 0 {
            assert((self.size() - 1) / self.size() == 0) by (nonlinear_arith)
                requires
                    self.size() >= 1,
            ;
            return 1;
        }
        let before: i64 = (records - 1) / size;
        assert((records + size - 1) / size as int == before + 1 && 0 <= before <= records - 1)
            by (nonlinear_arith)
            requires
                records >= 1,
                size >= 1,
                before == (records - 1) / size as int,
        ;
        before + 1
    }

    /// How many records stand before the page, as far as a number can hold it.
    pub open spec fn skipped(self) -> int {
        let exact = (at_least(1, self.page as int) - 1) * self.size();
        if exact > i64::MAX {
            i64::MAX as int
        } else {
            exact
        }
    }

    /// How many records stand before the page.
    pub fn offset(&self) -> (r: i64)
        ensures
            r == self.skipped(),
    {
        let before: i64 = clamp_low(1, self.page) - 1;
        let size: i64 = clamp_low(1, self.per_page);
        assert(0 <= before * size <= i64::MAX * i64::MAX) by (nonlinear_arith)
            requires
                0 <= before <= i64::MAX,
                0 <= size <= i64::MAX,
        ;
        let exact: i128 = before as i128 * size as i128;
        if exact > i64::MAX as i128 {
            i64::MAX
        } else {
            exact as i64
        }
    }

    /// Whether there is a page before this one.
    pub fn has_prev(&self) -> (r: bool)
        ensures
            r == (self.page > 1),
    {
        self.page > 1
    }

    /// Whether there is a page after this one.
    pub fn has_next(&self) -> (r: bool)
        ensures
            r == (self.page < self.pages()),
    {
        self.page < self.total_pages()
    }
}

/// The pages hold all records, and one page less would not, unless it is the only one.
pub proof fn law_pages_hold_all_records(list: Pagination)
    ensures
        list.records() <= list.pages() * list.size(),
        list.pages() == 1 || (list.pages() - 1) * list.size() < list.records(),
{
    let t = list.records();
    let p = list.size();
    let q = (t + p - 1) / p;
    assert(t <= q * p && (q - 1) * p < t) by (nonlinear_arith)
        requires
            p >= 1,
            t >= 0,
            q == (t + p - 1) / p,
    ;
    if q < 1 {
        assert(t <= 1 * p) by (nonlinear_arith)
            requires
                t <= q * p,
                q < 1,
                p >= 1,
        ;
    }
}

/// A page has a next one exactly where records are left after it.
pub proof fn law_next_page_means_more_records(list: Pagination)
    requires
        list.page >= 1,
    ensures
        list.page < list.pages() <==> list.page * list.size() < list.records(),
{
    law_pages_hold_all_records(list);
    let t = list.records();
    let p = list.size();
    let q = list.pages();
    let n = list.page as int;
    if n < q {
        assert(n * p <= (q - 1) * p) by (nonlinear_arith)
            requires
                n <= q - 1,
                p >= 1,
        ;
    } else {
        assert(q * p <= n * p) by (nonlinear_arith)
            requires
                q <= n,
                p >= 1,
        ;
    }
}

/// Consecutive pages follow one another without a gap, as long as their offsets fit.
pub proof fn law_pages_are_contiguous(list: Pagination, next: Pagination)
    requires
        list.page >= 1,
        next.page == list.page + 1,
        next.per_page == list.per_page,
        (next.page - 1) * next.size() <= i64::MAX,
    ensures
        next.skipped() == list.skipped() + list.size(),
{
    let n = list.page as int;
    let p = list.size();
    assert(n * p == (n - 1) * p + p) by (nonlinear_arith);
}

/// What the site holds, in numbers.
#[derive(Debug, Clone)]
pub struct SiteStats {
    /// Total posts ever made
    pub total_posts: i64,
    /// Total image files ever uploaded
    pub total_images: i64,
    /// Total video files ever uploaded
    pub total_videos: i64,
    /// Total audio files ever uploaded
    pub total_audio: i64,
    /// Total bytes of currently stored files (still on disk)
    pub active_bytes: i64,
}

impl Default for SiteStats {
    fn default() -> (r: Self)
        ensures
            r == (SiteStats {
                total_posts: 0,
                total_images: 0,
                total_videos: 0,
                total_audio: 0,
                active_bytes: 0,
            }),
    {
        SiteStats { total_posts: 0, total_images: 0, total_videos: 0, total_audio: 0, active_bytes: 0 }
    }
}

/// A report of a post.
#[derive(Debug, Clone)]
pub struct Report {
    /// Database primary key.
    pub id: i64,
    /// Identifier of the reported post.
    pub post_id: i64,
    /// Identifier of the thread containing the post.
    pub thread_id: i64,
    /// Identifier of the board containing the post.
    pub board_id: i64,
    /// Reporter-provided explanation.
    pub reason: String,
    /// Privacy-preserving hash identifying the reporter.
    pub reporter_hash: String,
    /// Workflow state, currently `open` or `resolved`.
    pub status: String,
    /// Creation time as a Unix timestamp.
    pub created_at: i64,
    /// Resolution time as a Unix timestamp.
    pub resolved_at: Option<i64>,
    /// Administrator identifier that resolved the report.
    pub resolved_by: Option<i64>,
}

/// A report with what surrounds it.
#[derive(Debug, Clone)]
pub struct ReportWithContext {
    /// Underlying report record.
    pub report: Report,
    /// Short name of the board containing the reported post.
    pub board_short: String,
    /// First 120 chars of the reported post body for preview
    pub post_preview: String,
    /// IP hash of the post's author (for quick ban from the inbox).
    /// `None` for gateway-inserted federation posts which have no client IP.
    pub post_ip_hash: Option<String>,
}

/// An entry of the moderation log.
#[derive(Debug, Clone)]
pub struct ModLogEntry {
    /// Database primary key.
    pub id: i64,
    /// Identifier of the administrator that performed the action.
    pub admin_id: i64,
    /// Administrator username captured for display.
    pub admin_name: String,
    /// E.g. "`delete_post`", "ban", "sticky", "lock", "`resolve_report`"
    pub action: String,
    /// "post" | "thread" | "board" | "ban" | "report"
    pub target_type: String,
    /// Optional identifier of the affected record.
    pub target_id: Option<i64>,
    /// Short name of the affected board.
    pub board_short: String,
    /// Human-readable extra context (reason, post body preview, etc.)
    pub detail: String,
    /// Action time as a Unix timestamp.
    pub created_at: i64,
}

/// A board inside a backup.
#[derive(Debug, Clone, PartialEq, Eq)]
pub struct BackupBoardSummary {
    /// Stable board identifier without surrounding slashes.
    pub short_name: String,
    /// Human-readable board name.
    pub name: String,
}

/// A saved backup.
#[derive(Debug, Clone)]
pub struct BackupInfo {
    /// Stable saved-backup reference used by admin actions.
    pub backup_ref: String,
    /// Human-readable backup identity shown in the UI.
    pub backup_id: String,
    /// Display name for legacy zip files or default download names.
    pub filename: String,
    /// Total backup size in bytes.
    pub size_bytes: u64,
    /// Human-readable last-modified timestamp (UTC).
    pub modified: String,
    /// Last-modified timestamp as a Unix epoch second when available.
    pub modified_epoch: Option<i64>,
    /// Whether the backup passed the app's structural verification.
    pub verified: bool,
    /// Short note describing verification status or the detected problem.
    pub verification_note: String,
    /// Saved backup scope label.
    pub scope: String,
    /// Storage mode label such as single ZIP, split ZIP, or directory.
    pub mode: String,
    /// Number of ZIP parts when split storage is used.
    pub part_count: u32,
    /// ZIP part filenames relative to the backup parts directory.
    pub part_filenames: Vec<String>,
    /// Whether this full backup includes the Tor hidden service identity files.
    pub contains_tor_hidden_service_keys: bool,
    /// Boards indexed inside the backup when available.
    pub boards: Vec<BackupBoardSummary>,
    /// Absolute server-local backup directory or legacy archive path.
    pub server_path: String,
    /// Manifest path when available.
    pub manifest_path: String,
    /// Whether the backup can be downloaded as a single archive directly.
    pub downloadable_archive: bool,
}

/// An appeal against a ban.
#[derive(Debug, Clone)]
pub struct BanAppeal {
    /// Database primary key.
    pub id: i64,
    /// Privacy-preserving hash identifying the appellant.
    pub ip_hash: String,
    /// Appellant-provided explanation.
    pub reason: String,
    /// Workflow state, currently `open` or `dismissed`.
    pub status: String,
    /// Creation time as a Unix timestamp.
    pub created_at: i64,
}

/// A board of a federation snapshot, by its short name.
#[derive(Debug, Clone)]
pub struct SnapshotBoard {
    /// Board short name used as the portable identifier.
    pub id: String,
    /// Human-readable board title.
    pub title: String,
}

/// A post of a federation snapshot. It holds text only, never a file or the path of one.
#[derive(Debug, Clone)]
pub struct SnapshotPost {
    /// Public post number.
    pub post_id: u64,
    /// Short name of the post's board.
    pub board: String,
    /// Display name included in the snapshot.
    pub author: String,
    /// Plain-text post content.
    pub content: String,
    /// Creation time as a Unix timestamp.
    pub timestamp: u64,
}

/// What a federation snapshot says of itself.
#[derive(Debug, Clone)]
pub struct SnapshotMetadata {
    /// Snapshot generation time as a Unix timestamp.
    pub generated_at: u64,
    /// the software version that produced the snapshot.
    pub rustchan_version: String,
    /// Number of posts contained in the snapshot.
    pub post_count: u64,
    /// Unique identifier for the snapshot transaction.
    pub tx_id: u128,
    /// Optional detached signature over the snapshot.
    pub signature: Option<String>,
    /// Starting timestamp for a delta snapshot, absent for a full snapshot.
    pub since: Option<u64>,
    /// Whether the snapshot contains only changes since a prior point.
    pub is_delta: bool,
    /// Whether archived threads are included.
    pub includes_archive: bool,
}

/// A type of content is the kind of media before its slash, and a document where it is a PDF.
pub proof fn law_media_is_told_by_its_type(rest: Seq<char>)
    ensures
        MediaType::of_mime("image/"@ + rest) is Image,
        MediaType::of_mime("video/"@ + rest) is Video,
        MediaType::of_mime("audio/"@ + rest) is Audio,
        MediaType::of_mime("application/pdf"@) is Pdf,
        rest != "pdf"@ ==> MediaType::of_mime("application/"@ + rest) is Other,
        MediaType::of_mime("text/"@ + rest) is Other,
{
    reveal_strlit("image/");
    reveal_strlit("video/");
    reveal_strlit("audio/");
    reveal_strlit("application/");
    reveal_strlit("application/pdf");
    reveal_strlit("text/");
    reveal_strlit("pdf");
    assert("image/"@.len() == 6 && "image/"@[0] == 'i' && "image/"@[1] == 'm'
        && "image/"@[2] == 'a' && "image/"@[3] == 'g' && "image/"@[4] == 'e'
        && "image/"@[5] == '/');
    assert("video/"@.len() == 6 && "video/"@[0] == 'v' && "video/"@[1] == 'i'
        && "video/"@[2] == 'd' && "video/"@[3] == 'e' && "video/"@[4] == 'o'
        && "video/"@[5] == '/');
    assert("audio/"@.len() == 6 && "audio/"@[0] == 'a' && "audio/"@[1] == 'u'
        && "audio/"@[2] == 'd' && "audio/"@[3] == 'i' && "audio/"@[4] == 'o'
        && "audio/"@[5] == '/');
    assert("application/"@.len() == 12 && "application/"@[0] == 'a' && "application/"@[1] == 'p'
        && "application/"@[2] == 'p' && "application/"@[3] == 'l' && "application/"@[4] == 'i'
        && "application/"@[5] == 'c' && "application/"@[6] == 'a' && "application/"@[7] == 't'
        && "application/"@[8] == 'i' && "application/"@[9] == 'o' && "application/"@[10] == 'n'
        && "application/"@[11] == '/');
    assert("application/pdf"@.len() == 15 && "application/pdf"@[0] == 'a'
        && "application/pdf"@[1] == 'p' && "application/pdf"@[2] == 'p'
        && "application/pdf"@[3] == 'l' && "application/pdf"@[4] == 'i'
        && "application/pdf"@[5] == 'c' && "application/pdf"@[6] == 'a'
        && "application/pdf"@[7] == 't' && "application/pdf"@[8] == 'i'
        && "application/pdf"@[9] == 'o' && "application/pdf"@[10] == 'n'
        && "application/pdf"@[11] == '/' && "application/pdf"@[12] == 'p'
        && "application/pdf"@[13] == 'd' && "application/pdf"@[14] == 'f');
    assert("text/"@.len() == 5 && "text/"@[0] == 't' && "text/"@[1] == 'e' && "text/"@[2] == 'x'
        && "text/"@[3] == 't' && "text/"@[4] == '/');
    assert("pdf"@.len() == 3 && "pdf"@[0] == 'p' && "pdf"@[1] == 'd' && "pdf"@[2] == 'f');
    assert(("image/"@ + rest).take(6) =~= "image/"@);
    assert(("video/"@ + rest).take(6) =~= "video/"@);
    assert(("audio/"@ + rest).take(6) =~= "audio/"@);
    assert(("video/"@ + rest).take(6)[0] != "image/"@[0]);
    assert(("audio/"@ + rest).take(6)[0] != "image/"@[0]);
    assert(("audio/"@ + rest).take(6)[0] != "video/"@[0]);
    let other = "application/"@ + rest;
    assert(other.take(6)[1] == 'p');
    assert("application/pdf"@.take(6)[1] == 'p');
    let plain = "text/"@ + rest;
    assert(plain[0] == 't');
    if text::begins(plain, "image/"@) {
        assert(plain.take(6)[0] == 'i');
    }
    if text::begins(plain, "video/"@) {
        assert(plain.take(6)[0] == 'v');
    }
    if text::begins(plain, "audio/"@) {
        assert(plain.take(6)[0] == 'a');
    }
    if other == "application/pdf"@ {
        assert(other.skip(12) =~= rest);
        assert("application/pdf"@.skip(12) =~= "pdf"@);
    }
}

/// Every extension under which media is kept is known for what it is, and any other is none
/// of them.
pub proof fn law_media_is_told_by_its_extension(ext: Seq<char>)
    ensures
        MediaType::of_ext("jpg"@) is Image,
        MediaType::of_ext("jpeg"@) is Image,
        MediaType::of_ext("png"@) is Image,
        MediaType::of_ext("gif"@) is Image,
        MediaType::of_ext("webp"@) is Image,
        MediaType::of_ext("heic"@) is Image,
        MediaType::of_ext("heif"@) is Image,
        MediaType::of_ext("bmp"@) is Image,
        MediaType::of_ext("tiff"@) is Image,
        MediaType::of_ext("tif"@) is Image,
        MediaType::of_ext("svg"@) is Image,
        MediaType::of_ext("mp4"@) is Video,
        MediaType::of_ext("webm"@) is Video,
        MediaType::of_ext("mkv"@) is Video,
        MediaType::of_ext("mp3"@) is Audio,
        MediaType::of_ext("ogg"@) is Audio,
        MediaType::of_ext("flac"@) is Audio,
        MediaType::of_ext("wav"@) is Audio,
        MediaType::of_ext("m4a"@) is Audio,
        MediaType::of_ext("aac"@) is Audio,
        MediaType::of_ext("opus"@) is Audio,
        MediaType::of_ext("pdf"@) is Pdf,
        !(MediaType::of_ext(ext) is Other) ==> 3 <= ext.len() <= 4,
        MediaType::of_ext(Seq::empty()) is Other,
{
    reveal_strlit("jpg");
    reveal_strlit("jpeg");
    reveal_strlit("png");
    reveal_strlit("gif");
    reveal_strlit("webp");
    reveal_strlit("heic");
    reveal_strlit("heif");
    reveal_strlit("bmp");
    reveal_strlit("tiff");
    reveal_strlit("tif");
    reveal_strlit("svg");
    reveal_strlit("mp4");
    reveal_strlit("webm");
    reveal_strlit("mkv");
    reveal_strlit("mp3");
    reveal_strlit("ogg");
    reveal_strlit("flac");
    reveal_strlit("wav");
    reveal_strlit("m4a");
    reveal_strlit("aac");
    reveal_strlit("opus");
    reveal_strlit("pdf");
    assert("jpg"@.len() == 3 && "jpg"@[0] == 'j' && "jpg"@[1] == 'p' && "jpg"@[2] == 'g');
    assert("jpeg"@.len() == 4 && "jpeg"@[0] == 'j' && "jpeg"@[1] == 'p' && "jpeg"@[2] == 'e'
        && "jpeg"@[3] == 'g');
    assert("png"@.len() == 3 && "png"@[0] == 'p' && "png"@[1] == 'n' && "png"@[2] == 'g');
    assert("gif"@.len() == 3 && "gif"@[0] == 'g' && "gif"@[1] == 'i' && "gif"@[2] == 'f');
    assert("webp"@.len() == 4 && "webp"@[0] == 'w' && "webp"@[1] == 'e' && "webp"@[2] == 'b'
        && "webp"@[3] == 'p');
    assert("heic"@.len() == 4 && "heic"@[0] == 'h' && "heic"@[1] == 'e' && "heic"@[2] == 'i'
        && "heic"@[3] == 'c');
    assert("heif"@.len() == 4 && "heif"@[0] == 'h' && "heif"@[1] == 'e' && "heif"@[2] == 'i'
        && "heif"@[3] == 'f');
    assert("bmp"@.len() == 3 && "bmp"@[0] == 'b' && "bmp"@[1] == 'm' && "bmp"@[2] == 'p');
    assert("tiff"@.len() == 4 && "tiff"@[0] == 't' && "tiff"@[1] == 'i' && "tiff"@[2] == 'f'
        && "tiff"@[3] == 'f');
    assert("tif"@.len() == 3 && "tif"@[0] == 't' && "tif"@[1] == 'i' && "tif"@[2] == 'f');
    assert("svg"@.len() == 3 && "svg"@[0] == 's' && "svg"@[1] == 'v' && "svg"@[2] == 'g');
    assert("mp4"@.len() == 3 && "mp4"@[0] == 'm' && "mp4"@[1] == 'p' && "mp4"@[2] == '4');
    assert("webm"@.len() == 4 && "webm"@[0] == 'w' && "webm"@[1] == 'e' && "webm"@[2] == 'b'
        && "webm"@[3] == 'm');
    assert("mkv"@.len() == 3 && "mkv"@[0] == 'm' && "mkv"@[1] == 'k' && "mkv"@[2] == 'v');
    assert("mp3"@.len() == 3 && "mp3"@[0] == 'm' && "mp3"@[1] == 'p' && "mp3"@[2] == '3');
    assert("ogg"@.len() == 3 && "ogg"@[0] == 'o' && "ogg"@[1] == 'g' && "ogg"@[2] == 'g');
    assert("flac"@.len() == 4 && "flac"@[0] == 'f' && "flac"@[1] == 'l' && "flac"@[2] == 'a'
        && "flac"@[3] == 'c');
    assert("wav"@.len() == 3 && "wav"@[0] == 'w' && "wav"@[1] == 'a' && "wav"@[2] == 'v');
    assert("m4a"@.len() == 3 && "m4a"@[0] == 'm' && "m4a"@[1] == '4' && "m4a"@[2] == 'a');
    assert("aac"@.len() == 3 && "aac"@[0] == 'a' && "aac"@[1] == 'a' && "aac"@[2] == 'c');
    assert("opus"@.len() == 4 && "opus"@[0] == 'o' && "opus"@[1] == 'p' && "opus"@[2] == 'u'
        && "opus"@[3] == 's');
    assert("pdf"@.len() == 3 && "pdf"@[0] == 'p' && "pdf"@[1] == 'd' && "pdf"@[2] == 'f');
}

/// The names under which the choices are stored.
pub proof fn law_stored_names_are_kept()
    ensures
        MediaType::Image.db_text() == "image"@,
        MediaType::Video.db_text() == "video"@,
        MediaType::Audio.db_text() == "audio"@,
        MediaType::Pdf.db_text() == "pdf"@,
        MediaType::Other.db_text() == "other"@,
        BoardAccessMode::Public.db_text() == "public"@,
        BoardAccessMode::ViewPassword.db_text() == "view_password"@,
        BoardAccessMode::PostPassword.db_text() == "post_password"@,
        BoardBannerMode::Inherit.db_text() == "inherit"@,
        BoardBannerMode::NoBanners.db_text() == "none"@,
        BoardBannerMode::Override.db_text() == "override"@,
        BannerScope::Global.db_text() == "global"@,
        BannerScope::Board.db_text() == "board"@,
        BannerScope::Home.db_text() == "home"@,
        BannerTargetType::NoTarget.db_text() == "none"@,
        BannerTargetType::InternalBoard.db_text() == "internal_board"@,
        BannerTargetType::InternalPath.db_text() == "internal_path"@,
        BannerTargetType::ExternalUrl.db_text() == "external_url"@,
{
}

/// A board's own limit is in force where it is positive and can be held, and the site's
/// otherwise; any upload may be as large as the largest of the four, which is one of them.
pub proof fn law_own_limits_come_first(board: &Board, site: UploadLimits)
    ensures
        ({
            let image = limit_in_force(board.max_image_size, site.max_image_size);
            let video = limit_in_force(board.max_video_size, site.max_video_size);
            let audio = limit_in_force(board.max_audio_size, site.max_audio_size);
            let pdf = limit_in_force(board.max_pdf_size, site.max_image_size);
            let most = board.largest_limit(site);
            &&& 0 < board.max_image_size <= usize::MAX ==> image == board.max_image_size
            &&& board.max_image_size <= 0 ==> image == site.max_image_size
            &&& 0 < board.max_video_size <= usize::MAX ==> video == board.max_video_size
            &&& board.max_video_size <= 0 ==> video == site.max_video_size
            &&& 0 < board.max_audio_size <= usize::MAX ==> audio == board.max_audio_size
            &&& board.max_audio_size <= 0 ==> audio == site.max_audio_size
            &&& 0 < board.max_pdf_size <= usize::MAX ==> pdf == board.max_pdf_size
            &&& board.max_pdf_size <= 0 ==> pdf == site.max_image_size
            &&& most >= image && most >= video && most >= audio && most >= pdf
            &&& most == image || most == video || most == audio || most == pdf
        }),
{
}

/// A page skips the records of the pages before it, as far as that can be counted, and the
/// first skips none; pages, sizes and totals below their least are taken for it.
pub proof fn law_pages_skip_those_before_them(list: Pagination)
    ensures
        list.page <= 1 ==> list.skipped() == 0,
        list.page > 1 && list.per_page >= 1 && (list.page - 1) * list.per_page <= i64::MAX
            ==> list.skipped() == (list.page - 1) * list.per_page,
        list.per_page < 1 ==> list.size() == 1,
        list.per_page >= 1 ==> list.size() == list.per_page,
        list.total <= 0 ==> list.records() == 0 && list.pages() == 1,
        list.total > 0 ==> list.records() == list.total,
        list.total > 0 && list.per_page >= list.total ==> list.pages() == 1,
{
    if list.page <= 1 {
        assert(0 * list.size() == 0);
    }
    let n = list.size();
    if list.total <= 0 {
        assert((0 + n - 1) / n == 0) by (nonlinear_arith)
            requires
                n >= 1,
        ;
    }
    if list.total > 0 && list.per_page >= list.total {
        let t = list.total as int;
        assert((t + n - 1) / n == 1) by (nonlinear_arith)
            requires
                1 <= t <= n,
        ;
    }
}

} // verus!
