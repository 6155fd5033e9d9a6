use rustchan::models::{
    BannerScope, BannerTargetType, Board, BoardAccessMode, BoardBannerMode, MediaType, Pagination,
    SearchQuery, SiteStats, UploadLimits,
};

#[test]
fn media_type_serde_matches_db_str() {
    for mt in [
        MediaType::Image,
        MediaType::Video,
        MediaType::Audio,
        MediaType::Pdf,
        MediaType::Other,
    ] {
        let db_value = mt.as_str();
        assert_eq!(
            MediaType::from_db_str(db_value),
            Some(mt),
            "from_db_str() round-trip failed for {mt:?}"
        );
    }
}

#[test]
fn board_access_mode_serde_matches_db_str() {
    for access_mode in [
        BoardAccessMode::Public,
        BoardAccessMode::ViewPassword,
        BoardAccessMode::PostPassword,
    ] {
        let db_value = access_mode.as_str();
        assert_eq!(
            BoardAccessMode::from_db_str(db_value),
            Some(access_mode),
            "from_db_str() round-trip failed for {access_mode:?}"
        );
    }
}

#[test]
fn board_banner_mode_serde_matches_db_str() {
    for banner_mode in [
        BoardBannerMode::Inherit,
        BoardBannerMode::NoBanners,
        BoardBannerMode::Override,
    ] {
        let db_value = banner_mode.as_str();
        assert_eq!(
            BoardBannerMode::from_db_str(db_value),
            Some(banner_mode),
            "from_db_str() round-trip failed for {banner_mode:?}"
        );
    }
}

#[test]
fn banner_scope_serde_matches_db_str() {
    for scope in [BannerScope::Global, BannerScope::Board, BannerScope::Home] {
        let db_value = scope.as_str();
        assert_eq!(
            BannerScope::from_db_str(db_value),
            Some(scope),
            "from_db_str() round-trip failed for {scope:?}"
        );
    }
}

#[test]
fn banner_target_type_serde_matches_db_str() {
    for target_type in [
        BannerTargetType::NoTarget,
        BannerTargetType::InternalBoard,
        BannerTargetType::InternalPath,
        BannerTargetType::ExternalUrl,
    ] {
        let db_value = target_type.as_str();
        assert_eq!(
            BannerTargetType::from_db_str(db_value),
            Some(target_type),
            "from_db_str() round-trip failed for {target_type:?}"
        );
    }
}

#[test]
fn media_type_display_matches_as_str() {
    for mt in [
        MediaType::Image,
        MediaType::Video,
        MediaType::Audio,
        MediaType::Pdf,
        MediaType::Other,
    ] {
        assert_eq!(
            mt.display(),
            mt.as_str(),
            "Display must match the database representation for {mt:?}"
        );
    }
}

#[test]
fn media_type_from_mime() {
    assert_eq!(
        MediaType::from_mime("image/png"),
        MediaType::Image,
        "image MIME types must be classified as images"
    );
    assert_eq!(
        MediaType::from_mime("video/mp4"),
        MediaType::Video,
        "video MIME types must be classified as videos"
    );
    assert_eq!(
        MediaType::from_mime("audio/ogg"),
        MediaType::Audio,
        "audio MIME types must be classified as audio"
    );
    assert_eq!(
        MediaType::from_mime("application/pdf"),
        MediaType::Pdf,
        "the PDF MIME type must be classified as a PDF"
    );
    assert_eq!(
        MediaType::from_mime("application/json"),
        MediaType::Other,
        "unrecognized MIME types must use the generic classification"
    );
}

#[test]
fn media_type_from_ext() {
    assert_eq!(
        MediaType::from_ext("jpg"),
        MediaType::Image,
        "JPG files must be classified as images"
    );
    assert_eq!(
        MediaType::from_ext("heic"),
        MediaType::Image,
        "HEIC files must be classified as images"
    );
    assert_eq!(
        MediaType::from_ext("mp4"),
        MediaType::Video,
        "MP4 files must be classified as videos"
    );
    assert_eq!(
        MediaType::from_ext("flac"),
        MediaType::Audio,
        "FLAC files must be classified as audio"
    );
    assert_eq!(
        MediaType::from_ext("pdf"),
        MediaType::Pdf,
        "PDF extensions must use the PDF classification"
    );
    assert_eq!(
        MediaType::from_ext("exe"),
        MediaType::Other,
        "unrecognized extensions must use the generic classification"
    );
}

#[test]
fn board_access_mode_password_helpers_match_existing_post_requirement() {
    assert!(
        !BoardAccessMode::Public.is_password_protected(),
        "public boards must not be password protected"
    );
    assert!(
        !BoardAccessMode::Public.requires_unlock_for_posting(),
        "public boards must not require a posting unlock"
    );
    assert!(
        !BoardAccessMode::Public.requires_post_password(),
        "the compatibility helper must preserve public-board behavior"
    );

    assert!(
        BoardAccessMode::ViewPassword.is_password_protected(),
        "view-password boards must be password protected"
    );
    assert!(
        BoardAccessMode::ViewPassword.requires_unlock_for_posting(),
        "view-password access must unlock posting too"
    );
    assert!(
        BoardAccessMode::ViewPassword.requires_post_password(),
        "the compatibility helper must preserve view-password behavior"
    );

    assert!(
        BoardAccessMode::PostPassword.is_password_protected(),
        "post-password boards must be password protected"
    );
    assert!(
        BoardAccessMode::PostPassword.requires_unlock_for_posting(),
        "post-password boards must require a posting unlock"
    );
    assert!(
        BoardAccessMode::PostPassword.requires_post_password(),
        "the compatibility helper must preserve post-password behavior"
    );
}

#[test]
fn search_query_default_matches_serde_defaults() {
    let query = SearchQuery::default();
    assert!(query.q.is_empty(), "default search text must be empty");
    assert_eq!(query.page, 1, "default searches must start on page one");
}

// Pagination

#[test]
fn pagination_clamps_inputs() {
    let p = Pagination::new(0, 0, -5);
    assert_eq!(p.page, 1, "page must be clamped to one");
    assert_eq!(p.per_page, 1, "page size must be clamped to one");
    assert_eq!(p.total, 0, "total records must be clamped to zero");
}

#[test]
fn pagination_total_pages_at_least_one() {
    let p = Pagination::new(1, 10, 0);
    assert_eq!(
        p.total_pages(),
        1,
        "empty result sets must still render as one page"
    );
}

#[test]
fn pagination_total_pages_normal() {
    assert_eq!(
        Pagination::new(1, 10, 1).total_pages(),
        1,
        "one record must fit on one page"
    );
    assert_eq!(
        Pagination::new(1, 10, 10).total_pages(),
        1,
        "a full page must not create an extra page"
    );
    assert_eq!(
        Pagination::new(1, 10, 11).total_pages(),
        2,
        "one record beyond the page size must create a second page"
    );
    assert_eq!(
        Pagination::new(1, 10, 20).total_pages(),
        2,
        "two full pages must remain two pages"
    );
    assert_eq!(
        Pagination::new(1, 10, 21).total_pages(),
        3,
        "one record beyond two pages must create a third page"
    );
}

#[test]
fn pagination_offset() {
    assert_eq!(
        Pagination::new(1, 10, 100).offset(),
        0,
        "the first page must begin at offset zero"
    );
    assert_eq!(
        Pagination::new(2, 10, 100).offset(),
        10,
        "the second ten-record page must begin at offset ten"
    );
    assert_eq!(
        Pagination::new(3, 25, 100).offset(),
        50,
        "the third twenty-five-record page must begin at offset fifty"
    );
}

#[test]
fn pagination_offset_clamped_for_bad_page() {
    // Even if someone bypasses new() and manually sets page = -1
    let p = Pagination {
        page: -1,
        per_page: 10,
        total: 50,
    };
    assert_eq!(p.offset(), 0, "invalid negative pages must clamp to zero");
}

#[test]
fn pagination_has_prev_and_next() {
    let p = Pagination::new(1, 10, 30);
    assert!(!p.has_prev(), "the first page must not have a predecessor");
    assert!(
        p.has_next(),
        "the first of three pages must have a successor"
    );

    let p = Pagination::new(2, 10, 30);
    assert!(p.has_prev(), "the second page must have a predecessor");
    assert!(
        p.has_next(),
        "the second of three pages must have a successor"
    );

    let p = Pagination::new(3, 10, 30);
    assert!(p.has_prev(), "the third page must have a predecessor");
    assert!(!p.has_next(), "the final page must not have a successor");
}

#[test]
fn pagination_single_page() {
    let p = Pagination::new(1, 10, 5);
    assert!(!p.has_prev(), "a single page must not have a predecessor");
    assert!(!p.has_next(), "a single page must not have a successor");
    assert_eq!(p.total_pages(), 1, "five records must fit on one page");
}

#[test]
fn pagination_empty_results() {
    let p = Pagination::new(1, 10, 0);
    assert!(
        !p.has_prev(),
        "an empty result page must not have a predecessor"
    );
    assert!(
        !p.has_next(),
        "an empty result page must not have a successor"
    );
    assert_eq!(
        p.total_pages(),
        1,
        "empty results must still expose one display page"
    );
    assert_eq!(p.offset(), 0, "empty results must begin at offset zero");
}

fn board() -> Board {
    Board {
        id: 1,
        display_order: 0,
        short_name: "b".to_owned(),
        name: "Board".to_owned(),
        description: String::new(),
        nsfw: false,
        max_threads: 100,
        max_archived_threads: 100,
        bump_limit: 300,
        allow_images: true,
        allow_video: true,
        allow_audio: true,
        max_image_size: 0,
        max_video_size: 0,
        max_audio_size: 0,
        max_pdf_size: 0,
        allow_pdf: false,
        allow_any_files: false,
        allow_tripcodes: true,
        allow_editing: true,
        allow_self_delete: true,
        edit_window_secs: 0,
        allow_archive: true,
        allow_video_embeds: false,
        allow_captcha: false,
        show_poster_ids: false,
        collapse_greentext: false,
        post_cooldown_secs: 0,
        default_theme: String::new(),
        banner_mode: BoardBannerMode::Inherit,
        access_mode: BoardAccessMode::Public,
        access_password_hash: String::new(),
        created_at: 0,
    }
}

#[test]
fn media_types_survive_the_database() {
    for (kind, text) in [
        (MediaType::Image, "image"),
        (MediaType::Video, "video"),
        (MediaType::Audio, "audio"),
        (MediaType::Pdf, "pdf"),
        (MediaType::Other, "other"),
    ] {
        assert_eq!(kind.as_str(), text);
        assert_eq!(MediaType::from_db_str(text), Some(kind));
    }
    assert_eq!(MediaType::from_db_str("Image"), None);
}

#[test]
fn access_modes_survive_the_database() {
    for (mode, text) in [
        (BoardAccessMode::Public, "public"),
        (BoardAccessMode::ViewPassword, "view_password"),
        (BoardAccessMode::PostPassword, "post_password"),
    ] {
        assert_eq!(mode.as_str(), text);
        assert_eq!(mode.display(), text);
        assert_eq!(BoardAccessMode::from_db_str(text), Some(mode));
    }
    assert_eq!(BoardAccessMode::from_db_str(""), None);
    assert_eq!(BoardAccessMode::default(), BoardAccessMode::Public);
    assert!(BoardAccessMode::ViewPassword.requires_view_password());
    assert!(!BoardAccessMode::PostPassword.requires_view_password());
}

#[test]
fn banner_modes_survive_the_database() {
    for (mode, text) in [
        (BoardBannerMode::Inherit, "inherit"),
        (BoardBannerMode::NoBanners, "none"),
        (BoardBannerMode::Override, "override"),
    ] {
        assert_eq!(mode.as_str(), text);
        assert_eq!(BoardBannerMode::from_db_str(text), Some(mode));
    }
    assert_eq!(BoardBannerMode::from_db_str("other"), None);
    assert_eq!(BoardBannerMode::default(), BoardBannerMode::Inherit);
}

#[test]
fn banner_scopes_survive_the_database() {
    for (scope, text) in [
        (BannerScope::Global, "global"),
        (BannerScope::Board, "board"),
        (BannerScope::Home, "home"),
    ] {
        assert_eq!(scope.as_str(), text);
        assert_eq!(scope.display(), text);
        assert_eq!(BannerScope::from_db_str(text), Some(scope));
    }
    assert_eq!(BannerScope::from_db_str("site"), None);
}

#[test]
fn banner_targets_survive_the_database() {
    for (target, text) in [
        (BannerTargetType::NoTarget, "none"),
        (BannerTargetType::InternalBoard, "internal_board"),
        (BannerTargetType::InternalPath, "internal_path"),
        (BannerTargetType::ExternalUrl, "external_url"),
    ] {
        assert_eq!(target.as_str(), text);
        assert_eq!(target.display(), text);
        assert_eq!(BannerTargetType::from_db_str(text), Some(target));
    }
    assert_eq!(BannerTargetType::from_db_str("url"), None);
}

#[test]
fn extensions_are_read_as_written() {
    assert_eq!(MediaType::from_ext("tif"), MediaType::Image);
    assert_eq!(MediaType::from_ext("JPEG"), MediaType::Other);
    assert_eq!(MediaType::from_ext(""), MediaType::Other);
}

#[test]
fn pages_hold_every_record_once() {
    let total = 23;
    let mut covered = 0;
    let mut page = 1;
    loop {
        let p = Pagination::new(page, 10, total);
        assert_eq!(p.offset(), covered);
        covered += 10;
        if !p.has_next() {
            break;
        }
        page += 1;
    }
    assert_eq!(page, 3);
    assert!(covered >= total);
}

#[test]
fn a_board_without_limits_takes_those_of_the_site() {
    let site = UploadLimits {
        max_image_size: 1_000,
        max_video_size: 3_000,
        max_audio_size: 2_000,
    };
    let b = board();
    assert_eq!(b.max_image_size_bytes(&site), 1_000);
    assert_eq!(b.max_video_size_bytes(&site), 3_000);
    assert_eq!(b.max_audio_size_bytes(&site), 2_000);
    assert_eq!(b.max_pdf_size_bytes(&site), 1_000);
    assert_eq!(b.max_generic_upload_size_bytes(&site), 3_000);
}

#[test]
fn limits_of_a_board_stand_before_those_of_the_site() {
    let site = UploadLimits {
        max_image_size: 1_000,
        max_video_size: 3_000,
        max_audio_size: 2_000,
    };
    let mut b = board();
    b.max_image_size = 10;
    b.max_audio_size = -1;
    b.max_pdf_size = 5_000;
    assert_eq!(b.max_image_size_bytes(&site), 10);
    assert_eq!(b.max_audio_size_bytes(&site), 2_000);
    assert_eq!(b.max_generic_upload_size_bytes(&site), 5_000);
}

#[test]
fn defaults_are_empty() {
    let stats = SiteStats::default();
    assert_eq!(stats.total_posts, 0);
    assert_eq!(stats.active_bytes, 0);
}

#[test]
fn pagination_counts_pages_of_any_total() {
    assert_eq!(Pagination::new(1, 2, i64::MAX).total_pages(), 4_611_686_018_427_387_904);
    assert_eq!(Pagination::new(1, i64::MAX, i64::MAX).total_pages(), 1);
    assert_eq!(Pagination::new(1, 1, i64::MAX).total_pages(), i64::MAX);
    assert!(Pagination::new(1, 2, i64::MAX).has_next());
}
