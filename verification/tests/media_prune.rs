use rustchan::media::prune::groups::{group_shared_candidates, load_candidates, Candidate, PruneRow};
use rustchan::media::prune::plan::{order_candidates, PruneOutcome, PrunePass};
use rustchan::media::prune::targets::{
    check_references, check_target, finish_post, hashes_are_stale, next_removal, settle_removal,
    start_removals, validate_current_target_paths, PathReference, PathState, PruneRefusal,
    RemovalStep, TargetRow, Transition,
};
use rustchan::media::prune::{
    candidate_path, finalize_original_prune_payload, persist_prune_intent, prune_to_limit,
    run_configured_prune, safe_file_size, validate_post_original_path, validate_prune_payload,
    CandidatePath, CandidatePathLoad, FileSize, Look, OriginalPruneFinalizeReport,
    OriginalPrunePayload, PruneReport,
};
use rustchan::media::reconcile::model::MediaState;

#[test]
fn validate_post_original_path_rejects_thumbs_and_escapes() {
    assert!(validate_post_original_path("b/file.webp", "b").is_some());
    assert!(validate_post_original_path("b/thumbs/file.webp", "b").is_none());
    assert!(validate_post_original_path("../b/file.webp", "b").is_none());
    assert!(validate_post_original_path("/b/file.webp", "b").is_none());
    assert!(validate_post_original_path("tech/file.webp", "b").is_none());
}

fn row(post_id: i64, created_at: i64, path: &str, size: u64) -> PruneRow {
    PruneRow {
        post_id,
        created_at,
        path: path.to_owned(),
        file: FileSize::Present(size),
        db_size: None,
        board_short: "b".to_owned(),
        audio_path: None,
        audio_file: FileSize::Missing,
        audio_db_size: None,
    }
}

fn removed(files: u64, bytes: u64) -> PruneOutcome {
    PruneOutcome::Removed(OriginalPruneFinalizeReport {
        removed_files: files,
        removed_bytes: bytes,
    })
}

fn path(name: &str, size: u64) -> CandidatePath {
    CandidatePath {
        path: name.to_owned(),
        board_short: "b".to_owned(),
        size,
    }
}

#[test]
fn configured_prune_disabled_removes_nothing() {
    assert_eq!(run_configured_prune(false, 8), None);
    assert_eq!(run_configured_prune(true, 8), Some(8));
}

#[test]
fn pruning_removes_oldest_originals_and_keeps_thumbnails() {
    let groups = load_candidates(&vec![
        row(102, 20, "b/new.webp", 8),
        row(101, 10, "b/old.webp", 8),
    ]);
    let mut pass = PrunePass::begin(groups, 8);
    let next = pass.next_candidate().expect("over the limit");
    assert_eq!(next.post_ids, vec![101]);
    assert_eq!(next.paths[0].path, "b/old.webp");
    pass.settle(removed(1, 8));
    assert!(pass.next_candidate().is_none());
    let report = pass.finish();
    assert_eq!(report.removed_files, 1);
    assert_eq!(report.removed_bytes, 8);
    assert_eq!(report.total_before_bytes, 16);
    assert_eq!(report.total_after_bytes, 8);
}

#[test]
fn pruning_removes_secondary_audio_original_with_combo_post() {
    let mut combo = row(101, 10, "b/image.webp", 4);
    combo.audio_path = Some("b/track.flac".to_owned());
    combo.audio_file = FileSize::Present(12);
    let groups = load_candidates(&vec![combo]);
    assert_eq!(groups.len(), 1);
    assert_eq!(groups[0].paths.len(), 2);
    let report = prune_to_limit(groups, 0, &vec![removed(2, 16)]);
    assert_eq!(report.total_before_bytes, 16);
    assert_eq!(report.removed_files, 2);
    assert_eq!(report.total_after_bytes, 0);
}

#[test]
fn shared_original_is_counted_once_and_waits_for_every_reference() {
    let groups = load_candidates(&vec![
        row(101, 10, "b/shared.webp", 8),
        row(102, 20, "b/shared.webp", 8),
    ]);
    assert_eq!(groups.len(), 1);
    assert_eq!(groups[0].post_ids, vec![101, 102]);
    assert_eq!(groups[0].size, 8);
    assert_eq!(groups[0].created_at, 10);

    let outside = PathReference {
        post_id: 103,
        state: MediaState::Settled,
        board_short: "b".to_owned(),
    };
    assert_eq!(
        check_references(&vec![outside], &path("b/shared.webp", 8), &vec![101, 102], false),
        Some(PruneRefusal::StillReferenced)
    );
    let blocked = prune_to_limit(groups, 0, &vec![PruneOutcome::Skipped]);
    assert_eq!(blocked.total_before_bytes, 8);
    assert_eq!(blocked.removed_files, 0);
    assert_eq!(blocked.skipped_files, 1);
    assert_eq!(blocked.total_after_bytes, 8);
}

#[test]
fn posts_that_share_through_others_are_one_group() {
    let posts: Vec<PruneRow> = vec![
        {
            let mut first = row(1, 10, "b/a.webp", 1);
            first.audio_path = Some("b/x.flac".to_owned());
            first.audio_file = FileSize::Present(2);
            first
        },
        {
            let mut second = row(2, 20, "b/c.webp", 4);
            second.audio_path = Some("b/x.flac".to_owned());
            second.audio_file = FileSize::Present(2);
            second
        },
        row(3, 30, "b/c.webp", 4),
        row(4, 5, "b/d.webp", 8),
    ];
    let groups = load_candidates(&posts);
    assert_eq!(groups.len(), 2);
    let sizes: Vec<u64> = groups.iter().map(|group| group.size).collect();
    assert_eq!(sizes.iter().sum::<u64>(), 15);
    assert!(groups.iter().any(|group| group.post_ids == vec![1, 2, 3]));
    assert!(groups.iter().any(|group| group.post_ids == vec![4]));
    assert!(group_shared_candidates(&Vec::new()).is_empty());
}

#[test]
fn older_groups_come_first() {
    let group = |id: i64, created_at: i64, name: &str| Candidate {
        post_ids: vec![id],
        created_at,
        paths: vec![path(name, 1)],
        size: 1,
    };
    let ordered = order_candidates(vec![
        group(3, 20, "b/c.webp"),
        group(2, 10, "b/b.webp"),
        group(1, 30, "b/a.webp"),
    ]);
    let ids: Vec<i64> = ordered.iter().map(|g| g.post_ids[0]).collect();
    assert_eq!(ids, vec![2, 3, 1]);
}

#[test]
fn nothing_is_pruned_within_the_limit() {
    let report = prune_to_limit(load_candidates(&vec![row(1, 10, "b/a.webp", 8)]), 8, &vec![]);
    assert_eq!(report.removed_files, 0);
    assert_eq!(report.total_after_bytes, 8);
    assert_eq!(prune_to_limit(Vec::new(), 0, &vec![]), PruneReport::default());
}

#[test]
fn sizes_come_from_the_file_or_the_database() {
    assert!(matches!(
        candidate_path("b/a.webp", FileSize::Present(8), Some(9), "b"),
        CandidatePathLoad::Loaded(found) if found.size == 8
    ));
    assert!(matches!(
        candidate_path("b/a.webp", FileSize::Unsafe, Some(9), "b"),
        CandidatePathLoad::Unsafe
    ));
    assert!(matches!(
        candidate_path("../a.webp", FileSize::Present(8), None, "b"),
        CandidatePathLoad::Unsafe
    ));
}

fn target(state: MediaState, archived: bool) -> TargetRow {
    TargetRow {
        file_path: Some("b/a.webp".to_owned()),
        audio_path: None,
        state,
        board_short: "b".to_owned(),
        archived,
    }
}

#[test]
fn pruning_ignores_archived_thread_media() {
    let paths = vec![path("b/a.webp", 8)];
    assert_eq!(
        check_target(&Some(target(MediaState::Settled, true)), &paths, true),
        Some(PruneRefusal::NotEligible)
    );
    assert_eq!(check_target(&Some(target(MediaState::Settled, false)), &paths, true), None);
}

#[test]
fn deleting_target_post_while_intent_is_pending_does_not_reattach_state() {
    let paths = vec![path("b/a.webp", 8)];
    assert_eq!(check_target(&None, &paths, false), None);
    assert_eq!(check_target(&None, &paths, true), Some(PruneRefusal::PostGone));
    assert_eq!(finish_post(None), Transition::Settled);
    assert_eq!(finish_post(Some(MediaState::PrunePending)), Transition::MarkPruned);
    assert_eq!(finish_post(Some(MediaState::Pruned)), Transition::Settled);
    assert_eq!(finish_post(Some(MediaState::Settled)), Transition::Refused);
}

#[test]
fn targets_must_keep_their_transition_and_their_paths() {
    let paths = vec![path("b/a.webp", 8)];
    assert_eq!(
        check_target(&Some(target(MediaState::Settled, false)), &paths, false),
        Some(PruneRefusal::LeftTransition)
    );
    let mut other = target(MediaState::PrunePending, false);
    other.file_path = Some("b/other.webp".to_owned());
    assert_eq!(
        validate_current_target_paths(&vec![Some(other)], &paths, false),
        Some(PruneRefusal::UnexpectedPath)
    );
}

fn pending(post_id: i64) -> PathReference {
    PathReference {
        post_id,
        state: MediaState::PrunePending,
        board_short: "b".to_owned(),
    }
}

fn payload(post_ids: Vec<i64>, paths: Vec<CandidatePath>) -> OriginalPrunePayload {
    OriginalPrunePayload { post_ids, paths }
}

fn there(references: Vec<PathReference>) -> PathState {
    PathState {
        references,
        file: FileSize::Present(8),
        removed: true,
    }
}

#[test]
fn replay_refuses_a_new_surviving_reference_before_physical_deletion() {
    let survivor = PathReference {
        post_id: 9,
        state: MediaState::Settled,
        board_short: "b".to_owned(),
    };
    let references = vec![pending(1), survivor];
    let original = path("b/a.webp", 8);
    let step = next_removal(&original, &references, FileSize::Present(8), &vec![1]);
    assert_eq!(step, RemovalStep::Stop(PruneRefusal::StillReferenced));
    assert_eq!(settle_removal(step, false), Some(PruneRefusal::StillReferenced));
    assert_eq!(
        finalize_original_prune_payload(
            &payload(vec![1], vec![original]),
            &vec![Some(target(MediaState::PrunePending, false))],
            &vec![PathState { references, file: FileSize::Present(8), removed: false }],
        ),
        Err(PruneRefusal::StillReferenced)
    );
}

#[test]
fn originals_are_removed_only_where_nothing_needs_them() {
    let original = path("b/a.webp", 8);
    let step = |file| next_removal(&original, &vec![pending(1)], file, &vec![1]);
    assert_eq!(step(FileSize::Present(8)), RemovalStep::Remove);
    assert_eq!(step(FileSize::Missing), RemovalStep::Keep);
    assert_eq!(step(FileSize::Unsafe), RemovalStep::Stop(PruneRefusal::UnsafePath));
    assert_eq!(settle_removal(RemovalStep::Remove, true), None);
    assert_eq!(settle_removal(RemovalStep::Remove, false), Some(PruneRefusal::NotRemoved));
    assert_eq!(settle_removal(RemovalStep::Keep, false), None);
    let rows = vec![Some(target(MediaState::PrunePending, false))];
    assert_eq!(start_removals(&payload(vec![1], vec![path("b/a.webp", 8)]), &rows), None);
    assert_eq!(
        start_removals(&payload(vec![1, 1], vec![path("b/a.webp", 8)]), &rows),
        Some(PruneRefusal::Malformed)
    );
}

#[test]
fn pruning_refuses_symlink_media_paths() {
    assert_eq!(
        safe_file_size("b/a.webp", &vec![Look::Other, Look::Symlink], Look::Symlink, true),
        FileSize::Unsafe
    );
    let mut unsafe_path = there(vec![pending(1)]);
    unsafe_path.file = FileSize::Unsafe;
    assert_eq!(
        finalize_original_prune_payload(
            &payload(vec![1], vec![path("b/a.webp", 8)]),
            &vec![Some(target(MediaState::PrunePending, false))],
            &vec![unsafe_path],
        ),
        Err(PruneRefusal::UnsafePath)
    );
}

#[test]
fn pruning_refuses_symlink_parent_components() {
    assert_eq!(
        safe_file_size("b/a.webp", &vec![Look::Symlink, Look::File(8)], Look::File(8), true),
        FileSize::Unsafe
    );
    assert_eq!(
        safe_file_size("b/a.webp", &vec![Look::Other, Look::File(8)], Look::File(8), false),
        FileSize::Unsafe
    );
    assert_eq!(
        safe_file_size("b/a.webp", &vec![Look::Other, Look::File(8)], Look::File(8), true),
        FileSize::Present(8)
    );
    assert_eq!(
        safe_file_size("b/a.webp", &vec![Look::Missing, Look::Missing], Look::Missing, true),
        FileSize::Missing
    );
    assert_eq!(
        safe_file_size("b/a.webp", &vec![Look::Other, Look::Other], Look::Other, true),
        FileSize::Unsafe
    );
    assert_eq!(
        safe_file_size("b/a.webp", &vec![Look::Unreadable], Look::Unreadable, true),
        FileSize::Unsafe
    );
    assert_eq!(safe_file_size("../a.webp", &vec![], Look::File(8), true), FileSize::Unsafe);
}

#[test]
fn malformed_intent_does_not_block_later_valid_prune_recovery() {
    assert_eq!(
        finalize_original_prune_payload(
            &payload(vec![1, 1], vec![path("b/a.webp", 8)]),
            &vec![Some(target(MediaState::PrunePending, false))],
            &vec![there(vec![pending(1)])],
        ),
        Err(PruneRefusal::Malformed)
    );
    assert_eq!(
        finalize_original_prune_payload(
            &payload(vec![1], vec![path("b/a.webp", 8)]),
            &vec![Some(target(MediaState::PrunePending, false))],
            &vec![there(vec![pending(1)])],
        ),
        Ok(OriginalPruneFinalizeReport { removed_files: 1, removed_bytes: 8 })
    );
}

#[test]
fn files_that_cannot_be_removed_stop_the_replay() {
    let mut stuck = there(vec![pending(1)]);
    stuck.removed = false;
    assert_eq!(
        finalize_original_prune_payload(
            &payload(vec![1], vec![path("b/a.webp", 8)]),
            &vec![Some(target(MediaState::PrunePending, false))],
            &vec![stuck],
        ),
        Err(PruneRefusal::NotRemoved)
    );
}

#[test]
fn intents_are_written_only_for_settled_posts() {
    let group = Candidate {
        post_ids: vec![1],
        created_at: 10,
        paths: vec![path("b/a.webp", 8)],
        size: 8,
    };
    let own = || {
        vec![vec![PathReference {
            post_id: 1,
            state: MediaState::Settled,
            board_short: "b".to_owned(),
        }]]
    };
    let row = |state: MediaState| vec![Some(target(state, false))];
    let written = persist_prune_intent(&group, &row(MediaState::Settled), &own(), &vec![true])
        .expect("written");
    assert_eq!(written.post_ids, vec![1]);
    assert_eq!(written.paths[0].path, "b/a.webp");
    assert_eq!(
        persist_prune_intent(&group, &row(MediaState::ProcessingPending), &own(), &vec![true]).err(),
        Some(PruneRefusal::NotEligible)
    );
    assert_eq!(
        persist_prune_intent(&group, &row(MediaState::Settled), &own(), &vec![false]).err(),
        Some(PruneRefusal::Changed)
    );
    let mut shared = own();
    shared[0].push(PathReference {
        post_id: 2,
        state: MediaState::Settled,
        board_short: "b".to_owned(),
    });
    assert_eq!(
        persist_prune_intent(&group, &row(MediaState::Settled), &shared, &vec![true]).err(),
        Some(PruneRefusal::StillReferenced)
    );
    assert!(!hashes_are_stale(&shared[0]));
    let mut pruned = pending(1);
    pruned.state = MediaState::Pruned;
    assert!(hashes_are_stale(&vec![pruned]));
}

#[test]
fn references_from_other_boards_are_refused() {
    let mut foreign = pending(1);
    foreign.board_short = "c".to_owned();
    assert_eq!(
        check_references(&vec![foreign], &path("b/a.webp", 8), &vec![1], true),
        Some(PruneRefusal::CrossesBoards)
    );
}

#[test]
fn recovery_resumes_before_and_during_multi_file_deletion_idempotently() {
    let paths = vec![path("b/a.webp", 8), path("b/b.flac", 4)];
    let mut combo = target(MediaState::PrunePending, false);
    combo.audio_path = Some("b/b.flac".to_owned());
    let rows = vec![Some(combo)];
    let state = |present: bool| PathState {
        references: vec![pending(1)],
        file: if present { FileSize::Present(8) } else { FileSize::Missing },
        removed: present,
    };
    let both = payload(vec![1], paths);
    let whole = finalize_original_prune_payload(&both, &rows, &vec![state(true), state(true)]);
    assert_eq!(
        whole,
        Ok(OriginalPruneFinalizeReport { removed_files: 2, removed_bytes: 12 })
    );
    let resumed = finalize_original_prune_payload(&both, &rows, &vec![state(false), state(true)]);
    assert_eq!(
        resumed,
        Ok(OriginalPruneFinalizeReport { removed_files: 1, removed_bytes: 4 })
    );
    let again = finalize_original_prune_payload(&both, &rows, &vec![state(false), state(false)]);
    assert_eq!(again, Ok(OriginalPruneFinalizeReport::default()));
}

#[test]
fn payloads_stay_on_their_board() {
    let valid = OriginalPrunePayload {
        post_ids: vec![1],
        paths: vec![path("b/a.webp", 8)],
    };
    assert!(validate_prune_payload(&valid));
    let escaping = OriginalPrunePayload {
        post_ids: vec![1],
        paths: vec![path("../a.webp", 8)],
    };
    assert!(!validate_prune_payload(&escaping));
    let empty = OriginalPrunePayload {
        post_ids: Vec::new(),
        paths: vec![path("b/a.webp", 8)],
    };
    assert!(!validate_prune_payload(&empty));
}
