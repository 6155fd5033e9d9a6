use std::collections::BTreeMap;

use rustchan::digest::sha256_text;
use rustchan::media::prune::CandidatePath;
use rustchan::media::reconcile::audit::{
    DeletionObservation, DigestReading, FileProbe, HashBudget, ReferenceObservation,
};
use rustchan::media::reconcile::intents::{
    ArtifactDigest, IntentBody, IntentRow, StageLocation, UploadFinalize,
};
use rustchan::media::reconcile::inventory::{
    admit_root, DirectoryEntry, EntryStat, InventoryEntry, InventoryEntryKind, InventoryPage,
    InventoryWalker, Listing, RelativePath, Request,
};
use rustchan::media::reconcile::jobs::{parse_job, JobRow, ParsedJob};
use rustchan::media::reconcile::model::{
    is_valid_board_short, parse_managed_path, MediaState, ReferenceModel,
};
use rustchan::media::reconcile::orphans::{
    entry_wants_digest, EntryObservation, EntryProbe, FileIdentity, OrphanCandidate,
};
use rustchan::media::reconcile::pass::{
    collect_reference_model, log_completion, metrics_snapshot, update_metrics, CompletionSummary,
    ReconcileMetrics, Snapshot,
};
use rustchan::media::reconcile::repairs::{
    confirm_deletion, path_has_authoritative_claim, path_has_lifecycle_claim, recheck_hash,
    recheck_intent, recheck_job, recheck_orphan, removal_result, HashRowNow, HashState,
    IntentClaim, IntentRowNow, IntentState, JobClaim, JobRowNow, JobState, OrphanState, Recheck,
    RepairAttempt, RepairTarget,
};
use rustchan::media::reconcile::report::{
    configured_limits, configured_mode, AuditClassification, AuditReport, MediaCategory,
    ReconcileCursor, ReconcileLimits, ReconcileMode, ReconcileSettings,
};
use rustchan::media::reconcile::rows::{BoardRow, HashRow, PostRow};
use rustchan::media::reconcile::run::{finish_pass, reconcile_managed_media};

/// Files and database rows in memory.
struct Fixture {
    boards: Vec<BoardRow>,
    posts: Vec<PostRow>,
    hashes: Vec<HashRow>,
    jobs: Vec<JobRow>,
    intents: Vec<IntentRow>,
    files: BTreeMap<String, (u64, Vec<u8>)>,
    odd: BTreeMap<String, EntryStat>,
    next_id: i64,
    next_inode: u64,
    generation: i64,
    generation_after_walk: i64,
}

const ROOT: &str = "/up";

impl Fixture {
    fn new() -> Self {
        let mut fixture = Fixture {
            boards: Vec::new(),
            posts: Vec::new(),
            hashes: Vec::new(),
            jobs: Vec::new(),
            intents: Vec::new(),
            files: BTreeMap::new(),
            odd: BTreeMap::new(),
            next_id: 1,
            next_inode: 1,
            generation: 1,
            generation_after_walk: 1,
        };
        fixture.board("b");
        fixture
    }

    fn board(&mut self, short_name: &str) {
        let id = self.take_id();
        self.boards.push(BoardRow { id, short_name: short_name.to_owned() });
        self.odd.insert(short_name.to_owned(), EntryStat::Directory);
        self.odd.insert(format!("{short_name}/thumbs"), EntryStat::Directory);
    }

    fn take_id(&mut self) -> i64 {
        self.next_id += 1;
        self.next_id - 1
    }

    fn write(&mut self, relative: &str, contents: &[u8]) {
        let mut parent = String::new();
        for part in relative.split('/').rev().skip(1).collect::<Vec<_>>().into_iter().rev() {
            if !parent.is_empty() {
                parent.push('/');
            }
            parent.push_str(part);
            self.odd.entry(parent.clone()).or_insert(EntryStat::Directory);
        }
        self.next_inode += 1;
        self.files.insert(relative.to_owned(), (self.next_inode, contents.to_vec()));
    }

    fn post(&mut self, file: Option<&str>, thumb: Option<&str>, mime: Option<&str>, state: MediaState) -> i64 {
        let id = self.take_id();
        self.posts.push(PostRow {
            id,
            board_id: self.boards[0].id,
            board: "b".to_owned(),
            file_path: file.map(str::to_owned),
            thumb_path: thumb.map(str::to_owned),
            audio_file_path: None,
            mime_type: mime.unwrap_or_default().to_owned(),
            media_state: state,
        });
        id
    }

    fn hash(&mut self, digest: &str, file: &str, thumb: &str, mime: &str) {
        self.hashes.push(HashRow {
            sha256: digest.to_owned(),
            file_path: file.to_owned(),
            thumb_path: thumb.to_owned(),
            mime_type: mime.to_owned(),
        });
    }

    fn job(&mut self, job_type: &str, payload: &str, status: &str) {
        let id = self.take_id();
        self.jobs.push(JobRow {
            id,
            job_type: job_type.to_owned(),
            payload: payload.to_owned(),
            status: status.to_owned(),
        });
    }

    fn intent(&mut self, id: &str, kind: &str, body: IntentBody) {
        self.intents.push(IntentRow {
            id: id.to_owned(),
            kind: kind.to_owned(),
            payload_json: format!("payload of {id}"),
            body,
        });
    }

    fn delete_intent(&mut self, id: &str, path: &str) {
        self.intent(
            id,
            "delete_files",
            IntentBody::DeleteFiles { paths: vec![path.to_owned()], dirs: Vec::new() },
        );
    }

    fn upload_intent(&mut self, id: &str, stage: &str, path: &str, contents: &[u8]) {
        let stage_dir = format!("{ROOT}/.pending/{stage}");
        self.intent(
            id,
            "upload_finalize",
            IntentBody::UploadFinalize(UploadFinalize {
                stage_dir: stage_dir.clone(),
                relative_paths: vec![path.to_owned()],
                optional_paths: Vec::new(),
                artifact_sha256: vec![ArtifactDigest {
                    path: path.to_owned(),
                    sha256: digest(contents),
                }],
                root: Some(ROOT.to_owned()),
                stage: StageLocation::Resolved(stage_dir),
            }),
        );
    }

    fn has_file(&self, path: &str) -> bool {
        self.files.contains_key(path)
    }

    fn identity(&self, path: &str) -> Option<FileIdentity> {
        self.files.get(path).map(|(inode, contents)| FileIdentity {
            size: contents.len() as u64,
            device: 1,
            inode: *inode,
        })
    }

    fn digest_of(&self, path: &str) -> Option<String> {
        self.files.get(path).map(|(_, contents)| digest(contents))
    }

    fn model(&self, limit: usize) -> ReferenceModel {
        collect_reference_model(
            Snapshot {
                data_version: self.generation,
                boards: self.boards.clone(),
                posts: self.posts.clone(),
                hashes: self.hashes.clone(),
                jobs: self.jobs.clone(),
                intents: self.intents.clone(),
            },
            limit,
        )
    }

    fn listing(&self, request: &Request) -> Listing {
        let dir = request.path.text.clone().unwrap_or_default();
        let prefix = if dir.is_empty() { String::new() } else { format!("{dir}/") };
        let mut children: BTreeMap<String, EntryStat> = BTreeMap::new();
        for (path, stat) in &self.odd {
            if let Some(rest) = path.strip_prefix(&prefix) {
                if !rest.is_empty() && !rest.contains('/') {
                    children.insert(rest.to_owned(), *stat);
                }
            }
        }
        for path in self.files.keys() {
            if let Some(rest) = path.strip_prefix(&prefix) {
                if !rest.contains('/') {
                    children.insert(rest.to_owned(), EntryStat::Regular { hard_linked: false });
                }
            }
        }
        Listing::Entries(
            children
                .into_iter()
                .map(|(name, stat)| DirectoryEntry {
                    raw_name: name.as_bytes().to_vec(),
                    name: Some(name),
                    stat,
                })
                .collect(),
        )
    }

    fn page(&self, model: &ReferenceModel, cursor: &ReconcileCursor, limit: usize) -> InventoryPage {
        let mut walker = InventoryWalker::new(&model.boards, cursor, limit);
        let root = InventoryWalker::root_request();
        let listing = self.listing(&root);
        walker.enter(root, listing);
        while !walker.is_done() {
            if let Some(request) = walker.step() {
                let listing = self.listing(&request);
                walker.enter(request, listing);
            }
        }
        walker.scan()
    }

    fn deletion(&self, id: &str) -> Option<DeletionObservation> {
        self.intents.iter().find(|row| row.id == id).and_then(|row| match &row.body {
            IntentBody::DeleteFiles { paths, dirs } => Some(DeletionObservation {
                files_absent: paths.iter().map(|path| !self.has_file(path)).collect(),
                dirs: dirs.clone(),
                dirs_absent: dirs.iter().map(|dir| !self.odd.contains_key(dir)).collect(),
            }),
            _ => None,
        })
    }

    fn lifecycle_claim(&self, path: &str) -> bool {
        let jobs = self
            .jobs
            .iter()
            .map(|job| JobClaim { job_type: job.job_type.clone(), payload: job.payload.clone() })
            .collect();
        let intents = self
            .intents
            .iter()
            .map(|intent| IntentClaim { body: intent.body.clone(), staged_root: None })
            .collect();
        path_has_lifecycle_claim(&jobs, &intents, path)
    }

    fn referenced(&self, path: &str) -> bool {
        self.posts.iter().any(|post| {
            [&post.file_path, &post.thumb_path, &post.audio_file_path]
                .into_iter()
                .any(|candidate| candidate.as_deref() == Some(path))
        })
    }

    fn repair_orphan(&mut self, candidate: &OrphanCandidate) -> RepairAttempt {
        let path = candidate.relative.clone();
        let hashed = self.hashes.iter().any(|row| row.file_path == path || row.thumb_path == path);
        let state = OrphanState {
            claimed: path_has_authoritative_claim(
                Some(self.referenced(&path)),
                Some(hashed),
                Some(self.lifecycle_claim(&path)),
            ),
            identity: Some(self.identity(&path)),
            digest: self.digest_of(&path),
            board_exists: Some(self.boards.iter().any(|board| board.short_name == candidate.board)),
        };
        match recheck_orphan(candidate, &state) {
            Recheck::Proceed => {}
            Recheck::Conflict => return RepairAttempt::Conflict,
            Recheck::Failed => return RepairAttempt::Failed,
        }
        let id = format!("orphan {path}");
        self.delete_intent(&id, &path);
        let confirmed = confirm_deletion(
            candidate,
            Some(self.referenced(&path)),
            Some(self.identity(&path)),
            self.digest_of(&path).as_deref(),
        );
        if confirmed == Recheck::Proceed {
            RepairAttempt::Applied
        } else {
            self.intents.retain(|row| row.id != id);
            RepairAttempt::Conflict
        }
    }

    fn repair(&mut self, model: &ReferenceModel, orphans: &[OrphanCandidate], target: RepairTarget) -> RepairAttempt {
        let (verdict, removed) = match target {
            RepairTarget::Orphan(i) => return self.repair_orphan(&orphans[i]),
            RepairTarget::Intent(i) => {
                let candidate = &model.intent_candidates[i];
                let state = IntentState {
                    row: Some(self.intents.iter().find(|row| row.id == candidate.id).map(|row| {
                        IntentRowNow { kind: row.kind.clone(), payload_json: row.payload_json.clone() }
                    })),
                    targets: self.deletion(&candidate.id),
                };
                let verdict = recheck_intent(candidate, &state);
                let before = self.intents.len();
                if verdict == Recheck::Proceed {
                    self.intents.retain(|row| row.id != candidate.id);
                }
                (verdict, before - self.intents.len())
            }
            RepairTarget::Job(i) => {
                let candidate = &model.job_candidates[i];
                let parsed = parse_job(&candidate.job_type, &candidate.payload);
                let (post, source, output) = match parsed {
                    Some(ParsedJob::Media { post_id, source, output, .. }) => (post_id, source, output),
                    other => panic!("not a media job: {other:?}"),
                };
                let state = JobState {
                    row: Some(self.jobs.iter().find(|row| row.id == candidate.id).map(|row| JobRowNow {
                        job_type: row.job_type.clone(),
                        payload: row.payload.clone(),
                        status: row.status.clone(),
                    })),
                    post_file: Some(
                        self.posts.iter().find(|row| row.id == post).and_then(|row| row.file_path.clone()),
                    ),
                    source_present: Some(self.has_file(&source)),
                    output_present: Some(self.has_file(&output)),
                };
                let verdict = recheck_job(candidate, &state);
                let before = self.jobs.len();
                if verdict == Recheck::Proceed {
                    self.jobs.retain(|row| row.id != candidate.id);
                }
                (verdict, before - self.jobs.len())
            }
            RepairTarget::Hash(i) => {
                let candidate = &model.hash_candidates[i];
                let state = HashState {
                    row: Some(self.hashes.iter().find(|row| row.sha256 == candidate.digest).map(|row| {
                        HashRowNow {
                            file_path: row.file_path.clone(),
                            thumb_path: row.thumb_path.clone(),
                            mime_type: row.mime_type.clone(),
                        }
                    })),
                    file_referenced: Some(self.referenced(&candidate.file_path)),
                    thumb_referenced: Some(self.referenced(&candidate.thumb_path)),
                    file_claimed: Some(self.lifecycle_claim(&candidate.file_path)),
                    thumb_claimed: Some(self.lifecycle_claim(&candidate.thumb_path)),
                };
                let verdict = recheck_hash(candidate, &state);
                let before = self.hashes.len();
                if verdict == Recheck::Proceed {
                    self.hashes.retain(|row| row.sha256 != candidate.digest);
                }
                (verdict, before - self.hashes.len())
            }
        };
        match verdict {
            Recheck::Proceed => removal_result(removed),
            Recheck::Conflict => RepairAttempt::Conflict,
            Recheck::Failed => RepairAttempt::Failed,
        }
    }

    fn pass(&mut self, mode: ReconcileMode, limits: ReconcileLimits, cursor: &ReconcileCursor) -> AuditReport {
        let model = self.model(limits.database_rows_per_pass);
        let seen = model
            .records
            .iter()
            .map(|record| ReferenceObservation {
                file: match self.files.get(&record.path) {
                    Some((_, contents)) => FileProbe::Present {
                        size: contents.len() as u64,
                        digest: DigestReading::Read(digest(contents)),
                    },
                    None => FileProbe::Missing,
                },
                source_present: record
                    .recoverable_source
                    .as_ref()
                    .is_some_and(|source| self.has_file(source)),
            })
            .collect();
        let deletions = model
            .intent_candidates
            .iter()
            .map(|candidate| self.deletion(&candidate.id))
            .collect();
        let page = self.page(&model, cursor, limits.files_per_pass);
        let entries = page
            .entries
            .iter()
            .map(|entry| {
                let path = entry.path.text.clone().unwrap_or_default();
                match self.identity(&path) {
                    Some(identity) => EntryObservation {
                        bytes: identity.size,
                        file: EntryProbe::Present {
                            identity,
                            digest: DigestReading::Read(self.digest_of(&path).unwrap_or_default()),
                        },
                    },
                    None => EntryObservation { bytes: 0, file: EntryProbe::Missing },
                }
            })
            .collect();
        let examination = reconcile_managed_media(
            "scan".to_owned(),
            10,
            model,
            mode,
            &limits,
            &seen,
            &deletions,
            Ok(page),
            &entries,
            self.generation_after_walk,
        );
        let results = examination
            .plan
            .clone()
            .into_iter()
            .map(|target| self.repair(&examination.model, &examination.orphans, target))
            .collect();
        finish_pass(examination, &results, 20)
    }

    fn audit(&mut self, mode: ReconcileMode, limits: ReconcileLimits) -> AuditReport {
        self.pass(mode, limits, &ReconcileCursor::default())
    }

    /// Carries out the deletions that are scheduled.
    fn replay(&mut self) {
        for row in std::mem::take(&mut self.intents) {
            match &row.body {
                IntentBody::DeleteFiles { paths, .. } => {
                    for path in paths {
                        self.files.remove(path);
                    }
                }
                _ => self.intents.push(row),
            }
        }
    }

    fn candidate(&self, relative: &str) -> OrphanCandidate {
        OrphanCandidate {
            relative: relative.to_owned(),
            board: "b".to_owned(),
            category: if relative.contains("/thumbs/") {
                MediaCategory::Thumbnail
            } else {
                MediaCategory::Original
            },
            identity: self.identity(relative).expect("file"),
            digest: self.digest_of(relative),
        }
    }
}

fn limits() -> ReconcileLimits {
    ReconcileLimits {
        files_per_pass: 128,
        database_rows_per_pass: 1_024,
        hash_bytes_per_pass: 1024 * 1024,
        repairs_per_pass: 128,
        examples_per_pass: 128,
    }
}

fn count(report: &AuditReport, classification: AuditClassification) -> u64 {
    report.counts.get(&classification.rank()).copied().unwrap_or_default()
}

fn digest(contents: &[u8]) -> String {
    sha256_text(contents)
}

fn waveform(post: i64, file: &str) -> String {
    format!(
        "{{\"t\":\"AudioWaveform\",\"d\":{{\"post_id\":{post},\"file_path\":\"{file}\",\"board_short\":\"b\"}}}}"
    )
}

fn transcode(post: i64, file: &str) -> String {
    format!(
        "{{\"t\":\"VideoTranscode\",\"d\":{{\"post_id\":{post},\"file_path\":\"{file}\",\"board_short\":\"b\"}}}}"
    )
}

#[test]
fn healthy_shared_pruned_and_job_media_are_preserved() {
    let mut fixture = Fixture::new();
    fixture.write("b/shared.webp", b"shared");
    fixture.write("b/thumbs/shared.webp", b"thumbnail");
    fixture.hash(&digest(b"shared"), "b/shared.webp", "b/thumbs/shared.webp", "image/webp");
    for _ in 0..2 {
        fixture.post(
            Some("b/shared.webp"),
            Some("b/thumbs/shared.webp"),
            Some("image/webp"),
            MediaState::Settled,
        );
    }

    fixture.write("b/thumbs/pruned.webp", b"retained");
    fixture.post(
        Some("b/pruned.webp"),
        Some("b/thumbs/pruned.webp"),
        Some("image/webp"),
        MediaState::Pruned,
    );

    fixture.write("b/audio.mp3", b"audio");
    fixture.write("b/thumbs/audio.png", b"waveform");
    fixture.hash(&digest(b"audio"), "b/audio.mp3", "b/thumbs/audio.png", "audio/mpeg");
    let audio_post = fixture.post(
        Some("b/audio.mp3"),
        Some("b/thumbs/audio.png"),
        Some("audio/mpeg"),
        MediaState::ProcessingPending,
    );
    fixture.job("audio_waveform", &waveform(audio_post, "b/audio.mp3"), "pending");
    fixture.write("b/video.mp4", b"video");
    let video_post =
        fixture.post(Some("b/video.mp4"), None, Some("video/mp4"), MediaState::ProcessingPending);
    fixture.job("video_transcode", &transcode(video_post, "b/video.mp4"), "running");
    fixture.write("b/prune-pending.webp", b"prune");
    let prune_post = fixture.post(
        Some("b/prune-pending.webp"),
        None,
        Some("image/webp"),
        MediaState::PrunePending,
    );
    fixture.intent(
        "prune",
        "original_prune",
        IntentBody::OriginalPrune {
            post_ids: vec![prune_post],
            paths: vec![CandidatePath {
                path: "b/prune-pending.webp".to_owned(),
                board_short: "b".to_owned(),
                size: 5,
            }],
        },
    );

    fixture.write("b/deleting.webp", b"delete");
    fixture.delete_intent("delete", "b/deleting.webp");
    let report = fixture.audit(ReconcileMode::Audit, limits());
    assert!(report.transactionally_stable);
    assert!(!report.incomplete);
    assert!(count(&report, AuditClassification::Healthy) > 0);
    assert!(count(&report, AuditClassification::LifecycleInProgress) > 0);
    assert!(count(&report, AuditClassification::ScheduledDeletion) > 0);
    assert_eq!(count(&report, AuditClassification::IntentionallyPrunedOriginal), 1);
    assert_eq!(count(&report, AuditClassification::SafeOrphanCandidate), 0);
    assert_eq!(report.repairs.completed(), 0);
    assert!(fixture.has_file("b/shared.webp"));
    assert!(fixture.has_file("b/thumbs/pruned.webp"));
}

#[test]
fn safe_orphan_repair_is_durable_interruptible_and_idempotent() {
    let mut fixture = Fixture::new();
    fixture.write("b/orphan.webp", b"orphan");

    let audit = fixture.audit(ReconcileMode::Audit, limits());
    assert_eq!(count(&audit, AuditClassification::SafeOrphanCandidate), 1);
    assert!(fixture.has_file("b/orphan.webp"));
    assert!(fixture.intents.is_empty());

    let repair = fixture.audit(ReconcileMode::Repair, limits());
    assert_eq!(repair.repairs.files_scheduled, 1);
    assert!(fixture.has_file("b/orphan.webp"));
    assert_eq!(fixture.intents.len(), 1);

    fixture.replay();
    assert!(!fixture.has_file("b/orphan.webp"));
    assert!(fixture.intents.is_empty());

    let fixed_point = fixture.audit(ReconcileMode::Repair, limits());
    assert_eq!(fixed_point.repairs.completed(), 0);
}

#[test]
fn shared_media_becomes_orphan_only_after_every_claim_is_removed() {
    let mut fixture = Fixture::new();
    fixture.write("b/shared.webp", b"shared");
    let shared_digest = digest(b"shared");
    fixture.hash(&shared_digest, "b/shared.webp", "", "image/webp");
    let first_post =
        fixture.post(Some("b/shared.webp"), None, Some("image/webp"), MediaState::Settled);
    let second_post =
        fixture.post(Some("b/shared.webp"), None, Some("image/webp"), MediaState::Settled);

    for gone in [first_post, second_post] {
        let report = fixture.audit(ReconcileMode::Audit, limits());
        assert_eq!(count(&report, AuditClassification::SafeOrphanCandidate), 0);
        fixture.posts.retain(|post| post.id != gone);
    }
    let report = fixture.audit(ReconcileMode::Audit, limits());
    assert_eq!(count(&report, AuditClassification::SafeOrphanCandidate), 0);
    fixture.hashes.retain(|row| row.sha256 != shared_digest);

    let repair = fixture.audit(ReconcileMode::Repair, limits());
    assert_eq!(repair.repairs.files_scheduled, 1);
    fixture.replay();
    assert!(!fixture.has_file("b/shared.webp"));
    assert_eq!(fixture.audit(ReconcileMode::Repair, limits()).repairs.completed(), 0);
}

#[test]
fn interrupted_after_filesystem_deletion_converges_on_replay() {
    let mut fixture = Fixture::new();
    fixture.write("b/interrupted.webp", b"orphan");
    let repair = fixture.audit(ReconcileMode::Repair, limits());
    assert_eq!(repair.repairs.files_scheduled, 1);
    assert_eq!(fixture.intents.len(), 1);

    fixture.files.remove("b/interrupted.webp");
    assert_eq!(fixture.intents.len(), 1);
    fixture.replay();
    assert!(fixture.intents.is_empty());
    let fixed_point = fixture.audit(ReconcileMode::Repair, limits());
    assert_eq!(fixed_point.repairs.completed(), 0);
}

#[test]
fn file_replaced_after_audit_is_not_scheduled() {
    let mut fixture = Fixture::new();
    fixture.write("b/replaced.webp", b"first");
    let audited = fixture.candidate("b/replaced.webp");
    fixture.files.remove("b/replaced.webp");
    fixture.write("b/replaced.webp", b"replacement");

    assert_eq!(fixture.repair_orphan(&audited), RepairAttempt::Conflict);
    assert!(fixture.intents.is_empty());
    assert_eq!(fixture.files["b/replaced.webp"].1, b"replacement");
}

#[test]
fn new_reference_after_classification_cancels_cleanup_without_leaving_intent() {
    let mut fixture = Fixture::new();
    fixture.write("b/race.webp", b"race");
    let audited = fixture.candidate("b/race.webp");
    fixture.post(Some("b/race.webp"), None, Some("image/webp"), MediaState::Settled);

    assert_eq!(fixture.repair_orphan(&audited), RepairAttempt::Conflict);
    assert!(fixture.has_file("b/race.webp"));
    assert!(fixture.intents.is_empty());
}

#[test]
fn trigger_created_reference_at_intent_insert_is_caught_before_commit() {
    let mut fixture = Fixture::new();
    fixture.write("b/trigger-race.webp", b"race");
    let audited = fixture.candidate("b/trigger-race.webp");
    let identity = Some(fixture.identity("b/trigger-race.webp"));
    let same = fixture.digest_of("b/trigger-race.webp");
    assert_eq!(
        confirm_deletion(&audited, Some(false), identity, same.as_deref()),
        Recheck::Proceed
    );
    assert_eq!(
        confirm_deletion(&audited, Some(true), identity, same.as_deref()),
        Recheck::Conflict
    );
}

#[test]
fn missing_media_and_pruned_thumbnail_receive_conservative_classifications() {
    let mut fixture = Fixture::new();
    fixture.post(
        Some("b/missing.webp"),
        Some("b/thumbs/missing.webp"),
        Some("image/webp"),
        MediaState::Settled,
    );
    fixture.write("b/thumbs/pruned.webp", b"retained");
    fixture.post(
        Some("b/pruned.webp"),
        Some("b/thumbs/pruned.webp"),
        Some("image/webp"),
        MediaState::Pruned,
    );
    fixture.post(
        Some("b/audio.mp3"),
        Some("b/thumbs/audio.png"),
        Some("audio/mpeg"),
        MediaState::Settled,
    );
    let video_post = fixture.post(
        Some("b/missing-video.mp4"),
        None,
        Some("video/mp4"),
        MediaState::ProcessingPending,
    );
    fixture.job("video_transcode", &transcode(video_post, "b/missing-video.mp4"), "pending");

    let report = fixture.audit(ReconcileMode::Repair, limits());
    assert!(count(&report, AuditClassification::MissingPrimary) >= 2);
    assert_eq!(count(&report, AuditClassification::MissingThumbnail), 1);
    assert_eq!(count(&report, AuditClassification::MissingWaveform), 1);
    assert_eq!(count(&report, AuditClassification::MissingDeterministicOutput), 1);
    assert_eq!(count(&report, AuditClassification::IntentionallyPrunedOriginal), 1);
    assert_eq!(report.repairs.files_scheduled, 0);
    assert!(fixture.has_file("b/thumbs/pruned.webp"));
}

#[test]
fn stale_hash_repairs_are_transactional_and_shared_hashes_remain() {
    let mut fixture = Fixture::new();
    fixture.hash(&digest(b"missing"), "b/missing.webp", "", "image/webp");
    fixture.write("b/shared.webp", b"shared");
    fixture.hash(&digest(b"shared"), "b/shared.webp", "", "image/webp");
    fixture.post(Some("b/shared.webp"), None, Some("image/webp"), MediaState::Settled);

    let report = fixture.audit(ReconcileMode::Repair, limits());
    assert_eq!(report.repairs.stale_hash_rows_removed, 1);
    assert!(!fixture.hashes.iter().any(|row| row.file_path == "b/missing.webp"));
    assert!(fixture.hashes.iter().any(|row| row.file_path == "b/shared.webp"));
    assert!(fixture.has_file("b/shared.webp"));
}

#[test]
fn conflicting_and_cross_board_hash_metadata_remains_quarantined() {
    let mut fixture = Fixture::new();
    fixture.board("c");
    fixture.write("b/conflict.webp", b"conflict");
    fixture.hash(&digest(b"conflict"), "b/conflict.webp", "", "image/webp");
    fixture.hash(&digest(b"different"), "b/conflict.webp", "", "image/webp");
    fixture.write("b/cross.webp", b"cross");
    fixture.hash(&digest(b"cross"), "b/cross.webp", "c/thumbs/cross.webp", "image/webp");

    let report = fixture.audit(ReconcileMode::Repair, limits());
    assert_eq!(count(&report, AuditClassification::ConflictingHashMetadata), 1);
    assert_eq!(count(&report, AuditClassification::CrossBoardMetadata), 1);
    assert_eq!(report.repairs.completed(), 0);
    assert_eq!(fixture.hashes.len(), 3);
    assert!(fixture.has_file("b/conflict.webp"));
    assert!(fixture.has_file("b/cross.webp"));
}

#[test]
fn conflicting_hash_examples_are_ordered_by_managed_path() {
    let mut fixture = Fixture::new();
    for (path, first, second) in [
        ("b/z-conflict.webp", b"z-first".as_slice(), b"z-second".as_slice()),
        ("b/a-conflict.webp", b"a-first".as_slice(), b"a-second".as_slice()),
    ] {
        fixture.write(path, first);
        fixture.hash(&digest(first), path, "", "image/webp");
        fixture.hash(&digest(second), path, "", "image/webp");
    }

    let first = fixture.audit(ReconcileMode::Audit, limits());
    let second = fixture.audit(ReconcileMode::Audit, limits());
    let conflicting_paths = |report: &AuditReport| {
        report
            .examples
            .iter()
            .filter(|example| {
                example.classification == AuditClassification::ConflictingHashMetadata
            })
            .map(|example| example.managed_id.clone())
            .collect::<Vec<_>>()
    };

    assert_eq!(conflicting_paths(&first), ["b/a-conflict.webp", "b/z-conflict.webp"]);
    assert_eq!(conflicting_paths(&first), conflicting_paths(&second));
}

#[test]
fn malformed_intent_makes_apparent_orphan_ambiguous() {
    let mut fixture = Fixture::new();
    fixture.write("b/orphan.webp", b"orphan");
    fixture.intent("bad", "delete_files", IntentBody::Undecodable);

    let report = fixture.audit(ReconcileMode::Repair, limits());
    assert_eq!(count(&report, AuditClassification::MalformedIntent), 1);
    assert_eq!(count(&report, AuditClassification::AmbiguousOrphan), 1);
    assert_eq!(report.repairs.completed(), 0);
    assert!(fixture.has_file("b/orphan.webp"));
    assert_eq!(fixture.intents.len(), 1);
}

#[test]
fn unsafe_external_intent_is_distinct_and_preserves_unrelated_media() {
    let mut fixture = Fixture::new();
    fixture.write("b/orphan.webp", b"orphan");
    fixture.delete_intent("external", "/tmp/outside-rustchan");

    let report = fixture.audit(ReconcileMode::Repair, limits());
    assert_eq!(count(&report, AuditClassification::UnsafeExternalIntent), 1);
    assert_eq!(count(&report, AuditClassification::MalformedIntent), 0);
    assert_eq!(count(&report, AuditClassification::AmbiguousOrphan), 1);
    assert_eq!(report.repairs.completed(), 0);
    assert!(fixture.has_file("b/orphan.webp"));
    assert_eq!(fixture.intents.len(), 1);
}

#[test]
fn malformed_job_does_not_hide_valid_or_superseded_media_jobs() {
    let mut fixture = Fixture::new();
    fixture.write("b/video.mp4", b"source");
    fixture.write("b/video.webm", b"output");
    let post_id =
        fixture.post(Some("b/video.webm"), None, Some("video/webm"), MediaState::Settled);
    let job = transcode(post_id, "b/video.mp4");
    fixture.job("video_transcode", &job, "done");
    fixture.job("video_transcode", &job, "pending");
    fixture.job("video_transcode", "{bad-json", "failed");

    let report = fixture.audit(ReconcileMode::Repair, limits());
    assert_eq!(count(&report, AuditClassification::MalformedJob), 1);
    assert_eq!(count(&report, AuditClassification::ObsoleteJob), 1);
    assert!(count(&report, AuditClassification::Healthy) > 0);
    assert_eq!(report.repairs.completed(), 0);
    assert_eq!(fixture.jobs.len(), 3);
    assert!(fixture.has_file("b/video.mp4"));
    assert!(fixture.has_file("b/video.webm"));
}

#[test]
fn incomplete_reference_snapshot_preserves_every_apparent_orphan() {
    let mut fixture = Fixture::new();
    fixture.write("b/orphan.webp", b"orphan");
    fixture.post(None, None, None, MediaState::Settled);
    let limited = ReconcileLimits { database_rows_per_pass: 1, ..limits() };

    let report = fixture.audit(ReconcileMode::Repair, limited);
    assert!(report.incomplete);
    assert_eq!(count(&report, AuditClassification::SafeOrphanCandidate), 0);
    assert_eq!(count(&report, AuditClassification::AmbiguousOrphan), 1);
    assert_eq!(report.repairs.completed(), 0);
    assert!(fixture.has_file("b/orphan.webp"));
}

#[test]
fn active_finalize_stage_and_missing_destination_are_lifecycle_work() {
    let mut fixture = Fixture::new();
    fixture.write(".pending/upload-test/b/upload.webp", b"staged");
    fixture.upload_intent("finalize", "upload-test", "b/upload.webp", b"staged");
    fixture.write("b/installed.webp", b"installed");
    fixture.upload_intent("installed", "upload-installed", "b/installed.webp", b"installed");
    fixture.upload_intent("lost", "upload-lost", "b/lost.webp", b"lost");

    let report = fixture.audit(ReconcileMode::Repair, limits());
    assert!(count(&report, AuditClassification::LifecycleInProgress) >= 2);
    assert_eq!(count(&report, AuditClassification::MissingStageInstalledDestination), 1);
    assert!(count(&report, AuditClassification::IntentInconsistency) >= 2);
    assert_eq!(count(&report, AuditClassification::MalformedIntent), 0);
    assert_eq!(report.repairs.files_scheduled, 0);
    assert!(fixture.has_file(".pending/upload-test/b/upload.webp"));
}

#[test]
fn cleanup_intent_that_conflicts_with_post_is_report_only() {
    let mut fixture = Fixture::new();
    fixture.write("b/active.webp", b"active");
    fixture.post(Some("b/active.webp"), None, Some("image/webp"), MediaState::Settled);
    fixture.delete_intent("conflict", "b/active.webp");

    let report = fixture.audit(ReconcileMode::Repair, limits());
    assert_eq!(count(&report, AuditClassification::IntentConflictsWithActiveReference), 1);
    assert_eq!(report.repairs.completed(), 0);
    assert!(fixture.has_file("b/active.webp"));
    assert_eq!(fixture.intents.len(), 1);
}

#[test]
fn missing_waveform_with_valid_source_is_recoverable_but_not_attached_by_inference() {
    let mut fixture = Fixture::new();
    fixture.write("b/audio.mp3", b"audio");
    let post_id = fixture.post(
        Some("b/audio.mp3"),
        Some("b/thumbs/audio.png"),
        Some("audio/mpeg"),
        MediaState::ProcessingPending,
    );
    fixture.job("audio_waveform", &waveform(post_id, "b/audio.mp3"), "pending");

    let report = fixture.audit(ReconcileMode::Repair, limits());
    assert_eq!(count(&report, AuditClassification::RecoverableMissingDerived), 1);
    assert_eq!(count(&report, AuditClassification::MissingWaveform), 1);
    assert_eq!(report.repairs.completed(), 0);
    assert_eq!(fixture.posts[0].thumb_path.as_deref(), Some("b/thumbs/audio.png"));
}

#[test]
fn completed_delete_intent_and_obsolete_terminal_job_repair_safely() {
    let mut fixture = Fixture::new();
    fixture.delete_intent("complete", "b/already-gone.webp");
    fixture.job("video_transcode", &transcode(9999, "b/gone.mp4"), "done");

    let report = fixture.audit(ReconcileMode::Repair, limits());
    assert_eq!(count(&report, AuditClassification::CompletedIntent), 1);
    assert_eq!(count(&report, AuditClassification::ObsoleteJob), 1);
    assert_eq!(report.repairs.completed_intents_removed, 1);
    assert_eq!(report.repairs.obsolete_jobs_removed, 1);
    assert!(fixture.intents.is_empty());
    assert!(fixture.jobs.is_empty());
}

#[test]
fn repair_budget_is_shared_in_category_order() {
    let mut fixture = Fixture::new();
    fixture.delete_intent("complete", "b/already-gone.webp");
    fixture.job("video_transcode", &transcode(9999, "b/gone.mp4"), "done");
    fixture.hash(&digest(b"missing"), "b/missing.webp", "", "image/webp");
    fixture.write("b/orphan.webp", b"orphan");

    let first =
        fixture.audit(ReconcileMode::Repair, ReconcileLimits { repairs_per_pass: 2, ..limits() });
    assert_eq!(first.repairs.completed_intents_removed, 1);
    assert_eq!(first.repairs.obsolete_jobs_removed, 1);
    assert_eq!(first.repairs.stale_hash_rows_removed, 0);
    assert_eq!(first.repairs.files_scheduled, 0);

    let second =
        fixture.audit(ReconcileMode::Repair, ReconcileLimits { repairs_per_pass: 1, ..limits() });
    assert_eq!(second.repairs.stale_hash_rows_removed, 1);
    assert_eq!(second.repairs.files_scheduled, 0);

    let third =
        fixture.audit(ReconcileMode::Repair, ReconcileLimits { repairs_per_pass: 1, ..limits() });
    assert_eq!(third.repairs.files_scheduled, 1);
    assert_eq!(fixture.intents.len(), 1);
}

#[test]
fn inventory_batches_resume_and_reports_are_deterministic() {
    let mut fixture = Fixture::new();
    for name in ["a.webp", "b.webp", "c.webp", "d.webp", "e.webp"] {
        fixture.write(&format!("b/{name}"), name.as_bytes());
    }
    let page_limits = ReconcileLimits { files_per_pass: 2, ..limits() };
    let first = fixture.pass(ReconcileMode::Audit, page_limits, &ReconcileCursor::default());
    assert_eq!(first.paths_examined, 2);
    assert!(first.next_cursor.after_managed_key.is_some());
    let second = fixture.pass(ReconcileMode::Audit, page_limits, &first.next_cursor);
    assert_eq!(second.paths_examined, 2);
    assert!(second.next_cursor.after_managed_key.is_some());
    let third = fixture.pass(ReconcileMode::Audit, page_limits, &second.next_cursor);
    assert_eq!(third.paths_examined, 1);
    assert!(third.next_cursor.after_managed_key.is_none());
    assert_eq!(
        count(&first, AuditClassification::SafeOrphanCandidate)
            + count(&second, AuditClassification::SafeOrphanCandidate)
            + count(&third, AuditClassification::SafeOrphanCandidate),
        5
    );

    let stable_one = fixture.audit(ReconcileMode::Audit, limits());
    let stable_two = fixture.audit(ReconcileMode::Audit, limits());
    assert_eq!(stable_one.counts, stable_two.counts);
    assert_eq!(stable_one.categories, stable_two.categories);
    assert_eq!(stable_one.bytes_by_classification, stable_two.bytes_by_classification);
    assert_eq!(
        format!("{:?}", stable_one.examples),
        format!("{:?}", stable_two.examples)
    );
}

#[test]
fn unsafe_symlink_hardlink_directory_and_socket_are_report_only() {
    let mut fixture = Fixture::new();
    fixture.odd.insert("b/link.webp".to_owned(), EntryStat::Symlink);
    fixture.odd.insert("b/hard.webp".to_owned(), EntryStat::Regular { hard_linked: true });
    fixture.odd.insert("b/hard-copy.webp".to_owned(), EntryStat::Regular { hard_linked: true });
    fixture.odd.insert("b/unexpected".to_owned(), EntryStat::Directory);
    fixture.odd.insert("b/media.sock".to_owned(), EntryStat::Special);

    let report = fixture.audit(ReconcileMode::Repair, limits());
    assert_eq!(count(&report, AuditClassification::UnsafeSymlink), 1);
    assert_eq!(count(&report, AuditClassification::UnsafeHardLink), 2);
    assert_eq!(count(&report, AuditClassification::UnexpectedDirectory), 1);
    assert_eq!(count(&report, AuditClassification::UnsafeSpecialEntry), 1);
    assert_eq!(report.repairs.completed(), 0);
}

#[test]
fn a_changed_database_makes_the_pass_unstable() {
    let mut fixture = Fixture::new();
    fixture.write("b/orphan.webp", b"orphan");
    fixture.generation_after_walk = 2;
    let report = fixture.audit(ReconcileMode::Repair, limits());
    assert!(!report.transactionally_stable);
    assert!(report.incomplete);
    assert_eq!(count(&report, AuditClassification::SafeOrphanCandidate), 0);
    assert_eq!(count(&report, AuditClassification::AmbiguousOrphan), 1);
    assert_eq!(report.repairs.completed(), 0);
    assert_eq!(
        report.errors,
        vec!["database generation changed during filesystem enumeration"]
    );
}

#[test]
fn a_walk_that_cannot_start_makes_the_pass_incomplete() {
    let fixture = Fixture::new();
    let examination = reconcile_managed_media(
        "scan".to_owned(),
        10,
        fixture.model(1_024),
        ReconcileMode::Repair,
        &limits(),
        &Vec::new(),
        &Vec::new(),
        Err("no such directory".to_owned()),
        &Vec::new(),
        1,
    );
    assert!(!examination.repair_safe);
    assert!(examination.plan.is_empty());
    let report = finish_pass(examination, &Vec::new(), 20);
    assert!(report.incomplete);
    assert_eq!(report.started_at, 10);
    assert_eq!(report.completed_at, 20);
    assert_eq!(
        report.errors,
        vec!["managed filesystem inventory could not start: no such directory"]
    );
}

#[test]
fn directories_that_cannot_be_listed_are_scan_errors() {
    let fixture = Fixture::new();
    let model = fixture.model(1_024);
    let mut walker = InventoryWalker::new(&model.boards, &ReconcileCursor::default(), 8);
    let root = InventoryWalker::root_request();
    let listing = fixture.listing(&root);
    walker.enter(root, listing);
    while !walker.is_done() {
        if let Some(request) = walker.step() {
            walker.enter(request, Listing::Failed("denied".to_owned()));
        }
    }
    let page = walker.scan();
    assert_eq!(page.entries.len(), 1);
    assert_eq!(page.entries[0].path.text.as_deref(), Some("b"));
    assert_eq!(page.entries[0].sort_key, "622f");
    assert_eq!(page.boards_examined, 1);

    let mut walker = InventoryWalker::new(&model.boards, &ReconcileCursor::default(), 8);
    walker.enter(InventoryWalker::root_request(), Listing::Failed("denied".to_owned()));
    assert!(walker.is_done());
    assert_eq!(
        walker.scan().errors,
        vec!["managed root enumeration failed: denied"]
    );
}

#[test]
fn entries_are_walked_in_the_order_of_their_names() {
    let fixture = Fixture::new();
    let model = fixture.model(1_024);
    let mut walker = InventoryWalker::new(&model.boards, &ReconcileCursor::default(), 2);
    let file = |name: &[u8]| DirectoryEntry {
        raw_name: name.to_vec(),
        name: std::str::from_utf8(name).ok().map(str::to_owned),
        stat: EntryStat::Regular { hard_linked: false },
    };
    walker.enter(
        InventoryWalker::root_request(),
        Listing::Entries(vec![file(b"c"), file(b"a-b"), file(b"a"), file(b"\xff")]),
    );
    while !walker.is_done() {
        assert!(walker.step().is_none());
    }
    let page = walker.scan();
    assert!(page.has_more);
    let names: Vec<&[u8]> = page.entries.iter().map(|entry| entry.path.raw.as_slice()).collect();
    assert_eq!(names, vec![b"a".as_slice(), b"a-b".as_slice()]);
    assert_eq!(page.last_key.as_deref(), Some("612d62"));
}

#[test]
fn limits_are_kept_within_bounds() {
    let wild = ReconcileLimits {
        files_per_pass: 0,
        database_rows_per_pass: usize::MAX,
        hash_bytes_per_pass: 0,
        repairs_per_pass: 5_000,
        examples_per_pass: 0,
    };
    assert_eq!(
        wild.bounded(),
        ReconcileLimits {
            files_per_pass: 1,
            database_rows_per_pass: 250_000,
            hash_bytes_per_pass: 1,
            repairs_per_pass: 1_000,
            examples_per_pass: 1,
        }
    );
    let settings = ReconcileSettings {
        repair_enabled: true,
        files_per_pass: 10,
        database_rows_per_pass: 20,
        hash_bytes_per_pass: 30,
        repairs_per_pass: 40,
    };
    assert_eq!(configured_mode(&settings), ReconcileMode::Repair);
    assert_eq!(configured_limits(&settings).repairs_per_pass, 40);
    assert_eq!(configured_limits(&settings).examples_per_pass, 32);
    assert_eq!(ReconcileLimits::default().files_per_pass, 512);
}

#[test]
fn the_digest_budget_bounds_what_is_read() {
    let mut fixture = Fixture::new();
    fixture.write("b/orphan.webp", b"orphan");
    let poor = ReconcileLimits { hash_bytes_per_pass: 1, ..limits() };
    let report = fixture.audit(ReconcileMode::Repair, poor);
    assert_eq!(report.repairs.files_scheduled, 0);
    assert!(fixture.has_file("b/orphan.webp"));
}

#[test]
fn payloads_of_jobs_are_read_as_json() {
    match parse_job("video_transcode", &transcode(4, "b/video.mp4")) {
        Some(ParsedJob::Media { post_id, board, source, output, category }) => {
            assert_eq!(post_id, 4);
            assert_eq!(board, "b");
            assert_eq!(source, "b/video.mp4");
            assert_eq!(output, "b/video.webm");
            assert_eq!(category, MediaCategory::TranscodedOutput);
        }
        other => panic!("not a transcode: {other:?}"),
    }
    assert!(matches!(
        parse_job("thread_prune", "{\"t\":\"ThreadPrune\",\"d\":{\"board_id\":3}}"),
        Some(ParsedJob::ThreadPrune { board_id: 3 })
    ));
    assert!(parse_job("video_transcode", &waveform(4, "b/audio.mp3")).is_none());
    assert!(parse_job("video_transcode", "{bad-json").is_none());
    assert!(parse_job("video_transcode", "{\"t\":\"VideoTranscode\",\"d\":4}").is_none());
    assert!(parse_job("unknown", &transcode(4, "b/video.mp4")).is_none());
    assert!(is_valid_board_short("b"));
    assert!(!is_valid_board_short("../b"));
}

fn counted_report() -> AuditReport {
    let mut report = AuditReport::new("scan".to_owned(), 100);
    for (class, times, bytes) in [
        (AuditClassification::MissingPrimary, 2, 0),
        (AuditClassification::MissingWaveform, 1, 0),
        (AuditClassification::RecoverableMissingDerived, 4, 0),
        (AuditClassification::SafeOrphanCandidate, 2, 10),
        (AuditClassification::AmbiguousOrphan, 3, 7),
        (AuditClassification::UnsafeSymlink, 1, 0),
        (AuditClassification::CrossBoardPath, 1, 0),
    ] {
        for _ in 0..times {
            report.record(class, MediaCategory::Original, bytes, None, 8);
        }
    }
    report.paths_examined = 11;
    report.references_examined = 13;
    report.repairs.files_scheduled = 1;
    report.repairs.obsolete_jobs_removed = 2;
    report.repairs.revalidation_conflicts = 5;
    report.incomplete = true;
    report.completed_at = 130;
    report
}

#[test]
fn metrics_add_up_over_passes() {
    let mut metrics = ReconcileMetrics::default();
    update_metrics(&mut metrics, &counted_report());
    update_metrics(&mut metrics, &counted_report());
    assert_eq!(
        metrics_snapshot(&metrics),
        ReconcileMetrics {
            files_scanned_total: 22,
            references_scanned_total: 26,
            missing_references_total: 6,
            safe_orphan_bytes_total: 40,
            ambiguous_files_total: 6,
            repairs_total: 6,
            repair_conflicts_total: 10,
            incomplete_scans_total: 2,
        }
    );
}

#[test]
fn completion_summary_counts_findings() {
    assert_eq!(
        log_completion(&counted_report()),
        CompletionSummary {
            safe_orphans: 2,
            ambiguous: 3,
            missing: 3,
            unsafe_entries: 2,
            safe_orphan_bytes: 20,
            duration_seconds: 30,
        }
    );
}

#[test]
fn only_live_references_count_as_missing() {
    assert!(AuditClassification::MissingPrimary.is_missing());
    assert!(AuditClassification::UnrecoverableActiveReference.is_missing());
    assert!(!AuditClassification::RecoverableMissingDerived.is_missing());
    assert!(!AuditClassification::IntentionallyPrunedOriginal.is_missing());
}

#[test]
fn digests_are_read_of_unclaimed_files_within_the_budget() {
    let mut model = ReferenceModel::new(1);
    model.boards.push("b".to_owned());
    let report = AuditReport::new("scan".to_owned(), 0);
    let mut entry = InventoryEntry {
        path: RelativePath { raw: b"b/x.png".to_vec(), text: Some("b/x.png".to_owned()) },
        sort_key: String::new(),
        board: Some("b".to_owned()),
        category: MediaCategory::Original,
        entry_kind: InventoryEntryKind::File,
    };
    let budget = HashBudget::new(10);
    assert!(entry_wants_digest(&model, &report, &entry, 10, &budget));
    assert!(!entry_wants_digest(&model, &report, &entry, 11, &budget));
    entry.entry_kind = InventoryEntryKind::Symlink;
    assert!(!entry_wants_digest(&model, &report, &entry, 10, &budget));
    entry.entry_kind = InventoryEntryKind::File;
    model.mark_ambiguous();
    assert!(!entry_wants_digest(&model, &report, &entry, 10, &budget));
}

#[test]
fn directories_are_walked_where_their_files_sort() {
    let mut fixture = Fixture::new();
    fixture.write("b/y", b"y");
    fixture.write("b.x", b"x");
    let model = fixture.model(1_024);
    let whole = fixture.page(&model, &ReconcileCursor::default(), 8);
    let keys: Vec<&str> = whole.entries.iter().map(|entry| entry.sort_key.as_str()).collect();
    assert_eq!(keys, vec!["622e78", "622f79"]);

    let mut cursor = ReconcileCursor::default();
    let mut seen = Vec::new();
    for more in [true, false] {
        let page = fixture.page(&model, &cursor, 1);
        assert_eq!(page.entries.len(), 1);
        assert_eq!(page.has_more, more);
        seen.push(page.entries[0].path.text.clone().unwrap_or_default());
        cursor = ReconcileCursor { after_managed_key: page.last_key };
    }
    assert_eq!(seen, vec!["b.x", "b/y"]);
    assert!(fixture.page(&model, &cursor, 1).entries.is_empty());
}

#[test]
fn a_pass_never_repairs_more_than_its_bound() {
    let mut fixture = Fixture::new();
    for i in 0..1_005 {
        let name = format!("b/missing{i}.webp");
        fixture.hash(&digest(name.as_bytes()), &name, "", "image/webp");
    }
    let wide = ReconcileLimits {
        repairs_per_pass: 2_000,
        database_rows_per_pass: 4_096,
        ..limits()
    };
    let first = fixture.audit(ReconcileMode::Repair, wide);
    assert_eq!(first.repairs.stale_hash_rows_removed, 1_000);
    assert_eq!(fixture.hashes.len(), 5);
}

#[test]
fn managed_paths_are_read_as_themselves() {
    let boards = vec!["b".to_owned()];
    for (raw, relative) in [("b//a.webp", "b/a.webp"), ("b/./thumbs/a.svg", "b/thumbs/a.svg")] {
        let managed = parse_managed_path(raw, None, &boards).expect("managed");
        assert_eq!(managed.relative, relative);
        let again = parse_managed_path(&managed.relative, Some("b"), &boards).expect("managed");
        assert_eq!(again.relative, managed.relative);
        assert_eq!(again.board, managed.board);
        assert_eq!(again.category, managed.category);
    }
}

#[test]
fn only_a_plain_directory_is_walked() {
    assert!(admit_root(EntryStat::Directory));
    for stat in [
        EntryStat::Symlink,
        EntryStat::Unreadable,
        EntryStat::OtherDevice,
        EntryStat::Special,
        EntryStat::Regular { hard_linked: false },
    ] {
        assert!(!admit_root(stat));
    }
}
