use rustchan::digest::sha256_text;
use rustchan::middleware::csrf::{constant_time_eq, split_signed_token};
use rustchan::middleware::ip::{
    forwarded_client_ip, forwarded_ip, forwarded_proto_is_https, network_contains,
    resolved_client_ip, trusted_proxy_peer_with, Address, Network, Peer,
};
use rustchan::middleware::normalize::{canonical_target, normalize_trailing_slash};
use rustchan::middleware::rate_limit::{
    count_request, countable, exempt, new_entry, rate_key, rate_limit_middleware, should_clean,
    survives_cleanup, RateEntry, RateTable, RateVerdict, CLEANUP_INTERVAL_SECS, MAX_CLIENTS,
};
use rustchan::middleware::state::{
    AutoFullBackupSettings, ChanImportGate, DbMaintenanceJobPhase, DbMaintenanceJobStatus,
    DbMaintenanceJobs, MaintenanceGate, MediaUploadGate,
};
use rustchan::middleware::{backup_phase, validate_csrf, BackupProgress};

#[test]
fn backup_progress_initial_phase_is_idle() {
    let bp = BackupProgress::new();
    assert_eq!(
        bp.phase,
        backup_phase::IDLE,
        "new backup progress should start idle"
    );
}

#[test]
fn backup_progress_reset_clears_counters() {
    let mut bp = BackupProgress::new();
    bp.files_done = 10;
    bp.files_total = 20;
    bp.bytes_done = 1024;
    bp.bytes_total = 2048;

    bp.reset(backup_phase::COMPRESS);

    assert_eq!(
        bp.phase,
        backup_phase::COMPRESS,
        "reset should publish the requested phase"
    );
    assert_eq!(
        bp.files_done,
        0,
        "reset should clear completed files"
    );
    assert_eq!(
        bp.files_total,
        0,
        "reset should clear the total file count"
    );
    assert_eq!(
        bp.bytes_done,
        0,
        "reset should clear completed bytes"
    );
    assert_eq!(
        bp.bytes_total,
        0,
        "reset should clear the total byte count"
    );
}

#[test]
fn csrf_matching_tokens_pass() {
    assert!(validate_csrf(Some("abc123"), "abc123", None));
}

#[test]
fn csrf_mismatched_tokens_fail() {
    assert!(!validate_csrf(Some("abc123"), "abc124", None));
}

#[test]
fn csrf_missing_cookie_fails() {
    assert!(!validate_csrf(None, "abc123", None));
}

#[test]
fn csrf_empty_cookie_fails() {
    assert!(!validate_csrf(Some(""), "abc123", None));
}

#[test]
fn csrf_empty_form_token_fails() {
    assert!(!validate_csrf(Some("abc123"), "", None));
}

#[test]
fn constant_time_eq_equal_slices() {
    assert!(constant_time_eq(b"hello", b"hello"));
}

#[test]
fn csrf_signed_form_token_passes_without_cookie() {
    let signature = sha256_text(b"abc123:secret");
    let signed = format!("abc123.{signature}");
    let (raw, part) = split_signed_token(&signed).expect("signed");
    assert_eq!(raw, "abc123");
    assert_eq!(part, signature);
    assert!(validate_csrf(None, &signed, Some(&signature)));
}

#[test]
fn forwarded_ip_prefers_leftmost_hop() {
    assert_eq!(
        forwarded_client_ip("198.51.100.10, 203.0.113.7, 10.0.0.1").as_deref(),
        Some("198.51.100.10")
    );
}

#[test]
fn forwarded_ip_skips_empty_entries() {
    assert_eq!(
        forwarded_client_ip(" , 198.51.100.10").as_deref(),
        Some("198.51.100.10")
    );
}

#[test]
fn media_upload_gate_rejects_overlap_and_recovers_after_drop() {
    let mut gate = MediaUploadGate::new();
    let first = gate.try_begin();
    assert!(first.is_some(), "first media upload should be admitted");
    assert!(
        gate.try_begin().is_none(),
        "overlapping media upload should receive retryable backpressure"
    );
    gate.finish(first.expect("first upload"));
    assert!(
        gate.try_begin().is_some(),
        "media gate should reopen after the active upload finishes"
    );
}

#[test]
fn chan_import_gate_rejects_overlap_until_last_guard_clone_drops() {
    let mut gate = ChanImportGate::new();
    let first = gate.try_begin();
    assert!(
        first.is_some(),
        "first snapshot operation should be admitted"
    );
    let first = first.expect("first operation");
    let blocking_guard = gate.share(&first);
    gate.finish(first);

    assert!(
        gate.try_begin().is_none(),
        "overlapping snapshot processing should receive retryable backpressure"
    );
    gate.finish(blocking_guard);
    assert!(
        gate.try_begin().is_some(),
        "snapshot gate should reopen after the last guard clone drops"
    );
}

#[test]
fn auto_full_backup_settings_clamps_copies_to_keep() {
    let mut settings = AutoFullBackupSettings::new(24, 0, false, "directory", 4);
    assert_eq!(
        settings.snapshot().copies_to_keep,
        1,
        "initial retention should be clamped to one copy"
    );

    settings.update(12, 0, true, "split_zip", 8);
    let snapshot = settings.snapshot();
    assert_eq!(
        snapshot.interval_hours, 12,
        "updated interval should be visible in a snapshot"
    );
    assert_eq!(
        snapshot.copies_to_keep, 1,
        "updated retention should remain clamped to one copy"
    );
    assert!(
        snapshot.include_tor_hidden_service_keys,
        "updated Tor-key inclusion should be visible in a snapshot"
    );
    assert_eq!(
        snapshot.storage_mode, "split_zip",
        "updated storage mode should be visible in a snapshot"
    );
    assert_eq!(
        snapshot.split_zip_part_size, 8,
        "updated split size should be visible in a snapshot"
    );
}

#[test]
fn db_maintenance_jobs_start_idle_without_job_identity() {
    let jobs: DbMaintenanceJobs<String> = DbMaintenanceJobs::new();

    assert!(
        matches!(jobs.snapshot(), DbMaintenanceJobStatus::Idle),
        "a new maintenance tracker should start idle"
    );
    assert_eq!(
        jobs.snapshot().job_id(),
        None,
        "idle state should not expose a job identifier"
    );
}

#[test]
fn db_maintenance_jobs_assign_monotonic_job_ids_and_preserve_them_in_terminal_states() {
    let mut jobs: DbMaintenanceJobs<String> = DbMaintenanceJobs::new();

    let first_job_id = jobs.mark_running(1_000);
    let first_status = jobs.snapshot();
    assert!(
        matches!(
            first_status,
            DbMaintenanceJobStatus::Running { job_id, .. } if *job_id == first_job_id
        ),
        "the first running state should retain its assigned identifier"
    );

    assert!(
        jobs.mark_finished(first_job_id, "healthy".to_owned()),
        "the matching running job should accept a completion report"
    );
    assert!(
        matches!(
            jobs.snapshot(),
            DbMaintenanceJobStatus::Finished { job_id, .. } if *job_id == first_job_id
        ),
        "the finished state should retain the first job identifier"
    );

    let second_job_id = jobs.mark_running(1_000);
    assert!(
        second_job_id > first_job_id,
        "job identifiers should increase monotonically"
    );
    assert!(
        jobs.mark_failed(second_job_id, 2_000, "simulated failure".to_owned()),
        "the matching running job should accept a failure"
    );
    assert!(
        matches!(
            jobs.snapshot(),
            DbMaintenanceJobStatus::Failed { job_id, .. } if *job_id == second_job_id
        ),
        "the failed state should retain the second job identifier"
    );
}

#[test]
fn db_maintenance_jobs_phase_updates_only_matching_running_job() {
    let mut jobs: DbMaintenanceJobs<String> = DbMaintenanceJobs::new();
    let first_job_id = jobs.mark_running(1_000);
    let second_job_id = jobs.mark_running(1_000);

    assert!(
        !jobs.mark_phase(first_job_id, DbMaintenanceJobPhase::Backup),
        "a stale job identifier must not change the active phase"
    );
    assert!(
        matches!(
            jobs.snapshot(),
            DbMaintenanceJobStatus::Running {
                job_id,
                phase: DbMaintenanceJobPhase::Starting,
                ..
            } if *job_id == second_job_id
        ),
        "a stale phase update should leave the newer job at its starting phase"
    );

    assert!(
        jobs.mark_phase(second_job_id, DbMaintenanceJobPhase::Repair),
        "the active job identifier should permit a phase update"
    );
    assert!(
        matches!(
            jobs.snapshot(),
            DbMaintenanceJobStatus::Running {
                job_id,
                phase: DbMaintenanceJobPhase::Repair,
                ..
            } if *job_id == second_job_id
        ),
        "the matching phase update should preserve the job identity"
    );
}

#[test]
fn db_maintenance_jobs_finished_updates_only_matching_running_job() {
    let mut jobs: DbMaintenanceJobs<String> = DbMaintenanceJobs::new();
    let first_job_id = jobs.mark_running(1_000);
    let second_job_id = jobs.mark_running(1_000);
    let report = "healthy".to_owned();

    assert!(
        !jobs.mark_finished(first_job_id, report.clone()),
        "a stale job identifier must not finish the active job"
    );
    assert!(
        matches!(
            jobs.snapshot(),
            DbMaintenanceJobStatus::Running { job_id, .. } if *job_id == second_job_id
        ),
        "a stale completion should leave the newer job running"
    );

    assert!(
        jobs.mark_finished(second_job_id, report),
        "the active job identifier should accept completion"
    );
    assert!(
        matches!(
            jobs.snapshot(),
            DbMaintenanceJobStatus::Finished { job_id, .. } if *job_id == second_job_id
        ),
        "the matching completion should retain the active job identifier"
    );
}

#[test]
fn db_maintenance_jobs_failed_updates_only_matching_running_job() {
    let mut jobs: DbMaintenanceJobs<String> = DbMaintenanceJobs::new();
    let first_job_id = jobs.mark_running(1_000);
    let second_job_id = jobs.mark_running(1_000);

    assert!(
        !jobs.mark_failed(first_job_id, 2_000, "stale failure".to_owned()),
        "a stale job identifier must not fail the active job"
    );
    assert!(
        matches!(
            jobs.snapshot(),
            DbMaintenanceJobStatus::Running { job_id, .. } if *job_id == second_job_id
        ),
        "a stale failure should leave the newer job running"
    );

    assert!(
        jobs.mark_failed(second_job_id, 2_000, "current failure".to_owned()),
        "the active job identifier should accept a failure"
    );
    assert!(
        matches!(
            jobs.snapshot(),
            DbMaintenanceJobStatus::Failed {
                job_id,
                message,
                ..
            } if *job_id == second_job_id && message == "current failure"
        ),
        "the matching failure should preserve its job identifier and message"
    );
}

#[test]
fn db_maintenance_jobs_stale_failure_cannot_overwrite_newer_run() {
    let mut jobs: DbMaintenanceJobs<String> = DbMaintenanceJobs::new();
    let first_job_id = jobs.mark_running(1_000);
    let second_job_id = jobs.mark_running(1_000);

    assert!(
        !jobs.mark_failed(first_job_id, 2_000, "join error".to_owned()),
        "a stale asynchronous failure must not overwrite a newer run"
    );
    assert!(
        matches!(
            jobs.snapshot(),
            DbMaintenanceJobStatus::Running {
                job_id,
                phase: DbMaintenanceJobPhase::Starting,
                ..
            } if *job_id == second_job_id
        ),
        "the newer job should remain running after a stale failure"
    );
}

#[test]
fn csrf_needs_a_cookie_or_a_signature() {
    assert!(!validate_csrf(None, "abc123.sig", None));
    assert!(!validate_csrf(None, "abc123.sig", Some("other")));
    assert!(validate_csrf(None, "a.b.sig", Some("sig")));
    assert!(!validate_csrf(None, "", Some("")));
    assert_eq!(split_signed_token("abc123"), None);
    assert_eq!(split_signed_token(".sig"), None);
    assert_eq!(split_signed_token("abc123."), None);
    assert!(!constant_time_eq(b"hello", b"hellp"));
    assert!(!constant_time_eq(b"hello", b"hell"));
}

fn ipv4(a: u8, b: u8, c: u8, d: u8) -> Address {
    Address::V4(u32::from_be_bytes([a, b, c, d]))
}

fn loopback() -> Peer {
    Peer { address: ipv4(127, 0, 0, 1), name: "127.0.0.1".to_owned() }
}

fn loopback_only() -> Vec<String> {
    vec!["127.0.0.1/32".to_owned(), "::1/128".to_owned()]
}

#[test]
fn trusted_proxy_accepts_loopback_and_private_networks() {
    let trusted = vec![
        "127.0.0.1/32".to_owned(),
        "::1/128".to_owned(),
        "10.0.0.0/8".to_owned(),
    ];
    assert!(trusted_proxy_peer_with(Some(ipv4(127, 0, 0, 1)), &trusted));
    assert!(trusted_proxy_peer_with(Some(ipv4(10, 0, 0, 1)), &trusted));
    assert!(trusted_proxy_peer_with(Some(Address::V6(1)), &trusted));
}

#[test]
fn trusted_proxy_rejects_public_internet_peers() {
    let trusted = loopback_only();
    assert!(!trusted_proxy_peer_with(Some(ipv4(198, 51, 100, 10)), &trusted));
    assert!(!trusted_proxy_peer_with(None, &trusted));
}

#[test]
fn trusted_proxy_rejects_private_peers_not_in_allowlist() {
    let trusted = loopback_only();
    assert!(!trusted_proxy_peer_with(Some(ipv4(10, 0, 0, 1)), &trusted));
}

#[test]
fn texts_that_write_no_network_trust_nobody() {
    let trusted = vec!["10.0.0.1".to_owned(), "10.0.0.0/33".to_owned(), "proxy".to_owned()];
    assert!(!trusted_proxy_peer_with(Some(ipv4(10, 0, 0, 1)), &trusted));
}

#[test]
fn networks_hold_the_addresses_that_begin_alike() {
    let network = Network::V4 { bits: u32::from_be_bytes([192, 168, 7, 9]), prefix: 20 };
    assert!(network_contains(network, ipv4(192, 168, 0, 0)));
    assert!(network_contains(network, ipv4(192, 168, 15, 255)));
    assert!(!network_contains(network, ipv4(192, 168, 16, 0)));
    assert!(!network_contains(network, Address::V6(0)));
    assert!(network_contains(Network::V4 { bits: 0, prefix: 0 }, ipv4(255, 255, 255, 255)));
    assert!(network_contains(Network::V6 { bits: 0, prefix: 0 }, Address::V6(u128::MAX)));
    assert!(network_contains(Network::V6 { bits: 6, prefix: 127 }, Address::V6(7)));
    assert!(!network_contains(Network::V6 { bits: 6, prefix: 128 }, Address::V6(7)));
}

#[test]
fn untrusted_peers_name_no_client() {
    assert_eq!(forwarded_ip(true, false, Some("198.51.100.10"), None), None);
    assert_eq!(forwarded_ip(false, true, Some("198.51.100.10"), None), None);
    let stranger = Peer { address: ipv4(192, 0, 2, 1), name: "192.0.2.1".to_owned() };
    let trusted = loopback_only();
    assert_eq!(
        resolved_client_ip(
            None,
            Some("198.51.100.10"),
            Some("203.0.113.7"),
            Some(&stranger),
            true,
            &trusted,
        ),
        "192.0.2.1"
    );
    assert_eq!(resolved_client_ip(None, None, None, None, true, &trusted), "unknown");
    assert!(!forwarded_proto_is_https(Some("https"), Some(&stranger), true, &trusted));
    assert!(!forwarded_proto_is_https(Some("https"), Some(&loopback()), false, &trusted));
    assert!(forwarded_proto_is_https(Some(" HTTPS, http"), Some(&loopback()), true, &trusted));
    assert!(!forwarded_proto_is_https(Some("http"), Some(&loopback()), true, &trusted));
}

#[test]
fn tor_stream_token_precedes_spoofed_forwarded_headers_for_loopback_peer() {
    assert_eq!(
        resolved_client_ip(
            Some("tor:test-stream"),
            Some("198.51.100.10"),
            Some("203.0.113.7, 127.0.0.1"),
            Some(&loopback()),
            true,
            &loopback_only(),
        ),
        "tor:test-stream"
    );
}

#[test]
fn forwarded_headers_still_apply_for_non_tor_trusted_proxy_peer() {
    assert_eq!(
        resolved_client_ip(
            None,
            Some("198.51.100.10"),
            None,
            Some(&loopback()),
            true,
            &loopback_only(),
        ),
        "198.51.100.10"
    );
}

#[test]
fn redirects_trailing_slash_to_canonical_path() {
    assert_eq!(
        normalize_trailing_slash("/board/", Some("q=a%2Fb")).as_deref(),
        Some("/board?q=a%2Fb")
    );
}

#[test]
fn serves_root_and_canonical_paths_directly() {
    for path in ["/", "/board"] {
        assert_eq!(normalize_trailing_slash(path, None), None);
    }
}

#[test]
fn collapses_all_slash_paths_to_root() {
    assert_eq!(normalize_trailing_slash("//", None).as_deref(), Some("/"));
}

#[test]
fn redirects_lead_to_addresses_only() {
    assert_eq!(
        canonical_target("/a b/", Some("<>")).as_deref(),
        Some("/a b?<>")
    );
    assert_eq!(normalize_trailing_slash("/a b/", None), None);
    assert_eq!(normalize_trailing_slash("///", None).as_deref(), Some("/"));
    assert_eq!(normalize_trailing_slash("/a//", None).as_deref(), Some("/a"));
}

#[test]
fn a_window_admits_no_more_than_its_limit() {
    let mut entry = new_entry(100);
    assert_eq!(entry, RateEntry { count: 0, window_start: 100 });
    let mut admitted = 0;
    for _ in 0..10 {
        if !count_request(&mut entry, 105, 60, 3) {
            admitted += 1;
        }
    }
    assert_eq!(admitted, 3);
    assert!(count_request(&mut entry, 160, 60, 3));
    assert!(!count_request(&mut entry, 161, 60, 3));
    assert_eq!(entry, RateEntry { count: 1, window_start: 161 });
}

#[test]
fn open_windows_survive_the_cleanup() {
    let entry = RateEntry { count: 3, window_start: 100 };
    assert!(survives_cleanup(entry, 120, 60));
    assert!(!survives_cleanup(entry, 1_000, 60));
    assert!(!should_clean(1, 100, 100));
    assert!(should_clean(1, 100 + CLEANUP_INTERVAL_SECS + 1, 100));
    assert!(should_clean(MAX_CLIENTS + 1, 100, 100));
}

#[test]
fn clients_are_kept_by_their_digest() {
    assert_eq!(
        sha256_text(b"abc"),
        "ba7816bf8f01cfea414140de5dae2223b00361a396177a9cb410ff61f20015ad"
    );
    let key = rate_key("192.0.2.1");
    assert_ne!(key, "192.0.2.1");
    assert_ne!(key, rate_key("192.0.2.2"));
    assert_eq!(key, rate_key("192.0.2.1"));
    assert!(exempt("/static/style.css"));
    assert!(exempt("/admin/log/live"));
    assert!(!exempt("/b/thread/1"));
}

#[test]
fn one_maintenance_task_runs_at_a_time() {
    let mut gate = MaintenanceGate::new();
    assert!(!gate.is_active());
    let guard = gate.try_begin("Backup").expect("first task");
    assert!(gate.is_active());
    assert_eq!(gate.active_label().as_deref(), Some("Backup"));
    assert_eq!(
        gate.try_begin("Restore").err().as_deref(),
        Some("Backup is already running. Try again after it finishes.")
    );
    gate.finish(guard);
    assert_eq!(gate.active_label(), None);
    assert!(gate.try_begin("Restore").is_ok());
}

#[test]
fn clients_are_limited_apart() {
    let mut table = RateTable::new();
    for _ in 0..2 {
        let verdict = rate_limit_middleware(&mut table, "/b/", "192.0.2.1", 50, 60, 2);
        assert_eq!(verdict, RateVerdict::Pass);
    }
    assert_eq!(
        rate_limit_middleware(&mut table, "/b/", "192.0.2.1", 110, 60, 2),
        RateVerdict::Refuse
    );
    assert_eq!(
        rate_limit_middleware(&mut table, "/static/x.css", "192.0.2.1", 110, 60, 2),
        RateVerdict::Pass
    );
    assert_eq!(
        rate_limit_middleware(&mut table, "/b/", "192.0.2.2", 110, 60, 2),
        RateVerdict::Pass
    );
    assert_eq!(
        table.get(&rate_key("192.0.2.1")),
        Some(RateEntry { count: 3, window_start: 50 })
    );
    assert_eq!(
        table.get(&rate_key("192.0.2.2")),
        Some(RateEntry { count: 1, window_start: 110 })
    );
    assert_eq!(table.get(&rate_key("192.0.2.3")), None);
    assert_eq!(
        rate_limit_middleware(&mut table, "/b/", "192.0.2.1", 111, 60, 2),
        RateVerdict::Pass
    );
    assert_eq!(
        table.get(&rate_key("192.0.2.1")),
        Some(RateEntry { count: 1, window_start: 111 })
    );
}

#[test]
fn cleaning_forgets_clients_whose_window_is_long_over() {
    let mut table = RateTable::new();
    assert!(!table.count("old".to_owned(), 1_000, 60, 5));
    assert!(!table.count("newer".to_owned(), 1_500, 60, 5));
    assert_eq!(table.get("old"), Some(RateEntry { count: 1, window_start: 1_000 }));
    assert!(!table.count("third".to_owned(), 1_601, 60, 5));
    assert_eq!(table.get("old"), None);
    assert_eq!(table.get("newer"), Some(RateEntry { count: 1, window_start: 1_500 }));
    assert_eq!(table.get("third"), Some(RateEntry { count: 1, window_start: 1_601 }));
}

#[test]
fn refused_requests_do_not_clean_the_table() {
    let mut table = RateTable::new();
    assert!(!table.count("old".to_owned(), 1_000, 60, 5));
    assert!(table.count("greedy".to_owned(), 5_000, 60, 0));
    assert_eq!(table.get("old"), Some(RateEntry { count: 1, window_start: 1_000 }));
}

#[test]
fn many_clients_are_cleaned_early() {
    let mut table = RateTable::new();
    assert!(!table.count("first".to_owned(), 1_000, 60, 5));
    for i in 0..MAX_CLIENTS - 1 {
        assert!(!table.count(format!("client {i}"), 1_200, 60, 5));
    }
    assert!(table.get("first").is_some());
    assert!(!table.count("last".to_owned(), 1_200, 60, 5));
    assert!(table.get("first").is_none());
    assert!(table.get("client 0").is_some());
}

#[test]
fn a_full_count_starts_again_with_a_new_window() {
    let mut entry = RateEntry { count: u32::MAX, window_start: 100 };
    assert!(!countable(entry, 160, 60));
    assert!(countable(entry, 161, 60));
    assert!(!count_request(&mut entry, 161, 60, 3));
    assert_eq!(entry, RateEntry { count: 1, window_start: 161 });
}
