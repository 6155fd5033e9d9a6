use rustchan::logging::durations::{
    format_duration_parts, formatted_seconds, normalize_duration, parse_compound_duration,
    parse_formatted_duration, SecondsReading,
};
use rustchan::logging::events::{
    is_tor_descriptor_upload_timeout_event, normalize_message_text, rewrite_message,
    should_suppress_event, LogEventFields,
};
use rustchan::logging::limiter::{
    apply_tor_descriptor_timeout_rate_limit, prepare_event_fields, TorDescriptorTimeoutDecision,
    TorDescriptorTimeoutLimiter, TOR_DESCRIPTOR_TIMEOUT_SUPPRESSION_WINDOW,
};
use rustchan::logging::line::{component_tag, event_line, level_tag, source_suffix, LogLevel};
use rustchan::logging::names::{
    display_component, extract_component, humanize_field_name, is_external_source, is_tor_target,
};
use rustchan::logging::values::{
    normalize_field_value, scrub_tor_value, short_tor_error, should_hide_field, strip_ansi,
};

const SECOND: u128 = 1_000_000_000;

/// Reads the number of a duration in the form of the Tor client.
fn reading_of(value: &str) -> Option<SecondsReading> {
    let seconds = formatted_seconds(value)?.parse::<f64>().ok()?;
    Some(if seconds >= 60.0 {
        SecondsReading::Minutes(seconds.round() as u64)
    } else if seconds >= 10.0 {
        SecondsReading::Seconds(seconds.round() as u64)
    } else {
        SecondsReading::Tenths(format!("{seconds:.1}"))
    })
}

fn rewrite_for_test(target: &str, message: &str, fields: &[(&str, &str)]) -> LogEventFields {
    let mut event_fields = LogEventFields {
        message: Some(message.to_owned()),
        fields: Vec::new(),
    };
    for (name, value) in fields {
        let clean = normalize_field_value(name, value, None);
        if !should_hide_field(name, &clean) {
            event_fields.fields.push((name.to_string(), clean));
        }
    }
    rewrite_message(
        target,
        Some("/Users/example/.cargo/registry/src/index.crates.io/tor-test/src/lib.rs"),
        &mut event_fields,
        None,
    );
    event_fields
}

#[test]
fn parses_formatted_duration_into_plain_text() {
    assert_eq!(
        parse_formatted_duration("FormattedDuration(29.99997625s)", reading_of("FormattedDuration(29.99997625s)").as_ref()).as_deref(),
        Some("30s")
    );
    assert_eq!(
        parse_formatted_duration("FormattedDuration(125.0s)", reading_of("FormattedDuration(125.0s)").as_ref()).as_deref(),
        Some("2m 5s")
    );
    assert_eq!(
        normalize_duration("29s 999ms 988us 413ns", None).as_deref(),
        Some("30s")
    );
}

#[test]
fn normalizes_common_field_names_and_values() {
    assert_eq!(humanize_field_name("thread_id"), "thread ID");
    assert_eq!(humanize_field_name("latency_ms"), "latency");
    assert_eq!(normalize_field_value("latency_ms", "42", None), "42 ms");
    assert_eq!(normalize_field_value("guard", "GuardId(foo)", None), "[scrubbed]");
    assert_eq!(
        normalize_field_value(
            "error",
            "Invalid document from directory server [scrubbed] via Circ 8.98",
            None
        ),
        "Invalid document from directory server [scrubbed]"
    );
}

#[test]
fn cleans_up_message_text() {
    assert_eq!(
        normalize_message_text("removing circuit leg"),
        "Removing circuit leg"
    );
    assert_eq!(
        normalize_message_text("image→webp: converted"),
        "Image to webp: converted"
    );
}

#[test]
fn detects_external_source_locations() {
    assert!(is_external_source(
        "/Users/example/.cargo/registry/src/index.crates.io-xxx/tor-proto/src/client/reactor.rs"
    ));
    assert!(!is_external_source("src/server/server.rs"));
    assert_eq!(extract_component("rustchan::server::server"), "server");
    assert_eq!(display_component("tor_dirmgr::bootstrap"), "tor-dir");
    assert_eq!(display_component("tor_guardmgr::guard"), "tor-net");
    assert_eq!(display_component("tor_circmgr::hspool"), "onion");
}

#[test]
fn rewrites_common_tor_guard_messages() {
    let fields = rewrite_for_test(
        "tor_guardmgr::guard",
        "Could not connect to guard $AAAAAAAAAAAAAAAAAAAAAAAAAAAAAAAAAAAAAAAA. Retrying in 29s 999ms 988us 413ns.",
        &[],
    );

    assert_eq!(
        fields.message.as_deref(),
        Some("Tor guard connection failed")
    );
    assert_eq!(
        fields.fields,
        vec![("retry_in".to_owned(), "30s".to_owned())]
    );

    let fields = rewrite_for_test(
        "tor_guardmgr::guard",
        "Disabling guard: 72.5% of circuits died under mysterious circumstances, exceeding threshold of 70.0%",
        &[("guard", "GuardId(abc)")],
    );
    assert_eq!(
        fields.message.as_deref(),
        Some("Tor disabled an unstable guard")
    );
    assert_eq!(
        fields.fields,
        vec![("failure_rate".to_owned(), "72.5%".to_owned())]
    );
}

#[test]
fn rewrites_common_tor_directory_messages() {
    let fields = rewrite_for_test(
        "tor_dirmgr::bootstrap",
        "Error while adding directory info",
        &[(
            "error",
            "Invalid document from directory server [scrubbed] via Circ 8.98",
        )],
    );
    assert_eq!(
        fields.message.as_deref(),
        Some("Tor directory update failed")
    );
    assert_eq!(
        fields.fields,
        vec![(
            "reason".to_owned(),
            "directory server sent invalid data".to_owned()
        )]
    );

    let fields = rewrite_for_test(
        "tor_dirmgr::bootstrap",
        "We failed 3 times to bootstrap a directory. We're going to give up.",
        &[],
    );
    assert_eq!(
        fields.message.as_deref(),
        Some("Tor directory bootstrap failed")
    );
    assert_eq!(fields.fields, vec![("attempts".to_owned(), "3".to_owned())]);
}

#[test]
fn rewrites_common_onion_and_circuit_messages() {
    let fields = rewrite_for_test(
        "tor_circmgr::hspool",
        "Too many preemptive onion service circuits failed; waiting a while.",
        &[],
    );
    assert_eq!(
        fields.message.as_deref(),
        Some("Tor onion-service circuits are failing; waiting before retrying")
    );

    let fields = rewrite_for_test(
        "tor_proto::client::reactor",
        "removing circuit leg",
        &[("tunnel_id", "Circ 8.98"), ("reason", "closed")],
    );
    assert_eq!(fields.message.as_deref(), Some("Tor circuit closed"));
    assert_eq!(
        fields.fields,
        vec![("reason".to_owned(), "closed".to_owned())]
    );
}

#[test]
fn suppresses_repetitive_onion_retry_warning() {
    let mut fields = LogEventFields {
        message: Some(
            "Too many preemptive onion service circuits failed; waiting a while.".to_owned(),
        ),
        fields: Vec::new(),
    };
    rewrite_message("tor_circmgr::hspool", Some("src/logging.rs"), &mut fields, None);
    assert!(should_suppress_event("tor_circmgr::hspool", &fields));
}

#[test]
fn detects_tor_descriptor_upload_timeout_warning_only() {
    let fields = rewrite_for_test(
        "tor_hsservice::publish",
        "Failed to upload descriptor for service rustchan (redacted) - error: Timeout exceeded",
        &[],
    );
    assert!(is_tor_descriptor_upload_timeout_event(
        "tor_hsservice::publish",
        &fields
    ));

    let non_timeout = rewrite_for_test(
        "tor_hsservice::publish",
        "Failed to upload descriptor for service rustchan (redacted) - error: permission denied",
        &[],
    );
    assert!(!is_tor_descriptor_upload_timeout_event(
        "tor_hsservice::publish",
        &non_timeout
    ));

    let unrelated_tor_warning = rewrite_for_test(
        "tor_circmgr::mgr",
        "All tunnel attempts failed due to timeout",
        &[],
    );
    assert!(!is_tor_descriptor_upload_timeout_event(
        "tor_circmgr::mgr",
        &unrelated_tor_warning
    ));
}

#[test]
fn rate_limits_repeated_tor_descriptor_upload_timeout_warnings() {
    let mut limiter = TorDescriptorTimeoutLimiter::new(600 * SECOND);
    let start = 5_000 * SECOND;

    assert_eq!(
        limiter.decide_once(start),
        TorDescriptorTimeoutDecision::EmitOriginal
    );
    assert_eq!(
        limiter.decide_once(start + 1 * SECOND),
        TorDescriptorTimeoutDecision::Suppress
    );
    assert_eq!(
        limiter.decide_once(start + 2 * SECOND),
        TorDescriptorTimeoutDecision::Suppress
    );
    assert_eq!(
        limiter.decide_once(start + 601 * SECOND),
        TorDescriptorTimeoutDecision::EmitSummary {
            suppressed: 2,
            window: 600 * SECOND,
        }
    );
    assert_eq!(
        limiter.decide_once(start + 602 * SECOND),
        TorDescriptorTimeoutDecision::Suppress
    );
}

#[test]
fn rate_limiter_reuses_decision_for_second_formatter() {
    let mut limiter = TorDescriptorTimeoutLimiter::new(600 * SECOND);
    let start = 5_000 * SECOND;

    assert_eq!(
        limiter.decide(start),
        TorDescriptorTimeoutDecision::EmitOriginal
    );
    assert_eq!(
        limiter.decide(start),
        TorDescriptorTimeoutDecision::EmitOriginal
    );
    assert_eq!(
        limiter.decide(start + 1 * SECOND),
        TorDescriptorTimeoutDecision::Suppress
    );
    assert_eq!(
        limiter.decide(start + 1 * SECOND),
        TorDescriptorTimeoutDecision::Suppress
    );
    assert_eq!(limiter.suppressed, 1);
}

#[test]
fn durations_are_told_in_plain_words() {
    let short = "FormattedDuration(2.25s)";
    assert_eq!(
        parse_formatted_duration(short, reading_of(short).as_ref()).as_deref(),
        Some("2.2s")
    );
    let hour = "FormattedDuration(3600s)";
    assert_eq!(
        parse_formatted_duration(hour, reading_of(hour).as_ref()).as_deref(),
        Some("60m")
    );
    assert_eq!(formatted_seconds("Duration(3s)"), None);
    assert_eq!(format_duration_parts(0), "0s");
    assert_eq!(parse_compound_duration("not a duration"), None);
    assert_eq!(normalize_duration("", None), None);
}

#[test]
fn no_circuit_is_left_in_a_value() {
    let clean = scrub_tor_value("closed via Circ 8.98");
    assert!(!clean.contains("Circ 8.98"));
    assert_eq!(strip_ansi("\u{1b}[31mred\u{1b}[0m"), "red");
    assert_eq!(short_tor_error("operation TIMED OUT"), "network timeout");
    assert_eq!(
        short_tor_error("the consensus has expired"),
        "network directory consensus expired"
    );
}

#[test]
fn silent_events_are_kept_as_they_are() {
    let mut event = LogEventFields {
        message: None,
        fields: vec![("reason".to_owned(), "closed".to_owned())],
    };
    rewrite_message("tor_proto::client", None, &mut event, None);
    assert_eq!(event.message, None);
    assert_eq!(
        event.fields,
        vec![("reason".to_owned(), "closed".to_owned())]
    );
    assert!(is_tor_target("tor_proto::client"));
}

#[test]
fn hidden_fields_are_not_kept() {
    let mut event = LogEventFields::default();
    event.push_field("message", "removing circuit leg", None);
    event.push_field("latency_ms", "42", None);
    event.push_field("guard", "GuardId(foo)", None);
    event.push_field("mime", "<missing>", None);
    assert_eq!(event.message.as_deref(), Some("removing circuit leg"));
    assert_eq!(
        event.fields,
        vec![("latency_ms".to_owned(), "42 ms".to_owned())]
    );
}

#[test]
fn held_back_warnings_are_summed_up() {
    let message =
        "Failed to upload descriptor for service rustchan (redacted) - error: Timeout exceeded";
    let mut limiter = TorDescriptorTimeoutLimiter::new(TOR_DESCRIPTOR_TIMEOUT_SUPPRESSION_WINDOW);
    let mut shown = Vec::new();
    for second in [0u128, 1, 2, 601] {
        // Both outputs ask.
        for _ in 0..2 {
            let mut event = LogEventFields {
                message: Some(message.to_owned()),
                fields: Vec::new(),
            };
            let keep = prepare_event_fields(
                "tor_hsservice::publish",
                None,
                &mut event,
                None,
                true,
                &mut limiter,
                (5_000 + second) * SECOND,
            );
            shown.push(keep);
        }
    }
    assert_eq!(
        shown,
        vec![true, true, false, false, false, false, true, true]
    );
}

#[test]
fn a_summary_names_what_was_held_back() {
    let mut event = LogEventFields {
        message: Some("Tor descriptor upload timed out".to_owned()),
        fields: Vec::new(),
    };
    assert!(apply_tor_descriptor_timeout_rate_limit(
        &mut event,
        TorDescriptorTimeoutDecision::EmitSummary {
            suppressed: 2,
            window: 600 * SECOND,
        }
    ));
    assert_eq!(
        event.message.as_deref(),
        Some(
            "Tor descriptor upload timeouts are still occurring; suppressed 2 repeated warnings \
             in the last 10 minutes"
        )
    );
    assert!(!apply_tor_descriptor_timeout_rate_limit(
        &mut event,
        TorDescriptorTimeoutDecision::Suppress
    ));
}

#[test]
fn columns_have_a_fixed_width() {
    let widths: Vec<usize> = [
        LogLevel::Error,
        LogLevel::Warn,
        LogLevel::Info,
        LogLevel::Debug,
        LogLevel::Trace,
    ]
    .into_iter()
    .map(|level| level_tag(level, false).chars().count())
    .collect();
    assert_eq!(widths, vec![8, 8, 8, 8, 8]);
    assert_eq!(
        component_tag("rustchan::server::server", false),
        "[server  ] "
    );
    assert_eq!(component_tag("tor_dirmgr::bootstrap", false), "[tor-dir ] ");
    assert_eq!(level_tag(LogLevel::Warn, false), "[WARN ] ");
    assert_ne!(
        level_tag(LogLevel::Error, true),
        level_tag(LogLevel::Error, false)
    );
}

#[test]
fn an_event_is_one_line() {
    let event = LogEventFields {
        message: Some("Started".to_owned()),
        fields: vec![("thread_id".to_owned(), "4".to_owned())],
    };
    assert_eq!(event_line(&event), "Started - thread ID: 4");
    assert_eq!(
        source_suffix(LogLevel::Warn, Some("src/a.rs"), Some(3)),
        "  (a.rs:3)"
    );
    assert_eq!(source_suffix(LogLevel::Info, Some("src/a.rs"), Some(3)), "");
}
