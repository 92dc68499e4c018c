use probe_engine::aggregator::{drain_outcomes, ProbeRun, ResultSet};
use probe_engine::candidates::{load_candidates, merge_candidates, FatalError};
use probe_engine::limiter::Limiter;
use probe_engine::orchestrator::{advance, Phase};
use probe_engine::ports::{common_ports, open_records, port_label, PortScanResults};
use probe_engine::probe::{build_url, classify_response, plan_probes, ProbeOutcome};
use probe_engine::progress::{format_hms, snapshot_of};
use probe_engine::scrape::{api_request_lines, contains_substring};

fn strings(items: &[&str]) -> Vec<String> {
    items.iter().map(|s| s.to_string()).collect()
}

#[test]
fn merge_dedups_keeping_first_occurrence_order() {
    let files = vec![strings(&["admin", "login", "admin"])];
    let merged = merge_candidates(&files);
    assert_eq!(merged, strings(&["admin", "login"]));
}

#[test]
fn merge_spans_files_in_order() {
    let files = vec![
        strings(&["a", "b"]),
        strings(&["b", "c", "a"]),
        strings(&["d"]),
    ];
    let merged = merge_candidates(&files);
    assert_eq!(merged, strings(&["a", "b", "c", "d"]));
}

#[test]
fn merge_twice_over_same_file_set_is_idempotent() {
    let files = vec![strings(&["admin", "login"]), strings(&["login", "backup"])];
    let mut doubled = files.clone();
    doubled.extend(files.clone());
    assert_eq!(merge_candidates(&files), merge_candidates(&doubled));
}

#[test]
fn remerge_of_merged_list_changes_nothing() {
    let files = vec![strings(&["x", "y", "x", "z", "y"])];
    let merged = merge_candidates(&files);
    let remerged = merge_candidates(&vec![merged.clone()]);
    assert_eq!(merged, remerged);
}

#[test]
fn empty_sources_abort_with_no_candidates() {
    let files: Vec<Vec<String>> = vec![vec![], vec![]];
    match load_candidates(&files) {
        Err(e) => {
            assert!(matches!(e, FatalError::NoCandidates));
            assert_eq!(e.message(), "no candidates");
        }
        Ok(_) => panic!("empty sources must abort"),
    }
}

#[test]
fn nonempty_sources_load() {
    let files = vec![strings(&["admin"])];
    let loaded = load_candidates(&files).expect("nonempty sources must load");
    assert_eq!(loaded, strings(&["admin"]));
}

#[test]
fn build_url_joins_base_and_candidate() {
    let url = build_url("http://example.local", "admin");
    assert_eq!(url.as_str(), "http://example.local/admin");
}

#[test]
fn build_url_strips_one_trailing_slash() {
    let url = build_url("http://example.local/", "login");
    assert_eq!(url.as_str(), "http://example.local/login");
}

#[test]
fn plan_spawns_one_probe_per_candidate() {
    let candidates = strings(&["admin", "login", "backup"]);
    let plan = plan_probes("http://example.local", &candidates);
    assert_eq!(plan.len(), candidates.len());
    assert_eq!(
        plan,
        strings(&[
            "http://example.local/admin",
            "http://example.local/login",
            "http://example.local/backup",
        ])
    );
}

#[test]
fn classify_needs_transport_success_and_2xx() {
    assert!(matches!(
        classify_response("u", true, 200),
        ProbeOutcome::Hit { .. }
    ));
    assert!(matches!(
        classify_response("u", true, 299),
        ProbeOutcome::Hit { .. }
    ));
    assert!(matches!(classify_response("u", true, 300), ProbeOutcome::Miss));
    assert!(matches!(classify_response("u", true, 404), ProbeOutcome::Miss));
    assert!(matches!(classify_response("u", true, 199), ProbeOutcome::Miss));
    assert!(matches!(classify_response("u", false, 200), ProbeOutcome::Miss));
}

#[test]
fn classify_hit_carries_the_probed_url() {
    match classify_response("http://example.local/admin", true, 204) {
        ProbeOutcome::Hit { url } => assert_eq!(url.as_str(), "http://example.local/admin"),
        ProbeOutcome::Miss => panic!("2xx over a live transport is a hit"),
    }
}

#[test]
fn scenario_one_hit_one_miss() {
    let files = vec![strings(&["admin", "login", "admin"])];
    let candidates = load_candidates(&files).unwrap();
    assert_eq!(candidates, strings(&["admin", "login"]));
    let plan = plan_probes("http://example.local", &candidates);
    let outcomes = vec![
        classify_response(plan[0].as_str(), true, 200),
        classify_response(plan[1].as_str(), true, 404),
    ];
    let run = drain_outcomes(2, &outcomes);
    assert_eq!(run.processed(), 2);
    assert_eq!(run.total(), 2);
    assert_eq!(run.snapshot_hits(), strings(&["http://example.local/admin"]));
}

#[test]
fn processed_reaches_total_without_any_hit() {
    let outcomes = vec![ProbeOutcome::Miss, ProbeOutcome::Miss, ProbeOutcome::Miss];
    let run = drain_outcomes(3, &outcomes);
    assert_eq!(run.processed(), 3);
    assert_eq!(run.total(), 3);
    assert_eq!(run.hit_count(), 0);
    assert!(run.is_done());
}

#[test]
fn hits_arrive_in_completion_order() {
    let outcomes = vec![
        ProbeOutcome::Hit { url: "b".to_string() },
        ProbeOutcome::Miss,
        ProbeOutcome::Hit { url: "a".to_string() },
    ];
    let run = drain_outcomes(3, &outcomes);
    assert_eq!(run.snapshot_hits(), strings(&["b", "a"]));
}

#[test]
fn result_set_snapshots_only_grow() {
    let mut run = ProbeRun::new(3);
    let mut last: Vec<String> = run.snapshot_hits();
    let outcomes = vec![
        ProbeOutcome::Hit { url: "one".to_string() },
        ProbeOutcome::Miss,
        ProbeOutcome::Hit { url: "two".to_string() },
    ];
    for outcome in &outcomes {
        run.record_completion(outcome);
        let now = run.snapshot_hits();
        assert!(now.len() >= last.len());
        assert_eq!(&now[..last.len()], &last[..]);
        last = now;
    }
    assert_eq!(last, strings(&["one", "two"]));
}

#[test]
fn snapshot_is_copy_on_read() {
    let mut set = ResultSet::new();
    set.append("first".to_string());
    let snap = set.snapshot();
    set.append("second".to_string());
    assert_eq!(snap, strings(&["first"]));
    assert_eq!(set.snapshot(), strings(&["first", "second"]));
}

#[test]
fn limiter_caps_in_flight_probes() {
    let mut limiter = Limiter::new(2);
    assert!(limiter.try_acquire());
    assert!(limiter.try_acquire());
    assert!(!limiter.try_acquire());
    limiter.release();
    assert!(limiter.try_acquire());
    assert!(!limiter.try_acquire());
}

#[test]
fn elapsed_time_formats_as_hms() {
    assert_eq!(format_hms(0).as_str(), "00:00:00");
    assert_eq!(format_hms(59).as_str(), "00:00:59");
    assert_eq!(format_hms(3723).as_str(), "01:02:03");
    assert_eq!(format_hms(86399).as_str(), "23:59:59");
    assert_eq!(format_hms(362999).as_str(), "100:49:59");
}

#[test]
fn snapshot_with_three_hits_shows_all_three() {
    let outcomes = vec![
        ProbeOutcome::Hit { url: "u1".to_string() },
        ProbeOutcome::Hit { url: "u2".to_string() },
        ProbeOutcome::Hit { url: "u3".to_string() },
    ];
    let run = drain_outcomes(3, &outcomes);
    let snap = snapshot_of(&run, 5);
    assert_eq!(snap.visible(), strings(&["u1", "u2", "u3"]));
    assert_eq!(snap.hidden(), 0);
}

#[test]
fn snapshot_with_five_hits_shows_recent_three_and_two_more() {
    let outcomes = vec![
        ProbeOutcome::Hit { url: "u1".to_string() },
        ProbeOutcome::Hit { url: "u2".to_string() },
        ProbeOutcome::Hit { url: "u3".to_string() },
        ProbeOutcome::Hit { url: "u4".to_string() },
        ProbeOutcome::Hit { url: "u5".to_string() },
    ];
    let run = drain_outcomes(5, &outcomes);
    let snap = snapshot_of(&run, 70);
    assert_eq!(snap.visible(), strings(&["u3", "u4", "u5"]));
    assert_eq!(snap.hidden(), 2);
    assert_eq!(snap.processed, 5);
    assert_eq!(snap.total, 5);
    assert_eq!(snap.elapsed_display().as_str(), "00:01:10");
}

#[test]
fn port_labels_cover_the_common_port_set() {
    assert_eq!(port_label(21), "FTP");
    assert_eq!(port_label(22), "SSH");
    assert_eq!(port_label(23), "Telnet");
    assert_eq!(port_label(25), "SMTP");
    assert_eq!(port_label(80), "HTTP");
    assert_eq!(port_label(110), "POP3");
    assert_eq!(port_label(143), "IMAP");
    assert_eq!(port_label(443), "HTTPS");
    assert_eq!(port_label(3306), "MySQL");
    assert_eq!(port_label(8080), "HTTP Proxy");
    assert_eq!(port_label(8443), "Unknown");
}

#[test]
fn common_port_set_is_fixed() {
    assert_eq!(common_ports(), vec![21, 22, 23, 25, 80, 110, 143, 443, 3306, 8080]);
}

#[test]
fn scan_with_open_80_and_closed_22() {
    let mut scan = PortScanResults::new();
    scan.record_outcome(80, true);
    scan.record_outcome(22, false);
    let records = scan.into_records();
    assert_eq!(records.len(), 2);
    assert_eq!(records[0].port, 80);
    assert!(records[0].is_open);
    assert_eq!(records[0].label.as_str(), "HTTP");
    assert_eq!(records[1].port, 22);
    assert!(!records[1].is_open);
    assert_eq!(records[1].label.as_str(), "SSH");
    let open = open_records(&records);
    assert_eq!(open.len(), 1);
    assert_eq!(open[0].port, 80);
    assert!(open[0].is_open);
}

#[test]
fn all_ports_closed_leaves_open_section_empty() {
    let mut scan = PortScanResults::new();
    for port in common_ports() {
        scan.record_outcome(port, false);
    }
    let records = scan.into_records();
    assert_eq!(records.len(), 10);
    assert!(open_records(&records).is_empty());
}

#[test]
fn api_scan_keeps_request_lines_in_document_order() {
    let body = strings(&[
        "<html>",
        "  fetch('/api/users');",
        "var x = 1;",
        "  axios.get('/api/items')",
        "new XMLHttpRequest();",
        "</html>",
    ]);
    let lines = api_request_lines(&body);
    assert_eq!(
        lines,
        strings(&[
            "  fetch('/api/users');",
            "  axios.get('/api/items')",
            "new XMLHttpRequest();",
        ])
    );
}

#[test]
fn api_scan_of_plain_document_finds_nothing() {
    let body = strings(&["<html>", "<body>hello</body>", "</html>"]);
    assert!(api_request_lines(&body).is_empty());
}

#[test]
fn substring_search_is_exact() {
    assert!(contains_substring("call fetch now", "fetch"));
    assert!(!contains_substring("call fetc now", "fetch"));
    assert!(contains_substring("fetch", "fetch"));
    assert!(!contains_substring("etch", "fetch"));
    assert!(contains_substring("anything", ""));
}

#[test]
fn successful_run_passes_every_phase_in_order() {
    let mut phase = Phase::Init;
    let order = [
        Phase::MergeSources,
        Phase::LoadCandidates,
        Phase::ProbeFanout,
        Phase::DrainProbes,
        Phase::PortScan,
        Phase::ApiScrape,
        Phase::WriteOutput,
        Phase::Terminal,
    ];
    for expected in order {
        phase = advance(phase, true);
        assert_eq!(phase, expected);
    }
    assert_eq!(advance(phase, true), Phase::Terminal);
}

#[test]
fn empty_candidate_load_aborts_before_fanout() {
    let mut phase = Phase::Init;
    phase = advance(phase, true);
    phase = advance(phase, true);
    assert_eq!(phase, Phase::LoadCandidates);
    phase = advance(phase, false);
    assert_eq!(phase, Phase::Aborted);
    assert_eq!(advance(phase, true), Phase::Aborted);
}

#[test]
fn merge_failure_and_output_failure_abort() {
    assert_eq!(advance(Phase::MergeSources, false), Phase::Aborted);
    assert_eq!(advance(Phase::WriteOutput, false), Phase::Aborted);
}

#[test]
fn local_failures_do_not_stop_the_run() {
    assert_eq!(advance(Phase::PortScan, false), Phase::ApiScrape);
    assert_eq!(advance(Phase::ApiScrape, false), Phase::WriteOutput);
}
