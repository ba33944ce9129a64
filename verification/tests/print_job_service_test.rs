use printer_bridge::error::SpoolerError;
use printer_bridge::models::{Config, PrintJob, PrintJobPrinter, Printer};
use printer_bridge::print_job::{
    choose_submission_printer, eligible_job_ids, observed_state, pending_job_ids,
    resolve_target_printer, should_process_job, status_is_terminal, status_of_local,
    submission_report, InFlightRegistry, JobStatus, LocalJobState,
};
use printer_bridge::printer_storage::PrinterMap;

fn job(id: u32, printer: Option<PrintJobPrinter>) -> PrintJob {
    PrintJob {
        id,
        media_id: id + 100,
        printer_id: None,
        user_id: Some(1),
        quantity: 1,
        size: "A4".to_string(),
        is_completed: false,
        status: None,
        cups_job_id: None,
        created_at: "2024-01-01T00:00:00Z".to_string(),
        created_by: Some(1),
        updated_at: "2024-01-01T00:00:00Z".to_string(),
        updated_by: None,
        printer,
    }
}

fn synced_printer(stable_id: &str, remote_id: u32) -> Printer {
    Printer {
        display_name: stable_id.to_string(),
        stable_id: stable_id.to_string(),
        uri: String::new(),
        description: String::new(),
        location: String::new(),
        driver_info: String::new(),
        media_sizes: Vec::new(),
        remote_id: Some(remote_id),
    }
}

#[test]
fn test_config_setup() {
    // Create test configuration
    let config = Config {
        instance_name: "test-instance".to_string(),
        flux_api_token: Some("test-token".to_string()),
        ..Config::default()
    };

    // Test setup is correct
    assert_eq!(config.instance_name, "test-instance");
    assert!(config.flux_api_token.is_some());
}

#[test]
fn test_fetch_jobs_setup() {
    // Create test configuration
    let config = Config {
        instance_name: "test-instance".to_string(),
        flux_url: "http://test-server".to_string(),
        flux_api_token: Some("test-token".to_string()),
        ..Config::default()
    };

    // Test that the config is set up correctly
    assert_eq!(config.instance_name, "test-instance");
    assert_eq!(config.flux_url, "http://test-server");
    assert!(config.flux_api_token.is_some());
}

#[test]
fn test_status_transition_table() {
    assert_eq!(status_of_local(LocalJobState::Pending), JobStatus::Processing);
    assert_eq!(status_of_local(LocalJobState::Paused), JobStatus::Processing);
    assert_eq!(status_of_local(LocalJobState::Processing), JobStatus::Processing);
    assert_eq!(status_of_local(LocalJobState::Completed), JobStatus::Completed);
    assert_eq!(status_of_local(LocalJobState::Cancelled), JobStatus::Cancelled);
    assert_eq!(status_of_local(LocalJobState::Unknown), JobStatus::Failed);

    assert!(!status_is_terminal(JobStatus::Queued));
    assert!(!status_is_terminal(JobStatus::Processing));
    assert!(status_is_terminal(JobStatus::Completed));
    assert!(status_is_terminal(JobStatus::Failed));
    assert!(status_is_terminal(JobStatus::Cancelled));
}

#[test]
fn test_status_monotonicity() {
    // A job observed Completed is reported once, removed, and never
    // reported Processing afterwards.
    let mut reg = InFlightRegistry::new();
    assert!(reg.try_claim(7, &"q-a".to_string(), 1000));
    reg.complete_submission(7, 555);

    let first = reg.apply_observation(7, Some(LocalJobState::Completed), 1010, 300);
    let report = first.expect("a completed job is reported");
    assert_eq!(report.id, 7);
    assert_eq!(report.status, JobStatus::Completed);
    assert!(report.is_completed);
    assert_eq!(report.cups_job_id, Some(555));
    assert!(!reg.contains_id(7));

    // The status loop runs again, whatever the spooler now claims.
    let second = reg.apply_observation(7, Some(LocalJobState::Processing), 1020, 300);
    assert!(second.is_none());
    let third = reg.apply_observation(7, None, 2000, 300);
    assert!(third.is_none());
}

#[test]
fn test_unchanged_status_is_not_rereported() {
    let mut reg = InFlightRegistry::new();
    assert!(reg.try_claim(3, &"q-a".to_string(), 0));
    reg.complete_submission(3, 42);

    // Queued -> Processing is reported once.
    let r1 = reg.apply_observation(3, Some(LocalJobState::Processing), 10, 300);
    assert_eq!(r1.unwrap().status, JobStatus::Processing);
    // The same observation again reports nothing.
    let r2 = reg.apply_observation(3, Some(LocalJobState::Processing), 20, 300);
    assert!(r2.is_none());
    assert!(reg.contains_id(3));
}

#[test]
fn test_timeout_failure_reported_exactly_once() {
    let mut reg = InFlightRegistry::new();
    assert!(reg.try_claim(9, &"q-a".to_string(), 1000));

    // Before the threshold the invisible job is left alone.
    let early = reg.apply_observation(9, None, 1100, 300);
    assert!(early.is_none());
    assert!(reg.contains_id(9));

    // Past the threshold it fails exactly once and leaves the registry.
    let late = reg.apply_observation(9, None, 1301, 300);
    let report = late.expect("a timed-out job is reported");
    assert_eq!(report.id, 9);
    assert_eq!(report.status, JobStatus::Failed);
    assert!(report.is_completed);
    assert!(report.error_message.is_some());
    assert!(!reg.contains_id(9));

    let again = reg.apply_observation(9, None, 1400, 300);
    assert!(again.is_none());
}

#[test]
fn test_fallback_printer_substitution() {
    // A job addressed to a printer absent from the local spooler is still
    // submitted, to an available local printer.
    let job42 = job(
        42,
        Some(PrintJobPrinter {
            id: 77,
            name: "missing-printer".to_string(),
            spooler_name: "inst".to_string(),
            is_active: true,
        }),
    );
    let synced = PrinterMap::new();
    let requested = resolve_target_printer(&job42, &synced);
    assert_eq!(requested, Some("missing-printer".to_string()));

    let available = vec!["HP-Office".to_string()];
    let chosen = choose_submission_printer(&requested, &available).expect("a printer is chosen");
    assert_eq!(chosen, "HP-Office");

    // Submission succeeded: the job is claimed and reported Queued.
    let mut reg = InFlightRegistry::new();
    assert!(reg.try_claim(42, &chosen, 5000));
    reg.complete_submission(42, 901);
    let report = submission_report(42, 901);
    assert_eq!(report.id, 42);
    assert_eq!(report.status, JobStatus::Queued);
    assert!(!report.is_completed);
    assert_eq!(report.cups_job_id, Some(901));
}

#[test]
fn test_requested_printer_wins_when_available() {
    let available = vec!["HP-Office".to_string(), "Laser".to_string()];
    let requested = Some("Laser".to_string());
    let chosen = choose_submission_printer(&requested, &available).unwrap();
    assert_eq!(chosen, "Laser");

    let none_requested: Option<String> = None;
    let fallback = choose_submission_printer(&none_requested, &available).unwrap();
    assert_eq!(fallback, "HP-Office");
}

#[test]
fn test_no_printers_available_is_an_error() {
    let available: Vec<String> = Vec::new();
    let requested = Some("anything".to_string());
    let err = choose_submission_printer(&requested, &available).unwrap_err();
    assert!(matches!(err, SpoolerError::Print(_)));
    assert_eq!(err.message().as_str(), "no printers available");
}

#[test]
fn test_resolve_target_through_synced_map() {
    let mut synced = PrinterMap::new();
    synced.push_new(synced_printer("local-queue", 77));

    // The embedded printer relationship resolves by remote id first.
    let with_relation = job(
        1,
        Some(PrintJobPrinter {
            id: 77,
            name: "Display Name".to_string(),
            spooler_name: "inst".to_string(),
            is_active: true,
        }),
    );
    assert_eq!(resolve_target_printer(&with_relation, &synced), Some("local-queue".to_string()));

    // A bare remote printer id resolves through the map alone.
    let mut with_id = job(2, None);
    with_id.printer_id = Some(77);
    assert_eq!(resolve_target_printer(&with_id, &synced), Some("local-queue".to_string()));

    // No relationship and no id resolve to nothing.
    let bare = job(3, None);
    assert_eq!(resolve_target_printer(&bare, &synced), None);
}

#[test]
fn test_catch_up_submits_each_job_exactly_once() {
    // Two pending remote jobs, zero in-flight entries.
    let pending = vec![job(1, None), job(2, None)];
    let mut reg = InFlightRegistry::new();
    let ids = eligible_job_ids(&pending, &reg);
    assert_eq!(ids, vec![1, 2]);

    // The catch-up fetch claims and submits both.
    assert!(reg.try_claim(1, &"q".to_string(), 100));
    assert!(reg.try_claim(2, &"q".to_string(), 100));

    // A poll cycle racing with the catch-up claims nothing a second time.
    assert!(!reg.try_claim(1, &"q".to_string(), 101));
    assert!(!reg.try_claim(2, &"q".to_string(), 101));
    let ids_again = eligible_job_ids(&pending, &reg);
    assert!(ids_again.is_empty());
}

#[test]
fn test_eligible_skips_completed_and_in_flight() {
    let mut done = job(5, None);
    done.is_completed = true;
    let jobs = vec![job(4, None), done, job(6, None)];

    let mut reg = InFlightRegistry::new();
    assert!(reg.try_claim(6, &"q".to_string(), 0));

    let ids = eligible_job_ids(&jobs, &reg);
    assert_eq!(ids, vec![4]);

    assert!(should_process_job(&jobs[0]));
    assert!(!should_process_job(&jobs[1]));
}

#[test]
fn test_pending_job_ids() {
    let jobs = vec![job(10, None), job(11, None), job(12, None)];
    assert_eq!(pending_job_ids(&jobs), vec![10, 11, 12]);
}

#[test]
fn test_abandoned_submission_can_be_retried() {
    let mut reg = InFlightRegistry::new();
    assert!(reg.try_claim(8, &"q".to_string(), 50));
    // The submission failed: the claim is dropped, the next cycle retries.
    reg.abandon(8);
    assert!(!reg.contains_id(8));
    assert!(reg.try_claim(8, &"q".to_string(), 60));
}

#[test]
fn test_repopulate_after_restart() {
    let mut processing = job(21, None);
    processing.cups_job_id = Some(700);
    processing.status = Some("processing".to_string());

    let mut queued = job(22, None);
    queued.cups_job_id = Some(701);

    // Completed, or without a local handle: not resumed.
    let mut finished = job(23, None);
    finished.cups_job_id = Some(702);
    finished.is_completed = true;
    let handleless = job(24, None);

    let jobs = vec![processing, queued, finished, handleless];
    let reg = InFlightRegistry::repopulate(&jobs, 9000);
    assert_eq!(reg.len(), 2);
    assert!(reg.contains_id(21));
    assert!(reg.contains_id(22));
    assert!(!reg.contains_id(23));
    assert!(!reg.contains_id(24));

    let entries = reg.snapshot();
    assert_eq!(entries[0].job_id, 21);
    assert_eq!(entries[0].local_job_handle, Some(700));
    assert_eq!(entries[0].last_reported_status, JobStatus::Processing);
    assert_eq!(entries[0].submitted_at, 9000);
    assert_eq!(entries[1].last_reported_status, JobStatus::Queued);
}

#[test]
fn test_observed_state_prefers_active_queue() {
    let active = vec![(7u64, LocalJobState::Processing)];
    let history = vec![(7u64, LocalJobState::Completed), (8u64, LocalJobState::Completed)];
    // The active queue is consulted first.
    assert_eq!(observed_state(&active, &history, 7), Some(LocalJobState::Processing));
    // A handle only the history knows comes from the history.
    assert_eq!(observed_state(&active, &history, 8), Some(LocalJobState::Completed));
    // A handle nobody knows is not observed at all.
    assert_eq!(observed_state(&active, &history, 9), None);
}
