use monitor_core::batch::{find_skip_reason, BatchProcessor, SkipReason, Submission};
use monitor_core::config::{FileExtensionMapRust, RulePriorityRust};
use monitor_core::file_monitor_debounced::{
    normalize, ChangeKind, DebounceBuffer, RawEventKind, SimpleFileEvent,
};
use monitor_core::metadata::{ExtraMetadata, FileMetadata};
use monitor_core::startup::{
    combine_refresh_errors, RetryAdvice, StartupAction, StartupError, StartupRetry,
};
use monitor_core::watch::{DebouncedFileMonitor, WatchError};

fn record(name: &str, extension: Option<&str>) -> FileMetadata {
    FileMetadata {
        file_path: format!("/d/{}", name),
        file_name: name.to_string(),
        extension: extension.map(|e| e.to_string()),
        file_size: 1,
        created_time: 1,
        modified_time: 1,
        is_dir: false,
        is_hidden: false,
        hash_value: None,
        category_id: None,
        tags: None,
        initial_rule_matches: None,
        extra_metadata: None,
        is_os_bundle: None,
    }
}

fn maps() -> Vec<FileExtensionMapRust> {
    vec![FileExtensionMapRust {
        id: 1,
        extension: "PDF".to_string(),
        category_id: 1,
        description: None,
        priority: RulePriorityRust::Low,
    }]
}

#[test]
fn second_filter_reasons_in_order() {
    let m = maps();
    let mut r = record("a.pdf", Some("pdf"));
    assert_eq!(find_skip_reason(&r, &m), None);
    r.is_dir = true;
    assert_eq!(find_skip_reason(&r, &m), Some(SkipReason::Directory));
    r.file_name = "x.DS_Store".to_string();
    assert_eq!(find_skip_reason(&r, &m), Some(SkipReason::SystemArtifact));
    r.is_dir = false;
    r.extension = Some("txt".to_string());
    assert_eq!(find_skip_reason(&r, &m), Some(SkipReason::InvalidExtension));
    r.extension = None;
    assert_eq!(find_skip_reason(&r, &m), Some(SkipReason::InvalidExtension));
    assert_eq!(find_skip_reason(&r, &vec![]), Some(SkipReason::SystemArtifact));
    r.extra_metadata = Some(ExtraMetadata {
        excluded_by_rule_id: Some(3),
        excluded_by_rule_name: None,
        file_type_from_ext_map: None,
        extension: None,
        is_macos_bundle: None,
    });
    assert_eq!(find_skip_reason(&r, &m), Some(SkipReason::ExcludedByRule));
    r.is_os_bundle = Some(true);
    assert_eq!(find_skip_reason(&r, &m), Some(SkipReason::Bundle));
    r.is_hidden = true;
    assert_eq!(find_skip_reason(&r, &m), Some(SkipReason::Hidden));
}

#[test]
fn batch_flushes_when_full_and_counts_match() {
    let m = maps();
    let mut b = BatchProcessor::new(3, 5000, 0);
    assert!(matches!(b.submit(record("1.pdf", Some("pdf")), &m), Submission::Buffered));
    assert!(matches!(b.submit(record("1.pdf", Some("pdf")), &m), Submission::Buffered));
    assert_eq!(b.pending(), 2);
    match b.submit(record("3.pdf", Some("pdf")), &m) {
        Submission::Flush(sent) => {
            assert_eq!(sent.len(), 3);
            assert_eq!(sent[0].file_name, "1.pdf");
            assert_eq!(sent[1].file_name, "1.pdf");
            assert_eq!(sent[2].file_name, "3.pdf");
        }
        other => panic!("{:?}", other),
    }
    assert_eq!(b.pending(), 0);
    let s = b.get_stats();
    assert_eq!((s.received_files, s.processed_files), (3, 3));
}

#[test]
fn batch_skips_are_counted_and_not_buffered() {
    let m = maps();
    let mut b = BatchProcessor::new(50, 5000, 0);
    let mut hidden = record(".a.pdf", Some("pdf"));
    hidden.is_hidden = true;
    assert!(matches!(b.submit(hidden, &m), Submission::Skipped(SkipReason::Hidden)));
    assert!(matches!(
        b.submit(record("a.txt", Some("txt")), &m),
        Submission::Skipped(SkipReason::InvalidExtension)
    ));
    assert!(matches!(b.submit(record("a.pdf", Some("pdf")), &m), Submission::Buffered));
    let s = b.get_stats();
    assert_eq!(s.received_files, 3);
    assert_eq!(s.hidden_files_skipped, 1);
    assert_eq!(s.invalid_extension_skipped, 1);
    assert_eq!(s.processed_files, 1);
    assert_eq!(b.pending(), 1);
}

#[test]
fn batch_flushes_on_tick_after_interval() {
    let m = maps();
    let mut b = BatchProcessor::new(50, 5000, 1000);
    assert!(b.on_tick(10_000).is_none());
    b.submit(record("a.pdf", Some("pdf")), &m);
    assert!(b.on_tick(5_999).is_none());
    assert!(b.on_tick(500).is_none());
    let sent = b.on_tick(6_000).expect("due");
    assert_eq!(sent.len(), 1);
    assert_eq!(b.pending(), 0);
    b.batch_sent(6_000);
    b.submit(record("b.pdf", Some("pdf")), &m);
    assert!(b.on_tick(10_999).is_none());
    assert_eq!(b.on_tick(11_000).map(|v| v.len()), Some(1));
}

#[test]
fn batch_flushes_rest_on_close() {
    let m = maps();
    let mut b = BatchProcessor::new(50, 5000, 0);
    assert!(b.on_close().is_none());
    b.submit(record("a.pdf", Some("pdf")), &m);
    b.submit(record("b.pdf", Some("pdf")), &m);
    assert_eq!(b.on_close().map(|v| v.len()), Some(2));
    assert!(b.on_close().is_none());
}

#[test]
fn batch_of_size_zero_sends_every_record_alone() {
    let mut b = BatchProcessor::new(0, 5000, 0);
    match b.submit(record("a", None), &vec![]) {
        Submission::Flush(sent) => assert_eq!(sent.len(), 1),
        other => panic!("{:?}", other),
    }
    assert_eq!(b.pending(), 0);
}

#[test]
fn raw_kinds_are_normalized() {
    assert_eq!(normalize(RawEventKind::Create, false), ChangeKind::Added);
    assert_eq!(normalize(RawEventKind::Remove, true), ChangeKind::Removed);
    assert_eq!(normalize(RawEventKind::RenameFrom, true), ChangeKind::Removed);
    assert_eq!(normalize(RawEventKind::RenameTo, false), ChangeKind::Added);
    assert_eq!(normalize(RawEventKind::RenameBoth, false), ChangeKind::Added);
    assert_eq!(normalize(RawEventKind::Other, true), ChangeKind::Added);
    assert_eq!(normalize(RawEventKind::Other, false), ChangeKind::Removed);
}

#[test]
fn other_event_on_an_existing_directory_adds_it() {
    let dir = std::path::Path::new("/");
    assert!(dir.exists() && !dir.is_file());
    assert_eq!(normalize(RawEventKind::Other, dir.exists()), ChangeKind::Added);
    let gone = std::path::Path::new("/no/such/path/anywhere");
    assert_eq!(normalize(RawEventKind::Other, gone.exists()), ChangeKind::Removed);
}

#[test]
fn create_and_modifies_coalesce_into_one_added() {
    let mut d = DebounceBuffer::new();
    d.ingest("/d/p", normalize(RawEventKind::Create, true), 1);
    d.ingest("/d/p", normalize(RawEventKind::Other, true), 2);
    d.ingest("/d/p", normalize(RawEventKind::Other, true), 3);
    assert_eq!(d.len(), 1);
    assert_eq!(d.flush(), vec![SimpleFileEvent::Added("/d/p".to_string())]);
    assert_eq!(d.len(), 0);
    assert!(d.flush().is_empty());
}

#[test]
fn create_then_remove_forwards_removed() {
    let mut d = DebounceBuffer::new();
    d.ingest("/d/p", ChangeKind::Added, 1);
    d.ingest("/d/q", ChangeKind::Added, 2);
    d.ingest("/d/p", ChangeKind::Removed, 3);
    let events = d.flush();
    assert_eq!(
        events,
        vec![
            SimpleFileEvent::Removed("/d/p".to_string()),
            SimpleFileEvent::Added("/d/q".to_string())
        ]
    );
    assert_eq!(events[0].path(), "/d/p");
    assert_eq!(events[0].kind(), ChangeKind::Removed);
    d.ingest("/d/p", ChangeKind::Added, 4);
    assert_eq!(d.flush(), vec![SimpleFileEvent::Added("/d/p".to_string())]);
}

#[test]
fn stopping_a_watch_releases_its_records() {
    let mut d = DebounceBuffer::new();
    d.ingest("/d/a/x", ChangeKind::Added, 1);
    d.ingest("/d/ab/x", ChangeKind::Added, 1);
    d.ingest("/d/a", ChangeKind::Removed, 1);
    d.ingest("/e/a/x", ChangeKind::Added, 1);
    d.release_under("/d/a/");
    assert_eq!(
        d.flush(),
        vec![
            SimpleFileEvent::Added("/d/ab/x".to_string()),
            SimpleFileEvent::Added("/e/a/x".to_string())
        ]
    );
}

#[test]
fn watches_are_started_once_per_directory() {
    let mut w = DebouncedFileMonitor::new();
    assert_eq!(w.add_directory_to_watch("/a"), Err(WatchError::NotStarted));
    let dirs = vec!["/a".to_string(), "/b".to_string(), "/a".to_string()];
    assert_eq!(w.start_monitoring(&dirs), vec!["/a".to_string(), "/b".to_string()]);
    assert!(w.is_started());
    w.watch_established("/a");
    w.watch_established("/a");
    assert_eq!(w.watched_directories(), vec!["/a".to_string()]);
    assert_eq!(w.start_monitoring(&dirs), vec!["/b".to_string()]);
    assert_eq!(w.add_directory_to_watch("/a"), Ok(false));
    assert_eq!(w.add_directory_to_watch("/c"), Ok(true));
    assert!(w.is_watching("/a") && !w.is_watching("/b"));
}

#[test]
fn plan_starts_what_is_wanted_and_stops_the_rest() {
    let mut w = DebouncedFileMonitor::new();
    w.start_monitoring(&vec![]);
    w.watch_established("/a");
    w.watch_established("/b");
    let plan = w.plan(&vec!["/b".to_string(), "/c".to_string(), "/c".to_string()]);
    assert_eq!(plan.start, vec!["/c".to_string()]);
    assert_eq!(plan.stop, vec!["/a".to_string()]);
    assert!(w.stop_monitoring_path("/a"));
    assert!(!w.stop_monitoring_path("/a"));
    assert_eq!(w.watched_directories(), vec!["/b".to_string()]);
}

#[test]
fn configuration_arrives_on_the_thirtieth_attempt() {
    let mut s = StartupRetry::new();
    for i in 0..29u32 {
        assert_eq!(s.next(), StartupAction::FetchConfiguration, "attempt {}", i + 1);
        let advice = s.record_failure();
        assert_eq!(advice, RetryAdvice { report: i % 5 == 0, wait_ms: 1000 });
        assert_ne!(s.next(), StartupAction::Proceed);
    }
    assert_eq!(s.retries, 29);
    assert_eq!(s.next(), StartupAction::FetchConfiguration);
    s.record_success();
    assert_eq!(s.next(), StartupAction::Proceed);
}

#[test]
fn startup_gives_up_after_thirty_failures() {
    let mut s = StartupRetry::new();
    for _ in 0..30 {
        assert_eq!(s.next(), StartupAction::FetchConfiguration);
        s.record_failure();
    }
    assert_eq!(s.next(), StartupAction::Fail(StartupError::ConfigUnavailable(30)));
    let z = StartupRetry::with_limit(0);
    assert_eq!(z.next(), StartupAction::Fail(StartupError::ConfigUnavailable(0)));
}

#[test]
fn refresh_errors_are_joined() {
    assert_eq!(combine_refresh_errors(None, None), None);
    assert_eq!(
        combine_refresh_errors(Some("x".to_string()), None),
        Some("文件夹配置刷新失败: x".to_string())
    );
    assert_eq!(
        combine_refresh_errors(None, Some("y".to_string())),
        Some("Bundle扩展名刷新失败: y".to_string())
    );
    assert_eq!(
        combine_refresh_errors(Some("x".to_string()), Some("y".to_string())),
        Some("文件夹配置刷新失败: x; Bundle扩展名刷新失败: y".to_string())
    );
}
