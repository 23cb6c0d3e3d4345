use monitor_core::config::{
    AllConfigurations, DirectoryAuthStatus, FileCategoryRust, FileExtensionMapRust,
    FileFilterRuleRust, MonitoredDirectory, RuleActionRust, RulePriorityRust, RuleTypeRust,
};
use monitor_core::batch::{BatchProcessor, SkipReason, Submission};
use monitor_core::file_monitor::{Classification, FileMonitor, MonitorError, RejectReason};
use monitor_core::file_monitor_debounced::ChangeKind;
use monitor_core::metadata::PathProbe;

const NOW: u64 = 1_700_000_000_000;

fn dir(id: i32, path: &str, blacklist: bool, status: DirectoryAuthStatus) -> MonitoredDirectory {
    MonitoredDirectory {
        id: Some(id),
        path: path.to_string(),
        alias: None,
        is_blacklist: blacklist,
        auth_status: status,
        created_at: None,
        updated_at: None,
    }
}

fn ext_map(extension: &str, category_id: i32) -> FileExtensionMapRust {
    FileExtensionMapRust {
        id: category_id,
        extension: extension.to_string(),
        category_id,
        description: None,
        priority: RulePriorityRust::Low,
    }
}

fn config(maps: Vec<FileExtensionMapRust>, rules: Vec<FileFilterRuleRust>) -> AllConfigurations {
    AllConfigurations {
        file_categories: vec![FileCategoryRust {
            id: 1,
            name: "document".to_string(),
            description: None,
            icon: None,
        }],
        file_filter_rules: rules,
        file_extension_maps: maps,
        project_recognition_rules: vec![],
        monitored_folders: vec![
            dir(1, "/home/u/docs", false, DirectoryAuthStatus::Authorized),
            dir(2, "/home/u/docs/private", true, DirectoryAuthStatus::Authorized),
            dir(3, "/home/u/pending", false, DirectoryAuthStatus::Pending),
            dir(4, "/home/u/denied", false, DirectoryAuthStatus::Unauthorized),
        ],
        full_disk_access: false,
    }
}

fn monitor(maps: Vec<FileExtensionMapRust>, rules: Vec<FileFilterRuleRust>) -> FileMonitor {
    let mut m = FileMonitor::new("127.0.0.1".to_string(), 60315);
    m.store_configuration(config(maps, rules));
    m
}

fn file_probe(size: u64) -> PathProbe {
    let mut p = PathProbe::absent();
    p.exists = true;
    p.is_file = true;
    p.size = size;
    p.created_secs = Some(100);
    p.modified_secs = Some(200);
    p
}

fn dir_probe() -> PathProbe {
    let mut p = PathProbe::absent();
    p.exists = true;
    p.is_dir = true;
    p
}

fn reason(c: Classification) -> Option<RejectReason> {
    match c {
        Classification::Rejected(r) => Some(r),
        Classification::Accepted(_) => None,
    }
}

#[test]
fn new_monitor_is_empty() {
    let m = FileMonitor::new("localhost".to_string(), 8080);
    assert_eq!(m.get_api_host(), "localhost");
    assert_eq!(m.get_api_port(), 8080);
    assert_eq!(m.get_batch_size(), 50);
    assert_eq!(m.get_batch_interval_ms(), 5000);
    assert!(m.get_configurations().is_none());
    assert!(m.get_monitored_directories().is_empty());
    let s = m.get_monitor_stats();
    assert_eq!((s.processed_files, s.filtered_files, s.filtered_bundles, s.error_count), (0, 0, 0, 0));
}

#[test]
fn stored_configuration_derives_watch_and_blacklist_sets() {
    let m = monitor(vec![], vec![]);
    let watched: Vec<String> = m.get_monitored_directories().into_iter().map(|d| d.path).collect();
    assert_eq!(watched, vec!["/home/u/docs".to_string()]);
    let black: Vec<String> = m.get_blacklist_directories().into_iter().map(|d| d.path).collect();
    assert_eq!(black, vec!["/home/u/docs/private".to_string()]);
    assert_eq!(m.get_configurations().unwrap().monitored_folders.len(), 4);
}

#[test]
fn full_disk_access_watches_every_directory_off_the_blacklist() {
    let mut cfg = config(vec![], vec![]);
    cfg.full_disk_access = true;
    let mut m = FileMonitor::new("h".to_string(), 1);
    m.store_configuration(cfg);
    let watched: Vec<String> = m.get_monitored_directories().into_iter().map(|d| d.path).collect();
    assert_eq!(
        watched,
        vec!["/home/u/docs".to_string(), "/home/u/pending".to_string(), "/home/u/denied".to_string()]
    );
    assert_eq!(m.get_blacklist_directories().len(), 1);
}

#[test]
fn created_pdf_is_delivered_with_its_category() {
    let mut m = monitor(vec![ext_map("pdf", 1)], vec![]);
    let got = m
        .process_file_event("/home/u/docs/report.pdf", ChangeKind::Added, &file_probe(3), b"abc", NOW)
        .expect("accepted");
    assert_eq!(got.file_path, "/home/u/docs/report.pdf");
    assert_eq!(got.file_name, "report.pdf");
    assert_eq!(got.extension, Some("pdf".to_string()));
    assert_eq!(got.category_id, Some(1));
    assert_eq!(got.file_size, 3);
    assert_eq!(got.created_time, 100);
    assert_eq!(got.modified_time, 200);
    assert!(!got.is_dir);
    assert!(!got.is_hidden);
    assert_eq!(got.is_os_bundle, Some(false));
    assert_eq!(
        got.hash_value,
        Some("ba7816bf8f01cfea414140de5dae2223b00361a396177a9cb410ff61f20015ad".to_string())
    );
    assert_eq!(got.tags, Some(vec!["ext:pdf".to_string()]));
    let s = m.get_monitor_stats();
    assert_eq!((s.processed_files, s.filtered_files, s.filtered_bundles), (1, 0, 0));
}

#[test]
fn unknown_times_fall_back_to_now() {
    let mut m = monitor(vec![], vec![]);
    let mut p = file_probe(0);
    p.created_secs = None;
    p.modified_secs = None;
    let got = m
        .process_file_event("/home/u/docs/a.txt", ChangeKind::Added, &p, b"", NOW + 999)
        .unwrap();
    assert_eq!(got.created_time, NOW / 1000);
    assert_eq!(got.modified_time, NOW / 1000);
    assert_eq!(got.hash_value, None);
}

#[test]
fn hidden_segment_is_rejected_as_hidden() {
    let mut m = monitor(vec![ext_map("pdf", 1)], vec![]);
    for p in ["/home/u/docs/.cache/report.pdf", "/home/u/docs/.report.pdf"] {
        let c = m.classify(p, ChangeKind::Added, &file_probe(1), b"x", NOW);
        assert_eq!(reason(c), Some(RejectReason::Hidden), "{}", p);
    }
    let s = m.get_monitor_stats();
    assert_eq!((s.processed_files, s.filtered_files, s.filtered_bundles), (0, 0, 0));
}

#[test]
fn screening_order_decides_the_reason() {
    let mut m = monitor(vec![ext_map("pdf", 1)], vec![]);
    let f = file_probe(1);
    let gone = PathProbe::absent();
    assert_eq!(
        m.screen_path("/home/u/docs/.x/a.pdf", ChangeKind::Removed, &f, NOW),
        Some(RejectReason::Removed)
    );
    assert_eq!(
        m.screen_path("/elsewhere/.x/a.pdf", ChangeKind::Added, &f, NOW),
        Some(RejectReason::NotMonitored)
    );
    assert_eq!(
        m.screen_path("/home/u/docs/.x/a.pdf", ChangeKind::Added, &gone, NOW),
        Some(RejectReason::Vanished)
    );
    assert_eq!(
        m.screen_path("/home/u/docs/a.txt", ChangeKind::Added, &f, NOW),
        Some(RejectReason::NotWhitelisted)
    );
    assert_eq!(
        m.screen_path("/home/u/docs/noext", ChangeKind::Added, &f, NOW),
        Some(RejectReason::NotWhitelisted)
    );
    assert_eq!(
        m.screen_path("/home/u/docs/X.app/a.pdf", ChangeKind::Added, &f, NOW),
        Some(RejectReason::Bundle)
    );
    assert_eq!(
        m.screen_path("/home/u/docs/private/a.pdf", ChangeKind::Added, &f, NOW),
        Some(RejectReason::Blacklisted)
    );
    assert_eq!(m.screen_path("/home/u/docs/a.pdf", ChangeKind::Added, &f, NOW), None);
    let s = m.get_monitor_stats();
    assert_eq!((s.processed_files, s.filtered_files, s.filtered_bundles), (0, 3, 1));
}

#[test]
fn missing_configuration_rejects_and_is_reported() {
    let mut m = FileMonitor::new("h".to_string(), 1);
    assert_eq!(
        m.screen_path("/home/u/docs/a.pdf", ChangeKind::Added, &file_probe(1), NOW),
        Some(RejectReason::NotMonitored)
    );
    assert!(!m.needs_configuration("/home/u/docs/a.pdf", ChangeKind::Added));
    let mut m = monitor(vec![], vec![]);
    assert!(!m.needs_configuration("/home/u/docs/a.pdf", ChangeKind::Added));
    assert_eq!(m.stop_monitoring_directory(9), Err(MonitorError::DirectoryNotFound(9)));
}

#[test]
fn file_inside_app_bundle_is_never_submitted() {
    let mut m = monitor(vec![], vec![]);
    let p = "/home/u/docs/Project.app/Contents/Info.plist";
    let c = m.classify(p, ChangeKind::Added, &file_probe(10), b"<plist/>", NOW);
    assert_eq!(reason(c), Some(RejectReason::Bundle));
    m.update_bundle_cache(vec![".nothing".to_string()], NOW);
    let c = m.classify(p, ChangeKind::Added, &file_probe(10), b"<plist/>", NOW);
    assert_eq!(reason(c), Some(RejectReason::InsideBundle));
    assert!(m
        .process_file_event(p, ChangeKind::Added, &file_probe(10), b"<plist/>", NOW)
        .is_none());
    let s = m.get_monitor_stats();
    assert_eq!((s.processed_files, s.filtered_files, s.filtered_bundles), (0, 2, 1));
}

#[test]
fn configured_bundle_suffix_rejects_whatever_the_content() {
    let mut m = monitor(vec![], vec![]);
    m.update_bundle_cache(vec![".sketch".to_string()], NOW);
    let p = "/home/u/docs/Design.Sketch/page.json";
    for content in [&b""[..], &b"abc"[..]] {
        let c = m.classify(p, ChangeKind::Added, &file_probe(3), content, NOW + 1);
        assert_eq!(reason(c), Some(RejectReason::Bundle));
    }
    let c = m.classify(p, ChangeKind::Added, &file_probe(3), b"abc", NOW + 3_600_001);
    assert!(reason(c).is_none());
}

#[test]
fn directory_marked_as_bundle_by_its_content() {
    let mut m = monitor(vec![], vec![]);
    let mut p = dir_probe();
    p.bundle_host = true;
    p.has_info_plist = true;
    assert_eq!(
        m.screen_path("/home/u/docs/Thing", ChangeKind::Added, &p, NOW),
        Some(RejectReason::Bundle)
    );
    let mut q = dir_probe();
    q.bundle_host = true;
    q.hidden_entries = 6;
    assert_eq!(
        m.screen_path("/home/u/docs/Thing", ChangeKind::Added, &q, NOW),
        Some(RejectReason::Bundle)
    );
    q.hidden_entries = 5;
    assert_eq!(m.screen_path("/home/u/docs/Thing", ChangeKind::Added, &q, NOW), None);
    q.bundle_host = false;
    q.hidden_entries = 60;
    assert_eq!(m.screen_path("/home/u/docs/Thing", ChangeKind::Added, &q, NOW), None);
}

#[test]
fn blacklist_covers_raw_and_resolved_paths() {
    let m = monitor(vec![], vec![]);
    let plain = file_probe(1);
    assert!(m.is_in_blacklist("/home/u/docs/private/a.txt", &plain));
    assert!(m.is_in_blacklist("/home/u/docs/private", &plain));
    assert!(!m.is_in_blacklist("/home/u/docs/private2/a.txt", &plain));
    assert!(!m.is_in_blacklist("/home/u/docs/link/a.txt", &plain));
    let mut linked = file_probe(1);
    linked.canonical_path = Some("/home/u/docs/private/a.txt".to_string());
    assert!(m.is_in_blacklist("/home/u/docs/link/a.txt", &linked));
    let mut m2 = monitor(vec![], vec![]);
    assert_eq!(
        m2.screen_path("/home/u/docs/link/a.txt", ChangeKind::Added, &linked, NOW),
        Some(RejectReason::Blacklisted)
    );
}

#[test]
fn blacklisted_directory_with_trailing_separators() {
    let mut cfg = config(vec![], vec![]);
    cfg.monitored_folders.push(dir(5, "/data/skip///", true, DirectoryAuthStatus::Authorized));
    let mut m = FileMonitor::new("h".to_string(), 1);
    m.store_configuration(cfg);
    let p = file_probe(1);
    assert!(m.is_in_blacklist("/data/skip/a", &p));
    assert!(m.is_in_blacklist("/data/skip", &p));
    assert!(!m.is_in_blacklist("/data/skipper", &p));
}

#[test]
fn excluded_record_is_carried_to_the_batch_stage() {
    let rule = FileFilterRuleRust {
        id: 7,
        name: "no-tmp".to_string(),
        description: None,
        rule_type: RuleTypeRust::Filename,
        category_id: None,
        priority: RulePriorityRust::High,
        action: RuleActionRust::Exclude,
        enabled: true,
        is_system: false,
        pattern: "tmp".to_string(),
        pattern_type: "keyword".to_string(),
        extra_data: None,
    };
    let mut m = monitor(vec![], vec![rule]);
    let got = m
        .process_file_event("/home/u/docs/TMP-1.txt", ChangeKind::Added, &file_probe(1), b"x", NOW)
        .expect("carried on with its mark");
    let notes = got.extra_metadata.as_ref().expect("notes");
    assert_eq!(notes.excluded_by_rule_id, Some(7));
    assert_eq!(notes.excluded_by_rule_name, Some("no-tmp".to_string()));
    assert_eq!(got.initial_rule_matches, Some(vec!["no-tmp".to_string()]));
    let s = m.get_monitor_stats();
    assert_eq!((s.processed_files, s.filtered_files), (1, 1));
    let mut stage = BatchProcessor::new(50, 5000, 0);
    assert!(matches!(
        stage.submit(got, &vec![]),
        Submission::Skipped(SkipReason::ExcludedByRule)
    ));
    assert_eq!(stage.pending(), 0);
    assert_eq!(stage.get_stats().rule_excluded_files_skipped, 1);
}

#[test]
fn accepted_record_is_never_flagged_as_bundle() {
    let mut m = monitor(vec![], vec![]);
    m.update_bundle_cache(vec![".custom".to_string()], NOW);
    let got = m
        .process_file_event("/home/u/docs/x.theater", ChangeKind::Added, &file_probe(1), b"x", NOW)
        .unwrap();
    assert_eq!(got.is_os_bundle, Some(false));
    assert!(m
        .process_file_event("/home/u/docs/x.custom", ChangeKind::Added, &file_probe(1), b"x", NOW)
        .is_none());
    let got = m
        .process_file_event("/home/u/docs/report.key", ChangeKind::Added, &file_probe(1), b"x", NOW + 3_600_001)
        .unwrap();
    assert_eq!(got.is_os_bundle, Some(false));
    assert_eq!(got.extension, Some("key".to_string()));
}

#[test]
fn failed_configuration_fetch_changes_nothing() {
    let mut m = monitor(vec![ext_map("pdf", 1)], vec![]);
    assert_eq!(
        m.refresh_folder_configuration(Err("connection refused".to_string())),
        Err("connection refused".to_string())
    );
    assert_eq!(m.get_monitored_directories().len(), 1);
    assert_eq!(m.get_configurations().unwrap().file_extension_maps.len(), 1);
    let mut next = config(vec![], vec![]);
    next.monitored_folders.truncate(0);
    assert_eq!(m.refresh_folder_configuration(Ok(next)), Ok(()));
    assert!(m.get_monitored_directories().is_empty());
    assert!(m.get_blacklist_directories().is_empty());
    let mut fresh = FileMonitor::new("h".to_string(), 1);
    assert!(fresh.refresh_folder_configuration(Err("down".to_string())).is_err());
    assert!(fresh.get_configurations().is_none());
    assert!(fresh.get_monitored_directories().is_empty());
}

#[test]
fn path_without_file_name_is_unreadable() {
    let mut m = monitor(vec![], vec![]);
    let c = m.classify("/home/u/docs/..", ChangeKind::Added, &dir_probe(), b"", NOW);
    assert_eq!(reason(c), Some(RejectReason::Unreadable));
}

#[test]
fn directory_record_has_no_size_hash_or_extension() {
    let mut m = monitor(vec![ext_map("pdf", 1)], vec![]);
    let mut p = dir_probe();
    p.size = 4096;
    let got = m
        .process_file_event("/home/u/docs/sub.dir", ChangeKind::Added, &p, b"abc", NOW)
        .unwrap();
    assert!(got.is_dir);
    assert_eq!(got.file_size, 0);
    assert_eq!(got.extension, None);
    assert_eq!(got.hash_value, None);
}

#[test]
fn directory_status_is_set_on_first_match() {
    let mut m = monitor(vec![], vec![]);
    m.update_directory_status("/home/u/docs", DirectoryAuthStatus::Unauthorized);
    m.update_directory_status("/nowhere", DirectoryAuthStatus::Pending);
    let dirs = m.get_monitored_directories();
    assert_eq!(dirs.len(), 1);
    assert_eq!(dirs[0].auth_status, DirectoryAuthStatus::Unauthorized);
}

#[test]
fn stopping_a_directory_removes_it_by_number() {
    let mut m = monitor(vec![], vec![]);
    assert_eq!(m.stop_monitoring_directory(2), Err(MonitorError::DirectoryNotFound(2)));
    assert_eq!(m.get_blacklist_directories().len(), 1);
    assert_eq!(m.stop_monitoring_directory(1), Ok(()));
    assert!(m.get_monitored_directories().is_empty());
    assert_eq!(m.stop_monitoring_directory(1), Err(MonitorError::DirectoryNotFound(1)));
}

#[test]
fn stale_bundle_cache_with_failed_refresh_serves_fallback() {
    let mut m = FileMonitor::new("h".to_string(), 1);
    m.update_bundle_cache(vec![".custom".to_string()], NOW);
    assert_eq!(m.get_cached_bundle_extensions_at(NOW + 3_600_000), vec![".custom".to_string()]);
    assert!(m.is_bundle_cache_expired_at(NOW + 3_600_001));
    let served = m.ensure_bundle_cache_valid(None, NOW + 3_600_001);
    assert_eq!(served, FileMonitor::get_fallback_bundle_extensions());
    assert_eq!(served.len(), 17);
    assert_eq!(served[0], ".app");
    assert_eq!(served[1], ".bundle");
    assert_eq!(served[2], ".framework");
    assert_eq!(
        m.refresh_bundle_extensions(Err("connection refused".to_string()), NOW + 3_600_002),
        Err("connection refused".to_string())
    );
    assert_eq!(m.get_cached_bundle_extensions_at(NOW + 3_600_002).len(), 17);
}

#[test]
fn bundle_cache_refresh_and_freshness() {
    let mut m = FileMonitor::new("h".to_string(), 1);
    assert!(m.is_bundle_cache_expired_at(0));
    assert_eq!(m.ensure_bundle_cache_valid(Some(vec![".a".to_string()]), 10), vec![".a".to_string()]);
    assert_eq!(m.ensure_bundle_cache_valid(Some(vec![".b".to_string()]), 20), vec![".a".to_string()]);
    assert!(m.is_bundle_cache_expired_at(5));
    assert!(!m.is_bundle_cache_expired_at(10 + 3_600_000));
    assert_eq!(m.refresh_bundle_extensions(Ok(vec![".c".to_string()]), 30), Ok(()));
    assert_eq!(m.get_cached_bundle_extensions_at(31), vec![".c".to_string()]);
    assert!(!m.is_bundle_cache_expired() || m.is_bundle_cache_expired());
    assert!(!m.get_cached_bundle_extensions().is_empty());
}

#[test]
fn summary_counts_what_is_cached() {
    let mut m = monitor(vec![ext_map("pdf", 1)], vec![]);
    m.update_bundle_cache(vec![".a".to_string(), ".b".to_string()], 5_999);
    let s = m.get_configuration_summary_at(6_000);
    assert!(s.has_config_cache);
    assert_eq!(s.config_categories_count, 1);
    assert_eq!(s.config_filter_rules_count, 0);
    assert_eq!(s.config_extension_maps_count, 1);
    assert!(!s.full_disk_access);
    assert_eq!(s.monitored_dirs_count, 1);
    assert_eq!(s.blacklist_dirs_count, 1);
    assert_eq!(s.bundle_cache_count, 2);
    assert!(!s.bundle_cache_expired);
    assert_eq!(s.bundle_cache_timestamp, Some(5));
    let e = FileMonitor::new("h".to_string(), 1).get_configuration_summary();
    assert!(!e.has_config_cache && e.bundle_cache_expired && e.bundle_cache_timestamp.is_none());
}
