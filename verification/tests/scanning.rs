use monitor_core::commands::{directory_entry, get_file_monitor_stats, CommandError};
use monitor_core::config::{
    AllConfigurations, DirectoryAuthStatus, FileExtensionMapRust, MonitoredDirectory,
    RulePriorityRust,
};
use monitor_core::event_buffer::{
    quiet_time_for, strategy_for, BridgeEventData, EventBuffer, EventBufferStrategy,
};
use monitor_core::file_monitor::FileMonitor;
use monitor_core::file_scanner::{
    begin_listing, find_category, get_category_ids_for_file_type, get_file_extension,
    is_file_in_time_range, is_file_in_time_range_at, is_file_of_type, is_macos_bundle_folder,
    judge_entry, listing_is_full, make_file_info, FileType, ListingError, ListingVerdict,
    ScanStats, TimeRange,
};
use monitor_core::metadata::PathProbe;
use monitor_core::scan::{
    begin_single_scan, is_top_level, EntryVerdict, ScanError, ScanStart, ScanTally, VisitStep,
};

fn ext_map(extension: &str, category_id: i32) -> FileExtensionMapRust {
    FileExtensionMapRust {
        id: 0,
        extension: extension.to_string(),
        category_id,
        description: None,
        priority: RulePriorityRust::Low,
    }
}

fn dir(id: i32, path: &str, blacklist: bool) -> MonitoredDirectory {
    MonitoredDirectory {
        id: Some(id),
        path: path.to_string(),
        alias: None,
        is_blacklist: blacklist,
        auth_status: DirectoryAuthStatus::Authorized,
        created_at: None,
        updated_at: None,
    }
}

fn monitor(maps: Vec<FileExtensionMapRust>) -> FileMonitor {
    let mut m = FileMonitor::new("h".to_string(), 1);
    m.store_configuration(AllConfigurations {
        file_categories: vec![],
        file_filter_rules: vec![],
        file_extension_maps: maps,
        project_recognition_rules: vec![],
        monitored_folders: vec![dir(1, "/w", false), dir(2, "/w/skip", true)],
        full_disk_access: false,
    });
    m
}

fn file_probe() -> PathProbe {
    let mut p = PathProbe::absent();
    p.exists = true;
    p.is_file = true;
    p
}

fn dir_probe() -> PathProbe {
    let mut p = PathProbe::absent();
    p.exists = true;
    p.is_dir = true;
    p
}

#[test]
fn initial_scan_filter_prunes_in_order() {
    let m = monitor(vec![ext_map("pdf", 1)]);
    let mut t = ScanTally::new();
    assert_eq!(t.admit_initial(&m, "/w/.git", &dir_probe()), EntryVerdict::Hidden);
    assert_eq!(t.admit_initial(&m, "/w/skip/a.pdf", &file_probe()), EntryVerdict::Blacklisted);
    assert_eq!(t.admit_initial(&m, "/w/X.app", &dir_probe()), EntryVerdict::Bundle);
    assert_eq!(t.skipped_bundles, 0);
    assert_eq!(t.admit_initial(&m, "/X.app", &dir_probe()), EntryVerdict::Bundle);
    assert_eq!(t.skipped_bundles, 1);
    let mut manifest = dir_probe();
    manifest.bundle_host = true;
    manifest.has_info_plist = true;
    assert_eq!(t.admit_initial(&m, "/w/Thing", &manifest), EntryVerdict::BundleManifest);
    assert_eq!(t.skipped_bundles, 2);
    assert_eq!(t.admit_initial(&m, "/w/a.txt", &file_probe()), EntryVerdict::NotWhitelisted);
    assert_eq!(t.admit_initial(&m, "/w/a.PDF", &file_probe()), EntryVerdict::Admit);
    assert_eq!(t.admit_initial(&m, "/w/sub", &dir_probe()), EntryVerdict::Admit);
    assert!(is_top_level("/a") && is_top_level("a") && !is_top_level("/a/b"));
}

#[test]
fn single_scan_filter_counts_every_bundle() {
    let mut t = ScanTally::new();
    assert_eq!(t.admit_single("/w/.x", &dir_probe()), EntryVerdict::Hidden);
    assert_eq!(t.admit_single("/w/a/X.bundle", &dir_probe()), EntryVerdict::Bundle);
    assert_eq!(t.skipped_bundles, 1);
    assert_eq!(t.admit_single("/w/skip/a", &file_probe()), EntryVerdict::Admit);
}

#[test]
fn scan_counts_entries_and_adds_them_to_the_monitor() {
    let mut m = monitor(vec![ext_map("pdf", 1)]);
    let mut t = ScanTally::new();
    assert!(t.visit_initial(&mut m, "/w/a.pdf", &file_probe(), b"x", 5_000).is_some());
    assert!(t.visit_initial(&mut m, "/w/a.txt", &file_probe(), b"x", 5_000).is_none());
    assert!(t.visit_single(&mut m, "/w/sub", &dir_probe(), b"", 5_000).is_none());
    assert!(t.visit_single(&mut m, "/w/b.pdf", &file_probe(), b"y", 5_000).is_some());
    t.entry_failed();
    assert_eq!(
        t,
        ScanTally { total_files: 4, skipped_files: 2, processed_files: 2, skipped_bundles: 0 }
    );
    t.finish(&mut m);
    let s = m.get_monitor_stats();
    assert_eq!((s.processed_files, s.filtered_files, s.filtered_bundles), (4, 3, 0));
}

#[test]
fn visit_in_two_steps_reads_only_what_passed_the_screening() {
    let mut m = monitor(vec![ext_map("pdf", 1)]);
    let mut t = ScanTally::new();
    assert_eq!(t.begin_visit_initial(&mut m, "/w/a.txt", &file_probe(), 1), VisitStep::Skip);
    assert_eq!(t.begin_visit_initial(&mut m, "/w/X.app/a.pdf", &file_probe(), 1), VisitStep::Skip);
    assert_eq!(t.begin_visit_initial(&mut m, "/w/a.pdf", &file_probe(), 1), VisitStep::Complete);
    let got = t.complete_visit(&mut m, "/w/a.pdf", &file_probe(), b"abc", 1).unwrap();
    assert_eq!(
        got.hash_value,
        Some("ba7816bf8f01cfea414140de5dae2223b00361a396177a9cb410ff61f20015ad".to_string())
    );
    assert_eq!(t.begin_visit_single(&mut m, "/w/sub", &dir_probe(), 1), VisitStep::Skip);
    assert_eq!(t.begin_visit_single(&mut m, "/w/b.txt", &file_probe(), 1), VisitStep::Skip);
    assert_eq!(t.begin_visit_single(&mut m, "/w/b.pdf", &file_probe(), 1), VisitStep::Complete);
    assert_eq!(t.begin_visit_initial(&mut m, "/w/..", &dir_probe(), 1), VisitStep::Complete);
    assert!(t.complete_visit(&mut m, "/w/..", &dir_probe(), b"", 1).is_none());
    assert_eq!(
        t,
        ScanTally { total_files: 7, skipped_files: 4, processed_files: 1, skipped_bundles: 0 }
    );
    let s = m.get_monitor_stats();
    assert_eq!((s.processed_files, s.filtered_files, s.filtered_bundles), (1, 2, 1));
}

#[test]
fn blacklist_is_rechecked_on_every_thousandth_entry() {
    let mut m = monitor(vec![]);
    let mut t = ScanTally { total_files: 998, skipped_files: 0, processed_files: 998, skipped_bundles: 0 };
    assert!(t.visit_initial(&mut m, "/w/a", &file_probe(), b"", 1).is_some());
    let before = m.get_monitor_stats();
    assert!(t.visit_initial(&mut m, "/w/skip/a", &file_probe(), b"", 1).is_none());
    assert_eq!(m.get_monitor_stats(), before);
    assert_eq!((t.total_files, t.skipped_files), (1000, 1));
}

#[test]
fn single_scan_start() {
    let m = monitor(vec![]);
    assert_eq!(begin_single_scan(&m, "/w/skip/x", &PathProbe::absent()), Ok(ScanStart::Skip));
    assert_eq!(
        begin_single_scan(&m, "/w/gone", &PathProbe::absent()),
        Err(ScanError::DirectoryMissing)
    );
    assert_eq!(begin_single_scan(&m, "/w/here", &dir_probe()), Ok(ScanStart::Walk));
}

#[test]
fn file_types_map_to_categories() {
    assert_eq!(get_category_ids_for_file_type(&FileType::Image), vec![2]);
    assert_eq!(get_category_ids_for_file_type(&FileType::AudioVideo), vec![3]);
    assert_eq!(get_category_ids_for_file_type(&FileType::Archive), vec![4]);
    assert_eq!(get_category_ids_for_file_type(&FileType::Document), vec![1]);
    assert!(get_category_ids_for_file_type(&FileType::All).is_empty());
}

#[test]
fn file_of_type_goes_by_extension_map() {
    let maps = vec![ext_map("PNG", 2), ext_map("pdf", 1)];
    assert!(is_file_of_type(&None, &FileType::All, &maps));
    assert!(is_file_of_type(&Some("png".to_string()), &FileType::Image, &maps));
    assert!(!is_file_of_type(&Some("png".to_string()), &FileType::Document, &maps));
    assert!(!is_file_of_type(&Some("gif".to_string()), &FileType::Image, &maps));
    assert!(!is_file_of_type(&None, &FileType::Image, &maps));
    assert_eq!(get_file_extension("/a/B.PnG"), Some("png".to_string()));
}

#[test]
fn time_range_reaches_back_in_whole_days() {
    let now_ms = 10_000_000_000u64 * 1000;
    let now_s = 10_000_000_000u64;
    assert!(is_file_in_time_range_at(now_s - 86_400, &TimeRange::Today, now_ms));
    assert!(!is_file_in_time_range_at(now_s - 86_401, &TimeRange::Today, now_ms));
    assert!(!is_file_in_time_range_at(now_s - 86_400, &TimeRange::Today, now_ms + 1));
    assert!(is_file_in_time_range_at(now_s - 7 * 86_400, &TimeRange::Last7Days, now_ms));
    assert!(!is_file_in_time_range_at(now_s - 7 * 86_400 - 1, &TimeRange::Last7Days, now_ms));
    assert!(is_file_in_time_range_at(now_s - 30 * 86_400, &TimeRange::Last30Days, now_ms));
    assert!(!is_file_in_time_range_at(now_s - 30 * 86_400 - 1, &TimeRange::Last30Days, now_ms));
    assert!(is_file_in_time_range_at(now_s + 5, &TimeRange::Today, now_ms));
    assert!(is_file_in_time_range_at(0, &TimeRange::Today, 1000));
    assert!(!is_file_in_time_range_at(u64::MAX, &TimeRange::Today, now_ms));
    assert!(is_file_in_time_range_at(i64::MAX as u64, &TimeRange::Today, u64::MAX));
    assert!(!is_file_in_time_range(0, &TimeRange::Last30Days));
    assert!(is_file_in_time_range(i64::MAX as u64, &TimeRange::Today));
}

#[test]
fn listing_verdicts_in_order() {
    let maps = vec![ext_map("pdf", 1), ext_map("png", 2)];
    let f = file_probe();
    let j = |p: &str, probe: &PathProbe, t: Option<FileType>| judge_entry(p, probe, &maps, &t);
    assert_eq!(j("/u/.a/x.pdf", &f, None), ListingVerdict::Hidden);
    assert_eq!(j("/u/A.app", &f, None), ListingVerdict::Bundle);
    assert_eq!(j("/u/cAcHe/x.pdf", &f, None), ListingVerdict::CacheDirectory);
    assert_eq!(j("/u/Caches/x.pdf", &f, None), ListingVerdict::Candidate);
    assert_eq!(j("/u/d", &dir_probe(), None), ListingVerdict::NotAFile);
    assert_eq!(j("/u/x.txt", &f, None), ListingVerdict::ExtensionFiltered);
    assert_eq!(j("/u/x", &f, None), ListingVerdict::ExtensionFiltered);
    assert_eq!(j("/u/x", &f, Some(FileType::Image)), ListingVerdict::ExtensionFiltered);
    assert_eq!(j("/u/x", &f, Some(FileType::All)), ListingVerdict::Candidate);
    assert_eq!(j("/u/x.pdf", &f, Some(FileType::Image)), ListingVerdict::TypeMismatch);
    assert_eq!(j("/u/x.PNG", &f, Some(FileType::Image)), ListingVerdict::Candidate);
    assert_eq!(judge_entry("/u/x.pdf", &f, &vec![], &None), ListingVerdict::ExtensionFiltered);
    let mut manifest = dir_probe();
    manifest.bundle_host = true;
    manifest.has_info_plist = true;
    assert!(is_macos_bundle_folder("/u/d", &manifest));
    assert!(!is_macos_bundle_folder("/u/d", &dir_probe()));
}

#[test]
fn listing_counters_and_limits() {
    let mut s = ScanStats::new();
    s.record(ListingVerdict::Hidden);
    s.record(ListingVerdict::Bundle);
    s.record(ListingVerdict::InsideBundle);
    s.record(ListingVerdict::ExtensionFiltered);
    s.record(ListingVerdict::CacheDirectory);
    s.record(ListingVerdict::Candidate);
    s.record_included();
    assert_eq!(
        s,
        ScanStats {
            total_discovered: 6,
            hidden_filtered: 1,
            extension_filtered: 1,
            bundle_filtered: 2,
            total_included: 1
        }
    );
    assert_eq!(begin_listing(&vec![]), Err(ListingError::NoExtensionMaps));
    assert_eq!(begin_listing(&vec![ext_map("a", 1)]), Ok(()));
    assert!(!listing_is_full(499));
    assert!(listing_is_full(500));
}

#[test]
fn file_info_takes_name_extension_and_category() {
    let maps = vec![ext_map("PDF", 9), ext_map("pdf", 1)];
    let info = make_file_info("/u/docs/Report.Pdf", 12, None, "2024-01-01T00:00:00+00:00".to_string(), &maps);
    assert_eq!(info.file_path, "/u/docs/Report.Pdf");
    assert_eq!(info.file_name, "Report.Pdf");
    assert_eq!(info.file_size, 12);
    assert_eq!(info.extension, Some("pdf".to_string()));
    assert_eq!(info.category_id, Some(9));
    assert_eq!(info.created_time, None);
    assert_eq!(info.modified_time, "2024-01-01T00:00:00+00:00");
    assert_eq!(find_category(&Some("x".to_string()), &maps), None);
    assert_eq!(find_category(&None, &maps), None);
    assert_eq!(make_file_info("/", 0, None, String::new(), &maps).file_name, "");
}

#[test]
fn strategies_by_name() {
    assert_eq!(strategy_for("error-occurred"), EventBufferStrategy::Immediate);
    assert_eq!(strategy_for("system-status"), EventBufferStrategy::Immediate);
    assert_eq!(strategy_for("model-status-changed"), EventBufferStrategy::Immediate);
    assert_eq!(strategy_for("tags-updated"), EventBufferStrategy::DelayedMerge(5000));
    assert_eq!(strategy_for("database-updated"), EventBufferStrategy::DelayedMerge(3000));
    assert_eq!(strategy_for("task-completed"), EventBufferStrategy::DelayedMerge(2000));
    assert_eq!(strategy_for("parsing-progress"), EventBufferStrategy::Throttle(1000));
    assert_eq!(strategy_for("screening-progress"), EventBufferStrategy::Throttle(1000));
    assert_eq!(strategy_for("file-processed"), EventBufferStrategy::Throttle(2000));
    assert_eq!(strategy_for("anything-else"), EventBufferStrategy::DelayedMerge(500));
    assert_eq!(quiet_time_for("tags-updated"), 5000);
    assert_eq!(quiet_time_for("database-updated"), 5000);
    assert_eq!(quiet_time_for("task-completed"), 2000);
    assert_eq!(quiet_time_for("file-processed"), 2000);
    assert_eq!(quiet_time_for("parsing-progress"), 1000);
}

fn note(event: &str, payload: &str) -> BridgeEventData {
    BridgeEventData { event: event.to_string(), payload: payload.to_string() }
}

#[test]
fn notifications_are_passed_merged_or_throttled() {
    let mut b = EventBuffer::new();
    assert_eq!(b.handle_event(note("error-occurred", "1"), 0), Some(note("error-occurred", "1")));
    assert_eq!(b.handle_event(note("tags-updated", "1"), 0), None);
    assert_eq!(b.handle_event(note("tags-updated", "2"), 100), None);
    assert_eq!(b.get_stats(), vec![("tags-updated".to_string(), 2)]);
    assert_eq!(b.handle_event(note("parsing-progress", "a"), 0), Some(note("parsing-progress", "a")));
    assert_eq!(b.handle_event(note("parsing-progress", "b"), 999), None);
    assert_eq!(b.handle_event(note("parsing-progress", "c"), 1998), None);
    assert_eq!(b.handle_event(note("parsing-progress", "d"), 2998), Some(note("parsing-progress", "d")));
    assert_eq!(
        b.get_stats(),
        vec![("tags-updated".to_string(), 2), ("parsing-progress".to_string(), 1)]
    );
    assert!(b.flush_due(3997).is_empty());
    assert_eq!(b.flush_due(3998), vec![note("parsing-progress", "d")]);
    assert_eq!(b.flush_due(5100), vec![note("tags-updated", "2")]);
    assert!(b.get_stats().is_empty());
    b.handle_event(note("x", "1"), 0);
    b.handle_event(note("y", "2"), 0);
    assert_eq!(b.flush_all(), vec![note("x", "1"), note("y", "2")]);
    assert!(b.flush_all().is_empty());
}

#[test]
fn command_answers() {
    assert_eq!(get_file_monitor_stats(None), Err(CommandError::MonitorNotStarted));
    let m = monitor(vec![]);
    let r = get_file_monitor_stats(Some(&m)).unwrap();
    assert_eq!((r.processed_files, r.filtered_files, r.filtered_bundles, r.error_count), (0, 0, 0, 0));
    assert!(directory_entry("docs", "/u/docs", false).is_none());
    assert!(directory_entry(".git", "/u/.git", true).is_none());
    let e = directory_entry("docs", "/u/docs", true).unwrap();
    assert_eq!((e.name.as_str(), e.path.as_str(), e.is_directory), ("docs", "/u/docs", true));
}
