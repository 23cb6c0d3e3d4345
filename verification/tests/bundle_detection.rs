use monitor_core::bundle::{
    builtin_bundle_extensions, fallback_bundle_extensions, is_inside_bundle, path_names_bundle,
};
use monitor_core::file_monitor::FileMonitor;
use monitor_core::metadata::PathProbe;

#[test]
fn test_macos_bundle_detection() {
    let test_paths = vec![
        ("/Users/test/Documents/test.txt", false),
        ("/Users/test/Documents/notes.md", false),
        ("/Users/test/Applications/App.app", true),
        ("/Users/test/Movies/FinalCutProjects/MyMovie.fcpbundle", true),
        ("/Users/test/Pictures/Photos Library.photoslibrary", true),
        ("/Users/test/Library/Application Support/MyApp.bundle", true),
        ("/Users/test/Library/Frameworks/MyFramework.framework", true),
        ("/Users/test/Movies/iMovie 剪辑资源库.imovielibrary/2025-3-16/CurrentVersion.imovieevent", true),
        ("/Users/test/Movies/iMovie 剪辑资源库.imovielibrary/Shared/Stills.modelDatabase", true),
        ("/Users/test/Movies/TV.tvlibrary", true),
        ("/Users/test/Movies/TV.tvlibrary/Library.json", true),
        ("/Users/test/Movies/TV.tvlibrary/Metadata/TV Shows/Show.tvshow", true),
        ("/Users/test/Applications/Xcode.app/Contents/Developer/Platforms/iPhoneOS.platform/DeviceSupport/16.0/DeveloperDiskImage.dmg", true),
        ("/Users/test/Library/Developer/Xcode/DerivedData/MyApp-abc123/Build/Products/Debug/MyApp.app/Contents/Resources/Base.lproj/Main.nib", true),
        ("/Users/test/Pictures/照片图库.photoslibrary/database/Library.apdb", true),
        ("/Users/test/Pictures/照片图库.photoslibrary/resources/derivatives/masters/8/867/867ED30F-9780-40EC-A704-0E94BF09E0EF_1_201_a.jpeg", true),
        ("/Users/test/Documents/normal_folder", false),
        ("/Users/test/Projects/rust-project", false),
        ("/Users/test/Documents/.hidden_file", false),
        ("/Users/test/Documents/app_data.json", false),
        ("/Users/test/Projects/framework_test", false),
    ];

    for (path_str, expected_result) in test_paths {
        let is_bundle = FileMonitor::is_macos_bundle_folder(path_str, &PathProbe::absent());
        assert_eq!(
            is_bundle, expected_result,
            "Path '{}' was detected as {} but expected {}",
            path_str,
            if is_bundle { "bundle" } else { "not bundle" },
            if expected_result { "bundle" } else { "not bundle" }
        );
    }
}

#[test]
fn only_the_built_in_suffixes_mark_a_bundle() {
    let list = builtin_bundle_extensions();
    assert_eq!(list.len(), 8);
    let probe = PathProbe::absent();
    for path in [
        "/Users/test/Documents/Keynote/Presentation.key",
        "/Users/test/Documents/Pages/Document.pages",
        "/Users/test/Documents/Numbers/Spreadsheet.numbers",
        "/a/b.key",
    ] {
        assert!(!FileMonitor::is_macos_bundle_folder(path, &probe), "{}", path);
        assert!(!monitor_core::file_scanner::is_macos_bundle_folder(path, &probe), "{}", path);
    }
}

#[test]
fn bundle_suffix_is_matched_in_any_case() {
    let list = builtin_bundle_extensions();
    assert!(path_names_bundle("/Users/test/Applications/App.APP", &list));
    assert!(path_names_bundle("/Users/test/Movies/tv.TvLibrary/Library.json", &list));
    assert!(!path_names_bundle("/Users/test/Documents/app_data.json", &list));
}

#[test]
fn empty_path_names_no_bundle() {
    assert!(!path_names_bundle("", &builtin_bundle_extensions()));
    assert!(!path_names_bundle("", &vec!["".to_string()]));
    assert!(path_names_bundle("a", &vec!["".to_string()]));
}

#[test]
fn suffix_with_capital_never_matches_lowered_name() {
    let list = fallback_bundle_extensions();
    assert_eq!(list.len(), 17);
    assert!(list.contains(&".colorSync".to_string()));
    assert!(!path_names_bundle("/Library/ColorSync/Profiles.colorSync", &list));
    assert!(path_names_bundle("/Library/Widgets/Clock.wdgt", &list));
}

#[test]
fn directory_layout_counts_only_on_bundle_hosts() {
    let mut probe = PathProbe::absent();
    probe.exists = true;
    probe.is_dir = true;
    probe.has_contents_dir = true;
    probe.has_resources_dir = true;
    assert!(!FileMonitor::is_macos_bundle_folder("/Users/test/Thing", &probe));
    probe.bundle_host = true;
    assert!(FileMonitor::is_macos_bundle_folder("/Users/test/Thing", &probe));
    probe.has_contents_dir = false;
    assert!(!FileMonitor::is_macos_bundle_folder("/Users/test/Thing", &probe));
}

#[test]
fn inside_bundle_needs_separator_after_suffix() {
    assert!(is_inside_bundle("/a/Project.app/Contents/Info.plist"));
    assert!(FileMonitor::is_inside_macos_bundle("/a/Lib.framework/Headers/x.h"));
    assert!(!is_inside_bundle("/a/Project.app"));
    assert!(!is_inside_bundle("/a/Project.APP/Contents"));
    assert!(!is_inside_bundle("/a/b/c.txt"));
}
