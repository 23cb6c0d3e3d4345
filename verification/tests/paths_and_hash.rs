use monitor_core::file_monitor::FileMonitor;
use monitor_core::file_scanner::{is_hidden_file, is_inside_macos_bundle};
use monitor_core::hashing::{calculate_simple_hash, to_lower_hex};
use monitor_core::paths::get_file_extension;
use monitor_core::text::{chars_of, find, has_infix, has_prefix, has_suffix, same_text};

#[test]
fn extension_follows_last_dot_of_file_name() {
    assert_eq!(get_file_extension("/a/b/Report.PDF"), Some("pdf".to_string()));
    assert_eq!(get_file_extension("/a/b/archive.tar.gz"), Some("gz".to_string()));
    assert_eq!(get_file_extension("/a/b.txt/"), Some("txt".to_string()));
    assert_eq!(get_file_extension("/a/b.txt/."), Some("txt".to_string()));
    assert_eq!(get_file_extension("name."), Some("".to_string()));
}

#[test]
fn extension_is_missing_without_inner_dot() {
    assert_eq!(get_file_extension("/a/b/.bashrc"), None);
    assert_eq!(get_file_extension("/a/b/noext"), None);
    assert_eq!(get_file_extension("/a/b/.."), None);
    assert_eq!(get_file_extension("/a.d/b"), None);
    assert_eq!(get_file_extension("/"), None);
    assert_eq!(get_file_extension(""), None);
}

#[test]
fn extension_agrees_with_std_path() {
    for p in ["/x/y/z.Tar", "rel/a.b.C", "/x/.hidden.txt", "/x/y/", "a//b.rs", "./a.TXT", ".."]
    {
        let expected = std::path::Path::new(p)
            .extension()
            .and_then(|e| e.to_str())
            .map(|e| e.to_lowercase());
        assert_eq!(get_file_extension(p), expected, "{}", p);
    }
}

#[test]
fn hidden_component_anywhere_hides_the_path() {
    assert!(is_hidden_file("/Users/test/.config/app/settings.json"));
    assert!(is_hidden_file("/Users/test/Documents/.hidden_file"));
    assert!(is_hidden_file(".git"));
    assert!(FileMonitor::is_hidden_file("/a/...")); 
    assert!(!is_hidden_file("/Users/test/Documents/report.pdf"));
    assert!(!is_hidden_file("/Users/test/./Documents/../report.pdf"));
    assert!(!is_hidden_file("."));
    assert!(!is_hidden_file(".."));
    assert!(!is_hidden_file(""));
    assert!(!is_hidden_file("/a/b.c/d"));
}

#[test]
fn enclosing_bundle_ends_with_its_suffix() {
    assert_eq!(
        is_inside_macos_bundle("/Apps/Xcode.app/Contents/Info.plist"),
        Some("/Apps/Xcode.app".to_string())
    );
    assert_eq!(
        is_inside_macos_bundle("/a/x.bundle/y.app/z"),
        Some("/a/x.bundle/y.app".to_string())
    );
    assert_eq!(
        is_inside_macos_bundle("/a/x.app/y.app/z"),
        Some("/a/x.app".to_string())
    );
    assert_eq!(is_inside_macos_bundle("/Apps/Xcode.app"), None);
}

#[test]
fn hash_is_sha256_in_lower_hex() {
    assert_eq!(
        calculate_simple_hash(b"abc", 4096),
        Some("ba7816bf8f01cfea414140de5dae2223b00361a396177a9cb410ff61f20015ad".to_string())
    );
}

#[test]
fn hash_covers_the_bounded_prefix_only() {
    assert_eq!(calculate_simple_hash(b"abcdef", 3), calculate_simple_hash(b"abc", 4096));
    let long = vec![7u8; 5000];
    assert_eq!(calculate_simple_hash(&long, 1 << 20), calculate_simple_hash(&long[..4096], 4096));
    assert_ne!(calculate_simple_hash(&long, 4096), calculate_simple_hash(&long[..4095], 4096));
}

#[test]
fn nothing_read_gives_no_hash() {
    assert_eq!(calculate_simple_hash(b"", 4096), None);
    assert_eq!(calculate_simple_hash(b"abc", 0), None);
}

#[test]
fn hex_writes_two_digits_per_byte() {
    assert_eq!(to_lower_hex(&[0x00, 0x0f, 0xa5, 0xff]), "000fa5ff");
    assert_eq!(to_lower_hex(&[]), "");
}

#[test]
fn text_searches() {
    let s = chars_of("hello world");
    assert!(has_prefix(&s, &chars_of("hello")));
    assert!(!has_prefix(&s, &chars_of("world")));
    assert!(has_suffix(&s, &chars_of("world")));
    assert!(has_suffix(&s, &chars_of("")));
    assert!(!has_suffix(&chars_of("ld"), &chars_of("world")));
    assert!(has_infix(&s, &chars_of("o w")));
    assert!(has_infix(&s, &chars_of("")));
    assert!(!has_infix(&s, &chars_of("worlds")));
    assert_eq!(find(&s, &chars_of("o")), Some(4));
    assert_eq!(find(&s, &chars_of("d")), Some(10));
    assert_eq!(find(&s, &chars_of("x")), None);
    assert!(same_text("día", "día"));
    assert!(!same_text("dia", "día"));
}
