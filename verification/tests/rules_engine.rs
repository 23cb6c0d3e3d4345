use monitor_core::config::{
    AllConfigurations, FileCategoryRust, FileExtensionMapRust, FileFilterRuleRust, RuleActionRust,
    RuleExtraData, RulePriorityRust, RuleTypeRust,
};
use monitor_core::metadata::FileMetadata;
use monitor_core::rules::{
    add_tag, apply_matched_rule, evaluate_rules, is_hit, is_marked_excluded, rule_applies,
    start_state, RuleState,
};

fn rule(
    id: i32,
    name: &str,
    rule_type: RuleTypeRust,
    pattern: &str,
    pattern_type: &str,
    action: RuleActionRust,
) -> FileFilterRuleRust {
    FileFilterRuleRust {
        id,
        name: name.to_string(),
        description: None,
        rule_type,
        category_id: None,
        priority: RulePriorityRust::Medium,
        action,
        enabled: true,
        is_system: false,
        pattern: pattern.to_string(),
        pattern_type: pattern_type.to_string(),
        extra_data: None,
    }
}

fn ext_map(id: i32, extension: &str, category_id: i32) -> FileExtensionMapRust {
    FileExtensionMapRust {
        id,
        extension: extension.to_string(),
        category_id,
        description: None,
        priority: RulePriorityRust::Medium,
    }
}

fn config(maps: Vec<FileExtensionMapRust>, rules: Vec<FileFilterRuleRust>) -> AllConfigurations {
    AllConfigurations {
        file_categories: vec![
            FileCategoryRust { id: 1, name: "document".to_string(), description: None, icon: None },
            FileCategoryRust { id: 2, name: "image".to_string(), description: None, icon: None },
        ],
        file_filter_rules: rules,
        file_extension_maps: maps,
        project_recognition_rules: vec![],
        monitored_folders: vec![],
        full_disk_access: false,
    }
}

fn record(name: &str, extension: Option<&str>) -> FileMetadata {
    FileMetadata {
        file_path: format!("/home/u/docs/{}", name),
        file_name: name.to_string(),
        extension: extension.map(|e| e.to_string()),
        file_size: 10,
        created_time: 1,
        modified_time: 2,
        is_dir: false,
        is_hidden: false,
        hash_value: None,
        category_id: None,
        tags: None,
        initial_rule_matches: None,
        extra_metadata: None,
        is_os_bundle: Some(false),
    }
}

#[test]
fn extension_map_assigns_category_and_tag() {
    let cfg = config(vec![ext_map(1, "pdf", 1), ext_map(2, "pdf", 2)], vec![]);
    let (done, excluded) = evaluate_rules(&cfg, record("report.pdf", Some("pdf")));
    assert_eq!(excluded, 0);
    assert_eq!(done.category_id, Some(1));
    assert_eq!(done.tags, Some(vec!["ext:pdf".to_string()]));
    assert_eq!(done.initial_rule_matches, None);
    let notes = done.extra_metadata.expect("notes");
    assert_eq!(notes.file_type_from_ext_map, Some("document".to_string()));
    assert_eq!(notes.extension, Some("pdf".to_string()));
    assert_eq!(notes.excluded_by_rule_id, None);
    assert_eq!(notes.is_macos_bundle, None);
}

#[test]
fn unknown_category_is_noted_by_its_placeholder() {
    let cfg = config(vec![ext_map(1, "zip", 77)], vec![]);
    let (done, _) = evaluate_rules(&cfg, record("a.zip", Some("zip")));
    assert_eq!(done.category_id, Some(77));
    assert_eq!(
        done.extra_metadata.unwrap().file_type_from_ext_map,
        Some("unknown_category_id".to_string())
    );
}

#[test]
fn extension_map_is_matched_as_written() {
    let cfg = config(vec![ext_map(1, "PDF", 1)], vec![]);
    let (done, _) = evaluate_rules(&cfg, record("report.pdf", Some("pdf")));
    assert_eq!(done.category_id, None);
    assert_eq!(done.extra_metadata.unwrap().file_type_from_ext_map, None);
}

#[test]
fn record_without_extension_or_match_stays_bare() {
    let cfg = config(vec![ext_map(1, "pdf", 1)], vec![]);
    let (done, excluded) = evaluate_rules(&cfg, record("README", None));
    assert_eq!(excluded, 0);
    assert_eq!(done.tags, None);
    assert_eq!(done.category_id, None);
    assert!(done.extra_metadata.is_none());
    assert!(done.initial_rule_matches.is_none());
}

#[test]
fn hidden_record_is_noted_as_excluded() {
    let cfg = config(vec![], vec![]);
    let mut m = record(".secret", None);
    m.is_hidden = true;
    let (done, excluded) = evaluate_rules(&cfg, m);
    assert_eq!(excluded, 0);
    let notes = done.extra_metadata.as_ref().unwrap();
    assert_eq!(notes.excluded_by_rule_id, Some(9999));
    assert_eq!(notes.excluded_by_rule_name, Some("隐藏文件自动排除".to_string()));
    assert!(is_marked_excluded(&done));
}

#[test]
fn keyword_rule_ignores_case() {
    let r = rule(1, "drafts", RuleTypeRust::Filename, "DRAFT", "keyword", RuleActionRust::Tag);
    assert!(rule_applies(&r, "my-draft-v2.txt", &None));
    assert!(!rule_applies(&r, "final.txt", &None));
}

#[test]
fn regex_rule_searches_the_name() {
    let r = rule(2, "dated", RuleTypeRust::Filename, r"^\d{4}-\d{2}", "regex", RuleActionRust::Tag);
    assert!(rule_applies(&r, "2024-05-report.txt", &None));
    assert!(!rule_applies(&r, "report-2024-05.txt", &None));
    assert!(!rule_applies(&r, r"^\d{4}-\d{2}", &None));
}

#[test]
fn invalid_regex_matches_nothing() {
    let r = rule(3, "broken", RuleTypeRust::Filename, "(unclosed", "regex", RuleActionRust::Exclude);
    assert!(!rule_applies(&r, "(unclosed", &None));
    assert!(!is_hit(None));
    assert!(!is_hit(Some(false)));
    assert!(is_hit(Some(true)));
}

#[test]
fn disabled_rule_and_unknown_pattern_type_match_nothing() {
    let mut r = rule(4, "off", RuleTypeRust::Filename, "a", "keyword", RuleActionRust::Tag);
    r.enabled = false;
    assert!(!rule_applies(&r, "a", &None));
    let g = rule(5, "glob", RuleTypeRust::Filename, "*", "glob", RuleActionRust::Tag);
    assert!(!rule_applies(&g, "anything", &None));
    let f = rule(6, "folder", RuleTypeRust::Folder, "a", "keyword", RuleActionRust::Tag);
    assert!(!rule_applies(&f, "a", &None));
    let s = rule(7, "structure", RuleTypeRust::Structure, "a", "regex", RuleActionRust::Tag);
    assert!(!rule_applies(&s, "a", &None));
}

#[test]
fn extension_rule_by_keyword_and_regex() {
    let k = rule(8, "pdfs", RuleTypeRust::Extension, "PDF", "keyword", RuleActionRust::Tag);
    assert!(rule_applies(&k, "x.pdf", &Some("pdf".to_string())));
    assert!(!rule_applies(&k, "x.pdfx", &Some("pdfx".to_string())));
    assert!(!rule_applies(&k, "pdf", &None));
    let r = rule(9, "imgs", RuleTypeRust::Extension, "^(png|jpe?g)$", "regex", RuleActionRust::Tag);
    assert!(rule_applies(&r, "x.jpeg", &Some("jpeg".to_string())));
    assert!(!rule_applies(&r, "x.gif", &Some("gif".to_string())));
}

#[test]
fn bundle_rule_needs_regex() {
    let r = rule(10, "apps", RuleTypeRust::OSBundle, r"\.app$", "regex", RuleActionRust::Include);
    assert!(rule_applies(&r, "tool.app", &None));
    let k = rule(11, "apps", RuleTypeRust::OSBundle, ".app", "keyword", RuleActionRust::Include);
    assert!(!rule_applies(&k, "tool.app", &None));
}

#[test]
fn tag_rule_adds_name_and_value_once() {
    let mut r = rule(12, "work", RuleTypeRust::Filename, "report", "keyword", RuleActionRust::Tag);
    r.extra_data = Some(RuleExtraData { tag_value: Some("office".to_string()) });
    r.category_id = Some(5);
    let cfg = config(vec![ext_map(1, "pdf", 1)], vec![r.clone(), r]);
    let (done, excluded) = evaluate_rules(&cfg, record("Report.pdf", Some("pdf")));
    assert_eq!(excluded, 0);
    assert_eq!(
        done.tags,
        Some(vec!["ext:pdf".to_string(), "work".to_string(), "office".to_string()])
    );
    assert_eq!(done.initial_rule_matches, Some(vec!["work".to_string(), "work".to_string()]));
    assert_eq!(done.category_id, Some(5));
    assert!(!is_marked_excluded(&done));
}

#[test]
fn last_excluding_rule_is_the_one_noted() {
    let a = rule(20, "tmp", RuleTypeRust::Filename, "tmp", "keyword", RuleActionRust::Exclude);
    let b = rule(21, "bak", RuleTypeRust::Filename, "bak", "keyword", RuleActionRust::Exclude);
    let c = rule(22, "seen", RuleTypeRust::Filename, "tmp", "keyword", RuleActionRust::Include);
    let cfg = config(vec![], vec![a, b, c]);
    let (done, excluded) = evaluate_rules(&cfg, record("tmp.bak", Some("bak")));
    assert_eq!(excluded, 2);
    let notes = done.extra_metadata.as_ref().unwrap();
    assert_eq!(notes.excluded_by_rule_id, Some(21));
    assert_eq!(notes.excluded_by_rule_name, Some("bak".to_string()));
    assert_eq!(
        done.initial_rule_matches,
        Some(vec!["tmp".to_string(), "bak".to_string(), "seen".to_string()])
    );
    assert!(is_marked_excluded(&done));
}

#[test]
fn bundle_rule_marks_exclusion_and_bundle() {
    let r = rule(30, "apps", RuleTypeRust::OSBundle, r"\.app$", "regex", RuleActionRust::Include);
    let cfg = config(vec![], vec![r]);
    let (done, excluded) = evaluate_rules(&cfg, record("Tool.APP", None));
    assert_eq!(excluded, 0);
    let notes = done.extra_metadata.unwrap();
    assert_eq!(notes.excluded_by_rule_id, Some(30));
    assert_eq!(notes.excluded_by_rule_name, Some("apps".to_string()));
    assert_eq!(notes.is_macos_bundle, Some(true));
}

#[test]
fn earlier_matches_and_tags_are_kept() {
    let r = rule(40, "r", RuleTypeRust::Filename, "a", "keyword", RuleActionRust::Tag);
    let cfg = config(vec![], vec![r]);
    let mut m = record("a.txt", Some("txt"));
    m.tags = Some(vec!["old".to_string()]);
    m.initial_rule_matches = Some(vec!["before".to_string()]);
    let (done, _) = evaluate_rules(&cfg, m);
    assert_eq!(
        done.tags,
        Some(vec!["old".to_string(), "ext:txt".to_string(), "r".to_string()])
    );
    assert_eq!(done.initial_rule_matches, Some(vec!["before".to_string(), "r".to_string()]));
}

#[test]
fn matched_rule_effect_on_given_state() {
    let cfg = config(vec![], vec![]);
    let state: RuleState = start_state(&record("x", None), &cfg);
    assert_eq!(state.excluded, 0);
    assert!(state.tags.is_none());
    let r = rule(50, "ex", RuleTypeRust::Filename, "x", "keyword", RuleActionRust::Exclude);
    let after = apply_matched_rule(state, &r);
    assert_eq!(after.excluded, 1);
    assert_eq!(after.matches, vec!["ex".to_string()]);
    assert_eq!(after.notes.excluded_by_rule_id, Some(50));
    assert!(after.tags.is_none());
    assert_eq!(add_tag(vec!["a".to_string()], &"a".to_string()), vec!["a".to_string()]);
    assert_eq!(
        add_tag(vec!["a".to_string()], &"b".to_string()),
        vec!["a".to_string(), "b".to_string()]
    );
}

#[test]
fn no_tags_are_gathered_after_an_exclusion() {
    let before = rule(60, "early", RuleTypeRust::Filename, "a", "keyword", RuleActionRust::Tag);
    let stop = rule(61, "stop", RuleTypeRust::Filename, "a", "keyword", RuleActionRust::Exclude);
    let mut after = rule(62, "late", RuleTypeRust::Filename, "a", "keyword", RuleActionRust::Tag);
    after.category_id = Some(8);
    let cfg = config(vec![], vec![before, stop, after]);
    let (done, excluded) = evaluate_rules(&cfg, record("a", None));
    assert_eq!(excluded, 1);
    assert_eq!(done.tags, Some(vec!["early".to_string()]));
    assert_eq!(
        done.initial_rule_matches,
        Some(vec!["early".to_string(), "stop".to_string(), "late".to_string()])
    );
    assert_eq!(done.category_id, Some(8));
    assert_eq!(done.extra_metadata.unwrap().excluded_by_rule_id, Some(61));
}
