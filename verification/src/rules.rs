//! The rule engine: what the extension map and the filter rules of a
//! configuration make of one record.
//!
//! Rules are taken in the order of the configuration. Every enabled rule that
//! matches leaves its name on the record and then acts: it tags, it marks the
//! record as excluded, or it only counts as a match. A record marked as
//! excluded is still carried to the end, so that all matches are known, but
//! it gathers no more tags.

use vstd::prelude::*;
use vstd::string::StringExecFns;
use crate::config::{
    AllConfigurations, AllConfigurationsView, FileCategoryRust, FileCategoryView,
    FileExtensionMapRust, FileExtensionMapView, FileFilterRuleRust, FileFilterRuleView,
    RuleActionRust, RuleTypeRust,
};
use crate::metadata::{ExtraMetadata, ExtraMetadataView, FileMetadata, FileMetadataView, no_notes};
use crate::text::{chars_of, contains, has_infix, lowercase, same_text, to_lowercase};

verus! {

/// The rule number under which hidden entries are excluded.
pub const HIDDEN_RULE_ID: i32 = 9999;

/// The rule name under which hidden entries are excluded.
pub open spec fn hidden_rule_name() -> Seq<char> {
    "隐藏文件自动排除"@
}

/// The category name noted where the extension map names a category that
/// the configuration does not hold.
pub open spec fn unknown_category() -> Seq<char> {
    "unknown_category_id"@
}

/// The tag that a file gets for its extension.
pub open spec fn extension_tag(ext: Seq<char>) -> Seq<char> {
    "ext:"@ + ext
}

/// The pattern type of rules that look for a word.
pub open spec fn keyword_type() -> Seq<char> {
    "keyword"@
}

/// The pattern type of rules that hold a regular expression.
pub open spec fn regex_type() -> Seq<char> {
    "regex"@
}

/// `pattern` is a regular expression that the `regex` crate accepts.
pub uninterp spec fn regex_compiles(pattern: Seq<char>) -> bool;

/// The regular expression `pattern` matches somewhere in `text`.
pub uninterp spec fn regex_matches(pattern: Seq<char>, text: Seq<char>) -> bool;

/// Calls `regex::Regex::new` and, on the expression it built,
/// `regex::Regex::is_match`. Whether a pattern is accepted depends on the
/// pattern alone, and whether it matches on the pattern and the text alone:
/// the result is `None` for a pattern that is refused, else whether the
/// expression matches somewhere in `text`.
#[verifier::external_body]
pub(crate) fn regex_search(pattern: &str, text: &str) -> (r: Option<bool>)
    ensures
        r == if regex_compiles(pattern@) {
            Some(regex_matches(pattern@, text@))
        } else {
            None::<bool>
        },
{
    match regex::Regex::new(pattern) {
        Ok(expression) => Some(expression.is_match(text)),
        Err(_) => None,
    }
}

/// `pattern` is accepted and matches somewhere in `text`.
pub open spec fn regex_hit(pattern: Seq<char>, text: Seq<char>) -> bool {
    regex_compiles(pattern) && regex_matches(pattern, text)
}

/// Whether the outcome of a search is a match. A pattern that was refused
/// matches nothing.
pub fn is_hit(outcome: Option<bool>) -> (r: bool)
    ensures
        r == (outcome == Some(true)),
{
    match outcome {
        Some(found) => found,
        None => false,
    }
}

/// The rule `rule` matches a file whose name in lower case is `name` and
/// whose extension is `ext`. A rule that is not enabled matches nothing, nor
/// does a rule on folders or structure.
pub open spec fn rule_hits(rule: FileFilterRuleView, name: Seq<char>, ext: Option<Seq<char>>) -> bool {
    rule.enabled && match rule.rule_type {
        RuleTypeRust::Filename => (rule.pattern_type == keyword_type() && contains(
            name,
            lowercase(rule.pattern),
        )) || (rule.pattern_type == regex_type() && regex_hit(rule.pattern, name)),
        RuleTypeRust::OSBundle => rule.pattern_type == regex_type() && regex_hit(
            rule.pattern,
            name,
        ),
        RuleTypeRust::Extension => ext.is_some() && ((rule.pattern_type == keyword_type()
            && lowercase(ext.unwrap()) == lowercase(rule.pattern)) || (rule.pattern_type
            == regex_type() && regex_hit(rule.pattern, ext.unwrap()))),
        RuleTypeRust::Folder => false,
        RuleTypeRust::Structure => false,
    }
}

/// Whether `rule` matches a file whose name in lower case is `name` and whose
/// extension is `ext`.
pub fn rule_applies(rule: &FileFilterRuleRust, name: &str, ext: &Option<String>) -> (r: bool)
    ensures
        r == rule_hits(rule@, name@, ext.deep_view()),
{
    if !rule.enabled {
        return false;
    }
    let by_keyword = same_text(rule.pattern_type.as_str(), "keyword");
    let by_regex = same_text(rule.pattern_type.as_str(), "regex");
    match rule.rule_type {
        RuleTypeRust::Filename => {
            if by_keyword {
                let word = to_lowercase(rule.pattern.as_str());
                let hay = chars_of(name);
                let needle = chars_of(word.as_str());
                if has_infix(hay.as_slice(), needle.as_slice()) {
                    return true;
                }
            }
            by_regex && is_hit(regex_search(rule.pattern.as_str(), name))
        },
        RuleTypeRust::OSBundle => by_regex && is_hit(regex_search(rule.pattern.as_str(), name)),
        RuleTypeRust::Extension => match ext.as_ref() {
            None => false,
            Some(e) => {
                if by_keyword {
                    let have = to_lowercase(e.as_str());
                    let want = to_lowercase(rule.pattern.as_str());
                    if have == want {
                        return true;
                    }
                }
                by_regex && is_hit(regex_search(rule.pattern.as_str(), e.as_str()))
            },
        },
        RuleTypeRust::Folder => false,
        RuleTypeRust::Structure => false,
    }
}

/// What the rules have made of a record so far.
#[derive(Debug)]
pub struct RuleState {
    /// The category assigned last.
    pub category_id: Option<i32>,
    /// The tags collected.
    pub tags: Option<Vec<String>>,
    /// The names of the rules that matched, in their order.
    pub matches: Vec<String>,
    /// The notes taken.
    pub notes: ExtraMetadata,
    /// How many matching rules excluded the record.
    pub excluded: usize,
}

/// The value of a [`RuleState`].
pub struct RuleStateView {
    pub category_id: Option<i32>,
    pub tags: Option<Seq<Seq<char>>>,
    pub matches: Seq<Seq<char>>,
    pub notes: ExtraMetadataView,
    pub excluded: nat,
}

impl View for RuleState {
    type V = RuleStateView;

    open spec fn view(&self) -> RuleStateView {
        RuleStateView {
            category_id: self.category_id,
            tags: self.tags.deep_view(),
            matches: self.matches.deep_view(),
            notes: self.notes@,
            excluded: self.excluded as nat,
        }
    }
}

/// `tags` with `tag` added at the end, unless it is there already.
pub open spec fn with_tag(tags: Seq<Seq<char>>, tag: Seq<char>) -> Seq<Seq<char>> {
    if tags.contains(tag) {
        tags
    } else {
        tags.push(tag)
    }
}

/// The tags that are there, or none yet.
pub open spec fn tags_or_empty(tags: Option<Seq<Seq<char>>>) -> Seq<Seq<char>> {
    match tags {
        Some(list) => list,
        None => Seq::empty(),
    }
}

/// The notes with the rule that excludes the record written in.
pub open spec fn note_exclusion(notes: ExtraMetadataView, id: i32, name: Seq<char>) -> ExtraMetadataView {
    ExtraMetadataView { excluded_by_rule_id: Some(id), excluded_by_rule_name: Some(name), ..notes }
}

/// What a rule that matched does to the state. A bundle rule excludes the
/// record and notes the bundle. The rule's name joins the matches. Then the
/// action: `Tag` adds the rule's name and its tag value to the tags, each
/// unless it is there, and adds nothing once an `Exclude` has acted;
/// `Exclude` notes the rule as the excluding one and is counted; `Include`
/// does nothing. At last the rule's category, if it has one, replaces the
/// category.
pub open spec fn matched_effect(state: RuleStateView, rule: FileFilterRuleView) -> RuleStateView {
    let noted = if rule.rule_type == RuleTypeRust::OSBundle {
        ExtraMetadataView {
            is_macos_bundle: Some(true),
            ..note_exclusion(state.notes, rule.id, rule.name)
        }
    } else {
        state.notes
    };
    let named = with_tag(tags_or_empty(state.tags), rule.name);
    RuleStateView {
        category_id: match rule.category_id {
            Some(id) => Some(id),
            None => state.category_id,
        },
        tags: if rule.action == RuleActionRust::Tag && state.excluded == 0 {
            Some(
                match rule.tag_value {
                    Some(value) => with_tag(named, value),
                    None => named,
                },
            )
        } else {
            state.tags
        },
        matches: state.matches.push(rule.name),
        notes: if rule.action == RuleActionRust::Exclude {
            note_exclusion(noted, rule.id, rule.name)
        } else {
            noted
        },
        excluded: if rule.action == RuleActionRust::Exclude {
            state.excluded + 1
        } else {
            state.excluded
        },
    }
}

/// What one rule does to the state: its effect if it matches, nothing if not.
pub open spec fn rule_step(
    state: RuleStateView,
    rule: FileFilterRuleView,
    name: Seq<char>,
    ext: Option<Seq<char>>,
) -> RuleStateView {
    if rule_hits(rule, name, ext) {
        matched_effect(state, rule)
    } else {
        state
    }
}

/// What the rules do to the state, taken from first to last.
pub open spec fn rules_fold(
    state: RuleStateView,
    rules: Seq<FileFilterRuleView>,
    name: Seq<char>,
    ext: Option<Seq<char>>,
) -> RuleStateView
    decreases rules.len(),
{
    if rules.len() == 0 {
        state
    } else {
        rule_step(rules_fold(state, rules.drop_last(), name, ext), rules.last(), name, ext)
    }
}

/// `i` is the first map of `maps` for the extension `ext`, as written.
pub open spec fn is_first_map(maps: Seq<FileExtensionMapView>, ext: Seq<char>, i: int) -> bool {
    &&& 0 <= i < maps.len()
    &&& maps[i].extension == ext
    &&& forall|j: int| 0 <= j < i ==> (#[trigger] maps[j]).extension != ext
}

/// The first map of `maps` for the extension `ext`, if there is one.
pub open spec fn first_map(maps: Seq<FileExtensionMapView>, ext: Seq<char>) -> Option<
    FileExtensionMapView,
> {
    if exists|i: int| is_first_map(maps, ext, i) {
        Some(maps[choose|i: int| is_first_map(maps, ext, i)])
    } else {
        None
    }
}

/// `i` is the first category of `categories` with the number `id`.
pub open spec fn is_first_category(categories: Seq<FileCategoryView>, id: i32, i: int) -> bool {
    &&& 0 <= i < categories.len()
    &&& categories[i].id == id
    &&& forall|j: int| 0 <= j < i ==> (#[trigger] categories[j]).id != id
}

/// The name of the category with the number `id`, or the name that stands
/// for an unknown one.
pub open spec fn category_name(categories: Seq<FileCategoryView>, id: i32) -> Seq<char> {
    if exists|i: int| is_first_category(categories, id, i) {
        categories[choose|i: int| is_first_category(categories, id, i)].name
    } else {
        unknown_category()
    }
}

/// The state before the first rule. A hidden record is noted as excluded.
/// A file with an extension gets the category of the first map for that
/// extension, the tag of the extension, and notes of both.
pub open spec fn initial_state(meta: FileMetadataView, config: AllConfigurationsView) -> RuleStateView {
    let hidden = if meta.is_hidden {
        note_exclusion(no_notes(), HIDDEN_RULE_ID, hidden_rule_name())
    } else {
        no_notes()
    };
    match meta.extension {
        Some(ext) => {
            let mapped = first_map(config.file_extension_maps, ext);
            RuleStateView {
                category_id: match mapped {
                    Some(m) => Some(m.category_id),
                    None => meta.category_id,
                },
                tags: Some(tags_or_empty(meta.tags).push(extension_tag(ext))),
                matches: tags_or_empty(meta.initial_rule_matches),
                notes: ExtraMetadataView {
                    file_type_from_ext_map: match mapped {
                        Some(m) => Some(category_name(config.file_categories, m.category_id)),
                        None => None,
                    },
                    extension: Some(ext),
                    ..hidden
                },
                excluded: 0,
            }
        },
        None => RuleStateView {
            category_id: meta.category_id,
            tags: meta.tags,
            matches: tags_or_empty(meta.initial_rule_matches),
            notes: hidden,
            excluded: 0,
        },
    }
}

/// The state after the last rule.
pub open spec fn final_state(meta: FileMetadataView, config: AllConfigurationsView) -> RuleStateView {
    rules_fold(
        initial_state(meta, config),
        config.file_filter_rules,
        lowercase(meta.file_name),
        meta.extension,
    )
}

/// The record with a state written into it. Matches and notes replace what
/// the record held only where there are any.
pub open spec fn with_state(meta: FileMetadataView, state: RuleStateView) -> FileMetadataView {
    FileMetadataView {
        category_id: state.category_id,
        tags: state.tags,
        initial_rule_matches: if state.matches.len() > 0 {
            Some(state.matches)
        } else {
            meta.initial_rule_matches
        },
        extra_metadata: if state.notes != no_notes() {
            Some(state.notes)
        } else {
            meta.extra_metadata
        },
        ..meta
    }
}

/// The record as the rules of `config` leave it.
pub open spec fn classified(meta: FileMetadataView, config: AllConfigurationsView) -> FileMetadataView {
    with_state(meta, final_state(meta, config))
}

/// The record is marked as excluded.
pub open spec fn marked_excluded(meta: FileMetadataView) -> bool {
    meta.extra_metadata.is_some() && meta.extra_metadata.unwrap().excluded_by_rule_id.is_some()
}

/// Whether `tag` is among `tags`.
pub fn holds_text(tags: &Vec<String>, tag: &String) -> (r: bool)
    ensures
        r == tags.deep_view().contains(tag@),
{
    let ghost list = tags.deep_view();
    let mut i: usize = 0;
    while i < tags.len()
        invariant
            i <= tags.len(),
            list == tags.deep_view(),
            forall|k: int| 0 <= k < i ==> list[k] != tag@,
        decreases tags.len() - i,
    {
        assert(list[i as int] == tags[i as int]@);
        if tags[i] == *tag {
            return true;
        }
        i += 1;
    }
    false
}

/// `tags` with `tag` added at the end, unless it is there already.
pub fn add_tag(tags: Vec<String>, tag: &String) -> (r: Vec<String>)
    ensures
        r.deep_view() == with_tag(tags.deep_view(), tag@),
{
    let mut tags = tags;
    if !holds_text(&tags, tag) {
        let ghost before = tags.deep_view();
        tags.push(tag.clone());
        assert(tags.deep_view() =~= before.push(tag@));
    }
    tags
}

/// The state after a rule that matched.
pub fn apply_matched_rule(state: RuleState, rule: &FileFilterRuleRust) -> (r: RuleState)
    requires
        state.excluded < usize::MAX,
    ensures
        r@ == matched_effect(state@, rule@),
{
    let RuleState { category_id, tags, matches, notes, excluded } = state;
    let ghost old_matches = matches.deep_view();
    let mut notes = notes;
    if rule.rule_type == RuleTypeRust::OSBundle {
        notes.excluded_by_rule_id = Some(rule.id);
        notes.excluded_by_rule_name = Some(rule.name.clone());
        notes.is_macos_bundle = Some(true);
    }
    let mut matches = matches;
    matches.push(rule.name.clone());
    assert(matches.deep_view() =~= old_matches.push(rule@.name));
    let mut tags = tags;
    let mut excluded = excluded;
    match rule.action {
        RuleActionRust::Tag => if excluded == 0 {
            let list = match tags {
                Some(list) => list,
                None => {
                    let fresh: Vec<String> = Vec::new();
                    assert(fresh.deep_view() =~= Seq::<Seq<char>>::empty());
                    fresh
                },
            };
            let named = add_tag(list, &rule.name);
            let valued = match &rule.extra_data {
                Some(extra) => match &extra.tag_value {
                    Some(value) => add_tag(named, value),
                    None => named,
                },
                None => named,
            };
            tags = Some(valued);
        },
        RuleActionRust::Exclude => {
            notes.excluded_by_rule_id = Some(rule.id);
            notes.excluded_by_rule_name = Some(rule.name.clone());
            excluded = excluded + 1;
        },
        RuleActionRust::Include => {},
    }
    let category_id = match rule.category_id {
        Some(id) => Some(id),
        None => category_id,
    };
    RuleState { category_id, tags, matches, notes, excluded }
}

/// The first map of `maps` for the extension `ext`, as written.
pub fn find_extension_map<'a>(maps: &'a Vec<FileExtensionMapRust>, ext: &String) -> (r: Option<
    &'a FileExtensionMapRust,
>)
    ensures
        r.deep_view() == first_map(maps.deep_view(), ext@),
{
    let ghost list = maps.deep_view();
    let mut i: usize = 0;
    while i < maps.len()
        invariant
            i <= maps.len(),
            list == maps.deep_view(),
            forall|j: int| 0 <= j < i ==> (#[trigger] list[j]).extension != ext@,
        decreases maps.len() - i,
    {
        assert(list[i as int] == maps[i as int]@);
        if maps[i].extension == *ext {
            proof {
                assert(is_first_map(list, ext@, i as int));
                let k = choose|k: int| is_first_map(list, ext@, k);
                assert(k == i);
            }
            return Some(&maps[i]);
        }
        i += 1;
    }
    proof {
        if exists|k: int| is_first_map(list, ext@, k) {
            let k = choose|k: int| is_first_map(list, ext@, k);
            assert(list[k].extension != ext@);
        }
    }
    None
}

/// The name of the category with the number `id`, or the name that stands
/// for an unknown one.
pub fn find_category_name(categories: &Vec<FileCategoryRust>, id: i32) -> (r: String)
    ensures
        r@ == category_name(categories.deep_view(), id),
{
    let ghost list = categories.deep_view();
    let mut i: usize = 0;
    while i < categories.len()
        invariant
            i <= categories.len(),
            list == categories.deep_view(),
            forall|j: int| 0 <= j < i ==> (#[trigger] list[j]).id != id,
        decreases categories.len() - i,
    {
        assert(list[i as int] == categories[i as int]@);
        if categories[i].id == id {
            proof {
                assert(is_first_category(list, id, i as int));
                let k = choose|k: int| is_first_category(list, id, k);
                assert(k == i);
            }
            return categories[i].name.clone();
        }
        i += 1;
    }
    proof {
        if exists|k: int| is_first_category(list, id, k) {
            let k = choose|k: int| is_first_category(list, id, k);
            assert(list[k].id != id);
        }
    }
    String::from_str("unknown_category_id")
}

/// Folding one rule more is one step from the fold so far.
pub proof fn lemma_fold_step(
    state: RuleStateView,
    rules: Seq<FileFilterRuleView>,
    name: Seq<char>,
    ext: Option<Seq<char>>,
    i: int,
)
    requires
        0 <= i < rules.len(),
    ensures
        rules_fold(state, rules.take(i + 1), name, ext) == rule_step(
            rules_fold(state, rules.take(i), name, ext),
            rules[i],
            name,
            ext,
        ),
        rules_fold(state, rules.take(0), name, ext) == state,
{
    assert(rules.take(i + 1).drop_last() =~= rules.take(i));
    assert(rules.take(i + 1).last() == rules[i]);
}

/// No fold excludes more often than it has rules.
pub proof fn lemma_fold_excluded_bound(
    state: RuleStateView,
    rules: Seq<FileFilterRuleView>,
    name: Seq<char>,
    ext: Option<Seq<char>>,
)
    ensures
        rules_fold(state, rules, name, ext).excluded <= state.excluded + rules.len(),
    decreases rules.len(),
{
    if rules.len() > 0 {
        lemma_fold_excluded_bound(state, rules.drop_last(), name, ext);
    }
}

/// Whether the notes say nothing.
pub fn notes_are_empty(notes: &ExtraMetadata) -> (r: bool)
    ensures
        r == (notes@ == no_notes()),
{
    notes.excluded_by_rule_id.is_none() && notes.excluded_by_rule_name.is_none()
        && notes.file_type_from_ext_map.is_none() && notes.extension.is_none()
        && notes.is_macos_bundle.is_none()
}

/// Whether the record is marked as excluded.
pub fn is_marked_excluded(metadata: &FileMetadata) -> (r: bool)
    ensures
        r == marked_excluded(metadata@),
{
    match &metadata.extra_metadata {
        Some(notes) => notes.excluded_by_rule_id.is_some(),
        None => false,
    }
}

/// The state before the first rule.
pub fn start_state(metadata: &FileMetadata, config: &AllConfigurations) -> (r: RuleState)
    ensures
        r@ == initial_state(metadata@, config@),
{
    let mut notes = ExtraMetadata {
        excluded_by_rule_id: None,
        excluded_by_rule_name: None,
        file_type_from_ext_map: None,
        extension: None,
        is_macos_bundle: None,
    };
    if metadata.is_hidden {
        notes.excluded_by_rule_id = Some(HIDDEN_RULE_ID);
        notes.excluded_by_rule_name = Some(String::from_str("隐藏文件自动排除"));
    }
    let matches = match &metadata.initial_rule_matches {
        Some(list) => crate::metadata::clone_strings(list),
        None => {
            let fresh: Vec<String> = Vec::new();
            assert(fresh.deep_view() =~= Seq::<Seq<char>>::empty());
            fresh
        },
    };
    let held = match &metadata.tags {
        Some(list) => Some(crate::metadata::clone_strings(list)),
        None => None,
    };
    match &metadata.extension {
        Some(ext) => {
            let mut category_id = metadata.category_id;
            match find_extension_map(&config.file_extension_maps, ext) {
                Some(map) => {
                    category_id = Some(map.category_id);
                    notes.file_type_from_ext_map = Some(
                        find_category_name(&config.file_categories, map.category_id),
                    );
                },
                None => {},
            }
            let mut tags = match held {
                Some(list) => list,
                None => {
                    let fresh: Vec<String> = Vec::new();
                    assert(fresh.deep_view() =~= Seq::<Seq<char>>::empty());
                    fresh
                },
            };
            let ghost before = tags.deep_view();
            tags.push(String::from_str("ext:").concat(ext.as_str()));
            assert(tags.deep_view() =~= before.push(extension_tag(ext@)));
            notes.extension = Some(ext.clone());
            RuleState { category_id, tags: Some(tags), matches, notes, excluded: 0 }
        },
        None => RuleState { category_id: metadata.category_id, tags: held, matches, notes, excluded: 0 },
    }
}

/// The record as the rules of `config` leave it, and how many matching rules
/// excluded it.
pub fn evaluate_rules(config: &AllConfigurations, metadata: FileMetadata) -> (r: (
    FileMetadata,
    usize,
))
    ensures
        r.0@ == classified(metadata@, config@),
        r.1 == final_state(metadata@, config@).excluded,
{
    let ghost meta = metadata@;
    let ghost rules = config.file_filter_rules.deep_view();
    let ghost first = initial_state(meta, config@);
    let name = to_lowercase(metadata.file_name.as_str());
    let mut state = start_state(&metadata, config);
    let mut i: usize = 0;
    proof {
        assert(rules.take(0) =~= Seq::<FileFilterRuleView>::empty());
    }
    while i < config.file_filter_rules.len()
        invariant
            i <= config.file_filter_rules.len(),
            rules == config.file_filter_rules.deep_view(),
            meta == metadata@,
            name@ == lowercase(meta.file_name),
            first.excluded == 0,
            state@ == rules_fold(first, rules.take(i as int), name@, meta.extension),
        decreases config.file_filter_rules.len() - i,
    {
        let rule = &config.file_filter_rules[i];
        proof {
            assert(rules[i as int] == rule@);
            lemma_fold_step(first, rules, name@, meta.extension, i as int);
            lemma_fold_excluded_bound(first, rules.take(i as int), name@, meta.extension);
        }
        if rule_applies(rule, name.as_str(), &metadata.extension) {
            state = apply_matched_rule(state, rule);
        }
        i += 1;
    }
    proof {
        assert(rules.take(config.file_filter_rules.len() as int) =~= rules);
    }
    let RuleState { category_id, tags, matches, notes, excluded } = state;
    let FileMetadata {
        file_path,
        file_name,
        extension,
        file_size,
        created_time,
        modified_time,
        is_dir,
        is_hidden,
        hash_value,
        category_id: _,
        tags: _,
        initial_rule_matches,
        extra_metadata,
        is_os_bundle,
    } = metadata;
    let initial_rule_matches = if matches.len() > 0 {
        Some(matches)
    } else {
        initial_rule_matches
    };
    let extra_metadata = if notes_are_empty(&notes) {
        extra_metadata
    } else {
        Some(notes)
    };
    (
        FileMetadata {
            file_path,
            file_name,
            extension,
            file_size,
            created_time,
            modified_time,
            is_dir,
            is_hidden,
            hash_value,
            category_id,
            tags,
            initial_rule_matches,
            extra_metadata,
            is_os_bundle,
        },
        excluded,
    )
}

} // verus!
