//! The configuration that the remote service hands out: monitored
//! directories, categories, extension maps and filter rules, each with the
//! plain value that contracts speak of.

use vstd::prelude::*;
use crate::seqs::{lemma_filter_empty, lemma_filter_step};
use crate::text::{lowercase, to_lowercase};

verus! {

/// Whether the user has let a directory be watched.
#[derive(Debug, Clone, Copy, PartialEq, Eq, Structural)]
pub enum DirectoryAuthStatus {
    Pending,
    Authorized,
    Unauthorized,
}

/// What a filter rule looks at.
#[derive(Debug, Clone, Copy, PartialEq, Eq, Structural)]
pub enum RuleTypeRust {
    Extension,
    Filename,
    Folder,
    Structure,
    OSBundle,
}

/// The weight of a rule or of an extension map.
#[derive(Debug, Clone, Copy, PartialEq, Eq, Structural)]
pub enum RulePriorityRust {
    Low,
    Medium,
    High,
}

/// What a matching rule does.
#[derive(Debug, Clone, Copy, PartialEq, Eq, Structural)]
pub enum RuleActionRust {
    Include,
    Exclude,
    Tag,
}

/// A directory that the configuration names.
#[derive(Debug)]
pub struct MonitoredDirectory {
    pub id: Option<i32>,
    pub path: String,
    pub alias: Option<String>,
    pub is_blacklist: bool,
    pub auth_status: DirectoryAuthStatus,
    pub created_at: Option<String>,
    pub updated_at: Option<String>,
}

/// The value of a [`MonitoredDirectory`].
pub struct MonitoredDirectoryView {
    pub id: Option<i32>,
    pub path: Seq<char>,
    pub alias: Option<Seq<char>>,
    pub is_blacklist: bool,
    pub auth_status: DirectoryAuthStatus,
    pub created_at: Option<Seq<char>>,
    pub updated_at: Option<Seq<char>>,
}

impl View for MonitoredDirectory {
    type V = MonitoredDirectoryView;

    open spec fn view(&self) -> MonitoredDirectoryView {
        MonitoredDirectoryView {
            id: self.id,
            path: self.path@,
            alias: self.alias.deep_view(),
            is_blacklist: self.is_blacklist,
            auth_status: self.auth_status,
            created_at: self.created_at.deep_view(),
            updated_at: self.updated_at.deep_view(),
        }
    }
}

impl DeepView for MonitoredDirectory {
    type V = MonitoredDirectoryView;

    open spec fn deep_view(&self) -> MonitoredDirectoryView {
        self.view()
    }
}

impl Clone for MonitoredDirectory {
    fn clone(&self) -> (r: Self)
        ensures
            r@ == self@,
    {
        MonitoredDirectory {
            id: self.id,
            path: self.path.clone(),
            alias: self.alias.clone(),
            is_blacklist: self.is_blacklist,
            auth_status: self.auth_status,
            created_at: self.created_at.clone(),
            updated_at: self.updated_at.clone(),
        }
    }
}

/// A category that files are sorted into.
#[derive(Debug)]
pub struct FileCategoryRust {
    pub id: i32,
    pub name: String,
    pub description: Option<String>,
    pub icon: Option<String>,
}

/// The value of a [`FileCategoryRust`].
pub struct FileCategoryView {
    pub id: i32,
    pub name: Seq<char>,
    pub description: Option<Seq<char>>,
    pub icon: Option<Seq<char>>,
}

impl View for FileCategoryRust {
    type V = FileCategoryView;

    open spec fn view(&self) -> FileCategoryView {
        FileCategoryView {
            id: self.id,
            name: self.name@,
            description: self.description.deep_view(),
            icon: self.icon.deep_view(),
        }
    }
}

impl DeepView for FileCategoryRust {
    type V = FileCategoryView;

    open spec fn deep_view(&self) -> FileCategoryView {
        self.view()
    }
}

impl Clone for FileCategoryRust {
    fn clone(&self) -> (r: Self)
        ensures
            r@ == self@,
    {
        FileCategoryRust {
            id: self.id,
            name: self.name.clone(),
            description: self.description.clone(),
            icon: self.icon.clone(),
        }
    }
}

/// What a rule carries beside its pattern: the tag that it assigns, if it
/// names one.
#[derive(Debug)]
pub struct RuleExtraData {
    pub tag_value: Option<String>,
}

/// A rule that tags, includes or excludes the files it matches.
#[derive(Debug)]
pub struct FileFilterRuleRust {
    pub id: i32,
    pub name: String,
    pub description: Option<String>,
    pub rule_type: RuleTypeRust,
    pub category_id: Option<i32>,
    pub priority: RulePriorityRust,
    pub action: RuleActionRust,
    pub enabled: bool,
    pub is_system: bool,
    pub pattern: String,
    pub pattern_type: String,
    pub extra_data: Option<RuleExtraData>,
}

/// The value of a [`FileFilterRuleRust`]. `tag_value` is the tag named by the
/// rule's extra data, if there is one.
pub struct FileFilterRuleView {
    pub id: i32,
    pub name: Seq<char>,
    pub description: Option<Seq<char>>,
    pub rule_type: RuleTypeRust,
    pub category_id: Option<i32>,
    pub priority: RulePriorityRust,
    pub action: RuleActionRust,
    pub enabled: bool,
    pub is_system: bool,
    pub pattern: Seq<char>,
    pub pattern_type: Seq<char>,
    pub has_extra_data: bool,
    pub tag_value: Option<Seq<char>>,
}

impl View for FileFilterRuleRust {
    type V = FileFilterRuleView;

    open spec fn view(&self) -> FileFilterRuleView {
        FileFilterRuleView {
            id: self.id,
            name: self.name@,
            description: self.description.deep_view(),
            rule_type: self.rule_type,
            category_id: self.category_id,
            priority: self.priority,
            action: self.action,
            enabled: self.enabled,
            is_system: self.is_system,
            pattern: self.pattern@,
            pattern_type: self.pattern_type@,
            has_extra_data: self.extra_data.is_some(),
            tag_value: match self.extra_data {
                Some(extra) => extra.tag_value.deep_view(),
                None => None,
            },
        }
    }
}

impl DeepView for FileFilterRuleRust {
    type V = FileFilterRuleView;

    open spec fn deep_view(&self) -> FileFilterRuleView {
        self.view()
    }
}

impl Clone for FileFilterRuleRust {
    fn clone(&self) -> (r: Self)
        ensures
            r@ == self@,
    {
        let extra_data = match &self.extra_data {
            Some(extra) => Some(RuleExtraData { tag_value: extra.tag_value.clone() }),
            None => None,
        };
        FileFilterRuleRust {
            id: self.id,
            name: self.name.clone(),
            description: self.description.clone(),
            rule_type: self.rule_type,
            category_id: self.category_id,
            priority: self.priority,
            action: self.action,
            enabled: self.enabled,
            is_system: self.is_system,
            pattern: self.pattern.clone(),
            pattern_type: self.pattern_type.clone(),
            extra_data,
        }
    }
}

/// The category that files of one extension belong to. The extension is
/// written without its dot.
#[derive(Debug)]
pub struct FileExtensionMapRust {
    pub id: i32,
    pub extension: String,
    pub category_id: i32,
    pub description: Option<String>,
    pub priority: RulePriorityRust,
}

/// The value of a [`FileExtensionMapRust`].
pub struct FileExtensionMapView {
    pub id: i32,
    pub extension: Seq<char>,
    pub category_id: i32,
    pub description: Option<Seq<char>>,
    pub priority: RulePriorityRust,
}

impl View for FileExtensionMapRust {
    type V = FileExtensionMapView;

    open spec fn view(&self) -> FileExtensionMapView {
        FileExtensionMapView {
            id: self.id,
            extension: self.extension@,
            category_id: self.category_id,
            description: self.description.deep_view(),
            priority: self.priority,
        }
    }
}

impl DeepView for FileExtensionMapRust {
    type V = FileExtensionMapView;

    open spec fn deep_view(&self) -> FileExtensionMapView {
        self.view()
    }
}

impl Clone for FileExtensionMapRust {
    fn clone(&self) -> (r: Self)
        ensures
            r@ == self@,
    {
        FileExtensionMapRust {
            id: self.id,
            extension: self.extension.clone(),
            category_id: self.category_id,
            description: self.description.clone(),
            priority: self.priority,
        }
    }
}

/// A rule by which the remote service recognises projects. The agent carries
/// it and does not evaluate it.
#[derive(Debug)]
pub struct ProjectRecognitionRuleRust {
    pub id: i32,
    pub name: String,
    pub description: Option<String>,
    pub rule_type: String,
    pub pattern: String,
}

/// The value of a [`ProjectRecognitionRuleRust`].
pub struct ProjectRecognitionRuleView {
    pub id: i32,
    pub name: Seq<char>,
    pub description: Option<Seq<char>>,
    pub rule_type: Seq<char>,
    pub pattern: Seq<char>,
}

impl View for ProjectRecognitionRuleRust {
    type V = ProjectRecognitionRuleView;

    open spec fn view(&self) -> ProjectRecognitionRuleView {
        ProjectRecognitionRuleView {
            id: self.id,
            name: self.name@,
            description: self.description.deep_view(),
            rule_type: self.rule_type@,
            pattern: self.pattern@,
        }
    }
}

impl DeepView for ProjectRecognitionRuleRust {
    type V = ProjectRecognitionRuleView;

    open spec fn deep_view(&self) -> ProjectRecognitionRuleView {
        self.view()
    }
}

impl Clone for ProjectRecognitionRuleRust {
    fn clone(&self) -> (r: Self)
        ensures
            r@ == self@,
    {
        ProjectRecognitionRuleRust {
            id: self.id,
            name: self.name.clone(),
            description: self.description.clone(),
            rule_type: self.rule_type.clone(),
            pattern: self.pattern.clone(),
        }
    }
}

/// One snapshot of the whole configuration. A snapshot is replaced as a
/// whole, never edited.
#[derive(Debug)]
pub struct AllConfigurations {
    pub file_categories: Vec<FileCategoryRust>,
    pub file_filter_rules: Vec<FileFilterRuleRust>,
    pub file_extension_maps: Vec<FileExtensionMapRust>,
    pub project_recognition_rules: Vec<ProjectRecognitionRuleRust>,
    pub monitored_folders: Vec<MonitoredDirectory>,
    pub full_disk_access: bool,
}

/// The value of an [`AllConfigurations`].
pub struct AllConfigurationsView {
    pub file_categories: Seq<FileCategoryView>,
    pub file_filter_rules: Seq<FileFilterRuleView>,
    pub file_extension_maps: Seq<FileExtensionMapView>,
    pub project_recognition_rules: Seq<ProjectRecognitionRuleView>,
    pub monitored_folders: Seq<MonitoredDirectoryView>,
    pub full_disk_access: bool,
}

impl View for AllConfigurations {
    type V = AllConfigurationsView;

    open spec fn view(&self) -> AllConfigurationsView {
        AllConfigurationsView {
            file_categories: self.file_categories.deep_view(),
            file_filter_rules: self.file_filter_rules.deep_view(),
            file_extension_maps: self.file_extension_maps.deep_view(),
            project_recognition_rules: self.project_recognition_rules.deep_view(),
            monitored_folders: self.monitored_folders.deep_view(),
            full_disk_access: self.full_disk_access,
        }
    }
}

impl DeepView for AllConfigurations {
    type V = AllConfigurationsView;

    open spec fn deep_view(&self) -> AllConfigurationsView {
        self.view()
    }
}

/// A copy of a list of directories.
pub fn clone_directories(list: &Vec<MonitoredDirectory>) -> (r: Vec<MonitoredDirectory>)
    ensures
        r.deep_view() == list.deep_view(),
{
    let mut r: Vec<MonitoredDirectory> = Vec::new();
    let mut i: usize = 0;
    while i < list.len()
        invariant
            i <= list.len(),
            r.deep_view() == list.deep_view().take(i as int),
        decreases list.len() - i,
    {
        let ghost before = r.deep_view();
        r.push(list[i].clone());
        assert(r.deep_view() =~= before.push(list.deep_view()[i as int]));
        assert(list.deep_view().take(i + 1) =~= list.deep_view().take(i as int).push(
            list.deep_view()[i as int],
        ));
        i += 1;
    }
    assert(list.deep_view().take(list.len() as int) =~= list.deep_view());
    r
}

impl Clone for AllConfigurations {
    fn clone(&self) -> (r: Self)
        ensures
            r@ == self@,
    {
        let mut file_categories: Vec<FileCategoryRust> = Vec::new();
        let mut i: usize = 0;
        while i < self.file_categories.len()
            invariant
                i <= self.file_categories.len(),
                file_categories.deep_view() == self.file_categories.deep_view().take(i as int),
            decreases self.file_categories.len() - i,
        {
            let ghost before = file_categories.deep_view();
            file_categories.push(self.file_categories[i].clone());
            assert(file_categories.deep_view() =~= before.push(self.file_categories.deep_view()[i as int]));
            assert(self.file_categories.deep_view().take(i + 1) =~= self.file_categories.deep_view().take(i as int).push(
                self.file_categories.deep_view()[i as int],
            ));
            i += 1;
        }
        assert(file_categories.deep_view() =~= self.file_categories.deep_view());
        let mut file_filter_rules: Vec<FileFilterRuleRust> = Vec::new();
        let mut i: usize = 0;
        while i < self.file_filter_rules.len()
            invariant
                i <= self.file_filter_rules.len(),
                file_filter_rules.deep_view() == self.file_filter_rules.deep_view().take(i as int),
            decreases self.file_filter_rules.len() - i,
        {
            let ghost before = file_filter_rules.deep_view();
            file_filter_rules.push(self.file_filter_rules[i].clone());
            assert(file_filter_rules.deep_view() =~= before.push(self.file_filter_rules.deep_view()[i as int]));
            assert(self.file_filter_rules.deep_view().take(i + 1) =~= self.file_filter_rules.deep_view().take(i as int).push(
                self.file_filter_rules.deep_view()[i as int],
            ));
            i += 1;
        }
        assert(file_filter_rules.deep_view() =~= self.file_filter_rules.deep_view());
        let mut file_extension_maps: Vec<FileExtensionMapRust> = Vec::new();
        let mut i: usize = 0;
        while i < self.file_extension_maps.len()
            invariant
                i <= self.file_extension_maps.len(),
                file_extension_maps.deep_view() == self.file_extension_maps.deep_view().take(
                    i as int,
                ),
            decreases self.file_extension_maps.len() - i,
        {
            let ghost before = file_extension_maps.deep_view();
            file_extension_maps.push(self.file_extension_maps[i].clone());
            assert(file_extension_maps.deep_view() =~= before.push(self.file_extension_maps.deep_view()[i as int]));
            assert(self.file_extension_maps.deep_view().take(i + 1) =~= self.file_extension_maps.deep_view().take(i as int).push(
                self.file_extension_maps.deep_view()[i as int],
            ));
            i += 1;
        }
        assert(file_extension_maps.deep_view() =~= self.file_extension_maps.deep_view());
        let mut project_recognition_rules: Vec<ProjectRecognitionRuleRust> = Vec::new();
        let mut i: usize = 0;
        while i < self.project_recognition_rules.len()
            invariant
                i <= self.project_recognition_rules.len(),
                project_recognition_rules.deep_view()
                    == self.project_recognition_rules.deep_view().take(i as int),
            decreases self.project_recognition_rules.len() - i,
        {
            let ghost before = project_recognition_rules.deep_view();
            project_recognition_rules.push(self.project_recognition_rules[i].clone());
            assert(project_recognition_rules.deep_view() =~= before.push(self.project_recognition_rules.deep_view()[i as int]));
            assert(self.project_recognition_rules.deep_view().take(i + 1) =~= self.project_recognition_rules.deep_view().take(i as int).push(
                self.project_recognition_rules.deep_view()[i as int],
            ));
            i += 1;
        }
        assert(project_recognition_rules.deep_view()
            =~= self.project_recognition_rules.deep_view());
        AllConfigurations {
            file_categories,
            file_filter_rules,
            file_extension_maps,
            project_recognition_rules,
            monitored_folders: clone_directories(&self.monitored_folders),
            full_disk_access: self.full_disk_access,
        }
    }
}

/// A directory is watched if it is not blacklisted and is authorized, or if
/// the agent may read the whole disk.
pub open spec fn watchable(d: MonitoredDirectoryView, full_disk_access: bool) -> bool {
    !d.is_blacklist && (full_disk_access || d.auth_status == DirectoryAuthStatus::Authorized)
}

/// The directories of `folders` that are watched, in their order.
pub open spec fn watch_set(folders: Seq<MonitoredDirectoryView>, full_disk_access: bool) -> Seq<
    MonitoredDirectoryView,
> {
    folders.filter(|d: MonitoredDirectoryView| watchable(d, full_disk_access))
}

/// The directories of `folders` that are blacklisted, in their order.
pub open spec fn blacklist_set(folders: Seq<MonitoredDirectoryView>) -> Seq<
    MonitoredDirectoryView,
> {
    folders.filter(|d: MonitoredDirectoryView| d.is_blacklist)
}

/// Whether `dir` is to be watched.
pub fn is_watchable(dir: &MonitoredDirectory, full_disk_access: bool) -> (r: bool)
    ensures
        r == watchable(dir@, full_disk_access),
{
    !dir.is_blacklist && (full_disk_access || dir.auth_status == DirectoryAuthStatus::Authorized)
}

/// The directories of `folders` that are to be watched, in their order.
pub fn select_watched(folders: &Vec<MonitoredDirectory>, full_disk_access: bool) -> (r: Vec<
    MonitoredDirectory,
>)
    ensures
        r.deep_view() == watch_set(folders.deep_view(), full_disk_access),
{
    let ghost all = folders.deep_view();
    let ghost pred = |d: MonitoredDirectoryView| watchable(d, full_disk_access);
    let mut r: Vec<MonitoredDirectory> = Vec::new();
    let mut i: usize = 0;
    proof {
        lemma_filter_empty(all.take(0), pred);
        assert(r.deep_view() =~= all.take(0).filter(pred));
    }
    while i < folders.len()
        invariant
            i <= folders.len(),
            all == folders.deep_view(),
            pred == |d: MonitoredDirectoryView| watchable(d, full_disk_access),
            r.deep_view() == all.take(i as int).filter(pred),
        decreases folders.len() - i,
    {
        let ghost before = r.deep_view();
        proof {
            lemma_filter_step(all, pred, i as int);
        }
        if is_watchable(&folders[i], full_disk_access) {
            r.push(folders[i].clone());
            assert(r.deep_view() =~= before.push(all[i as int]));
        }
        i += 1;
    }
    assert(all.take(folders.len() as int) =~= all);
    r
}

/// The directories of `folders` that are blacklisted, in their order.
pub fn select_blacklisted(folders: &Vec<MonitoredDirectory>) -> (r: Vec<MonitoredDirectory>)
    ensures
        r.deep_view() == blacklist_set(folders.deep_view()),
{
    let ghost all = folders.deep_view();
    let ghost pred = |d: MonitoredDirectoryView| d.is_blacklist;
    let mut r: Vec<MonitoredDirectory> = Vec::new();
    let mut i: usize = 0;
    proof {
        lemma_filter_empty(all.take(0), pred);
        assert(r.deep_view() =~= all.take(0).filter(pred));
    }
    while i < folders.len()
        invariant
            i <= folders.len(),
            all == folders.deep_view(),
            pred == |d: MonitoredDirectoryView| d.is_blacklist,
            r.deep_view() == all.take(i as int).filter(pred),
        decreases folders.len() - i,
    {
        let ghost before = r.deep_view();
        proof {
            lemma_filter_step(all, pred, i as int);
        }
        if folders[i].is_blacklist {
            r.push(folders[i].clone());
            assert(r.deep_view() =~= before.push(all[i as int]));
        }
        i += 1;
    }
    assert(all.take(folders.len() as int) =~= all);
    r
}

/// One of `maps` is for the extension `ext`, case aside.
pub open spec fn whitelisted(maps: Seq<FileExtensionMapView>, ext: Seq<char>) -> bool {
    exists|i: int|
        0 <= i < maps.len() && lowercase((#[trigger] maps[i]).extension) == lowercase(ext)
}

/// A file with the extension `ext` passes the whitelist of `maps`: there are
/// no maps at all, or the file has an extension and one of the maps is for
/// it.
pub open spec fn passes_whitelist(maps: Seq<FileExtensionMapView>, ext: Option<Seq<char>>) -> bool {
    maps.len() == 0 || (ext.is_some() && whitelisted(maps, ext.unwrap()))
}

/// Whether a file with the extension `ext` passes the whitelist of `maps`.
pub fn extension_allowed(maps: &Vec<FileExtensionMapRust>, ext: &Option<String>) -> (r: bool)
    ensures
        r == passes_whitelist(maps.deep_view(), ext.deep_view()),
{
    if maps.len() == 0 {
        return true;
    }
    match ext.as_ref() {
        None => false,
        Some(e) => {
            let wanted = to_lowercase(e.as_str());
            let ghost list = maps.deep_view();
            let mut i: usize = 0;
            while i < maps.len()
                invariant
                    i <= maps.len(),
                    list == maps.deep_view(),
                    wanted@ == lowercase(e@),
                    ext.deep_view() == Some(e@),
                    forall|k: int| 0 <= k < i ==> lowercase((#[trigger] list[k]).extension) != lowercase(e@),
                decreases maps.len() - i,
            {
                assert(list[i as int] == maps[i as int]@);
                let have = to_lowercase(maps[i].extension.as_str());
                if have == wanted {
                    return true;
                }
                i += 1;
            }
            false
        },
    }
}

} // verus!
