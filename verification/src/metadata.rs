//! The record that describes one observed path, and what the file system
//! reports about that path.

use vstd::prelude::*;
use crate::bundle::{names_bundle, path_names_bundle};
use crate::paths::{
    extension, file_name, find_extension_dot, find_file_name, hidden_path, is_hidden_path,
};
use crate::text::{chars_of, to_lowercase};

verus! {

/// What the file system reports about one path. The agent's shell fills it
/// in; the rules of this crate only read it.
#[derive(Debug)]
pub struct PathProbe {
    /// The path can be reached.
    pub exists: bool,
    /// The path is a regular file.
    pub is_file: bool,
    /// The path is a directory.
    pub is_dir: bool,
    /// The length of the file in bytes.
    pub size: u64,
    /// When the entry was created, in seconds since the epoch, where known.
    pub created_secs: Option<u64>,
    /// When the entry was last modified, in seconds since the epoch, where
    /// known.
    pub modified_secs: Option<u64>,
    /// The host is one on which bundles occur, so that the layout of a
    /// directory counts.
    pub bundle_host: bool,
    /// The directory holds an entry `Contents` that is a directory.
    pub has_contents_dir: bool,
    /// The directory holds `Contents/Info.plist`.
    pub has_info_plist: bool,
    /// The directory holds `Contents/MacOS`.
    pub has_macos_dir: bool,
    /// The directory holds `Contents/Resources`.
    pub has_resources_dir: bool,
    /// How many entries of the directory have a name that starts with a dot.
    pub hidden_entries: u64,
    /// The path with links and relative parts resolved, where that succeeded.
    pub canonical_path: Option<String>,
}

/// The value of a [`PathProbe`].
pub struct PathProbeView {
    pub exists: bool,
    pub is_file: bool,
    pub is_dir: bool,
    pub size: u64,
    pub created_secs: Option<u64>,
    pub modified_secs: Option<u64>,
    pub bundle_host: bool,
    pub has_contents_dir: bool,
    pub has_info_plist: bool,
    pub has_macos_dir: bool,
    pub has_resources_dir: bool,
    pub hidden_entries: u64,
    pub canonical_path: Option<Seq<char>>,
}

impl View for PathProbe {
    type V = PathProbeView;

    open spec fn view(&self) -> PathProbeView {
        PathProbeView {
            exists: self.exists,
            is_file: self.is_file,
            is_dir: self.is_dir,
            size: self.size,
            created_secs: self.created_secs,
            modified_secs: self.modified_secs,
            bundle_host: self.bundle_host,
            has_contents_dir: self.has_contents_dir,
            has_info_plist: self.has_info_plist,
            has_macos_dir: self.has_macos_dir,
            has_resources_dir: self.has_resources_dir,
            hidden_entries: self.hidden_entries,
            canonical_path: self.canonical_path.deep_view(),
        }
    }
}

/// What is known of a path that cannot be reached: nothing.
pub open spec fn absent_probe() -> PathProbeView {
    PathProbeView {
        exists: false,
        is_file: false,
        is_dir: false,
        size: 0,
        created_secs: None,
        modified_secs: None,
        bundle_host: false,
        has_contents_dir: false,
        has_info_plist: false,
        has_macos_dir: false,
        has_resources_dir: false,
        hidden_entries: 0,
        canonical_path: None,
    }
}

impl PathProbe {
    /// The probe of a path that cannot be reached.
    pub fn absent() -> (r: PathProbe)
        ensures
            r@ == absent_probe(),
    {
        PathProbe {
            exists: false,
            is_file: false,
            is_dir: false,
            size: 0,
            created_secs: None,
            modified_secs: None,
            bundle_host: false,
            has_contents_dir: false,
            has_info_plist: false,
            has_macos_dir: false,
            has_resources_dir: false,
            hidden_entries: 0,
            canonical_path: None,
        }
    }
}

/// A directory laid out as a bundle: it holds `Contents`, and in it
/// `Info.plist`, `MacOS` or `Resources`. The layout counts only on a host
/// where bundles occur.
pub open spec fn bundle_layout(probe: PathProbeView) -> bool {
    probe.is_dir && probe.bundle_host && probe.has_contents_dir && (probe.has_info_plist
        || probe.has_macos_dir || probe.has_resources_dir)
}

/// A directory that holds `Contents/Info.plist`, on a host where bundles
/// occur.
pub open spec fn bundle_manifest(probe: PathProbeView) -> bool {
    probe.is_dir && probe.bundle_host && probe.has_info_plist
}

/// Whether the directory is laid out as a bundle.
pub fn has_bundle_layout(probe: &PathProbe) -> (r: bool)
    ensures
        r == bundle_layout(probe@),
{
    probe.is_dir && probe.bundle_host && probe.has_contents_dir && (probe.has_info_plist
        || probe.has_macos_dir || probe.has_resources_dir)
}

/// Whether the directory holds the manifest of a bundle.
pub fn has_bundle_manifest(probe: &PathProbe) -> (r: bool)
    ensures
        r == bundle_manifest(probe@),
{
    probe.is_dir && probe.bundle_host && probe.has_info_plist
}

/// The notes that classification leaves on a record.
#[derive(Debug)]
pub struct ExtraMetadata {
    /// The rule that excluded the record.
    pub excluded_by_rule_id: Option<i32>,
    /// The name of that rule.
    pub excluded_by_rule_name: Option<String>,
    /// The name of the category that the extension map assigned.
    pub file_type_from_ext_map: Option<String>,
    /// The extension of the file.
    pub extension: Option<String>,
    /// A bundle rule matched the name.
    pub is_macos_bundle: Option<bool>,
}

/// The value of an [`ExtraMetadata`].
pub struct ExtraMetadataView {
    pub excluded_by_rule_id: Option<i32>,
    pub excluded_by_rule_name: Option<Seq<char>>,
    pub file_type_from_ext_map: Option<Seq<char>>,
    pub extension: Option<Seq<char>>,
    pub is_macos_bundle: Option<bool>,
}

impl View for ExtraMetadata {
    type V = ExtraMetadataView;

    open spec fn view(&self) -> ExtraMetadataView {
        ExtraMetadataView {
            excluded_by_rule_id: self.excluded_by_rule_id,
            excluded_by_rule_name: self.excluded_by_rule_name.deep_view(),
            file_type_from_ext_map: self.file_type_from_ext_map.deep_view(),
            extension: self.extension.deep_view(),
            is_macos_bundle: self.is_macos_bundle,
        }
    }
}

impl DeepView for ExtraMetadata {
    type V = ExtraMetadataView;

    open spec fn deep_view(&self) -> ExtraMetadataView {
        self.view()
    }
}

impl Clone for ExtraMetadata {
    fn clone(&self) -> (r: Self)
        ensures
            r@ == self@,
    {
        ExtraMetadata {
            excluded_by_rule_id: self.excluded_by_rule_id,
            excluded_by_rule_name: self.excluded_by_rule_name.clone(),
            file_type_from_ext_map: self.file_type_from_ext_map.clone(),
            extension: self.extension.clone(),
            is_macos_bundle: self.is_macos_bundle,
        }
    }
}

/// Notes that say nothing.
pub open spec fn no_notes() -> ExtraMetadataView {
    ExtraMetadataView {
        excluded_by_rule_id: None,
        excluded_by_rule_name: None,
        file_type_from_ext_map: None,
        extension: None,
        is_macos_bundle: None,
    }
}

/// One record per observed file or directory.
#[derive(Debug)]
pub struct FileMetadata {
    pub file_path: String,
    pub file_name: String,
    pub extension: Option<String>,
    pub file_size: u64,
    pub created_time: u64,
    pub modified_time: u64,
    pub is_dir: bool,
    pub is_hidden: bool,
    pub hash_value: Option<String>,
    pub category_id: Option<i32>,
    pub tags: Option<Vec<String>>,
    pub initial_rule_matches: Option<Vec<String>>,
    pub extra_metadata: Option<ExtraMetadata>,
    pub is_os_bundle: Option<bool>,
}

/// The value of a [`FileMetadata`].
pub struct FileMetadataView {
    pub file_path: Seq<char>,
    pub file_name: Seq<char>,
    pub extension: Option<Seq<char>>,
    pub file_size: u64,
    pub created_time: u64,
    pub modified_time: u64,
    pub is_dir: bool,
    pub is_hidden: bool,
    pub hash_value: Option<Seq<char>>,
    pub category_id: Option<i32>,
    pub tags: Option<Seq<Seq<char>>>,
    pub initial_rule_matches: Option<Seq<Seq<char>>>,
    pub extra_metadata: Option<ExtraMetadataView>,
    pub is_os_bundle: Option<bool>,
}

impl View for FileMetadata {
    type V = FileMetadataView;

    open spec fn view(&self) -> FileMetadataView {
        FileMetadataView {
            file_path: self.file_path@,
            file_name: self.file_name@,
            extension: self.extension.deep_view(),
            file_size: self.file_size,
            created_time: self.created_time,
            modified_time: self.modified_time,
            is_dir: self.is_dir,
            is_hidden: self.is_hidden,
            hash_value: self.hash_value.deep_view(),
            category_id: self.category_id,
            tags: self.tags.deep_view(),
            initial_rule_matches: self.initial_rule_matches.deep_view(),
            extra_metadata: self.extra_metadata.deep_view(),
            is_os_bundle: self.is_os_bundle,
        }
    }
}

impl DeepView for FileMetadata {
    type V = FileMetadataView;

    open spec fn deep_view(&self) -> FileMetadataView {
        self.view()
    }
}

/// A copy of a list of strings.
pub fn clone_strings(list: &Vec<String>) -> (r: Vec<String>)
    ensures
        r.deep_view() == list.deep_view(),
{
    let mut r: Vec<String> = Vec::new();
    let mut i: usize = 0;
    while i < list.len()
        invariant
            i <= list.len(),
            r.deep_view() == list.deep_view().take(i as int),
        decreases list.len() - i,
    {
        let ghost before = r.deep_view();
        r.push(list[i].clone());
        assert(r.deep_view() =~= before.push(list.deep_view()[i as int]));
        assert(list.deep_view().take(i + 1) =~= list.deep_view().take(i as int).push(
            list.deep_view()[i as int],
        ));
        i += 1;
    }
    assert(list.deep_view().take(list.len() as int) =~= list.deep_view());
    r
}

impl Clone for FileMetadata {
    fn clone(&self) -> (r: Self)
        ensures
            r@ == self@,
    {
        let tags = match &self.tags {
            Some(list) => Some(clone_strings(list)),
            None => None,
        };
        let initial_rule_matches = match &self.initial_rule_matches {
            Some(list) => Some(clone_strings(list)),
            None => None,
        };
        let extra_metadata = match &self.extra_metadata {
            Some(notes) => Some(notes.clone()),
            None => None,
        };
        FileMetadata {
            file_path: self.file_path.clone(),
            file_name: self.file_name.clone(),
            extension: self.extension.clone(),
            file_size: self.file_size,
            created_time: self.created_time,
            modified_time: self.modified_time,
            is_dir: self.is_dir,
            is_hidden: self.is_hidden,
            hash_value: self.hash_value.clone(),
            category_id: self.category_id,
            tags,
            initial_rule_matches,
            extra_metadata,
            is_os_bundle: self.is_os_bundle,
        }
    }
}

/// The record of `path` before classification, from what the file system
/// reports. The record is flagged as a bundle if the path names one under
/// `suffixes` or the directory is laid out as one. A time that is not known
/// is taken to be `now_secs`. There is no record for a path that cannot be
/// reached or that has no file name.
pub open spec fn initial_metadata(
    path: Seq<char>,
    probe: PathProbeView,
    suffixes: Seq<Seq<char>>,
    now_secs: u64,
) -> Option<FileMetadataView> {
    if !probe.exists || file_name(path).is_none() {
        None
    } else {
        Some(
            FileMetadataView {
                file_path: path,
                file_name: file_name(path).unwrap(),
                extension: if probe.is_dir {
                    None
                } else {
                    extension(path)
                },
                file_size: if probe.is_dir {
                    0
                } else {
                    probe.size
                },
                created_time: match probe.created_secs {
                    Some(t) => t,
                    None => now_secs,
                },
                modified_time: match probe.modified_secs {
                    Some(t) => t,
                    None => now_secs,
                },
                is_dir: probe.is_dir,
                is_hidden: hidden_path(path),
                hash_value: None,
                category_id: None,
                tags: None,
                initial_rule_matches: None,
                extra_metadata: None,
                is_os_bundle: Some(names_bundle(path, suffixes) || bundle_layout(probe)),
            },
        )
    }
}

/// The record of `path` before classification, with `suffixes` as the
/// bundle suffixes in force.
pub fn get_file_metadata(
    path: &str,
    probe: &PathProbe,
    suffixes: &Vec<String>,
    now_secs: u64,
) -> (r: Option<FileMetadata>)
    ensures
        r.deep_view() == initial_metadata(path@, probe@, suffixes.deep_view(), now_secs),
{
    if !probe.exists {
        return None;
    }
    let p = chars_of(path);
    let (a, b) = match find_file_name(p.as_slice()) {
        Some(bounds) => bounds,
        None => {
            return None;
        },
    };
    let file_name = path.substring_char(a, b).to_owned();
    let extension = if probe.is_dir {
        None
    } else {
        match find_extension_dot(p.as_slice(), a, b) {
            Some(i) => Some(to_lowercase(path.substring_char(i + 1, b))),
            None => None,
        }
    };
    let is_bundle = path_names_bundle(path, suffixes) || has_bundle_layout(probe);
    Some(
        FileMetadata {
            file_path: path.to_owned(),
            file_name,
            extension,
            file_size: if probe.is_dir {
                0
            } else {
                probe.size
            },
            created_time: match probe.created_secs {
                Some(t) => t,
                None => now_secs,
            },
            modified_time: match probe.modified_secs {
                Some(t) => t,
                None => now_secs,
            },
            is_dir: probe.is_dir,
            is_hidden: is_hidden_path(p.as_slice()),
            hash_value: None,
            category_id: None,
            tags: None,
            initial_rule_matches: None,
            extra_metadata: None,
            is_os_bundle: Some(is_bundle),
        },
    )
}

} // verus!
