//! Listing files by age or by kind: the tests that decide whether one entry
//! of a walk belongs to the listing.

use vstd::prelude::*;
use crate::bundle::{
    builtin_bundle_extensions, builtin_suffixes, bundle_interior_markers, find_marker,
    inside_bundle, interior_markers, is_enclosing_bundle, names_bundle, path_names_bundle,
};
use crate::clock::unix_time_millis;
use crate::config::{whitelisted, FileExtensionMapRust, FileExtensionMapView};
use crate::metadata::{bundle_manifest, has_bundle_manifest, PathProbe, PathProbeView};
use crate::paths::{
    components, extension, file_name, find_file_name, hidden_path, is_component, is_hidden_path,
};
use crate::text::{chars_of, lowercase, to_lowercase};

verus! {

/// One file of a listing.
#[derive(Debug)]
pub struct FileInfo {
    pub file_path: String,
    pub file_name: String,
    pub file_size: u64,
    pub extension: Option<String>,
    pub created_time: Option<String>,
    pub modified_time: String,
    pub category_id: Option<i32>,
}

/// How far back a listing by age reaches.
#[derive(Debug, Clone, Copy, PartialEq, Eq, Structural)]
pub enum TimeRange {
    Today,
    Last7Days,
    Last30Days,
}

/// The kind of file that a listing by kind asks for.
#[derive(Debug, Clone, Copy, PartialEq, Eq, Structural)]
pub enum FileType {
    Image,
    AudioVideo,
    Archive,
    Document,
    All,
}

/// Seconds in a day.
pub const SECONDS_PER_DAY: u64 = 86400;

/// How many seconds a time range reaches back.
pub open spec fn range_seconds(range: TimeRange) -> int {
    match range {
        TimeRange::Today => SECONDS_PER_DAY as int,
        TimeRange::Last7Days => 7 * SECONDS_PER_DAY,
        TimeRange::Last30Days => 30 * SECONDS_PER_DAY,
    }
}

/// A file modified at `modified_secs` lies in `range` at the time `now_ms`:
/// it is no older than the range reaches back. A time beyond the signed
/// 64-bit seconds is in no range.
pub open spec fn in_time_range(modified_secs: u64, range: TimeRange, now_ms: u64) -> bool {
    modified_secs <= i64::MAX && modified_secs * 1000 >= now_ms - range_seconds(range) * 1000
}

/// The categories that a file type stands for; `All` stands for none in
/// particular.
pub open spec fn category_ids(file_type: FileType) -> Seq<i32> {
    match file_type {
        FileType::Image => seq![2i32],
        FileType::AudioVideo => seq![3i32],
        FileType::Archive => seq![4i32],
        FileType::Document => seq![1i32],
        FileType::All => seq![],
    }
}

/// The map `m` assigns the extension `ext` to one of the categories of
/// `file_type`, case aside.
pub open spec fn map_assigns(m: FileExtensionMapView, ext: Seq<char>, file_type: FileType) -> bool {
    lowercase(m.extension) == lowercase(ext) && category_ids(file_type).contains(m.category_id)
}

/// A file with the extension `ext` is of the type `file_type`: every file is
/// of type `All`; of another type are the files whose extension some map
/// assigns to a category of that type.
pub open spec fn file_of_type(
    ext: Option<Seq<char>>,
    file_type: FileType,
    maps: Seq<FileExtensionMapView>,
) -> bool {
    file_type == FileType::All || (ext.is_some() && exists|i: int|
        0 <= i < maps.len() && map_assigns(#[trigger] maps[i], ext.unwrap(), file_type))
}

/// The extension of `file_path` in lower case.
pub fn get_file_extension(file_path: &str) -> (r: Option<String>)
    ensures
        r.deep_view() == crate::paths::extension(file_path@),
{
    crate::paths::get_file_extension(file_path)
}

/// Whether `path` is hidden: whether one of its components starts with a dot
/// and is neither `.` nor `..`.
pub fn is_hidden_file(path: &str) -> (r: bool)
    ensures
        r == hidden_path(path@),
{
    let p = chars_of(path);
    is_hidden_path(p.as_slice())
}

/// Whether `path` is a bundle: whether one of its components has a bundle
/// suffix, or the directory holds the manifest of a bundle.
pub fn is_macos_bundle_folder(path: &str, probe: &PathProbe) -> (r: bool)
    ensures
        r == (names_bundle(path@, builtin_suffixes()) || bundle_manifest(probe@)),
{
    let suffixes = builtin_bundle_extensions();
    path_names_bundle(path, &suffixes) || has_bundle_manifest(probe)
}

/// Every marker of the interior of a bundle holds at least its separator.
pub proof fn lemma_markers_not_empty()
    ensures
        forall|n: int| 0 <= n < interior_markers().len() ==> (#[trigger] interior_markers()[n]).len() > 0,
{
    reveal_strlit(".app/");
    reveal_strlit(".bundle/");
    reveal_strlit(".framework/");
    reveal_strlit(".fcpbundle/");
    reveal_strlit(".photoslibrary/");
    reveal_strlit(".imovielibrary/");
    reveal_strlit(".tvlibrary/");
    reveal_strlit(".theater/");
}

/// The bundle that `path` leads into, where it leads into one: `path` up to
/// the end of the bundle's name.
pub fn is_inside_macos_bundle(path: &str) -> (r: Option<String>)
    ensures
        match r {
            Some(root) => is_enclosing_bundle(path@, interior_markers(), root@),
            None => !inside_bundle(path@),
        },
{
    let p = chars_of(path);
    let total = p.len();
    let markers = bundle_interior_markers();
    match find_marker(p.as_slice(), &markers) {
        Some((n, i, len)) => {
            proof {
                lemma_markers_not_empty();
                assert(interior_markers()[n as int].len() > 0);
                assert(crate::text::occurs_at(p@, interior_markers()[n as int], i as int));
                assert(len == interior_markers()[n as int].len());
                assert(i + len <= total);
            }
            let root = path.substring_char(0, i + len - 1).to_owned();
            Some(root)
        },
        None => None,
    }
}

/// The categories that `file_type` stands for.
pub fn get_category_ids_for_file_type(file_type: &FileType) -> (r: Vec<i32>)
    ensures
        r@ == category_ids(*file_type),
{
    let mut r: Vec<i32> = Vec::new();
    match file_type {
        FileType::Image => {
            r.push(2);
        },
        FileType::AudioVideo => {
            r.push(3);
        },
        FileType::Archive => {
            r.push(4);
        },
        FileType::Document => {
            r.push(1);
        },
        FileType::All => {},
    }
    assert(r@ =~= category_ids(*file_type));
    r
}

/// Whether `id` is among `ids`.
pub fn holds_id(ids: &Vec<i32>, id: i32) -> (r: bool)
    ensures
        r == ids@.contains(id),
{
    let mut i: usize = 0;
    while i < ids.len()
        invariant
            i <= ids.len(),
            forall|k: int| 0 <= k < i ==> ids@[k] != id,
        decreases ids.len() - i,
    {
        if ids[i] == id {
            return true;
        }
        i += 1;
    }
    false
}

/// Whether a file with the extension `extension` is of the type `file_type`
/// under the extension maps `extension_maps`.
pub fn is_file_of_type(
    extension: &Option<String>,
    file_type: &FileType,
    extension_maps: &Vec<FileExtensionMapRust>,
) -> (r: bool)
    ensures
        r == file_of_type(extension.deep_view(), *file_type, extension_maps.deep_view()),
{
    if *file_type == FileType::All {
        return true;
    }
    match extension.as_ref() {
        None => false,
        Some(ext) => {
            let wanted = to_lowercase(ext.as_str());
            let ids = get_category_ids_for_file_type(file_type);
            let ghost maps = extension_maps.deep_view();
            let mut i: usize = 0;
            while i < extension_maps.len()
                invariant
                    i <= extension_maps.len(),
                    maps == extension_maps.deep_view(),
                    wanted@ == lowercase(ext@),
                    extension.deep_view() == Some(ext@),
                    ids@ == category_ids(*file_type),
                    forall|k: int| 0 <= k < i ==> !map_assigns(#[trigger] maps[k], ext@, *file_type),
                decreases extension_maps.len() - i,
            {
                let map = &extension_maps[i];
                assert(maps[i as int] == map@);
                let lowered = to_lowercase(map.extension.as_str());
                if lowered == wanted && holds_id(&ids, map.category_id) {
                    assert(map_assigns(maps[i as int], ext@, *file_type));
                    return true;
                }
                i += 1;
            }
            false
        },
    }
}

/// How many seconds `range` reaches back.
pub fn range_in_seconds(range: &TimeRange) -> (r: u64)
    ensures
        r == range_seconds(*range),
{
    match range {
        TimeRange::Today => SECONDS_PER_DAY,
        TimeRange::Last7Days => 7 * SECONDS_PER_DAY,
        TimeRange::Last30Days => 30 * SECONDS_PER_DAY,
    }
}

/// Whether a file modified at `modified_time_secs` lies in `time_range` at
/// the time `now_ms`, in milliseconds since the epoch.
pub fn is_file_in_time_range_at(modified_time_secs: u64, time_range: &TimeRange, now_ms: u64) -> (r:
    bool)
    ensures
        r == in_time_range(modified_time_secs, *time_range, now_ms),
{
    if modified_time_secs > 0x7fff_ffff_ffff_ffff {
        return false;
    }
    let reach: u128 = range_in_seconds(time_range) as u128 * 1000;
    let modified: u128 = modified_time_secs as u128 * 1000;
    modified + reach >= now_ms as u128
}

/// Whether a file modified at `modified_time_secs` lies in `time_range` now.
/// The clock is read once; the answer is that of
/// [`is_file_in_time_range_at`] for what it showed.
pub fn is_file_in_time_range(modified_time_secs: u64, time_range: &TimeRange) -> (r: bool)
    ensures
        exists|now_ms: u64| r == in_time_range(modified_time_secs, *time_range, now_ms),
{
    let now_ms = unix_time_millis();
    let r = is_file_in_time_range_at(modified_time_secs, time_range, now_ms);
    assert(r == in_time_range(modified_time_secs, *time_range, now_ms));
    r
}

/// How many files a listing holds at most.
pub const LISTING_LIMIT: usize = 500;

/// Why a listing cannot be made.
#[derive(Debug, Clone, Copy, PartialEq, Eq, Structural)]
pub enum ListingError {
    /// The configuration holds no extension maps.
    NoExtensionMaps,
}

/// What a listing makes of one entry of the walk.
#[derive(Debug, Clone, Copy, PartialEq, Eq, Structural)]
pub enum ListingVerdict {
    /// A component of the path is hidden.
    Hidden,
    /// The path names a bundle, or the directory holds a bundle's manifest.
    Bundle,
    /// The path leads into a bundle.
    InsideBundle,
    /// A component of the path is a cache directory.
    CacheDirectory,
    /// The entry is no regular file.
    NotAFile,
    /// The extension is missing or not on the whitelist.
    ExtensionFiltered,
    /// The file is not of the type asked for.
    TypeMismatch,
    /// The file belongs to the listing if its age fits.
    Candidate,
}

/// What a listing has counted.
#[derive(Debug, Clone, Copy, PartialEq, Eq, Structural)]
pub struct ScanStats {
    pub total_discovered: u64,
    pub hidden_filtered: u64,
    pub extension_filtered: u64,
    pub bundle_filtered: u64,
    pub total_included: u64,
}

/// The name of a cache directory, in whatever case its letters stand.
pub open spec fn cache_name(c: Seq<char>) -> bool {
    &&& c.len() == 5
    &&& (c[0] == 'c' || c[0] == 'C')
    &&& (c[1] == 'a' || c[1] == 'A')
    &&& (c[2] == 'c' || c[2] == 'C')
    &&& (c[3] == 'h' || c[3] == 'H')
    &&& (c[4] == 'e' || c[4] == 'E')
}

/// Some component of `p` is the name of a cache directory.
pub open spec fn through_cache(p: Seq<char>) -> bool {
    exists|a: int, b: int| is_component(p, a, b) && cache_name(p.subrange(a, b))
}

/// What a listing makes of the entry `path`. The tests are made in this
/// order. A file without extension passes only where all types are asked
/// for.
pub open spec fn listing_verdict(
    path: Seq<char>,
    probe: PathProbeView,
    maps: Seq<FileExtensionMapView>,
    file_type: Option<FileType>,
) -> ListingVerdict {
    if hidden_path(path) {
        ListingVerdict::Hidden
    } else if names_bundle(path, builtin_suffixes()) || bundle_manifest(probe) {
        ListingVerdict::Bundle
    } else if inside_bundle(path) {
        ListingVerdict::InsideBundle
    } else if through_cache(path) {
        ListingVerdict::CacheDirectory
    } else if !probe.is_file {
        ListingVerdict::NotAFile
    } else if match extension(path) {
        Some(e) => !whitelisted(maps, e),
        None => file_type != Some(FileType::All),
    } {
        ListingVerdict::ExtensionFiltered
    } else if file_type.is_some() && !file_of_type(extension(path), file_type.unwrap(), maps) {
        ListingVerdict::TypeMismatch
    } else {
        ListingVerdict::Candidate
    }
}

/// The counters of a listing after an entry was discovered and `verdict`
/// was found for it.
pub open spec fn discovered(stats: ScanStats, verdict: ListingVerdict) -> ScanStats {
    let seen = ScanStats {
        total_discovered: crate::batch::one_more(stats.total_discovered),
        ..stats
    };
    match verdict {
        ListingVerdict::Hidden => ScanStats {
            hidden_filtered: crate::batch::one_more(stats.hidden_filtered),
            ..seen
        },
        ListingVerdict::Bundle | ListingVerdict::InsideBundle => ScanStats {
            bundle_filtered: crate::batch::one_more(stats.bundle_filtered),
            ..seen
        },
        ListingVerdict::ExtensionFiltered => ScanStats {
            extension_filtered: crate::batch::one_more(stats.extension_filtered),
            ..seen
        },
        _ => seen,
    }
}

/// `i` is the first of `maps` for the extension `ext`, case aside.
pub open spec fn is_first_for(maps: Seq<FileExtensionMapView>, ext: Seq<char>, i: int) -> bool {
    &&& 0 <= i < maps.len()
    &&& lowercase(maps[i].extension) == lowercase(ext)
    &&& forall|j: int| 0 <= j < i ==> lowercase((#[trigger] maps[j]).extension) != lowercase(ext)
}

/// The category of the first of `maps` for the extension `ext`, case aside.
pub open spec fn category_for(maps: Seq<FileExtensionMapView>, ext: Option<Seq<char>>) -> Option<
    i32,
> {
    if ext.is_some() && exists|i: int| is_first_for(maps, ext.unwrap(), i) {
        Some(maps[choose|i: int| is_first_for(maps, ext.unwrap(), i)].category_id)
    } else {
        None
    }
}

/// Whether the component `p[a..b]` is the name of a cache directory.
pub fn component_is_cache(p: &[char], a: usize, b: usize) -> (r: bool)
    requires
        a <= b <= p.len(),
    ensures
        r == cache_name(p@.subrange(a as int, b as int)),
{
    if b - a != 5 {
        return false;
    }
    proof {
        let c = p@.subrange(a as int, b as int);
        assert(c[0] == p@[a as int]);
        assert(c[1] == p@[a + 1]);
        assert(c[2] == p@[a + 2]);
        assert(c[3] == p@[a + 3]);
        assert(c[4] == p@[a + 4]);
    }
    (p[a] == 'c' || p[a] == 'C') && (p[a + 1] == 'a' || p[a + 1] == 'A') && (p[a + 2] == 'c'
        || p[a + 2] == 'C') && (p[a + 3] == 'h' || p[a + 3] == 'H') && (p[a + 4] == 'e' || p[a + 4]
        == 'E')
}

/// Whether some component of `path` is the name of a cache directory.
pub fn passes_through_cache(path: &str) -> (r: bool)
    ensures
        r == through_cache(path@),
{
    let p = chars_of(path);
    let v = components(p.as_slice());
    let mut n: usize = 0;
    while n < v.len()
        invariant
            n <= v.len(),
            p@ == path@,
            forall|i: int| 0 <= i < v.len() ==> is_component(p@, (#[trigger] v[i]).0 as int, v[i].1 as int),
            forall|i: int| 0 <= i < n ==> !cache_name(p@.subrange((#[trigger] v[i]).0 as int, v[i].1 as int)),
        decreases v.len() - n,
    {
        let (a, b) = v[n];
        assert(is_component(p@, v[n as int].0 as int, v[n as int].1 as int));
        if component_is_cache(p.as_slice(), a, b) {
            assert(is_component(path@, a as int, b as int) && cache_name(
                path@.subrange(a as int, b as int),
            ));
            return true;
        }
        n += 1;
    }
    proof {
        assert forall|a: int, b: int| is_component(p@, a, b) implies !cache_name(
            p@.subrange(a, b),
        ) by {
            let i = choose|i: int| 0 <= i < v.len() && (#[trigger] v[i]).0 == a && v[i].1 == b;
            assert(!cache_name(p@.subrange(v[i].0 as int, v[i].1 as int)));
        }
    }
    false
}

/// Whether a listing can be made under `extension_maps`: it cannot without
/// any map.
pub fn begin_listing(extension_maps: &Vec<FileExtensionMapRust>) -> (r: Result<(), ListingError>)
    ensures
        r.is_ok() == (extension_maps.len() > 0),
        r.is_err() ==> r == Err::<(), ListingError>(ListingError::NoExtensionMaps),
{
    if extension_maps.len() == 0 {
        Err(ListingError::NoExtensionMaps)
    } else {
        Ok(())
    }
}

/// Whether a listing of `count` files is full.
pub fn listing_is_full(count: usize) -> (r: bool)
    ensures
        r == (count >= LISTING_LIMIT),
{
    count >= LISTING_LIMIT
}

/// What a listing makes of the entry `path`.
pub fn judge_entry(
    path: &str,
    probe: &PathProbe,
    extension_maps: &Vec<FileExtensionMapRust>,
    file_type: &Option<FileType>,
) -> (r: ListingVerdict)
    ensures
        r == listing_verdict(path@, probe@, extension_maps.deep_view(), *file_type),
{
    if is_hidden_file(path) {
        return ListingVerdict::Hidden;
    }
    if is_macos_bundle_folder(path, probe) {
        return ListingVerdict::Bundle;
    }
    if is_inside_macos_bundle(path).is_some() {
        return ListingVerdict::InsideBundle;
    }
    if passes_through_cache(path) {
        return ListingVerdict::CacheDirectory;
    }
    if !probe.is_file {
        return ListingVerdict::NotAFile;
    }
    let ext = get_file_extension(path);
    let filtered = match &ext {
        Some(_) => extension_maps.len() == 0 || !crate::config::extension_allowed(
            extension_maps,
            &ext,
        ),
        None => match file_type {
            Some(FileType::All) => false,
            _ => true,
        },
    };
    if filtered {
        return ListingVerdict::ExtensionFiltered;
    }
    match file_type {
        Some(wanted) => {
            if !is_file_of_type(&ext, wanted, extension_maps) {
                return ListingVerdict::TypeMismatch;
            }
        },
        None => {},
    }
    ListingVerdict::Candidate
}

impl ScanStats {
    /// Nothing counted yet.
    pub fn new() -> (r: ScanStats)
        ensures
            r == (ScanStats {
                total_discovered: 0,
                hidden_filtered: 0,
                extension_filtered: 0,
                bundle_filtered: 0,
                total_included: 0,
            }),
    {
        ScanStats {
            total_discovered: 0,
            hidden_filtered: 0,
            extension_filtered: 0,
            bundle_filtered: 0,
            total_included: 0,
        }
    }

    /// Counts an entry that was discovered and for which `verdict` was
    /// found.
    pub fn record(&mut self, verdict: ListingVerdict)
        ensures
            *final(self) == discovered(*old(self), verdict),
    {
        self.total_discovered = crate::batch::increment(self.total_discovered);
        match verdict {
            ListingVerdict::Hidden => {
                self.hidden_filtered = crate::batch::increment(self.hidden_filtered);
            },
            ListingVerdict::Bundle | ListingVerdict::InsideBundle => {
                self.bundle_filtered = crate::batch::increment(self.bundle_filtered);
            },
            ListingVerdict::ExtensionFiltered => {
                self.extension_filtered = crate::batch::increment(self.extension_filtered);
            },
            _ => {},
        }
    }

    /// Counts a file that joined the listing.
    pub fn record_included(&mut self)
        ensures
            *final(self) == (ScanStats {
                total_included: crate::batch::one_more(old(self).total_included),
                ..*old(self)
            }),
    {
        self.total_included = crate::batch::increment(self.total_included);
    }
}

/// The category of the first of `extension_maps` for the extension
/// `extension`, case aside.
pub fn find_category(extension: &Option<String>, extension_maps: &Vec<FileExtensionMapRust>) -> (r:
    Option<i32>)
    ensures
        r == category_for(extension_maps.deep_view(), extension.deep_view()),
{
    match extension.as_ref() {
        None => None,
        Some(ext) => {
            let wanted = to_lowercase(ext.as_str());
            let ghost maps = extension_maps.deep_view();
            let mut i: usize = 0;
            while i < extension_maps.len()
                invariant
                    i <= extension_maps.len(),
                    maps == extension_maps.deep_view(),
                    wanted@ == lowercase(ext@),
                    extension.deep_view() == Some(ext@),
                    forall|k: int| 0 <= k < i ==> lowercase((#[trigger] maps[k]).extension) != lowercase(ext@),
                decreases extension_maps.len() - i,
            {
                assert(maps[i as int] == extension_maps[i as int]@);
                let have = to_lowercase(extension_maps[i].extension.as_str());
                if have == wanted {
                    proof {
                        assert(is_first_for(maps, ext@, i as int));
                        let k = choose|k: int| is_first_for(maps, ext@, k);
                        assert(k == i);
                    }
                    return Some(extension_maps[i].category_id);
                }
                i += 1;
            }
            proof {
                if exists|k: int| is_first_for(maps, ext@, k) {
                    let k = choose|k: int| is_first_for(maps, ext@, k);
                    assert(lowercase(maps[k].extension) != lowercase(ext@));
                }
            }
            None
        },
    }
}

/// The entry of a listing for the file at `path`. The times come as the
/// shell has written them out.
pub fn make_file_info(
    path: &str,
    file_size: u64,
    created_time: Option<String>,
    modified_time: String,
    extension_maps: &Vec<FileExtensionMapRust>,
) -> (r: FileInfo)
    ensures
        r.file_path@ == path@,
        r.file_name@ == match file_name(path@) {
            Some(name) => name,
            None => Seq::<char>::empty(),
        },
        r.file_size == file_size,
        r.extension.deep_view() == extension(path@),
        r.created_time == created_time,
        r.modified_time == modified_time,
        r.category_id == category_for(extension_maps.deep_view(), extension(path@)),
{
    let p = chars_of(path);
    let name = match find_file_name(p.as_slice()) {
        Some((a, b)) => path.substring_char(a, b).to_owned(),
        None => String::new(),
    };
    let ext = get_file_extension(path);
    let category_id = find_category(&ext, extension_maps);
    FileInfo {
        file_path: path.to_owned(),
        file_name: name,
        file_size,
        extension: ext,
        created_time,
        modified_time,
        category_id,
    }
}

} // verus!
