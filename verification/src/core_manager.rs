use vstd::prelude::*;

use crate::text::{ends_with, has_suffix, str_equal};

verus! {

/// A downloadable file of a release.
#[derive(Debug)]
pub struct Asset {
    pub name: String,
    pub browser_download_url: String,
    pub size: u64,
}

/// A release of the proxy core.
#[derive(Debug)]
pub struct Release {
    pub tag_name: String,
    pub name: String,
    pub prerelease: bool,
    pub published_at: String,
    /// `alpha` for a pre-release, `stable` otherwise.
    pub version_type: String,
    pub assets: Vec<Asset>,
}

/// An installed version of the core.
#[derive(Debug)]
pub struct InstalledVersion {
    pub version: String,
    pub path: String,
}

/// The fields of an asset as the release listing gives them; each absent when the
/// listing has no such field of the expected kind.
#[derive(Debug)]
pub struct AssetFields {
    pub name: Option<String>,
    pub browser_download_url: Option<String>,
    pub size: Option<u64>,
}

/// The fields of a release as the release listing gives them.
#[derive(Debug)]
pub struct ReleaseFields {
    pub tag_name: Option<String>,
    pub name: Option<String>,
    pub prerelease: Option<bool>,
    pub published_at: Option<String>,
    pub assets: Vec<AssetFields>,
}

/// The text of a field, or the empty text when it is absent.
pub open spec fn text_or_empty(o: Option<String>) -> Seq<char> {
    match o {
        Some(s) => s@,
        None => seq![],
    }
}

fn owned_or_empty(o: Option<String>) -> (r: String)
    ensures
        r@ == text_or_empty(o),
{
    match o {
        Some(s) => s,
        None => String::new(),
    }
}

/// The asset that the fields describe: empty texts and size 0 for absent fields.
pub open spec fn asset_of(f: AssetFields, a: Asset) -> bool {
    &&& a.name@ == text_or_empty(f.name)
    &&& a.browser_download_url@ == text_or_empty(f.browser_download_url)
    &&& a.size == (match f.size {
        Some(n) => n,
        None => 0,
    })
}

/// The release that the fields describe: empty texts for absent fields, not a
/// pre-release unless it says so, `alpha` or `stable` by that, and its assets.
pub open spec fn release_of(f: ReleaseFields, r: Release) -> bool {
    let pre = match f.prerelease {
        Some(b) => b,
        None => false,
    };
    &&& r.tag_name@ == text_or_empty(f.tag_name)
    &&& r.name@ == text_or_empty(f.name)
    &&& r.prerelease == pre
    &&& r.published_at@ == text_or_empty(f.published_at)
    &&& r.version_type@ == (if pre {
        "alpha"@
    } else {
        "stable"@
    })
    &&& r.assets@.len() == f.assets@.len()
    &&& forall|i: int| 0 <= i < f.assets@.len() ==> asset_of(f.assets@[i], #[trigger] r.assets@[i])
}

/// A release keeps what the listing gives: its tag, name and publication date are
/// the listing's texts (empty only where the listing has none), it is a prerelease
/// exactly when the listing says so, of type `alpha` then and `stable` otherwise, and
/// its assets are the listing's, in order, each with the listing's name, address and
/// size (0 where none is given).
pub proof fn law_release_keeps_listing(f: ReleaseFields, r: Release)
    requires
        release_of(f, r),
    ensures
        f.tag_name matches Some(t) ==> r.tag_name@ == t@,
        f.tag_name is None ==> r.tag_name@.len() == 0,
        f.name matches Some(n) ==> r.name@ == n@,
        f.name is None ==> r.name@.len() == 0,
        f.published_at matches Some(p) ==> r.published_at@ == p@,
        f.published_at is None ==> r.published_at@.len() == 0,
        r.prerelease <==> f.prerelease == Some(true),
        r.prerelease ==> r.version_type@ == "alpha"@,
        !r.prerelease ==> r.version_type@ == "stable"@,
        r.assets@.len() == f.assets@.len(),
        forall|i: int|
            0 <= i < r.assets@.len() ==> {
                let a = #[trigger] r.assets@[i];
                let af = f.assets@[i];
                &&& (af.name matches Some(n) ==> a.name@ == n@)
                &&& (af.name is None ==> a.name@.len() == 0)
                &&& (af.browser_download_url matches Some(u) ==> a.browser_download_url@ == u@)
                &&& (af.browser_download_url is None ==> a.browser_download_url@.len() == 0)
                &&& (af.size matches Some(n) ==> a.size == n)
                &&& (af.size is None ==> a.size == 0)
            },
{
    assert forall|i: int| 0 <= i < r.assets@.len() implies {
        let a = #[trigger] r.assets@[i];
        let af = f.assets@[i];
        &&& (af.name matches Some(n) ==> a.name@ == n@)
        &&& (af.name is None ==> a.name@.len() == 0)
        &&& (af.browser_download_url matches Some(u) ==> a.browser_download_url@ == u@)
        &&& (af.browser_download_url is None ==> a.browser_download_url@.len() == 0)
        &&& (af.size matches Some(n) ==> a.size == n)
        &&& (af.size is None ==> a.size == 0)
    } by {
        assert(asset_of(f.assets@[i], r.assets@[i]));
    }
}

/// The asset that the fields of the listing describe.
pub fn asset_from_fields(f: AssetFields) -> (r: Asset)
    ensures
        asset_of(f, r),
{
    let size = match f.size {
        Some(n) => n,
        None => 0,
    };
    Asset {
        name: owned_or_empty(f.name),
        browser_download_url: owned_or_empty(f.browser_download_url),
        size,
    }
}

/// The release that the fields of the listing describe.
pub fn release_from_fields(f: ReleaseFields) -> (r: Release)
    ensures
        release_of(f, r),
{
    let prerelease = match f.prerelease {
        Some(b) => b,
        None => false,
    };
    let version_type = if prerelease {
        "alpha".to_owned()
    } else {
        "stable".to_owned()
    };
    let ghost all = f.assets@;
    let mut assets: Vec<Asset> = Vec::new();
    for x in it: f.assets.into_iter()
        invariant
            it.seq() == all,
            assets@.len() == it.index(),
            forall|i: int| 0 <= i < assets@.len() ==> asset_of(all[i], #[trigger] assets@[i]),
    {
        assets.push(asset_from_fields(x));
    }
    Release {
        tag_name: owned_or_empty(f.tag_name),
        name: owned_or_empty(f.name),
        prerelease,
        published_at: owned_or_empty(f.published_at),
        version_type,
        assets,
    }
}

/// How a downloaded core is packed.
#[derive(Debug, Clone, Copy, PartialEq, Eq, Structural)]
pub enum ArchiveKind {
    Zip,
    TarGz,
    Other,
}

/// How the download at `url` is packed, by the end of the URL.
pub fn archive_kind(url: &str) -> (r: ArchiveKind)
    ensures
        r == (if has_suffix(url@, ".zip"@) {
            ArchiveKind::Zip
        } else if has_suffix(url@, ".tar.gz"@) {
            ArchiveKind::TarGz
        } else {
            ArchiveKind::Other
        }),
{
    if ends_with(url, ".zip") {
        ArchiveKind::Zip
    } else if ends_with(url, ".tar.gz") {
        ArchiveKind::TarGz
    } else {
        ArchiveKind::Other
    }
}

/// The name of the file a download of `version` is written to.
pub fn temp_file_name(version: &str) -> (r: String)
    ensures
        r@ == version@ + ".tmp"@,
{
    let mut r = version.to_owned();
    r.append(".tmp");
    r
}

/// Whether `name` is the file name of the core's executable.
pub fn is_core_binary_name(name: &str) -> (r: bool)
    ensures
        r == (name@ == "sing-box"@ || name@ == "sing-box.exe"@),
{
    str_equal(name, "sing-box") || str_equal(name, "sing-box.exe")
}

/// An entry of a directory listing.
#[derive(Debug)]
pub struct DirEntryInfo {
    pub name: String,
    pub is_file: bool,
}

/// Whether a directory entry is the core's executable: a file named `sing-box` or
/// `sing-box.exe`.
pub open spec fn is_core_entry(e: DirEntryInfo) -> bool {
    e.is_file && (e.name@ == "sing-box"@ || e.name@ == "sing-box.exe"@)
}

/// Whether no entry of a listing is the core's executable.
pub open spec fn no_core_entry(entries: Seq<DirEntryInfo>) -> bool {
    forall|j: int| 0 <= j < entries.len() ==> !is_core_entry(#[trigger] entries[j])
}

/// Whether entry `i` of a listing is the first that is the core's executable.
pub open spec fn first_core_entry(entries: Seq<DirEntryInfo>, i: int) -> bool {
    &&& 0 <= i < entries.len()
    &&& is_core_entry(entries[i])
    &&& no_core_entry(entries.take(i))
}

/// The first entry that is the core's executable: a file of that name.
pub fn find_core_entry(entries: &Vec<DirEntryInfo>) -> (r: Option<usize>)
    ensures
        match r {
            Some(i) => first_core_entry(entries@, i as int),
            None => no_core_entry(entries@),
        },
{
    let mut i: usize = 0;
    while i < entries.len()
        invariant
            i <= entries@.len(),
            no_core_entry(entries@.take(i as int)),
        decreases entries.len() - i,
    {
        if entries[i].is_file && is_core_binary_name(entries[i].name.as_str()) {
            return Some(i);
        }
        assert(entries@.take(i as int + 1) =~= entries@.take(i as int).push(entries@[i as int]));
        i += 1;
    }
    assert(entries@.take(i as int) =~= entries@);
    None
}

/// Where the core's executable was found under a version's directory.
#[derive(Debug, PartialEq, Eq, Structural)]
pub enum CoreLocation {
    /// The entry at this index of the directory's own listing.
    Root(usize),
    /// The entry at the second index of the listing of the subdirectory at the first.
    Sub(usize, usize),
}

/// Finds the core's executable under a version's directory, given the directory's
/// listing `root` and the listings of its subdirectories in turn: the directory
/// itself is searched first, then each subdirectory, the first match winning.
pub fn locate_core(root: &Vec<DirEntryInfo>, subdirs: &Vec<Vec<DirEntryInfo>>) -> (r: Option<CoreLocation>)
    ensures
        match r {
            Some(CoreLocation::Root(i)) => first_core_entry(root@, i as int),
            Some(CoreLocation::Sub(k, j)) => {
                &&& no_core_entry(root@)
                &&& k < subdirs@.len()
                &&& forall|m: int| 0 <= m < k ==> no_core_entry(#[trigger] subdirs@[m]@)
                &&& first_core_entry(subdirs@[k as int]@, j as int)
            },
            None => no_core_entry(root@) && forall|m: int|
                0 <= m < subdirs@.len() ==> no_core_entry(#[trigger] subdirs@[m]@),
        },
{
    if let Some(i) = find_core_entry(root) {
        return Some(CoreLocation::Root(i));
    }
    let mut k: usize = 0;
    while k < subdirs.len()
        invariant
            k <= subdirs@.len(),
            no_core_entry(root@),
            forall|m: int| 0 <= m < k ==> no_core_entry(#[trigger] subdirs@[m]@),
        decreases subdirs.len() - k,
    {
        if let Some(j) = find_core_entry(&subdirs[k]) {
            return Some(CoreLocation::Sub(k, j));
        }
        k += 1;
    }
    None
}

/// Whether `version` asks for the bundled core: `bundled` or `default`.
pub fn is_bundled_version(version: &str) -> (r: bool)
    ensures
        r == (version@ == "bundled"@ || version@ == "default"@),
{
    str_equal(version, "bundled") || str_equal(version, "default")
}

/// The message of a switch to `version`.
pub fn switch_message(version: &str) -> (r: String)
    ensures
        r@ == "Switched to version "@ + version@,
{
    let mut r = "Switched to version ".to_owned();
    r.append(version);
    r
}

} // verus!
