use vstd::prelude::*;

use crate::assoc::{lookup, lookup_ref};
use crate::digest::{hex_lower, is_v4_uuid_text, new_uuid_v4, sha1_digest, sha1_hex};
use crate::error::{AppError, AppResult, is_message, require_success};
use crate::metadata::resolve::{library_url, library_url_spec};
use crate::metadata::types::{
    Artifact, HostOs, Library, VersionJson, host_name, rules_allow, rules_allow_spec, rules_slice,
};
use crate::paths::{AppPaths, join_path, path_join};
use crate::text::{
    char_in, concat2, concat3, copy_str, eq_ignore_ascii_case, eq_ignore_ascii_case_spec, split_by,
};

verus! {

/// A file to download and where it goes.
#[derive(Debug, Clone)]
pub struct PlannedFile {
    pub url: String,
    pub dest: String,
    pub sha1: String,
    pub size: u64,
    pub label: String,
}

/// A planned file with its texts as character sequences.
pub struct PlannedView {
    pub url: Seq<char>,
    pub dest: Seq<char>,
    pub sha1: Seq<char>,
    pub size: u64,
    pub label: Seq<char>,
}

impl View for PlannedFile {
    type V = PlannedView;

    open spec fn view(&self) -> PlannedView {
        PlannedView {
            url: self.url@,
            dest: self.dest@,
            sha1: self.sha1@,
            size: self.size,
            label: self.label@,
        }
    }
}

pub open spec fn planned_views(s: Seq<PlannedFile>) -> Seq<PlannedView> {
    s.map_values(|p: PlannedFile| p@)
}

/// Progress of a download, as the interface shows it.
#[derive(Debug, Clone)]
pub struct DownloadProgress {
    pub phase: String,
    pub id: String,
    pub file: String,
    pub bytes_done: u64,
    pub bytes_total: u64,
    pub files_done: u64,
    pub files_total: u64,
}

// ---------------------------------------------------------------------------
// Libraries
// ---------------------------------------------------------------------------

/// Where a library artifact goes, or the error for one without a path.
pub open spec fn artifact_plan(paths: AppPaths, a: Artifact) -> Result<PlannedView, Seq<char>> {
    match a.path {
        None => Err("Library artifact missing path: "@ + a.url@),
        Some(p) => Ok(
            PlannedView {
                url: a.url@,
                dest: path_join(paths.libraries_dir_spec(), p@),
                sha1: a.sha1@,
                size: a.size,
                label: p@,
            },
        ),
    }
}

/// The plan of a library artifact.
pub fn push_artifact(paths: &AppPaths, artifact: &Artifact) -> (r: AppResult<PlannedFile>)
    ensures
        match artifact_plan(*paths, *artifact) {
            Ok(v) => r matches Ok(p) && p@ == v,
            Err(t) => r matches Err(e) && is_message(e, t),
        },
{
    let rel = match &artifact.path {
        Some(p) => p.clone(),
        None => {
            return Err(
                AppError::Message(concat2("Library artifact missing path: ", artifact.url.as_str())),
            );
        },
    };
    let dir = paths.libraries_dir();
    let dest = join_path(dir.as_str(), rel.as_str());
    Ok(
        PlannedFile {
            url: artifact.url.clone(),
            dest,
            sha1: artifact.sha1.clone(),
            size: artifact.size,
            label: rel,
        },
    )
}

/// The classifier of the natives of `lib` for `host`, if it has any.
pub open spec fn native_classifier_spec(lib: Library, host: HostOs) -> Option<String> {
    match lib.natives {
        Some(n) => lookup(n@, host_name(host)),
        None => None,
    }
}

/// The classifier of the natives of `lib` for `host`.
pub fn native_classifier(lib: &Library, host: HostOs) -> (r: Option<String>)
    ensures
        match native_classifier_spec(*lib, host) {
            Some(c) => r matches Some(x) && x@ == c@,
            None => r is None,
        },
{
    match &lib.natives {
        Some(n) => match lookup_ref(n, host.rule_name()) {
            Some(c) => Some(c.clone()),
            None => None,
        },
        None => None,
    }
}

/// The artifact of the natives of `lib` for `host`, if it has one.
pub open spec fn native_artifact(lib: Library, host: HostOs) -> Option<Artifact> {
    match native_classifier_spec(lib, host) {
        Some(key) => match lib.downloads {
            Some(d) => match d.classifiers {
                Some(c) => lookup(c@, key@),
                None => None,
            },
            None => None,
        },
        None => None,
    }
}

/// The download artifact of `lib`, if it has one.
pub open spec fn lib_artifact(lib: Library) -> Option<Artifact> {
    match lib.downloads {
        Some(d) => d.artifact,
        None => None,
    }
}

pub open spec fn rules_view(rules: Option<Vec<crate::metadata::types::Rule>>) -> Option<
    Seq<crate::metadata::types::Rule>,
> {
    match rules {
        Some(r) => Some(r@),
        None => None,
    }
}

/// What one library adds to a download plan on `host`: nothing when its
/// rules (with no features) refuse it; else its artifact, or the file that
/// its name and repository give, then its natives' artifact if it has one.
pub open spec fn lib_plan(paths: AppPaths, lib: Library, host: HostOs) -> Result<
    Seq<PlannedView>,
    Seq<char>,
> {
    if !rules_allow_spec(rules_view(lib.rules), Seq::empty(), host) {
        Ok(Seq::empty())
    } else {
        let main: Result<Seq<PlannedView>, Seq<char>> = match lib_artifact(lib) {
            Some(a) => match artifact_plan(paths, a) {
                Ok(p) => Ok(seq![p]),
                Err(t) => Err(t),
            },
            None => match library_url_spec(lib) {
                None => Err("Invalid maven coordinate: "@ + lib.name@),
                Some((rel, url)) => Ok(
                    seq![
                        PlannedView {
                            url,
                            dest: path_join(paths.libraries_dir_spec(), rel),
                            sha1: Seq::empty(),
                            size: 0,
                            label: rel,
                        },
                    ],
                ),
            },
        };
        match main {
            Err(t) => Err(t),
            Ok(m) => match native_artifact(lib, host) {
                None => Ok(m),
                Some(c) => match artifact_plan(paths, c) {
                    Ok(p) => Ok(m.push(p)),
                    Err(t) => Err(t),
                },
            },
        }
    }
}

/// The download plan of a list of libraries: each library's part in
/// order, or the first error.
pub open spec fn libs_plan(paths: AppPaths, libs: Seq<Library>, host: HostOs) -> Result<
    Seq<PlannedView>,
    Seq<char>,
>
    decreases libs.len(),
{
    if libs.len() == 0 {
        Ok(Seq::empty())
    } else {
        match libs_plan(paths, libs.drop_last(), host) {
            Err(t) => Err(t),
            Ok(p) => match lib_plan(paths, libs.last(), host) {
                Err(t) => Err(t),
                Ok(q) => Ok(p + q),
            },
        }
    }
}

fn plan_library(paths: &AppPaths, lib: &Library, host: HostOs, out: &mut Vec<PlannedFile>) -> (r: AppResult<()>)
    ensures
        match lib_plan(*paths, *lib, host) {
            Ok(q) => r is Ok && planned_views(final(out)@) == planned_views(old(out)@) + q,
            Err(t) => r matches Err(e) && is_message(e, t),
        },
{
    let no_features: Vec<(String, bool)> = Vec::new();
    assert(no_features@ =~= Seq::<(String, bool)>::empty());
    if !rules_allow(rules_slice(&lib.rules), &no_features, host) {
        assert(planned_views(out@) =~= planned_views(out@) + Seq::<PlannedView>::empty());
        return Ok(());
    }
    let ghost before = out@;
    let has_artifact = match &lib.downloads {
        Some(d) => d.artifact.is_some(),
        None => false,
    };
    if has_artifact {
        let a = match &lib.downloads {
            Some(d) => match &d.artifact {
                Some(a) => a,
                None => {
                    return Ok(());
                },
            },
            None => {
                return Ok(());
            },
        };
        let p = push_artifact(paths, a)?;
        out.push(p);
    } else {
        let (rel, url) = library_url(lib)?;
        let dir = paths.libraries_dir();
        let dest = join_path(dir.as_str(), rel.as_str());
        out.push(PlannedFile { url, dest, sha1: String::new(), size: 0, label: rel });
    }
    let ghost mid = out@;
    assert(planned_views(mid) =~= planned_views(before) + seq![mid.last()@]);
    if let Some(key) = native_classifier(lib, host) {
        if let Some(d) = &lib.downloads {
            if let Some(c) = &d.classifiers {
                if let Some(art) = lookup_ref(c, key.as_str()) {
                    let p = push_artifact(paths, art)?;
                    out.push(p);
                    assert(planned_views(out@) =~= planned_views(before) + seq![mid.last()@].push(
                        out@.last()@,
                    ));
                    return Ok(());
                }
            }
        }
    }
    Ok(())
}

proof fn lemma_libs_plan_err_prefix(paths: AppPaths, s: Seq<Library>, j: int, host: HostOs)
    requires
        0 <= j <= s.len(),
        libs_plan(paths, s.take(j), host) is Err,
    ensures
        libs_plan(paths, s, host) == libs_plan(paths, s.take(j), host),
    decreases s.len() - j,
{
    if j < s.len() {
        assert(s.take(j + 1).drop_last() =~= s.take(j));
        lemma_libs_plan_err_prefix(paths, s, j + 1, host);
    } else {
        assert(s.take(j) =~= s);
    }
}

/// The download plan of the libraries of `version` on `host`.
pub fn plan_libraries(paths: &AppPaths, version: &VersionJson, host: HostOs) -> (r: AppResult<
    Vec<PlannedFile>,
>)
    ensures
        match libs_plan(*paths, version.libraries@, host) {
            Ok(q) => r matches Ok(v) && planned_views(v@) == q,
            Err(t) => r matches Err(e) && is_message(e, t),
        },
{
    let mut out: Vec<PlannedFile> = Vec::new();
    let mut i: usize = 0;
    let libs = &version.libraries;
    assert(libs@.take(0) =~= Seq::<Library>::empty());
    assert(planned_views(out@) =~= Seq::<PlannedView>::empty());
    while i < libs.len()
        invariant
            i <= libs@.len(),
            libs@ == version.libraries@,
            libs_plan(*paths, libs@.take(i as int), host) matches Ok(q) && planned_views(out@)
                == q,
        decreases libs.len() - i,
    {
        assert(libs@.take(i + 1).drop_last() =~= libs@.take(i as int));
        assert(libs@.take(i + 1).last() == libs@[i as int]);
        match plan_library(paths, &libs[i], host, &mut out) {
            Err(e) => {
                proof {
                    lemma_libs_plan_err_prefix(*paths, libs@, i + 1, host);
                }
                return Err(e);
            },
            Ok(()) => {},
        }
        i += 1;
    }
    assert(libs@.take(libs@.len() as int) =~= libs@);
    Ok(out)
}


// ---------------------------------------------------------------------------
// Installing a game version
// ---------------------------------------------------------------------------

/// The files that installing a game version fetches before its assets: the
/// client jar, then its libraries; and the asset index, which is fetched
/// first of all.
#[derive(Debug)]
pub struct VanillaPlan {
    pub files: Vec<PlannedFile>,
    pub index: PlannedFile,
}

pub open spec fn client_plan(paths: AppPaths, version_id: Seq<char>, v: VersionJson) -> PlannedView {
    let c = v.downloads.unwrap().client;
    PlannedView {
        url: c.url@,
        dest: paths.version_jar_path_spec(version_id),
        sha1: c.sha1@,
        size: c.size,
        label: version_id + ".jar"@,
    }
}

pub open spec fn index_plan(paths: AppPaths, v: VersionJson) -> PlannedView {
    let a = v.asset_index.unwrap();
    PlannedView {
        url: a.url@,
        dest: path_join(path_join(paths.assets_dir_spec(), "indexes"@), a.id@ + ".json"@),
        sha1: a.sha1@,
        size: a.size,
        label: "asset-index-"@ + a.id@,
    }
}

/// The planned files whose destination is not `dest`.
pub open spec fn without_dest(s: Seq<PlannedView>, dest: Seq<char>) -> Seq<PlannedView>
    decreases s.len(),
{
    if s.len() == 0 {
        s
    } else if s.last().dest == dest {
        without_dest(s.drop_last(), dest)
    } else {
        without_dest(s.drop_last(), dest).push(s.last())
    }
}

/// The plan for installing `version` as `version_id` on `host`: an error
/// when it lacks client downloads or an asset index, or when a library
/// cannot be planned.
pub fn plan_vanilla(paths: &AppPaths, version_id: &str, version: &VersionJson, host: HostOs) -> (r: AppResult<
    VanillaPlan,
>)
    ensures
        version.downloads is None ==> (r matches Err(e) && is_message(
            e,
            "Version "@ + version_id@ + " is missing client downloads"@,
        )),
        version.downloads is Some ==> match libs_plan(*paths, version.libraries@, host) {
            Err(t) => r matches Err(e) && is_message(e, t),
            Ok(q) => if version.asset_index is None {
                r matches Err(e) && is_message(
                    e,
                    "Version "@ + version_id@ + " is missing assetIndex"@,
                )
            } else {
                r matches Ok(p) && p.index@ == index_plan(*paths, *version) && planned_views(
                    p.files@,
                ) == without_dest(
                    seq![client_plan(*paths, version_id@, *version)] + q,
                    index_plan(*paths, *version).dest,
                )
            },
        },
{
    let downloads = match &version.downloads {
        Some(d) => d,
        None => {
            let mut m = concat2("Version ", version_id);
            m.append(" is missing client downloads");
            return Err(AppError::Message(m));
        },
    };
    let client = PlannedFile {
        url: downloads.client.url.clone(),
        dest: paths.version_jar_path(version_id),
        sha1: downloads.client.sha1.clone(),
        size: downloads.client.size,
        label: concat2(version_id, ".jar"),
    };
    let libs = plan_libraries(paths, version, host)?;
    let asset_index = match &version.asset_index {
        Some(a) => a,
        None => {
            let mut m = concat2("Version ", version_id);
            m.append(" is missing assetIndex");
            return Err(AppError::Message(m));
        },
    };
    let assets = paths.assets_dir();
    let indexes = join_path(assets.as_str(), "indexes");
    let index_name = concat2(asset_index.id.as_str(), ".json");
    let index = PlannedFile {
        url: asset_index.url.clone(),
        dest: join_path(indexes.as_str(), index_name.as_str()),
        sha1: asset_index.sha1.clone(),
        size: asset_index.size,
        label: concat2("asset-index-", asset_index.id.as_str()),
    };
    let ghost lv = planned_views(libs@);
    let ghost iv = index@;
    assert(iv == index_plan(*paths, *version));
    let mut all: Vec<PlannedFile> = Vec::new();
    all.push(client);
    let mut libs = libs;
    all.append(&mut libs);
    let ghost av = planned_views(all@);
    assert(av =~= seq![client_plan(*paths, version_id@, *version)] + lv);
    let mut files: Vec<PlannedFile> = Vec::new();
    let mut i: usize = 0;
    assert(av.take(0) =~= Seq::<PlannedView>::empty());
    while i < all.len()
        invariant
            i <= all@.len(),
            av == planned_views(all@),
            iv == index@,
            planned_views(files@) == without_dest(av.take(i as int), index@.dest),
        decreases all.len() - i,
    {
        assert(av.take(i + 1).drop_last() =~= av.take(i as int));
        assert(av.take(i + 1).last() == all@[i as int]@);
        if !crate::text::str_eq(all[i].dest.as_str(), index.dest.as_str()) {
            let ghost before = files@;
            files.push(all[i].clone_file());
            assert(planned_views(files@) =~= planned_views(before).push(all@[i as int]@));
        }
        i += 1;
    }
    assert(av.take(all@.len() as int) =~= av);
    Ok(VanillaPlan { files, index })
}

impl PlannedFile {
    /// A copy of this planned file.
    pub fn clone_file(&self) -> (r: PlannedFile)
        ensures
            r@ == self@,
    {
        PlannedFile {
            url: self.url.clone(),
            dest: self.dest.clone(),
            sha1: self.sha1.clone(),
            size: self.size,
            label: self.label.clone(),
        }
    }
}


// ---------------------------------------------------------------------------
// Assets
// ---------------------------------------------------------------------------

/// Where Mojang serves asset objects.
pub open spec fn asset_base() -> Seq<char> {
    "https://resources.download.minecraft.net"@
}

/// The first two bytes of a hash, as `&hash[..2]` takes them: two ASCII
/// characters, or one character of two bytes.
pub open spec fn hash_prefix(h: Seq<char>) -> Seq<char> {
    if (h[0] as u32) < 0x80 {
        h.take(2)
    } else {
        h.take(1)
    }
}

/// Hashes whose first two bytes end on a character boundary (those that
/// `&hash[..2]` can slice).
pub open spec fn hash_sliceable(h: Seq<char>) -> bool {
    vstd::utf8::encode_utf8(h).len() >= 2 ==> ((h[0] as u32) < 0x80 && (h[1] as u32) < 0x80) || (
    0x80 <= (h[0] as u32) && (h[0] as u32) < 0x800)
}

/// Where an asset object is fetched from and stored, or the error for one
/// whose hash is shorter than two bytes.
pub open spec fn asset_plan(
    paths: AppPaths,
    name: Seq<char>,
    obj: crate::metadata::types::AssetObject,
) -> Result<PlannedView, Seq<char>> {
    let h = obj.hash@;
    if vstd::utf8::encode_utf8(h).len() < 2 {
        Err("Asset object '"@ + name + "' has an invalid hash"@)
    } else {
        let prefix = hash_prefix(h);
        Ok(
            PlannedView {
                url: asset_base() + "/"@ + prefix + "/"@ + h,
                dest: path_join(path_join(path_join(paths.assets_dir_spec(), "objects"@), prefix), h),
                sha1: h,
                size: obj.size,
                label: name,
            },
        )
    }
}

/// The plans of a list of asset objects, in order, or the first error.
pub open spec fn assets_plan(
    paths: AppPaths,
    objects: Seq<(String, crate::metadata::types::AssetObject)>,
) -> Result<Seq<PlannedView>, Seq<char>>
    decreases objects.len(),
{
    if objects.len() == 0 {
        Ok(Seq::empty())
    } else {
        match assets_plan(paths, objects.drop_last()) {
            Err(t) => Err(t),
            Ok(p) => match asset_plan(paths, objects.last().0@, objects.last().1) {
                Err(t) => Err(t),
                Ok(x) => Ok(p.push(x)),
            },
        }
    }
}

proof fn lemma_ascii_head_len(h: Seq<char>)
    requires
        vstd::utf8::encode_utf8(h).len() >= 2,
        h.len() > 0 ==> (h[0] as u32) < 0x80,
    ensures
        h.len() >= 2,
{
    if h.len() == 1 {
        assert(h.drop_first() =~= Seq::<char>::empty());
        assert(vstd::utf8::encode_utf8(h.drop_first()) =~= Seq::<u8>::empty());
    }
}

proof fn lemma_nonempty(h: Seq<char>)
    requires
        vstd::utf8::encode_utf8(h).len() >= 2,
    ensures
        h.len() >= 1,
{
}

fn plan_asset(paths: &AppPaths, name: &str, obj: &crate::metadata::types::AssetObject) -> (r: AppResult<
    PlannedFile,
>)
    requires
        hash_sliceable(obj.hash@),
    ensures
        match asset_plan(*paths, name@, *obj) {
            Ok(v) => r matches Ok(p) && p@ == v,
            Err(t) => r matches Err(e) && is_message(e, t),
        },
{
    let h = obj.hash.as_str();
    if h.as_bytes().len() < 2 {
        let mut m = concat3("Asset object '", name, "' has an invalid hash");
        return Err(AppError::Message(m));
    }
    proof {
        lemma_nonempty(h@);
    }
    let v = crate::text::chars_of(h);
    let prefix = if (v[0] as u32) < 0x80 {
        proof {
            lemma_ascii_head_len(h@);
        }
        crate::text::string_of_range(v.as_slice(), 0, 2)
    } else {
        crate::text::string_of_range(v.as_slice(), 0, 1)
    };
    assert(prefix@ =~= hash_prefix(h@));
    let mut url = concat3("https://resources.download.minecraft.net", "/", prefix.as_str());
    url.append("/");
    url.append(h);
    let assets = paths.assets_dir();
    let objects = join_path(assets.as_str(), "objects");
    let dir = join_path(objects.as_str(), prefix.as_str());
    let dest = join_path(dir.as_str(), h);
    Ok(PlannedFile { url, dest, sha1: obj.hash.clone(), size: obj.size, label: copy_str(name) })
}

proof fn lemma_assets_plan_err_prefix(
    paths: AppPaths,
    s: Seq<(String, crate::metadata::types::AssetObject)>,
    j: int,
)
    requires
        0 <= j <= s.len(),
        assets_plan(paths, s.take(j)) is Err,
    ensures
        assets_plan(paths, s) == assets_plan(paths, s.take(j)),
    decreases s.len() - j,
{
    if j < s.len() {
        assert(s.take(j + 1).drop_last() =~= s.take(j));
        lemma_assets_plan_err_prefix(paths, s, j + 1);
    } else {
        assert(s.take(j) =~= s);
    }
}

/// Whether every hash before the `i`th object is at least two bytes long.
pub open spec fn long_hashes_before(
    objects: Seq<(String, crate::metadata::types::AssetObject)>,
    i: int,
) -> bool {
    forall|j: int| 0 <= j < i ==> vstd::utf8::encode_utf8((#[trigger] objects[j]).1.hash@).len() >= 2
}

/// The objects whose hash can be cut after two bytes when planning reaches
/// them: every object that follows only objects with long enough hashes.
pub open spec fn assets_sliceable(objects: Seq<(String, crate::metadata::types::AssetObject)>) -> bool {
    forall|i: int|
        0 <= i < objects.len() && long_hashes_before(objects, i) ==> hash_sliceable(
            (#[trigger] objects[i]).1.hash@,
        )
}

/// The downloads of the objects of an asset index.
pub fn plan_assets(
    paths: &AppPaths,
    objects: &Vec<(String, crate::metadata::types::AssetObject)>,
) -> (r: AppResult<Vec<PlannedFile>>)
    requires
        assets_sliceable(objects@),
    ensures
        match assets_plan(*paths, objects@) {
            Ok(q) => r matches Ok(v) && planned_views(v@) == q,
            Err(t) => r matches Err(e) && is_message(e, t),
        },
{
    let mut out: Vec<PlannedFile> = Vec::new();
    let mut i: usize = 0;
    assert(objects@.take(0) =~= Seq::<(String, crate::metadata::types::AssetObject)>::empty());
    assert(planned_views(out@) =~= Seq::<PlannedView>::empty());
    while i < objects.len()
        invariant
            i <= objects@.len(),
            assets_sliceable(objects@),
            long_hashes_before(objects@, i as int),
            assets_plan(*paths, objects@.take(i as int)) matches Ok(q) && planned_views(out@) == q,
        decreases objects.len() - i,
    {
        assert(objects@.take(i + 1).drop_last() =~= objects@.take(i as int));
        assert(objects@.take(i + 1).last() == objects@[i as int]);
        assert(hash_sliceable(objects@[i as int].1.hash@));
        match plan_asset(paths, objects[i].0.as_str(), &objects[i].1) {
            Err(e) => {
                proof {
                    lemma_assets_plan_err_prefix(*paths, objects@, i + 1);
                }
                return Err(e);
            },
            Ok(p) => {
                let ghost before = out@;
                out.push(p);
                assert(planned_views(out@) =~= planned_views(before).push(p@));
                assert(vstd::utf8::encode_utf8(objects@[i as int].1.hash@).len() >= 2);
            },
        }
        i += 1;
    }
    assert(objects@.take(objects@.len() as int) =~= objects@);
    Ok(out)
}

// ---------------------------------------------------------------------------
// Verifying and naming downloads
// ---------------------------------------------------------------------------

/// Checks downloaded bytes against an expected SHA-1 (in hexadecimal, of
/// either case); `HashMismatch` names the file and both hashes.
pub fn verify_sha1(path: &str, expected: &str, data: &[u8]) -> (r: AppResult<()>)
    ensures
        eq_ignore_ascii_case_spec(hex_lower(sha1_digest(data@)), expected@) ==> r is Ok,
        !eq_ignore_ascii_case_spec(hex_lower(sha1_digest(data@)), expected@) ==> (r matches Err(
            AppError::HashMismatch { path: p, expected: x, actual: a },
        ) && p@ == path@ && x@ == expected@ && a@ == hex_lower(sha1_digest(data@))),
{
    let actual = sha1_hex(data);
    if !eq_ignore_ascii_case(actual.as_str(), expected) {
        return Err(
            AppError::HashMismatch {
                path: copy_str(path),
                expected: copy_str(expected),
                actual,
            },
        );
    }
    Ok(())
}

/// The components of a `/`-separated path that `Path::components` yields
/// after its root: the pieces between separators, repeated separators,
/// trailing separators and `.` pieces left out.
pub open spec fn path_components(p: Seq<char>) -> Seq<Seq<char>> {
    split_by(p, char_in(seq!['/'])).filter(|c: Seq<char>| c.len() > 0 && c != seq!['.'])
}

/// `Path::file_name` of a Unix path: its last component, or nothing when
/// it has none (the empty path, the root, `.`) or when it ends in `..`.
pub open spec fn path_file_name(p: Seq<char>) -> Option<Seq<char>> {
    let cs = path_components(p);
    if cs.len() == 0 || cs.last() == seq!['.', '.'] {
        None
    } else {
        Some(cs.last())
    }
}

/// `Path::new(p).file_name()`, as a string, on Unix, where `/` is the only
/// separator. Claims what std documents: the final component, where
/// repeated and trailing separators and `.` pieces are normalised away,
/// and none for the root, the empty path or a path ending in `..` (a
/// `&str` holds UTF-8, so the conversion back to a string cannot fail).
#[verifier::external_body]
fn file_name_of(p: &str) -> (r: Option<String>)
    ensures
        match path_file_name(p@) {
            Some(n) => r matches Some(x) && x@ == n,
            None => r is None,
        },
{
    match std::path::Path::new(p).file_name() {
        Some(n) => match n.to_str() {
            Some(s) => Some(s.to_string()),
            None => None,
        },
        None => None,
    }
}

/// A temporary path for a download into `dest`: in the download directory,
/// named after the destination's file name (or `download`), a fresh
/// random id, and `.part`.
pub fn unique_tmp(paths: &AppPaths, dest: &str) -> (r: String)
    ensures
        exists|id: Seq<char>|
            is_v4_uuid_text(id) && r@ == path_join(
                paths.download_tmp_dir_spec(),
                match path_file_name(dest@) {
                    Some(n) => n,
                    None => "download"@,
                } + "."@ + id + ".part"@,
            ),
{
    let name = match file_name_of(dest) {
        Some(n) => n,
        None => copy_str("download"),
    };
    let id = new_uuid_v4();
    let mut f = concat3(name.as_str(), ".", id.as_str());
    f.append(".part");
    let dir = paths.download_tmp_dir();
    join_path(dir.as_str(), f.as_str())
}


/// What becomes of a file already at a download's destination, once its
/// hash was checked.
#[derive(Debug, Clone)]
pub enum ExistingFile {
    /// The file is the one wanted: nothing to download.
    Keep,
    /// The file differs: it is removed and downloaded again.
    Replace,
    /// Checking failed: the download fails with this error.
    Fail(AppError),
}

/// What becomes of an existing file after its hash check: kept when it
/// matches, replaced on a mismatch, and any other error ends the download.
pub fn existing_file(check: AppResult<()>) -> (r: ExistingFile)
    ensures
        match check {
            Ok(_) => r is Keep,
            Err(AppError::HashMismatch { .. }) => r is Replace,
            Err(e) => r == ExistingFile::Fail(e),
        },
{
    match check {
        Ok(_) => ExistingFile::Keep,
        Err(AppError::HashMismatch { .. }) => ExistingFile::Replace,
        Err(e) => ExistingFile::Fail(e),
    }
}

/// The outcome of a download request, by its status.
pub fn download_status(url: &str, ok: bool, status: &str) -> (r: AppResult<()>)
    ensures
        ok ==> r is Ok,
        !ok ==> (r matches Err(e) && is_message(e, "Download failed for "@ + url@ + ": "@ + status@)),
{
    let prefix = concat3("Download failed for ", url, ": ");
    proof {
        reveal_strlit("");
    }
    assert(prefix@ + status@ + ""@ =~= "Download failed for "@ + url@ + ": "@ + status@);
    require_success(ok, status, prefix.as_str(), "")
}


// ---------------------------------------------------------------------------
// Fetching one file
// ---------------------------------------------------------------------------

/// A file being fetched: where from, the SHA-1 it must have (empty when
/// none is known), and how many bytes have arrived.
#[derive(Debug, Clone)]
pub struct Fetch {
    pub url: String,
    pub expected_sha1: String,
    pub bytes_done: u64,
}

/// What happened since the last step of a fetch.
#[derive(Debug)]
pub enum FetchEvent {
    /// The fetch starts: whether it was cancelled already, and whether a
    /// file is at the destination.
    Begin { cancelled: bool, dest_exists: bool },
    /// The file at the destination was checked against the hash.
    ExistingChecked(AppResult<()>),
    /// The server answered.
    Responded { ok: bool, status: String },
    /// A chunk of `len` bytes arrived (or the fetch was cancelled first).
    Chunk { cancelled: bool, len: u64 },
    /// The body ended.
    Ended,
    /// The downloaded temporary file was checked against the hash.
    TmpChecked(AppResult<()>),
    /// The temporary file was moved to the destination.
    Moved,
}

/// What to do next in a fetch.
#[derive(Debug)]
pub enum FetchAction {
    /// Check the file at the destination against the hash.
    CheckExisting,
    /// Request the file (after removing the stale file at the destination
    /// when `remove_existing`).
    Request { remove_existing: bool },
    /// Write the chunk and report this many bytes done.
    Write { bytes_done: u64 },
    /// Check the temporary file against the hash.
    CheckTmp,
    /// Move the temporary file to the destination.
    MoveIntoPlace,
    /// Remove the temporary file and fail with this error.
    Discard(AppError),
    /// The fetch is over, with this outcome.
    Finish(AppResult<()>),
}

impl Fetch {
    /// A fetch of `url` that must match `expected_sha1` (when not empty).
    pub fn new(url: &str, expected_sha1: &str) -> (r: Fetch)
        ensures
            r.url@ == url@,
            r.expected_sha1@ == expected_sha1@,
            r.bytes_done == 0,
    {
        Fetch { url: copy_str(url), expected_sha1: copy_str(expected_sha1), bytes_done: 0 }
    }

    /// The next step of the fetch after `event`.
    ///
    /// A cancelled start fails; an existing file is kept when no hash is
    /// known or it matches, replaced when it differs; a failed status
    /// fails; each chunk is written unless the fetch was cancelled; the
    /// downloaded file is checked when a hash is known and moved into place
    /// only when it matches (or no hash is known).
    pub fn next(&mut self, event: FetchEvent) -> (r: FetchAction)
        ensures
            final(self).url == old(self).url,
            final(self).expected_sha1 == old(self).expected_sha1,
            match event {
                FetchEvent::Begin { cancelled, dest_exists } => final(self).bytes_done == old(
                    self,
                ).bytes_done && if cancelled {
                    r matches FetchAction::Finish(Err(AppError::Cancelled))
                } else if dest_exists {
                    if old(self).expected_sha1@.len() == 0 {
                        r matches FetchAction::Finish(Ok(_))
                    } else {
                        r is CheckExisting
                    }
                } else {
                    r matches FetchAction::Request { remove_existing } && !remove_existing
                },
                FetchEvent::ExistingChecked(check) => final(self).bytes_done == old(self).bytes_done
                    && match check {
                    Ok(_) => r matches FetchAction::Finish(Ok(_)),
                    Err(AppError::HashMismatch { .. }) => r matches FetchAction::Request {
                        remove_existing,
                    } && remove_existing,
                    Err(e) => r == FetchAction::Finish(Err(e)),
                },
                FetchEvent::Responded { ok, status } => final(self).bytes_done == 0 && if ok {
                    r matches FetchAction::Write { bytes_done } && bytes_done == 0
                } else {
                    r matches FetchAction::Finish(Err(e)) && is_message(
                        e,
                        "Download failed for "@ + old(self).url@ + ": "@ + status@,
                    )
                },
                FetchEvent::Chunk { cancelled, len } => if cancelled {
                    final(self).bytes_done == old(self).bytes_done && r matches FetchAction::Discard(
                        AppError::Cancelled,
                    )
                } else {
                    final(self).bytes_done == (old(self).bytes_done + len) % 0x1_0000_0000_0000_0000
                        && r == FetchAction::Write { bytes_done: final(self).bytes_done }
                },
                FetchEvent::Ended => final(self).bytes_done == old(self).bytes_done && if old(
                    self,
                ).expected_sha1@.len() == 0 {
                    r is MoveIntoPlace
                } else {
                    r is CheckTmp
                },
                FetchEvent::TmpChecked(check) => final(self).bytes_done == old(self).bytes_done
                    && match check {
                    Ok(_) => r is MoveIntoPlace,
                    Err(e) => r == FetchAction::Discard(e),
                },
                FetchEvent::Moved => final(self).bytes_done == old(self).bytes_done && r matches FetchAction::Finish(
                    Ok(_),
                ),
            },
            r is MoveIntoPlace ==> (event is Ended && old(self).expected_sha1@.len() == 0) || (
            event matches FetchEvent::TmpChecked(Ok(_))),
    {
        match event {
            FetchEvent::Begin { cancelled, dest_exists } => {
                if cancelled {
                    FetchAction::Finish(Err(AppError::Cancelled))
                } else if dest_exists {
                    if self.expected_sha1.as_str().is_empty() {
                        FetchAction::Finish(Ok(()))
                    } else {
                        FetchAction::CheckExisting
                    }
                } else {
                    FetchAction::Request { remove_existing: false }
                }
            },
            FetchEvent::ExistingChecked(check) => match existing_file(check) {
                ExistingFile::Keep => FetchAction::Finish(Ok(())),
                ExistingFile::Replace => FetchAction::Request { remove_existing: true },
                ExistingFile::Fail(e) => FetchAction::Finish(Err(e)),
            },
            FetchEvent::Responded { ok, status } => {
                self.bytes_done = 0;
                match download_status(self.url.as_str(), ok, status.as_str()) {
                    Ok(()) => FetchAction::Write { bytes_done: 0 },
                    Err(e) => FetchAction::Finish(Err(e)),
                }
            },
            FetchEvent::Chunk { cancelled, len } => {
                if cancelled {
                    FetchAction::Discard(AppError::Cancelled)
                } else {
                    self.bytes_done = self.bytes_done.wrapping_add(len);
                    FetchAction::Write { bytes_done: self.bytes_done }
                }
            },
            FetchEvent::Ended => {
                if self.expected_sha1.as_str().is_empty() {
                    FetchAction::MoveIntoPlace
                } else {
                    FetchAction::CheckTmp
                }
            },
            FetchEvent::TmpChecked(check) => match check {
                Ok(_) => FetchAction::MoveIntoPlace,
                Err(e) => FetchAction::Discard(e),
            },
            FetchEvent::Moved => FetchAction::Finish(Ok(())),
        }
    }
}

/// A path joined with a component ends with that component.
proof fn lemma_path_join_suffix(base: Seq<char>, comp: Seq<char>)
    ensures
        comp.is_suffix_of(path_join(base, comp)),
{
    let j = path_join(base, comp);
    assert(j.subrange(j.len() - comp.len(), j.len() as int) =~= comp);
}

/// Law: a plan of asset objects has one file per object, in the index's
/// order, each to be checked against its object's hash: its SHA-1 is the
/// object's hash, its size the object's size, its label the object's name,
/// and it is stored under a name that ends with that hash.
pub proof fn lemma_asset_plan_hashes(
    paths: AppPaths,
    objects: Seq<(String, crate::metadata::types::AssetObject)>,
)
    ensures
        assets_plan(paths, objects) matches Ok(q) ==> {
            &&& q.len() == objects.len()
            &&& forall|i: int|
                0 <= i < q.len() ==> {
                    &&& (#[trigger] q[i]).sha1 == objects[i].1.hash@
                    &&& q[i].size == objects[i].1.size
                    &&& q[i].label == objects[i].0@
                    &&& objects[i].1.hash@.is_suffix_of(q[i].dest)
                }
        },
    decreases objects.len(),
{
    if objects.len() > 0 {
        let init = objects.drop_last();
        lemma_asset_plan_hashes(paths, init);
        if let Ok(q) = assets_plan(paths, objects) {
            let p = assets_plan(paths, init)->Ok_0;
            let last = objects.last();
            let x = asset_plan(paths, last.0@, last.1)->Ok_0;
            assert(q == p.push(x));
            let h = last.1.hash@;
            let d = path_join(path_join(paths.assets_dir_spec(), "objects"@), hash_prefix(h));
            lemma_path_join_suffix(d, h);
            assert forall|i: int| 0 <= i < q.len() implies {
                &&& (#[trigger] q[i]).sha1 == objects[i].1.hash@
                &&& q[i].size == objects[i].1.size
                &&& q[i].label == objects[i].0@
                &&& objects[i].1.hash@.is_suffix_of(q[i].dest)
            } by {
                if i < p.len() {
                    assert(q[i] == p[i]);
                    assert(objects[i] == init[i]);
                } else {
                    assert(q[i] == x);
                    assert(objects[i] == last);
                }
            }
        }
    }
}

} // verus!
