use vstd::prelude::*;

use crate::error::{AppError, AppResult, error_text, is_message, require_success};
use crate::instance::{Instance, ModLoader, loader_name};
use crate::text::{concat2, concat3, copy_str, trim, trim_spec};

verus! {

/// A loader version as the interface lists it.
#[derive(Debug, Clone)]
pub struct LoaderVersionInfo {
    pub version: String,
    pub stable: bool,
}

/// What the Fabric index says of a loader version.
#[derive(Debug, Clone)]
pub struct FabricLoaderMeta {
    pub version: String,
    pub stable: bool,
}

/// An entry of the Fabric index's loader list.
#[derive(Debug, Clone)]
pub struct FabricLoaderEntry {
    pub loader: FabricLoaderMeta,
}

/// What the Quilt index says of a loader version.
#[derive(Debug, Clone)]
pub struct QuiltLoaderMeta {
    pub version: String,
}

/// An entry of the Quilt index's loader list.
#[derive(Debug, Clone)]
pub struct QuiltLoaderEntry {
    pub loader: QuiltLoaderMeta,
}

/// A loader whose versions and profiles come from a meta index.
#[derive(Debug, Clone, Copy, PartialEq, Eq, Structural)]
pub enum LoaderSource {
    Fabric,
    Quilt,
}

/// The base address of a loader's meta index.
pub open spec fn meta_base(s: LoaderSource) -> Seq<char> {
    match s {
        LoaderSource::Fabric => "https://meta.fabricmc.net/v2"@,
        LoaderSource::Quilt => "https://meta.quiltmc.org/v3"@,
    }
}

/// The name a loader's messages use.
pub open spec fn source_title(s: LoaderSource) -> Seq<char> {
    match s {
        LoaderSource::Fabric => "Fabric"@,
        LoaderSource::Quilt => "Quilt"@,
    }
}

/// The loader of an index.
pub open spec fn source_loader(s: LoaderSource) -> ModLoader {
    match s {
        LoaderSource::Fabric => ModLoader::Fabric,
        LoaderSource::Quilt => ModLoader::Quilt,
    }
}

fn base_of(s: LoaderSource) -> (r: &'static str)
    ensures
        r@ == meta_base(s),
{
    match s {
        LoaderSource::Fabric => "https://meta.fabricmc.net/v2",
        LoaderSource::Quilt => "https://meta.quiltmc.org/v3",
    }
}

fn title_of(s: LoaderSource) -> (r: &'static str)
    ensures
        r@ == source_title(s),
{
    match s {
        LoaderSource::Fabric => "Fabric",
        LoaderSource::Quilt => "Quilt",
    }
}

/// Where the versions of a loader come from: nowhere for vanilla (it has
/// none), a meta index for Fabric and Quilt.
#[derive(Debug, Clone, Copy, PartialEq, Eq, Structural)]
pub enum LoaderListing {
    Empty,
    Fetch(LoaderSource),
}

/// The message for a loader the launcher cannot list yet.
pub open spec fn unavailable_listing(l: ModLoader) -> Seq<char> {
    loader_name(l) + " isn’t available in Cubic yet — use Fabric or Quilt"@
}

/// Where the versions of `loader` come from, or the error for a loader the
/// launcher does not support yet.
pub fn loader_listing(loader: ModLoader) -> (r: AppResult<LoaderListing>)
    ensures
        loader == ModLoader::Vanilla ==> r == Ok::<LoaderListing, AppError>(LoaderListing::Empty),
        loader == ModLoader::Fabric ==> r == Ok::<LoaderListing, AppError>(
            LoaderListing::Fetch(LoaderSource::Fabric),
        ),
        loader == ModLoader::Quilt ==> r == Ok::<LoaderListing, AppError>(
            LoaderListing::Fetch(LoaderSource::Quilt),
        ),
        loader == ModLoader::Forge || loader == ModLoader::NeoForge ==> (r matches Err(e)
            && is_message(e, unavailable_listing(loader))),
{
    match loader {
        ModLoader::Vanilla => Ok(LoaderListing::Empty),
        ModLoader::Fabric => Ok(LoaderListing::Fetch(LoaderSource::Fabric)),
        ModLoader::Quilt => Ok(LoaderListing::Fetch(LoaderSource::Quilt)),
        _ => Err(
            AppError::Message(
                concat2(loader.as_str(), " isn’t available in Cubic yet — use Fabric or Quilt"),
            ),
        ),
    }
}

/// The address of a loader's version list for a game version.
pub open spec fn versions_url_spec(s: LoaderSource, game_version: Seq<char>) -> Seq<char> {
    meta_base(s) + "/versions/loader/"@ + game_version
}

/// The address of a loader's version list for a game version.
pub fn loader_versions_url(s: LoaderSource, game_version: &str) -> (r: String)
    ensures
        r@ == versions_url_spec(s, game_version@),
{
    concat3(base_of(s), "/versions/loader/", game_version)
}

/// The outcome of fetching a loader's version list, by its status.
pub fn loader_versions_status(s: LoaderSource, ok: bool, status: &str, game_version: &str) -> (r:
    AppResult<()>)
    ensures
        ok ==> r is Ok,
        !ok ==> (r matches Err(e) && is_message(
            e,
            source_title(s) + " meta error "@ + status@ + ": "@ + game_version@,
        )),
{
    let prefix = concat2(title_of(s), " meta error ");
    let suffix = concat2(": ", game_version);
    assert(prefix@ + status@ + suffix@ =~= source_title(s) + " meta error "@ + status@ + ": "@
        + game_version@);
    require_success(ok, status, prefix.as_str(), suffix.as_str())
}

/// The versions of a Fabric list, in its order.
pub fn fabric_versions(entries: Vec<FabricLoaderEntry>) -> (r: Vec<LoaderVersionInfo>)
    ensures
        r@.len() == entries@.len(),
        forall|i: int|
            0 <= i < r@.len() ==> (#[trigger] r@[i]).version == entries@[i].loader.version
                && r@[i].stable == entries@[i].loader.stable,
{
    let mut r: Vec<LoaderVersionInfo> = Vec::new();
    let mut i: usize = 0;
    while i < entries.len()
        invariant
            i <= entries@.len(),
            r@.len() == i,
            forall|k: int|
                0 <= k < i ==> (#[trigger] r@[k]).version == entries@[k].loader.version
                    && r@[k].stable == entries@[k].loader.stable,
        decreases entries.len() - i,
    {
        let e = &entries[i];
        r.push(LoaderVersionInfo { version: e.loader.version.clone(), stable: e.loader.stable });
        i += 1;
    }
    r
}

/// The versions of a Quilt list, in its order; the index gives no
/// stability, and every version counts as stable.
pub fn quilt_versions(entries: Vec<QuiltLoaderEntry>) -> (r: Vec<LoaderVersionInfo>)
    ensures
        r@.len() == entries@.len(),
        forall|i: int|
            0 <= i < r@.len() ==> (#[trigger] r@[i]).version == entries@[i].loader.version
                && r@[i].stable,
{
    let mut r: Vec<LoaderVersionInfo> = Vec::new();
    let mut i: usize = 0;
    while i < entries.len()
        invariant
            i <= entries@.len(),
            r@.len() == i,
            forall|k: int|
                0 <= k < i ==> (#[trigger] r@[k]).version == entries@[k].loader.version
                    && r@[k].stable,
        decreases entries.len() - i,
    {
        let e = &entries[i];
        r.push(LoaderVersionInfo { version: e.loader.version.clone(), stable: true });
        i += 1;
    }
    r
}

/// The address of a loader profile.
pub open spec fn profile_url_spec(s: LoaderSource, game: Seq<char>, loader: Seq<char>) -> Seq<
    char,
> {
    meta_base(s) + "/versions/loader/"@ + game + "/"@ + loader + "/profile/json"@
}

/// The address of the profile of `loader` on `game`.
pub fn profile_url(s: LoaderSource, game: &str, loader: &str) -> (r: String)
    ensures
        r@ == profile_url_spec(s, game@, loader@),
{
    let mut r = concat3(base_of(s), "/versions/loader/", game);
    r.append("/");
    r.append(loader);
    r.append("/profile/json");
    r
}

/// The outcome of fetching a loader profile, by its status.
pub fn profile_status(s: LoaderSource, ok: bool, status: &str) -> (r: AppResult<()>)
    ensures
        ok ==> r is Ok,
        !ok ==> (r matches Err(e) && is_message(
            e,
            "Failed to fetch "@ + source_title(s) + " profile: "@ + status@,
        )),
{
    let prefix = concat3("Failed to fetch ", title_of(s), " profile: ");
    proof {
        reveal_strlit("");
    }
    assert(prefix@ + status@ + ""@ =~= "Failed to fetch "@ + source_title(s) + " profile: "@
        + status@);
    require_success(ok, status, prefix.as_str(), "")
}

/// The index of the first stable version at or after `i`.
pub open spec fn first_stable_from(versions: Seq<LoaderVersionInfo>, i: int) -> Option<int>
    decreases versions.len() - i,
{
    if i < 0 || i >= versions.len() {
        None
    } else if versions[i].stable {
        Some(i)
    } else {
        first_stable_from(versions, i + 1)
    }
}

/// The version to install from a list: the first stable one, else the
/// first one.
pub open spec fn chosen_version(versions: Seq<LoaderVersionInfo>) -> Option<int> {
    match first_stable_from(versions, 0) {
        Some(i) => Some(i),
        None => if versions.len() > 0 {
            Some(0)
        } else {
            None
        },
    }
}

/// The message for an empty version list.
pub open spec fn no_versions_message(l: ModLoader, game_version: Seq<char>) -> Seq<char> {
    "No "@ + loader_name(l) + " loader versions found for "@ + game_version
}

/// The loader version to install for `game_version` from the versions the
/// index lists: the first stable one, else the first one.
pub fn choose_loader_version(
    loader: ModLoader,
    game_version: &str,
    versions: &Vec<LoaderVersionInfo>,
) -> (r: AppResult<String>)
    ensures
        match chosen_version(versions@) {
            Some(i) => r matches Ok(v) && v == versions@[i].version,
            None => r matches Err(e) && is_message(e, no_versions_message(loader, game_version@)),
        },
{
    if versions.len() == 0 {
        let mut m = concat3("No ", loader.as_str(), " loader versions found for ");
        m.append(game_version);
        return Err(AppError::Message(m));
    }
    let mut pick: usize = 0;
    let mut i: usize = 0;
    while i < versions.len()
        invariant_except_break
            pick == 0,
            first_stable_from(versions@, 0) == first_stable_from(versions@, i as int),
        invariant
            i <= versions@.len(),
            versions@.len() > 0,
        ensures
            pick < versions@.len(),
            chosen_version(versions@) == Some(pick as int),
        decreases versions.len() - i,
    {
        if versions[i].stable {
            pick = i;
            break;
        }
        i += 1;
    }
    Ok(versions[pick].version.clone())
}

/// The loader version an instance already names: its own, when it is not
/// blank.
pub open spec fn preset_version_spec(instance: Instance) -> Option<String> {
    match instance.loader_version {
        Some(v) => if trim_spec(v@).len() > 0 {
            Some(v)
        } else {
            None
        },
        None => None,
    }
}

/// The loader version an instance already names, if it is not blank.
pub fn preset_loader_version(instance: &Instance) -> (r: Option<String>)
    ensures
        r == preset_version_spec(*instance),
{
    match &instance.loader_version {
        Some(v) => {
            let t = trim(v.as_str());
            if t.as_str().is_empty() {
                None
            } else {
                Some(v.clone())
            }
        },
        None => None,
    }
}

// ---------------------------------------------------------------------------
// Installing an instance
// ---------------------------------------------------------------------------

/// The next piece of outside work in installing an instance.
#[derive(Debug, Clone)]
pub enum InstallStep {
    /// Install the vanilla game version.
    InstallVanilla { version_id: String },
    /// Fetch the loader's version list from `url`.
    ListLoaderVersions { source: LoaderSource, url: String },
    /// Fetch the loader profile from `url`, store it, resolve it and
    /// install its libraries.
    InstallProfile { source: LoaderSource, url: String, loader_version: String },
    /// Save the instance.
    Save,
}

/// What the outside work reports back.
#[derive(Debug, Clone)]
pub enum InstallEvent {
    /// Installing starts.
    Begin,
    /// The vanilla game version is installed.
    VanillaInstalled,
    /// The loader's version list, as fetched.
    LoaderVersions { source: LoaderSource, versions: Vec<LoaderVersionInfo> },
    /// The loader profile is installed.
    ProfileInstalled { loader_version: String, profile_id: String },
    /// The instance is saved.
    Saved,
}

/// The loader index of an instance's loader, for Fabric and Quilt.
pub open spec fn loader_source(l: ModLoader) -> Option<LoaderSource> {
    match l {
        ModLoader::Fabric => Some(LoaderSource::Fabric),
        ModLoader::Quilt => Some(LoaderSource::Quilt),
        _ => None,
    }
}

/// The message for a loader the launcher cannot install yet.
pub open spec fn unavailable_install(l: ModLoader) -> Seq<char> {
    loader_name(l) + " isn’t available in Cubic yet"@
}

/// Whether `step` installs the profile of `v` for the instance's game
/// version from `s`.
pub open spec fn installs_profile(step: InstallStep, s: LoaderSource, instance: Instance, v: String) -> bool {
    step matches InstallStep::InstallProfile { source, url, loader_version } && source == s
        && loader_version == v && url@ == profile_url_spec(s, instance.version_id@, v@)
}

/// The next step of installing `instance` after `event`, and what the event
/// changes in the instance; `None` when installing is done.
///
/// The vanilla game version comes first. A vanilla instance then launches
/// that version. A Fabric or Quilt instance gets the profile of its own
/// loader version when it names one that is not blank, else of the version
/// the index lists first as stable (else first at all), and then launches
/// that profile. Forge and NeoForge are refused.
pub fn install_next(instance: &mut Instance, event: InstallEvent) -> (r: AppResult<Option<InstallStep>>)
    ensures
        match event {
            InstallEvent::Begin => *final(instance) == *old(instance) && (r matches Ok(Some(
                InstallStep::InstallVanilla { version_id },
            )) && version_id == old(instance).version_id),
            InstallEvent::VanillaInstalled => match loader_source(old(instance).loader) {
                None => if old(instance).loader == ModLoader::Vanilla {
                    &&& r == Ok::<Option<InstallStep>, AppError>(Some(InstallStep::Save))
                    &&& *final(instance) == Instance {
                        launch_version_id: Some(old(instance).version_id),
                        ..*old(instance)
                    }
                } else {
                    &&& *final(instance) == *old(instance)
                    &&& r matches Err(e) && is_message(e, unavailable_install(old(instance).loader))
                },
                Some(s) => *final(instance) == *old(instance) && match preset_version_spec(
                    *old(instance),
                ) {
                    Some(v) => r matches Ok(Some(step)) && installs_profile(step, s, *old(instance), v),
                    None => r matches Ok(Some(InstallStep::ListLoaderVersions { source, url }))
                        && source == s && url@ == versions_url_spec(s, old(instance).version_id@),
                },
            },
            InstallEvent::LoaderVersions { source, versions } => *final(instance) == *old(instance)
                && match chosen_version(versions@) {
                Some(i) => r matches Ok(Some(step)) && installs_profile(
                    step,
                    source,
                    *old(instance),
                    versions@[i].version,
                ),
                None => r matches Err(e) && is_message(
                    e,
                    no_versions_message(source_loader(source), old(instance).version_id@),
                ),
            },
            InstallEvent::ProfileInstalled { loader_version, profile_id } => {
                &&& r == Ok::<Option<InstallStep>, AppError>(Some(InstallStep::Save))
                &&& *final(instance) == Instance {
                    loader_version: Some(loader_version),
                    launch_version_id: Some(profile_id),
                    ..*old(instance)
                }
            },
            InstallEvent::Saved => *final(instance) == *old(instance) && r == Ok::<
                Option<InstallStep>,
                AppError,
            >(None),
        },
{
    match event {
        InstallEvent::Begin => Ok(Some(InstallStep::InstallVanilla { version_id: instance.version_id.clone() })),
        InstallEvent::VanillaInstalled => {
            let source = match instance.loader {
                ModLoader::Vanilla => {
                    instance.launch_version_id = Some(instance.version_id.clone());
                    return Ok(Some(InstallStep::Save));
                },
                ModLoader::Fabric => LoaderSource::Fabric,
                ModLoader::Quilt => LoaderSource::Quilt,
                _ => {
                    return Err(
                        AppError::Message(
                            concat2(instance.loader.as_str(), " isn’t available in Cubic yet"),
                        ),
                    );
                },
            };
            match preset_loader_version(instance) {
                Some(v) => {
                    let url = profile_url(source, instance.version_id.as_str(), v.as_str());
                    Ok(Some(InstallStep::InstallProfile { source, url, loader_version: v }))
                },
                None => {
                    let url = loader_versions_url(source, instance.version_id.as_str());
                    Ok(Some(InstallStep::ListLoaderVersions { source, url }))
                },
            }
        },
        InstallEvent::LoaderVersions { source, versions } => {
            let loader = match source {
                LoaderSource::Fabric => ModLoader::Fabric,
                LoaderSource::Quilt => ModLoader::Quilt,
            };
            let v = choose_loader_version(loader, instance.version_id.as_str(), &versions)?;
            let url = profile_url(source, instance.version_id.as_str(), v.as_str());
            Ok(Some(InstallStep::InstallProfile { source, url, loader_version: v }))
        },
        InstallEvent::ProfileInstalled { loader_version, profile_id } => {
            instance.loader_version = Some(loader_version);
            instance.launch_version_id = Some(profile_id);
            Ok(Some(InstallStep::Save))
        },
        InstallEvent::Saved => Ok(None),
    }
}


/// What the interface is told when installing ends.
#[derive(Debug, Clone)]
pub struct InstallReport {
    pub ok: bool,
    pub cancelled: bool,
    pub error: Option<String>,
}

/// The report of a finished install: success; a cancellation; or a
/// failure with the error's text.
pub fn install_report(result: &AppResult<()>) -> (r: InstallReport)
    ensures
        match result {
            Ok(_) => r.ok && !r.cancelled && r.error is None,
            Err(AppError::Cancelled) => !r.ok && r.cancelled && r.error is None,
            Err(e) => !r.ok && !r.cancelled && (r.error matches Some(t) && t@ == error_text(*e)),
        },
{
    match result {
        Ok(_) => InstallReport { ok: true, cancelled: false, error: None },
        Err(AppError::Cancelled) => InstallReport { ok: false, cancelled: true, error: None },
        Err(e) => InstallReport { ok: false, cancelled: false, error: Some(e.message()) },
    }
}


proof fn lemma_first_stable_from(versions: Seq<LoaderVersionInfo>, i: int, w: int)
    requires
        0 <= i <= w < versions.len(),
        versions[w].stable,
    ensures
        first_stable_from(versions, i) matches Some(k) && i <= k <= w && versions[k].stable
            && forall|j: int| i <= j < k ==> !(#[trigger] versions[j]).stable,
    decreases w - i,
{
    if !versions[i].stable {
        lemma_first_stable_from(versions, i + 1, w);
    }
}

/// Law: when the index lists a stable loader version, the one installed is
/// the first stable one listed.
pub proof fn lemma_chosen_version_stable(versions: Seq<LoaderVersionInfo>, w: int)
    requires
        0 <= w < versions.len(),
        versions[w].stable,
    ensures
        chosen_version(versions) matches Some(k) && versions[k].stable && forall|j: int|
            0 <= j < k ==> !(#[trigger] versions[j]).stable,
{
    lemma_first_stable_from(versions, 0, w);
}

} // verus!
