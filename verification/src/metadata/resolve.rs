use vstd::prelude::*;

use crate::error::{AppError, AppResult, is_message};
use crate::metadata::types::{
    ArgumentValue, Artifact, AssetIndexRef, JavaVersionReq, Library, VersionArguments,
    VersionDownloads, VersionInfo, VersionJson, VersionManifest,
};
use crate::text::{
    CharClass, char_in, class_pred, concat2, copy_opt, copy_str, str_eq, ends_with, replace, replace_spec, split_by,
    split_class, views,
};

verus! {

/// The arguments of a profile, with their lists as sequences.
pub struct ArgsView {
    pub game: Seq<ArgumentValue>,
    pub jvm: Option<Seq<ArgumentValue>>,
}

/// A version profile with its lists as sequences.
pub struct VersionView {
    pub id: String,
    pub version_type: Option<String>,
    pub inherits_from: Option<String>,
    pub main_class: String,
    pub minecraft_arguments: Option<String>,
    pub arguments: Option<ArgsView>,
    pub libraries: Seq<Library>,
    pub asset_index: Option<AssetIndexRef>,
    pub assets: Option<String>,
    pub downloads: Option<VersionDownloads>,
    pub java_version: Option<JavaVersionReq>,
}

pub open spec fn args_view(a: Option<VersionArguments>) -> Option<ArgsView> {
    match a {
        Some(a) => Some(
            ArgsView {
                game: a.game@,
                jvm: match a.jvm {
                    Some(j) => Some(j@),
                    None => None,
                },
            },
        ),
        None => None,
    }
}

impl View for VersionJson {
    type V = VersionView;

    open spec fn view(&self) -> VersionView {
        VersionView {
            id: self.id,
            version_type: self.version_type,
            inherits_from: self.inherits_from,
            main_class: self.main_class,
            minecraft_arguments: self.minecraft_arguments,
            arguments: args_view(self.arguments),
            libraries: self.libraries@,
            asset_index: self.asset_index,
            assets: self.assets,
            downloads: self.downloads,
            java_version: self.java_version,
        }
    }
}

/// `overlay.or(base)`.
pub open spec fn or_else<T>(overlay: Option<T>, base: Option<T>) -> Option<T> {
    if overlay is Some {
        overlay
    } else {
        base
    }
}

/// The arguments of `overlay` laid over those of `base`: game arguments
/// and JVM arguments are concatenated, the base's first.
pub open spec fn merge_args_spec(base: Option<ArgsView>, overlay: Option<ArgsView>) -> Option<ArgsView> {
    match (base, overlay) {
        (Some(b), Some(o)) => Some(
            ArgsView {
                game: b.game + o.game,
                jvm: match o.jvm {
                    Some(oj) => Some(
                        match b.jvm {
                            Some(bj) => bj,
                            None => Seq::<ArgumentValue>::empty(),
                        } + oj,
                    ),
                    None => b.jvm,
                },
            },
        ),
        (None, Some(o)) => Some(o),
        (Some(b), None) => Some(b),
        (None, None) => None,
    }
}

/// `overlay` laid over `base`: the overlay's id; its optional fields where
/// it has them and the base's otherwise; its main class unless empty;
/// libraries and arguments concatenated, the base's first; no parent.
pub open spec fn merge_spec(base: VersionView, overlay: VersionView) -> VersionView {
    VersionView {
        id: overlay.id,
        version_type: or_else(overlay.version_type, base.version_type),
        inherits_from: None,
        main_class: if overlay.main_class@.len() == 0 {
            base.main_class
        } else {
            overlay.main_class
        },
        minecraft_arguments: or_else(overlay.minecraft_arguments, base.minecraft_arguments),
        arguments: merge_args_spec(base.arguments, overlay.arguments),
        libraries: base.libraries + overlay.libraries,
        asset_index: or_else(overlay.asset_index, base.asset_index),
        assets: or_else(overlay.assets, base.assets),
        downloads: or_else(overlay.downloads, base.downloads),
        java_version: or_else(overlay.java_version, base.java_version),
    }
}

fn or_else_exec<T>(overlay: Option<T>, base: Option<T>) -> (r: Option<T>)
    ensures
        r == or_else(overlay, base),
{
    match overlay {
        Some(x) => Some(x),
        None => base,
    }
}

fn merge_arguments(base: Option<VersionArguments>, overlay: Option<VersionArguments>) -> (r: Option<
    VersionArguments,
>)
    ensures
        args_view(r) == merge_args_spec(args_view(base), args_view(overlay)),
{
    match (base, overlay) {
        (Some(mut b), Some(o)) => {
            let VersionArguments { game: mut og, jvm: oj } = o;
            if let Some(mut oj) = oj {
                let mut jvm = match b.jvm {
                    Some(j) => j,
                    None => Vec::new(),
                };
                jvm.append(&mut oj);
                b.jvm = Some(jvm);
            }
            b.game.append(&mut og);
            Some(b)
        },
        (None, Some(o)) => Some(o),
        (Some(b), None) => Some(b),
        (None, None) => None,
    }
}

/// Lays `overlay` over `base`.
pub fn merge_version(base: VersionJson, overlay: VersionJson) -> (r: VersionJson)
    ensures
        r@ == merge_spec(base@, overlay@),
{
    let VersionJson {
        id: b_id,
        version_type: b_type,
        inherits_from: _,
        main_class: b_main,
        minecraft_arguments: b_mc_args,
        arguments: b_args,
        libraries: mut libraries,
        asset_index: b_index,
        assets: b_assets,
        downloads: b_downloads,
        java_version: b_java,
    } = base;
    let VersionJson {
        id: o_id,
        version_type: o_type,
        inherits_from: _,
        main_class: o_main,
        minecraft_arguments: o_mc_args,
        arguments: o_args,
        libraries: mut o_libraries,
        asset_index: o_index,
        assets: o_assets,
        downloads: o_downloads,
        java_version: o_java,
    } = overlay;
    libraries.append(&mut o_libraries);
    let arguments = merge_arguments(b_args, o_args);
    let main_class = if o_main.as_str().is_empty() {
        b_main
    } else {
        o_main
    };
    let r = VersionJson {
        id: o_id,
        version_type: or_else_exec(o_type, b_type),
        inherits_from: None,
        main_class,
        minecraft_arguments: or_else_exec(o_mc_args, b_mc_args),
        arguments,
        libraries,
        asset_index: or_else_exec(o_index, b_index),
        assets: or_else_exec(o_assets, b_assets),
        downloads: or_else_exec(o_downloads, b_downloads),
        java_version: or_else_exec(o_java, b_java),
    };
    assert(r@.libraries =~= base@.libraries + overlay@.libraries);
    r
}


/// The coordinate separator of Maven names.
pub open spec fn colon() -> spec_fn(char) -> bool {
    char_in(seq![':'])
}

/// The repository path of a Maven coordinate
/// `group:artifact:version[:classifier]`, or `None` when it has fewer than
/// three parts. The group's dots become slashes.
pub open spec fn maven_path_spec(name: Seq<char>) -> Option<Seq<char>> {
    let parts = split_by(name, colon());
    if parts.len() < 3 {
        None
    } else {
        let group = replace_spec(parts[0], "."@, "/"@);
        let artifact = parts[1];
        let version = parts[2];
        let file = if parts.len() >= 4 {
            artifact + "-"@ + version + "-"@ + parts[3] + ".jar"@
        } else {
            artifact + "-"@ + version + ".jar"@
        };
        Some(group + "/"@ + artifact + "/"@ + version + "/"@ + file)
    }
}

/// The repository path of a Maven coordinate.
pub fn maven_path(name: &str) -> (r: AppResult<String>)
    ensures
        match r {
            Ok(p) => maven_path_spec(name@) == Some(p@),
            Err(e) => maven_path_spec(name@) is None && is_message(
                e,
                "Invalid maven coordinate: "@ + name@,
            ),
        },
{
    let mut sep: Vec<char> = Vec::new();
    sep.push(':');
    assert(sep@ =~= seq![':']);
    let cls = CharClass::OneOf(sep);
    let parts = split_class(name, &cls);
    assert(class_pred(cls) =~= colon());
    if parts.len() < 3 {
        let m = concat2("Invalid maven coordinate: ", name);
        return Err(AppError::Message(m));
    }
    let group = replace(parts[0].as_str(), ".", "/");
    let artifact = parts[1].as_str();
    let version = parts[2].as_str();
    let mut file = concat2(artifact, "-");
    file.append(version);
    if parts.len() >= 4 {
        file.append("-");
        file.append(parts[3].as_str());
    }
    file.append(".jar");
    let mut out = group;
    out.append("/");
    out.append(artifact);
    out.append("/");
    out.append(version);
    out.append("/");
    out.append(file.as_str());
    proof {
        let ps = split_by(name@, colon());
        assert(ps == views(parts@));
        assert(ps[0] == parts@[0]@);
        assert(ps[1] == parts@[1]@);
        assert(ps[2] == parts@[2]@);
        if parts@.len() >= 4 {
            assert(ps[3] == parts@[3]@);
        }
    }
    Ok(out)
}

/// The default repository of libraries.
pub open spec fn default_library_base() -> Seq<char> {
    "https://libraries.minecraft.net/"@
}

/// Where a library is stored under the libraries directory, and the URL it
/// is fetched from: an artifact with a path gives both (an empty URL falls
/// back to the default repository); otherwise the Maven path of its name,
/// under its repository URL or the default one, with a `/` between them.
pub open spec fn library_url_spec(lib: Library) -> Option<(Seq<char>, Seq<char>)> {
    if let Some(a) = artifact_with_path(lib) {
        let path = a.path.unwrap()@;
        Some(
            (
                path,
                if a.url@.len() == 0 {
                    default_library_base() + path
                } else {
                    a.url@
                },
            ),
        )
    } else {
        match maven_path_spec(lib.name@) {
            None => None,
            Some(path) => {
                let base = match lib.url {
                    Some(u) => u@,
                    None => default_library_base(),
                };
                let base = if base.len() > 0 && base.last() == '/' {
                    base
                } else {
                    base + "/"@
                };
                Some((path, base + path))
            },
        }
    }
}

/// The download artifact of `lib`, when it has one that names its path.
pub open spec fn artifact_with_path(lib: Library) -> Option<Artifact> {
    match lib.downloads {
        Some(d) => match d.artifact {
            Some(a) => if a.path is Some {
                Some(a)
            } else {
                None
            },
            None => None,
        },
        None => None,
    }
}

/// Where a library is stored, and the URL it is fetched from.
pub fn library_url(lib: &Library) -> (r: AppResult<(String, String)>)
    ensures
        match r {
            Ok((p, u)) => library_url_spec(*lib) == Some((p@, u@)),
            Err(e) => library_url_spec(*lib) is None && is_message(
                e,
                "Invalid maven coordinate: "@ + lib.name@,
            ),
        },
{
    if let Some(d) = &lib.downloads {
        if let Some(artifact) = &d.artifact {
            if let Some(path) = &artifact.path {
                let url = if artifact.url.as_str().is_empty() {
                    concat2("https://libraries.minecraft.net/", path.as_str())
                } else {
                    artifact.url.clone()
                };
                return Ok((path.clone(), url));
            }
        }
    }
    let path = maven_path(lib.name.as_str())?;
    let base = match &lib.url {
        Some(u) => u.clone(),
        None => copy_str("https://libraries.minecraft.net/"),
    };
    let base = if ends_with(base.as_str(), "/") {
        proof {
            reveal_strlit("/");
            assert(base@.subrange(base@.len() - 1, base@.len() as int)[0] == base@.last());
        }
        base
    } else {
        proof {
            reveal_strlit("/");
            if base@.len() > 0 && base@.last() == '/' {
                assert(base@.subrange(base@.len() - 1, base@.len() as int) =~= "/"@);
            }
        }
        concat2(base.as_str(), "/")
    };
    let url = concat2(base.as_str(), path.as_str());
    Ok((path, url))
}

/// A downloads block with an empty client artifact and no server.
pub fn empty_downloads() -> (d: VersionDownloads)
    ensures
        d.client.path is None,
        d.client.sha1@.len() == 0,
        d.client.size == 0,
        d.client.url@.len() == 0,
        d.server is None,
{
    VersionDownloads {
        client: Artifact { path: None, sha1: String::new(), size: 0, url: String::new() },
        server: None,
    }
}

/// Arguments with no game and no JVM arguments.
pub fn empty_args() -> (a: VersionArguments)
    ensures
        a.game@.len() == 0,
        a.jvm is None,
{
    VersionArguments { game: Vec::<ArgumentValue>::new(), jvm: None }
}


/// The most profiles that resolving one version loads: the version and up
/// to seven ancestors.
pub const MAX_CHAIN: usize = 8;

/// The views of a list of profiles.
pub open spec fn chain_views(chain: Seq<VersionJson>) -> Seq<VersionView> {
    chain.map_values(|j: VersionJson| j@)
}

/// A chain of profiles, the requested one first and each next one its
/// parent, merged into one: each profile is laid over the merge of its
/// ancestors.
pub open spec fn fold_chain(cs: Seq<VersionView>) -> VersionView
    decreases cs.len(),
{
    if cs.len() <= 1 {
        cs[0]
    } else {
        merge_spec(fold_chain(cs.drop_first()), cs[0])
    }
}

/// What to do next while resolving a version.
#[derive(Debug)]
pub enum ChainStep {
    /// Load the profile with this id and record it.
    Load(String),
    /// Every profile needed is recorded; call `finish`.
    Done,
}

/// The profiles loaded so far while resolving a version, the requested one
/// first.
#[derive(Debug)]
pub struct VersionChain {
    pub requested: String,
    pub chain: Vec<VersionJson>,
}

impl VersionChain {
    /// Starts resolving `version_id`: the first profile to load is its own.
    pub fn new(version_id: &str) -> (r: (VersionChain, ChainStep))
        ensures
            r.0.requested@ == version_id@,
            r.0.chain@.len() == 0,
            r.1 matches ChainStep::Load(id) && id@ == version_id@,
    {
        (
            VersionChain { requested: copy_str(version_id), chain: Vec::new() },
            ChainStep::Load(copy_str(version_id)),
        )
    }

    /// Records a loaded profile; the next step loads its parent, unless it
    /// has none or `MAX_CHAIN` profiles are recorded. A chain that is
    /// already full records nothing more.
    pub fn record(&mut self, json: VersionJson) -> (step: ChainStep)
        ensures
            old(self).chain@.len() < MAX_CHAIN ==> final(self).chain@ == old(self).chain@.push(json),
            old(self).chain@.len() >= MAX_CHAIN ==> final(self).chain@ == old(self).chain@,
            final(self).requested == old(self).requested,
            match step {
                ChainStep::Load(p) => final(self).chain@.len() < MAX_CHAIN
                    && (json.inherits_from matches Some(q) && p@ == q@),
                ChainStep::Done => json.inherits_from is None || final(self).chain@.len()
                    >= MAX_CHAIN,
            },
    {
        if self.chain.len() >= MAX_CHAIN {
            return ChainStep::Done;
        }
        let parent = copy_opt(&json.inherits_from);
        self.chain.push(json);
        match parent {
            Some(p) => if self.chain.len() < MAX_CHAIN {
                ChainStep::Load(p)
            } else {
                ChainStep::Done
            },
            None => ChainStep::Done,
        }
    }

    /// The recorded profiles merged into one, or `VersionNotFound` for the
    /// requested id when none was recorded.
    pub fn finish(self) -> (r: AppResult<VersionJson>)
        ensures
            self.chain@.len() == 0 ==> (r matches Err(AppError::VersionNotFound(v)) && v@
                == self.requested@),
            self.chain@.len() > 0 ==> (r matches Ok(j) && j@ == fold_chain(
                chain_views(self.chain@),
            )),
    {
        let ghost orig = self.chain@;
        let VersionChain { requested, mut chain } = self;
        let root = match chain.pop() {
            None => {
                return Err(AppError::VersionNotFound(requested));
            },
            Some(r) => r,
        };
        let mut merged = root;
        assert(chain_views(orig.skip(chain@.len() as int)) =~= seq![root@]);
        while chain.len() > 0
            invariant
                chain@ == orig.take(chain@.len() as int),
                chain@.len() < orig.len(),
                merged@ == fold_chain(chain_views(orig.skip(chain@.len() as int))),
            decreases chain@.len(),
        {
            let ghost k = chain@.len();
            let o = chain.pop().unwrap();
            assert(o == orig[k - 1]);
            assert(chain_views(orig.skip(k - 1)).drop_first() =~= chain_views(orig.skip(k as int)));
            assert(chain_views(orig.skip(k - 1))[0] == o@);
            merged = merge_version(merged, o);
            assert(chain@ =~= orig.take(k - 1));
        }
        assert(orig.skip(0) =~= orig);
        Ok(merged)
    }
}

/// The index of the first entry of a version list with id `id`.
pub open spec fn version_index(versions: Seq<VersionInfo>, id: Seq<char>, from: int) -> Option<int>
    decreases versions.len() - from,
{
    if from < 0 || from >= versions.len() {
        None
    } else if versions[from].id@ == id {
        Some(from)
    } else {
        version_index(versions, id, from + 1)
    }
}

/// Where the profile of `version_id` is published: the address of its
/// first entry in the manifest, or `VersionNotFound`.
pub fn manifest_url(manifest: &VersionManifest, version_id: &str) -> (r: AppResult<String>)
    ensures
        match version_index(manifest.versions@, version_id@, 0) {
            Some(i) => r matches Ok(u) && u == manifest.versions@[i].url,
            None => r matches Err(AppError::VersionNotFound(v)) && v@ == version_id@,
        },
{
    let versions = &manifest.versions;
    let mut i: usize = 0;
    while i < versions.len()
        invariant
            i <= versions@.len(),
            versions@ == manifest.versions@,
            version_index(versions@, version_id@, 0) == version_index(versions@, version_id@, i as int),
        decreases versions.len() - i,
    {
        if str_eq(versions[i].id.as_str(), version_id) {
            return Ok(versions[i].url.clone());
        }
        i += 1;
    }
    Err(AppError::VersionNotFound(copy_str(version_id)))
}

/// A fetched profile as it is stored for `version_id`: under that id when
/// it is not empty, whatever id the profile names itself.
pub fn stored_profile(json: VersionJson, version_id: &str) -> (r: VersionJson)
    ensures
        r@.id@ == (if version_id@.len() > 0 {
            version_id@
        } else {
            json.id@
        }),
        r@ == (VersionView { id: r@.id, ..json@ }),
{
    let mut stored = json;
    if !str_eq(stored.id.as_str(), version_id) && !version_id.is_empty() {
        stored.id = copy_str(version_id);
    }
    stored
}

/// The Java requirement of the nearest profile in a chain (the requested
/// one first) that names one.
pub open spec fn nearest_java(cs: Seq<VersionView>) -> Option<JavaVersionReq>
    decreases cs.len(),
{
    if cs.len() == 0 {
        None
    } else if cs[0].java_version is Some {
        cs[0].java_version
    } else {
        nearest_java(cs.drop_first())
    }
}

/// Law: a resolved profile carries the id of the requested one.
pub proof fn lemma_resolved_id(cs: Seq<VersionView>)
    requires
        cs.len() > 0,
    ensures
        fold_chain(cs).id == cs[0].id,
{
}

/// Law: a resolved profile has every library of every profile in its
/// chain, the root's first: exactly the chain's libraries, ancestors
/// before descendants.
pub proof fn lemma_resolved_libraries(cs: Seq<VersionView>)
    requires
        cs.len() > 0,
    ensures
        fold_chain(cs).libraries.len() == chain_library_count(cs),
        forall|k: int, i: int|
            0 <= k < cs.len() && 0 <= i < cs[k].libraries.len() ==> fold_chain(
                cs,
            ).libraries.contains(#[trigger] cs[k].libraries[i]),
    decreases cs.len(),
{
    if cs.len() > 1 {
        let rest = cs.drop_first();
        lemma_resolved_libraries(rest);
        let f = fold_chain(cs).libraries;
        let fr = fold_chain(rest).libraries;
        assert(f == fr + cs[0].libraries);
        assert forall|k: int, i: int|
            0 <= k < cs.len() && 0 <= i < cs[k].libraries.len() implies f.contains(
                #[trigger] cs[k].libraries[i],
            ) by {
            if k == 0 {
                assert(f[fr.len() + i] == cs[0].libraries[i]);
            } else {
                assert(rest[k - 1] == cs[k]);
                assert(fr.contains(rest[k - 1].libraries[i]));
                let j = choose|j: int| 0 <= j < fr.len() && fr[j] == rest[k - 1].libraries[i];
                assert(f[j] == fr[j]);
            }
        }
    } else {
        assert(chain_library_count(cs.drop_first()) == 0);
    }
}

/// The number of libraries the profiles of a chain list in all.
pub open spec fn chain_library_count(cs: Seq<VersionView>) -> nat
    decreases cs.len(),
{
    if cs.len() == 0 {
        0
    } else {
        cs[0].libraries.len() + chain_library_count(cs.drop_first())
    }
}

/// Law: the Java requirement of a resolved profile is that of the nearest
/// profile in its chain that names one.
pub proof fn lemma_resolved_java(cs: Seq<VersionView>)
    requires
        cs.len() > 0,
    ensures
        fold_chain(cs).java_version == nearest_java(cs),
    decreases cs.len(),
{
    if cs.len() > 1 {
        lemma_resolved_java(cs.drop_first());
    } else {
        assert(nearest_java(cs.drop_first()) is None);
    }
}

/// The JVM arguments of a profile's arguments, none when it lists none.
pub open spec fn jvm_list(a: Option<ArgsView>) -> Seq<ArgumentValue> {
    match a {
        Some(a) => match a.jvm {
            Some(j) => j,
            None => Seq::empty(),
        },
        None => Seq::empty(),
    }
}

/// The game arguments of a profile's arguments, none when it has none.
pub open spec fn game_list(a: Option<ArgsView>) -> Seq<ArgumentValue> {
    match a {
        Some(a) => a.game,
        None => Seq::empty(),
    }
}

/// The JVM arguments of every profile of a chain (the requested one
/// first), one list after another, the root's first.
pub open spec fn chain_jvm(cs: Seq<VersionView>) -> Seq<ArgumentValue>
    decreases cs.len(),
{
    if cs.len() == 0 {
        Seq::empty()
    } else {
        chain_jvm(cs.drop_first()) + jvm_list(cs[0].arguments)
    }
}

/// The game arguments of every profile of a chain, the root's first.
pub open spec fn chain_game(cs: Seq<VersionView>) -> Seq<ArgumentValue>
    decreases cs.len(),
{
    if cs.len() == 0 {
        Seq::empty()
    } else {
        chain_game(cs.drop_first()) + game_list(cs[0].arguments)
    }
}

/// Law: laying a profile over another keeps the arguments of both: the
/// JVM arguments are the base's followed by the overlay's, and so are the
/// game arguments; the result lists JVM arguments when either does.
pub proof fn lemma_merged_arguments(base: VersionView, overlay: VersionView)
    ensures
        jvm_list(merge_spec(base, overlay).arguments) == jvm_list(base.arguments) + jvm_list(
            overlay.arguments,
        ),
        game_list(merge_spec(base, overlay).arguments) == game_list(base.arguments) + game_list(
            overlay.arguments,
        ),
        (merge_spec(base, overlay).arguments matches Some(a) && a.jvm is Some) <==> ((
        base.arguments matches Some(b) && b.jvm is Some) || (overlay.arguments matches Some(o)
            && o.jvm is Some)),
{
    let e = Seq::<ArgumentValue>::empty();
    match (base.arguments, overlay.arguments) {
        (Some(b), Some(o)) => {
            if o.jvm is None {
                assert(jvm_list(base.arguments) + e =~= jvm_list(base.arguments));
            }
        },
        (None, Some(o)) => {
            assert(e + jvm_list(overlay.arguments) =~= jvm_list(overlay.arguments));
            assert(e + o.game =~= o.game);
        },
        (Some(b), None) => {
            assert(jvm_list(base.arguments) + e =~= jvm_list(base.arguments));
            assert(b.game + e =~= b.game);
        },
        (None, None) => {
            assert(e + e =~= e);
        },
    }
}

/// Law: a resolved profile has the JVM arguments of every profile of its
/// chain, exactly and in order, ancestors first; and likewise the game
/// arguments.
pub proof fn lemma_resolved_arguments(cs: Seq<VersionView>)
    requires
        cs.len() > 0,
    ensures
        jvm_list(fold_chain(cs).arguments) == chain_jvm(cs),
        game_list(fold_chain(cs).arguments) == chain_game(cs),
    decreases cs.len(),
{
    let e = Seq::<ArgumentValue>::empty();
    let rest = cs.drop_first();
    assert(chain_jvm(cs) == chain_jvm(rest) + jvm_list(cs[0].arguments));
    assert(chain_game(cs) == chain_game(rest) + game_list(cs[0].arguments));
    if cs.len() > 1 {
        lemma_resolved_arguments(rest);
        assert(fold_chain(cs) == merge_spec(fold_chain(rest), cs[0]));
        lemma_merged_arguments(fold_chain(rest), cs[0]);
    } else {
        assert(rest.len() == 0);
        assert(chain_jvm(rest) == e);
        assert(chain_game(rest) == e);
        assert(fold_chain(cs) == cs[0]);
        assert(e + jvm_list(cs[0].arguments) =~= jvm_list(cs[0].arguments));
        assert(e + game_list(cs[0].arguments) =~= game_list(cs[0].arguments));
    }
}

} // verus!
