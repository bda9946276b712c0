use vstd::prelude::*;

use crate::assoc::{lookup, lookup_ref};
use crate::auth::AuthSession;
use crate::error::{AppError, AppResult};
use crate::download::rules_view;
use crate::instance::{Instance, effective_launch_id_spec};
use crate::metadata::resolve::{library_url, library_url_spec};
use crate::metadata::types::{
    ArgumentValue, HostOs, Library, Rule, StringOrVec, VersionJson, feature_value, last_verdict,
    rule_applies, rules_allow, rules_allow_spec, rules_slice,
};
use crate::paths::{AppPaths, join_path, path_join};
use crate::text::{
    concat2, concat3, contains_seq, copy_str, decimal, join, join_spec, replace, replace_spec,
    split_whitespace,
    split_whitespace_spec, starts_with, str_eq, u32_to_string, views,
};

verus! {

/// What launching an instance needs besides the instance itself.
#[derive(Debug, Clone)]
pub struct LaunchOptions {
    pub instance_id: String,
    pub memory_mib: u32,
    pub java_override: Option<String>,
}

/// The features that argument rules test, all off.
pub open spec fn default_feature_names() -> Seq<Seq<char>> {
    seq![
        "is_demo_user"@,
        "has_custom_resolution"@,
        "has_quick_plays_support"@,
        "is_quick_play_singleplayer"@,
        "is_quick_play_multiplayer"@,
        "is_quick_play_realms"@,
    ]
}

/// The features that argument rules test, all off.
pub fn default_features() -> (r: Vec<(String, bool)>)
    ensures
        r@.len() == 6,
        forall|i: int| 0 <= i < 6 ==> (#[trigger] r@[i]).0@ == default_feature_names()[i] && !r@[i].1,
        all_off(r@),
{
    let mut r: Vec<(String, bool)> = Vec::new();
    r.push((copy_str("is_demo_user"), false));
    r.push((copy_str("has_custom_resolution"), false));
    r.push((copy_str("has_quick_plays_support"), false));
    r.push((copy_str("is_quick_play_singleplayer"), false));
    r.push((copy_str("is_quick_play_multiplayer"), false));
    r.push((copy_str("is_quick_play_realms"), false));
    r
}

// ---------------------------------------------------------------------------
// Arguments
// ---------------------------------------------------------------------------

/// The arguments a list gives on `host` with the given features: plain
/// ones as they are; guarded ones only where their rules allow them.
pub open spec fn resolve_args_spec(
    args: Seq<ArgumentValue>,
    features: Seq<(String, bool)>,
    host: HostOs,
) -> Seq<Seq<char>>
    decreases args.len(),
{
    if args.len() == 0 {
        Seq::empty()
    } else {
        let before = resolve_args_spec(args.drop_last(), features, host);
        match args.last() {
            ArgumentValue::String(s) => before.push(s@),
            ArgumentValue::Object { rules, value } => if rules_allow_spec(
                rules_view(rules),
                features,
                host,
            ) {
                match value {
                    StringOrVec::String(s) => before.push(s@),
                    StringOrVec::Vec(v) => before + views(v@),
                }
            } else {
                before
            },
        }
    }
}

fn copy_strings(v: &Vec<String>) -> (r: Vec<String>)
    ensures
        views(r@) == views(v@),
{
    let mut r: Vec<String> = Vec::new();
    let mut i: usize = 0;
    while i < v.len()
        invariant
            i <= v@.len(),
            views(r@) == views(v@).take(i as int),
        decreases v.len() - i,
    {
        let ghost before = r@;
        let c = v[i].clone();
        r.push(c);
        assert(views(r@) =~= views(before).push(v@[i as int]@));
        assert(views(v@).take(i + 1) =~= views(v@).take(i as int).push(v@[i as int]@));
        i += 1;
    }
    assert(views(v@).take(v@.len() as int) =~= views(v@));
    r
}

/// The arguments a list gives on `host` with the given features.
pub fn resolve_arguments(
    args: Option<&Vec<ArgumentValue>>,
    features: &Vec<(String, bool)>,
    host: HostOs,
) -> (r: Vec<String>)
    ensures
        views(r@) == match args {
            Some(a) => resolve_args_spec(a@, features@, host),
            None => Seq::<Seq<char>>::empty(),
        },
{
    let args = match args {
        None => {
            let r: Vec<String> = Vec::new();
            assert(views(r@) =~= Seq::<Seq<char>>::empty());
            return r;
        },
        Some(a) => a,
    };
    let mut out: Vec<String> = Vec::new();
    let mut i: usize = 0;
    assert(args@.take(0) =~= Seq::<ArgumentValue>::empty());
    assert(views(out@) =~= Seq::<Seq<char>>::empty());
    while i < args.len()
        invariant
            i <= args@.len(),
            views(out@) == resolve_args_spec(args@.take(i as int), features@, host),
        decreases args.len() - i,
    {
        assert(args@.take(i + 1).drop_last() =~= args@.take(i as int));
        assert(args@.take(i + 1).last() == args@[i as int]);
        let ghost before = out@;
        match &args[i] {
            ArgumentValue::String(s) => {
                out.push(s.clone());
                assert(views(out@) =~= views(before).push(s@));
            },
            ArgumentValue::Object { rules, value } => {
                if rules_allow(rules_slice(rules), features, host) {
                    match value {
                        StringOrVec::String(s) => {
                            out.push(s.clone());
                            assert(views(out@) =~= views(before).push(s@));
                        },
                        StringOrVec::Vec(v) => {
                            let mut more = copy_strings(v);
                            out.append(&mut more);
                            assert(views(out@) =~= views(before) + views(v@));
                        },
                    }
                }
            },
        }
        i += 1;
    }
    assert(args@.take(args@.len() as int) =~= args@);
    out
}

/// Each placeholder of `subs` replaced in `s`, in the order of `subs`.
pub open spec fn subst_all(s: Seq<char>, subs: Seq<(Seq<char>, Seq<char>)>) -> Seq<char>
    decreases subs.len(),
{
    if subs.len() == 0 {
        s
    } else {
        subst_all(replace_spec(s, subs[0].0, subs[0].1), subs.drop_first())
    }
}

pub open spec fn pair_views(m: Seq<(String, String)>) -> Seq<(Seq<char>, Seq<char>)> {
    m.map_values(|p: (String, String)| (p.0@, p.1@))
}

fn substitute(s: &str, map: &Vec<(String, String)>) -> (r: String)
    ensures
        r@ == subst_all(s@, pair_views(map@)),
{
    let mut cur = copy_str(s);
    let mut i: usize = 0;
    let ghost pv = pair_views(map@);
    assert(pv.skip(0) =~= pv);
    while i < map.len()
        invariant
            i <= map@.len(),
            pv == pair_views(map@),
            subst_all(s@, pv) == subst_all(cur@, pv.skip(i as int)),
        decreases map.len() - i,
    {
        assert(pv.skip(i as int)[0] == (map@[i as int].0@, map@[i as int].1@));
        assert(pv.skip(i as int).drop_first() =~= pv.skip(i + 1));
        cur = replace(cur.as_str(), map[i].0.as_str(), map[i].1.as_str());
        i += 1;
    }
    cur
}

/// Replaces the placeholders of `map` in every argument.
pub fn apply_substitutions(args: &mut Vec<String>, map: &Vec<(String, String)>)
    ensures
        final(args)@.len() == old(args)@.len(),
        forall|i: int|
            0 <= i < old(args)@.len() ==> (#[trigger] final(args)@[i])@ == subst_all(
                old(args)@[i]@,
                pair_views(map@),
            ),
{
    let ghost orig = args@;
    let mut i: usize = 0;
    while i < args.len()
        invariant
            i <= args@.len(),
            args@.len() == orig.len(),
            forall|k: int|
                0 <= k < i ==> (#[trigger] args@[k])@ == subst_all(orig[k]@, pair_views(map@)),
            forall|k: int| i <= k < args@.len() ==> #[trigger] args@[k] == orig[k],
        decreases args.len() - i,
    {
        let replaced = substitute(args[i].as_str(), map);
        args.set(i, replaced);
        i += 1;
    }
}

// ---------------------------------------------------------------------------
// Class path and natives
// ---------------------------------------------------------------------------

/// The class path entries of the libraries on `host`: each library that
/// its rules (with no features) allow and whose location is known.
pub open spec fn classpath_entries(paths: AppPaths, libs: Seq<Library>, host: HostOs) -> Seq<
    Seq<char>,
>
    decreases libs.len(),
{
    if libs.len() == 0 {
        Seq::empty()
    } else {
        let before = classpath_entries(paths, libs.drop_last(), host);
        let lib = libs.last();
        if rules_allow_spec(rules_view(lib.rules), Seq::empty(), host) {
            match library_url_spec(lib) {
                Some((rel, _)) => before.push(path_join(paths.libraries_dir_spec(), rel)),
                None => before,
            }
        } else {
            before
        }
    }
}

/// The class path: the libraries' entries and then the game jar, joined
/// by `:`.
pub open spec fn classpath_spec(
    paths: AppPaths,
    version: VersionJson,
    game_jar_version_id: Seq<char>,
    host: HostOs,
) -> Seq<char> {
    join_spec(
        classpath_entries(paths, version.libraries@, host).push(
            paths.version_jar_path_spec(game_jar_version_id),
        ),
        ":"@,
    )
}

/// The class path of a profile.
pub fn build_classpath(
    paths: &AppPaths,
    version: &VersionJson,
    game_jar_version_id: &str,
    host: HostOs,
) -> (r: String)
    ensures
        r@ == classpath_spec(*paths, *version, game_jar_version_id@, host),
{
    let no_features: Vec<(String, bool)> = Vec::new();
    assert(no_features@ =~= Seq::<(String, bool)>::empty());
    let libs = &version.libraries;
    let dir = paths.libraries_dir();
    let mut entries: Vec<String> = Vec::new();
    let mut i: usize = 0;
    assert(libs@.take(0) =~= Seq::<Library>::empty());
    assert(views(entries@) =~= Seq::<Seq<char>>::empty());
    while i < libs.len()
        invariant
            i <= libs@.len(),
            libs@ == version.libraries@,
            dir@ == paths.libraries_dir_spec(),
            no_features@ == Seq::<(String, bool)>::empty(),
            views(entries@) == classpath_entries(*paths, libs@.take(i as int), host),
        decreases libs.len() - i,
    {
        assert(libs@.take(i + 1).drop_last() =~= libs@.take(i as int));
        assert(libs@.take(i + 1).last() == libs@[i as int]);
        let lib = &libs[i];
        if rules_allow(rules_slice(&lib.rules), &no_features, host) {
            if let Ok((rel, _)) = library_url(lib) {
                let ghost before = entries@;
                entries.push(join_path(dir.as_str(), rel.as_str()));
                assert(views(entries@) =~= views(before).push(
                    path_join(paths.libraries_dir_spec(), rel@),
                ));
            }
        }
        i += 1;
    }
    assert(libs@.take(libs@.len() as int) =~= libs@);
    let ghost before = entries@;
    entries.push(paths.version_jar_path(game_jar_version_id));
    assert(views(entries@) =~= views(before).push(
        paths.version_jar_path_spec(game_jar_version_id@),
    ));
    join(&entries, ":")
}

/// The classifier of a library's Linux natives.
pub open spec fn native_key_spec(lib: Library) -> Option<String> {
    match lib.natives {
        Some(n) => lookup(n@, "linux"@),
        None => None,
    }
}

/// The classifier of a library's Linux natives.
pub fn native_key(lib: &Library) -> (r: Option<String>)
    ensures
        match native_key_spec(*lib) {
            Some(k) => r matches Some(x) && x@ == k@,
            None => r is None,
        },
{
    match &lib.natives {
        Some(n) => match lookup_ref(n, "linux") {
            Some(k) => Some(k.clone()),
            None => None,
        },
        None => None,
    }
}

/// The jar of a library's natives under the libraries directory: for a
/// library its rules (with no features) allow, whose Linux natives have a
/// classifier artifact with a path.
pub open spec fn native_jar_spec(paths: AppPaths, lib: Library, host: HostOs) -> Option<Seq<char>> {
    if !rules_allow_spec(rules_view(lib.rules), Seq::empty(), host) {
        None
    } else {
        match native_key_spec(lib) {
            None => None,
            Some(key) => match lib.downloads {
                Some(d) => match d.classifiers {
                    Some(c) => match lookup(c@, key@) {
                        Some(a) => match a.path {
                            Some(p) => Some(path_join(paths.libraries_dir_spec(), p@)),
                            None => None,
                        },
                        None => None,
                    },
                    None => None,
                },
                None => None,
            },
        }
    }
}

/// The jar of a library's natives, if it has one to extract.
pub fn native_jar(paths: &AppPaths, lib: &Library, host: HostOs) -> (r: Option<String>)
    ensures
        match native_jar_spec(*paths, *lib, host) {
            Some(p) => r matches Some(x) && x@ == p,
            None => r is None,
        },
{
    let no_features: Vec<(String, bool)> = Vec::new();
    assert(no_features@ =~= Seq::<(String, bool)>::empty());
    if !rules_allow(rules_slice(&lib.rules), &no_features, host) {
        return None;
    }
    let key = native_key(lib)?;
    let d = lib.downloads.as_ref()?;
    let c = d.classifiers.as_ref()?;
    let a = lookup_ref(c, key.as_str())?;
    let rel = a.path.as_ref()?;
    let dir = paths.libraries_dir();
    Some(join_path(dir.as_str(), rel.as_str()))
}


// ---------------------------------------------------------------------------
// The command line
// ---------------------------------------------------------------------------

/// The command line of a launch: the JVM's arguments, the main class, the
/// game's arguments, and the directory the game runs in.
#[derive(Debug, Clone)]
pub struct LaunchPlan {
    pub jvm_args: Vec<String>,
    pub main_class: String,
    pub game_args: Vec<String>,
    pub game_dir: String,
    pub natives_dir: String,
}

/// The asset index a profile names: its `assets`, else its asset index's
/// id, else the instance's version.
pub open spec fn asset_index_id_spec(version: VersionJson, version_id: Seq<char>) -> Seq<char> {
    match version.assets {
        Some(a) => a@,
        None => match version.asset_index {
            Some(ai) => ai.id@,
            None => version_id,
        },
    }
}

/// The natives directory of an instance.
pub open spec fn natives_dir_spec(paths: AppPaths, instance_id: Seq<char>) -> Seq<char> {
    path_join(paths.instance_game_dir_spec(instance_id), "natives"@)
}

/// The placeholders of the launch arguments and what each stands for.
pub open spec fn substitutions_spec(
    paths: AppPaths,
    version: VersionJson,
    instance: Instance,
    instance_id: Seq<char>,
    session: AuthSession,
    classpath: Seq<char>,
    launcher_version: Seq<char>,
) -> Seq<(Seq<char>, Seq<char>)> {
    seq![
        ("${auth_player_name}"@, session.username@),
        ("${version_name}"@, version.id@),
        ("${game_directory}"@, paths.instance_game_dir_spec(instance_id)),
        ("${assets_root}"@, paths.assets_dir_spec()),
        ("${assets_index_name}"@, asset_index_id_spec(version, instance.version_id@)),
        ("${auth_uuid}"@, session.uuid@),
        ("${auth_access_token}"@, session.access_token@),
        ("${clientid}"@, "cubic"@),
        ("${auth_xuid}"@, match session.xuid {
            Some(x) => x@,
            None => "0"@,
        }),
        ("${user_type}"@, if session.offline {
            "legacy"@
        } else {
            "msa"@
        }),
        ("${version_type}"@, match version.version_type {
            Some(t) => t@,
            None => "release"@,
        }),
        ("${natives_directory}"@, natives_dir_spec(paths, instance_id)),
        ("${launcher_name}"@, "Cubic"@),
        ("${launcher_version}"@, launcher_version),
        ("${classpath}"@, classpath),
        ("${library_directory}"@, paths.libraries_dir_spec()),
        ("${classpath_separator}"@, ":"@),
    ]
}

/// The JVM arguments a profile lists, before substitution, with every
/// feature off.
pub open spec fn jvm_args_spec(version: VersionJson, host: HostOs) -> Seq<Seq<char>> {
    match version.arguments {
        Some(a) => match a.jvm {
            Some(j) => resolve_args_spec(j@, Seq::empty(), host),
            None => Seq::empty(),
        },
        None => Seq::empty(),
    }
}

/// The game arguments a profile lists, before substitution: the modern
/// list (with every feature off) where there is one, else the legacy
/// string split at whitespace.
pub open spec fn game_args_spec(version: VersionJson, host: HostOs) -> Seq<Seq<char>> {
    match version.arguments {
        Some(a) => resolve_args_spec(a.game@, Seq::empty(), host),
        None => match version.minecraft_arguments {
            Some(legacy) => split_whitespace_spec(legacy@),
            None => Seq::empty(),
        },
    }
}

/// Whether every feature of a list is off.
pub open spec fn all_off(features: Seq<(String, bool)>) -> bool {
    forall|i: int| 0 <= i < features.len() ==> !(#[trigger] features[i]).1
}

proof fn lemma_all_off_value(features: Seq<(String, bool)>, key: Seq<char>)
    requires
        all_off(features),
    ensures
        !feature_value(features, key),
    decreases features.len(),
{
    if features.len() > 0 {
        assert(!features[0].1);
        let rest = features.drop_first();
        assert forall|i: int| 0 <= i < rest.len() implies !(#[trigger] rest[i]).1 by {
            assert(rest[i] == features[i + 1]);
        }
        lemma_all_off_value(rest, key);
    }
}

proof fn lemma_all_off_verdict(rules: Seq<Rule>, features: Seq<(String, bool)>, host: HostOs)
    requires
        all_off(features),
    ensures
        last_verdict(rules, features, host) == last_verdict(rules, Seq::empty(), host),
    decreases rules.len(),
{
    if rules.len() > 0 {
        let rule = rules.last();
        match rule.features {
            Some(req) => {
                assert forall|i: int| 0 <= i < req@.len() implies feature_value(
                    features,
                    (#[trigger] req@[i]).0@,
                ) == feature_value(Seq::<(String, bool)>::empty(), req@[i].0@) by {
                    lemma_all_off_value(features, req@[i].0@);
                }
            },
            None => {},
        }
        assert(rule_applies(rule, features, host) == rule_applies(rule, Seq::empty(), host));
        lemma_all_off_verdict(rules.drop_last(), features, host);
    }
}

/// With every feature off, a rule list decides as with no features at all.
proof fn lemma_all_off_rules(rules: Option<Seq<Rule>>, features: Seq<(String, bool)>, host: HostOs)
    requires
        all_off(features),
    ensures
        rules_allow_spec(rules, features, host) == rules_allow_spec(rules, Seq::empty(), host),
{
    match rules {
        Some(r) => lemma_all_off_verdict(r, features, host),
        None => {},
    }
}

proof fn lemma_all_off_args(args: Seq<ArgumentValue>, features: Seq<(String, bool)>, host: HostOs)
    requires
        all_off(features),
    ensures
        resolve_args_spec(args, features, host) == resolve_args_spec(args, Seq::empty(), host),
    decreases args.len(),
{
    if args.len() > 0 {
        lemma_all_off_args(args.drop_last(), features, host);
        match args.last() {
            ArgumentValue::Object { rules, value } => {
                lemma_all_off_rules(rules_view(rules), features, host);
            },
            _ => {},
        }
    }
}

proof fn lemma_all_off_profile(version: VersionJson, features: Seq<(String, bool)>, host: HostOs)
    requires
        all_off(features),
    ensures
        match version.arguments {
            Some(a) => {
                &&& resolve_args_spec(a.game@, features, host) == resolve_args_spec(
                    a.game@,
                    Seq::empty(),
                    host,
                )
                &&& match a.jvm {
                    Some(j) => resolve_args_spec(j@, features, host) == resolve_args_spec(
                        j@,
                        Seq::empty(),
                        host,
                    ),
                    None => true,
                }
            },
            None => true,
        },
{
    match version.arguments {
        Some(a) => {
            lemma_all_off_args(a.game@, features, host);
            match a.jvm {
                Some(j) => lemma_all_off_args(j@, features, host),
                None => {},
            }
        },
        None => {},
    }
}

/// Every argument with the placeholders replaced.
pub open spec fn subst_each(args: Seq<Seq<char>>, subs: Seq<(Seq<char>, Seq<char>)>) -> Seq<
    Seq<char>,
> {
    args.map_values(|a: Seq<char>| subst_all(a, subs))
}

/// Whether some argument sets the heap size.
pub open spec fn sets_heap(args: Seq<Seq<char>>) -> bool {
    exists|i: int| 0 <= i < args.len() && #[trigger] "-Xmx"@.is_prefix_of(args[i])
}

/// Whether some argument gives the class path.
pub open spec fn gives_classpath(args: Seq<Seq<char>>) -> bool {
    exists|i: int|
        0 <= i < args.len() && (#[trigger] args[i] == "-cp"@ || args[i] == "-classpath"@)
}

/// The heap argument for `memory_mib` MiB.
pub open spec fn heap_arg(memory_mib: u32) -> Seq<char> {
    "-Xmx"@ + decimal(memory_mib as nat) + "M"@
}

/// The JVM arguments completed: a heap size in front where none is set,
/// the class path at the end where none is given.
pub open spec fn complete_jvm_args(args: Seq<Seq<char>>, memory_mib: u32, classpath: Seq<char>) -> Seq<
    Seq<char>,
> {
    let with_heap = if sets_heap(args) {
        args
    } else {
        seq![heap_arg(memory_mib)] + args
    };
    if gives_classpath(with_heap) {
        with_heap
    } else {
        with_heap.push("-cp"@).push(classpath)
    }
}


/// Whether some argument starts with `-Xmx`.
fn any_sets_heap(args: &Vec<String>) -> (r: bool)
    ensures
        r == sets_heap(views(args@)),
{
    let mut i: usize = 0;
    while i < args.len()
        invariant
            i <= args@.len(),
            forall|k: int| 0 <= k < i ==> !"-Xmx"@.is_prefix_of(#[trigger] views(args@)[k]),
        decreases args.len() - i,
    {
        if starts_with(args[i].as_str(), "-Xmx") {
            assert("-Xmx"@.is_prefix_of(views(args@)[i as int]));
            return true;
        }
        i += 1;
    }
    false
}

/// Whether some argument is `-cp` or `-classpath`.
fn any_gives_classpath(args: &Vec<String>) -> (r: bool)
    ensures
        r == gives_classpath(views(args@)),
{
    let mut i: usize = 0;
    while i < args.len()
        invariant
            i <= args@.len(),
            forall|k: int|
                0 <= k < i ==> !(#[trigger] views(args@)[k] == "-cp"@ || views(args@)[k]
                    == "-classpath"@),
        decreases args.len() - i,
    {
        if str_eq(args[i].as_str(), "-cp") || str_eq(args[i].as_str(), "-classpath") {
            assert(views(args@)[i as int] == args@[i as int]@);
            return true;
        }
        i += 1;
    }
    false
}

/// The asset index a profile names for an instance of `version_id`.
pub fn asset_index_id(version: &VersionJson, version_id: &str) -> (r: String)
    ensures
        r@ == asset_index_id_spec(*version, version_id@),
{
    match &version.assets {
        Some(a) => a.clone(),
        None => match &version.asset_index {
            Some(ai) => ai.id.clone(),
            None => copy_str(version_id),
        },
    }
}

/// The placeholders of the launch arguments and their values.
pub fn substitutions(
    paths: &AppPaths,
    version: &VersionJson,
    instance: &Instance,
    instance_id: &str,
    session: &AuthSession,
    classpath: &str,
    launcher_version: &str,
) -> (r: Vec<(String, String)>)
    ensures
        pair_views(r@) == substitutions_spec(
            *paths,
            *version,
            *instance,
            instance_id@,
            *session,
            classpath@,
            launcher_version@,
        ),
{
    let game_dir = paths.instance_game_dir(instance_id);
    let natives = join_path(game_dir.as_str(), "natives");
    let mut r: Vec<(String, String)> = Vec::new();
    r.push((copy_str("${auth_player_name}"), session.username.clone()));
    r.push((copy_str("${version_name}"), version.id.clone()));
    r.push((copy_str("${game_directory}"), game_dir));
    r.push((copy_str("${assets_root}"), paths.assets_dir()));
    r.push(
        (copy_str("${assets_index_name}"), asset_index_id(version, instance.version_id.as_str())),
    );
    r.push((copy_str("${auth_uuid}"), session.uuid.clone()));
    r.push((copy_str("${auth_access_token}"), session.access_token.clone()));
    r.push((copy_str("${clientid}"), copy_str("cubic")));
    let xuid = match &session.xuid {
        Some(x) => x.clone(),
        None => copy_str("0"),
    };
    r.push((copy_str("${auth_xuid}"), xuid));
    let user_type = if session.offline {
        copy_str("legacy")
    } else {
        copy_str("msa")
    };
    r.push((copy_str("${user_type}"), user_type));
    let version_type = match &version.version_type {
        Some(t) => t.clone(),
        None => copy_str("release"),
    };
    r.push((copy_str("${version_type}"), version_type));
    r.push((copy_str("${natives_directory}"), natives));
    r.push((copy_str("${launcher_name}"), copy_str("Cubic")));
    r.push((copy_str("${launcher_version}"), copy_str(launcher_version)));
    r.push((copy_str("${classpath}"), copy_str(classpath)));
    r.push((copy_str("${library_directory}"), paths.libraries_dir()));
    r.push((copy_str("${classpath_separator}"), copy_str(":")));
    assert(pair_views(r@) =~= substitutions_spec(
        *paths,
        *version,
        *instance,
        instance_id@,
        *session,
        classpath@,
        launcher_version@,
    ));
    r
}

/// The command line that launches `instance` (whose id is `instance_id`)
/// with `version` as its profile: the profile's arguments with every
/// placeholder replaced, a heap size of `memory_mib` MiB in front unless
/// the profile sets one, and the class path at the end unless the profile
/// gives it.
pub fn plan_launch(
    paths: &AppPaths,
    version: &VersionJson,
    instance: &Instance,
    instance_id: &str,
    session: &AuthSession,
    memory_mib: u32,
    launcher_version: &str,
    host: HostOs,
) -> (r: LaunchPlan)
    ensures
        ({
            let cp = classpath_spec(*paths, *version, instance.version_id@, host);
            let subs = substitutions_spec(
                *paths,
                *version,
                *instance,
                instance_id@,
                *session,
                cp,
                launcher_version@,
            );
            &&& views(r.jvm_args@) == complete_jvm_args(
                subst_each(jvm_args_spec(*version, host), subs),
                memory_mib,
                cp,
            )
            &&& views(r.game_args@) == subst_each(game_args_spec(*version, host), subs)
        }),
        r.main_class@ == version.main_class@,
        r.game_dir@ == paths.instance_game_dir_spec(instance_id@),
        r.natives_dir@ == natives_dir_spec(*paths, instance_id@),
{
    let game_dir = paths.instance_game_dir(instance_id);
    let natives_dir = join_path(game_dir.as_str(), "natives");
    let classpath = build_classpath(paths, version, instance.version_id.as_str(), host);
    let features = default_features();
    let jvm_list = match &version.arguments {
        Some(a) => match &a.jvm {
            Some(j) => Some(j),
            None => None,
        },
        None => None,
    };
    let mut jvm_args = resolve_arguments(jvm_list, &features, host);
    let mut game_args = match &version.arguments {
        Some(a) => resolve_arguments(Some(&a.game), &features, host),
        None => match &version.minecraft_arguments {
            Some(legacy) => split_whitespace(legacy.as_str()),
            None => Vec::new(),
        },
    };
    proof {
        lemma_all_off_profile(*version, features@, host);
    }
    let subs = substitutions(
        paths,
        version,
        instance,
        instance_id,
        session,
        classpath.as_str(),
        launcher_version,
    );
    let ghost jvm0 = jvm_args@;
    let ghost game0 = game_args@;
    apply_substitutions(&mut jvm_args, &subs);
    apply_substitutions(&mut game_args, &subs);
    let ghost sv = pair_views(subs@);
    assert(views(jvm_args@) =~= subst_each(views(jvm0), sv));
    assert(views(game_args@) =~= subst_each(views(game0), sv));
    let ghost substituted = views(jvm_args@);
    if !any_sets_heap(&jvm_args) {
        let m = u32_to_string(memory_mib);
        let heap = concat3("-Xmx", m.as_str(), "M");
        jvm_args.insert(0, heap);
        assert(views(jvm_args@) =~= seq![heap_arg(memory_mib)] + substituted);
    }
    let ghost with_heap = views(jvm_args@);
    if !any_gives_classpath(&jvm_args) {
        jvm_args.push(copy_str("-cp"));
        jvm_args.push(classpath);
        assert(views(jvm_args@) =~= with_heap.push("-cp"@).push(
            classpath_spec(*paths, *version, instance.version_id@, host),
        ));
    }
    LaunchPlan {
        jvm_args,
        main_class: version.main_class.clone(),
        game_args,
        game_dir,
        natives_dir,
    }
}


/// The session a launch uses: the signed-in one, else an error.
pub fn require_session(session: Option<AuthSession>) -> (r: AppResult<AuthSession>)
    ensures
        match session {
            Some(s) => r == Ok::<AuthSession, AppError>(s),
            None => r matches Err(AppError::NotSignedIn),
        },
{
    match session {
        Some(s) => Ok(s),
        None => Err(AppError::NotSignedIn),
    }
}


/// Law: the JVM arguments of a launch always set a heap size and always
/// give the class path, whatever the profile lists.
pub proof fn lemma_jvm_args_complete(args: Seq<Seq<char>>, memory_mib: u32, classpath: Seq<char>)
    ensures
        sets_heap(complete_jvm_args(args, memory_mib, classpath)),
        gives_classpath(complete_jvm_args(args, memory_mib, classpath)),
{
    reveal_strlit("-Xmx");
    let with_heap = if sets_heap(args) {
        args
    } else {
        seq![heap_arg(memory_mib)] + args
    };
    if !sets_heap(args) {
        let h = heap_arg(memory_mib);
        assert(h.subrange(0, 4) =~= "-Xmx"@);
        assert(with_heap[0] == h);
        assert("-Xmx"@.is_prefix_of(with_heap[0]));
    }
    assert(sets_heap(with_heap));
    if !gives_classpath(with_heap) {
        let done = with_heap.push("-cp"@).push(classpath);
        assert(done[with_heap.len() as int] == "-cp"@);
        let w = choose|i: int| 0 <= i < with_heap.len() && #[trigger] "-Xmx"@.is_prefix_of(with_heap[i]);
        assert(done[w] == with_heap[w]);
        assert("-Xmx"@.is_prefix_of(done[w]));
    }
}

// ---------------------------------------------------------------------------
// What the placeholders become
// ---------------------------------------------------------------------------

/// A placeholder such as `${name}`: a `$` first, a `}` last, and neither
/// anywhere else.
pub open spec fn is_placeholder(s: Seq<char>) -> bool {
    &&& s.len() >= 2
    &&& s[0] == '$'
    &&& s.last() == '}'
    &&& forall|i: int| 0 < i < s.len() ==> #[trigger] s[i] != '$'
    &&& forall|i: int| 0 <= i < s.len() - 1 ==> #[trigger] s[i] != '}'
}

/// Whether every key of a substitution list starts with `$` and ends with
/// `}`.
pub open spec fn placeholder_keys(subs: Seq<(Seq<char>, Seq<char>)>) -> bool {
    forall|i: int|
        0 <= i < subs.len() ==> (#[trigger] subs[i]).0.len() > 0 && subs[i].0[0] == '$'
            && subs[i].0.last() == '}'
}

proof fn lemma_replace_absent(s: Seq<char>, pat: Seq<char>, rep: Seq<char>)
    requires
        pat.len() > 0,
        !contains_seq(s, pat),
    ensures
        replace_spec(s, pat, rep) == s,
    decreases s.len(),
{
    if s.len() > 0 {
        assert(s.skip(0) =~= s);
        assert(!pat.is_prefix_of(s));
        assert(!contains_seq(s.drop_first(), pat)) by {
            if contains_seq(s.drop_first(), pat) {
                let i = choose|i: int|
                    0 <= i <= s.drop_first().len() && #[trigger] pat.is_prefix_of(
                        s.drop_first().skip(i),
                    );
                assert(s.drop_first().skip(i) =~= s.skip(i + 1));
                assert(pat.is_prefix_of(s.skip(i + 1)));
            }
        }
        lemma_replace_absent(s.drop_first(), pat, rep);
        assert(seq![s[0]] + s.drop_first() =~= s);
    }
}

proof fn lemma_replace_whole(s: Seq<char>, rep: Seq<char>)
    requires
        s.len() > 0,
    ensures
        replace_spec(s, s, rep) == rep,
{
    let e = Seq::<char>::empty();
    assert(s.is_prefix_of(s)) by {
        assert(s.subrange(0, s.len() as int) =~= s);
    }
    assert(s.skip(s.len() as int) =~= e);
    assert(replace_spec(e, s, rep) == e);
    assert(replace_spec(s, s, rep) == rep + replace_spec(e, s, rep));
    assert(rep + e =~= rep);
}

/// Text without a `$` holds no placeholder.
proof fn lemma_no_dollar(v: Seq<char>, pat: Seq<char>)
    requires
        !v.contains('$'),
        pat.len() > 0,
        pat[0] == '$',
    ensures
        !contains_seq(v, pat),
{
    if contains_seq(v, pat) {
        let i = choose|i: int| 0 <= i <= v.len() && #[trigger] pat.is_prefix_of(v.skip(i));
        assert(v.skip(i)[0] == pat[0]);
        assert(v[i] == '$');
    }
}

/// A placeholder holds no other placeholder.
proof fn lemma_other_placeholder(s: Seq<char>, pat: Seq<char>)
    requires
        is_placeholder(s),
        pat.len() > 0,
        pat[0] == '$',
        pat.last() == '}',
        pat != s,
    ensures
        !contains_seq(s, pat),
{
    if contains_seq(s, pat) {
        let i = choose|i: int| 0 <= i <= s.len() && #[trigger] pat.is_prefix_of(s.skip(i));
        assert(s.skip(i)[0] == pat[0]);
        assert(s[i] == '$');
        assert(i == 0);
        assert(s.skip(0) =~= s);
        let n = pat.len() - 1;
        assert(s[n] == pat[n]);
        assert(n != 0);
        assert(n == s.len() - 1);
        assert(pat =~= s);
    }
}

/// Substitutions leave text without a `$` as it is.
proof fn lemma_subst_no_dollar(v: Seq<char>, subs: Seq<(Seq<char>, Seq<char>)>)
    requires
        !v.contains('$'),
        placeholder_keys(subs),
    ensures
        subst_all(v, subs) == v,
    decreases subs.len(),
{
    if subs.len() > 0 {
        assert(subs[0].0.len() > 0);
        lemma_no_dollar(v, subs[0].0);
        lemma_replace_absent(v, subs[0].0, subs[0].1);
        assert forall|i: int| 0 <= i < subs.drop_first().len() implies (#[trigger] subs.drop_first()[i]).0.len()
            > 0 && subs.drop_first()[i].0[0] == '$' && subs.drop_first()[i].0.last() == '}' by {
            assert(subs.drop_first()[i] == subs[i + 1]);
        }
        lemma_subst_no_dollar(v, subs.drop_first());
    }
}

/// A placeholder becomes the value of the first entry with its key, when
/// that value holds no `$`.
proof fn lemma_subst_placeholder(s: Seq<char>, subs: Seq<(Seq<char>, Seq<char>)>, j: int)
    requires
        is_placeholder(s),
        placeholder_keys(subs),
        0 <= j < subs.len(),
        subs[j].0 == s,
        forall|i: int| 0 <= i < j ==> (#[trigger] subs[i]).0 != s,
        !subs[j].1.contains('$'),
    ensures
        subst_all(s, subs) == subs[j].1,
    decreases j,
{
    let rest = subs.drop_first();
    assert(placeholder_keys(rest)) by {
        assert forall|i: int| 0 <= i < rest.len() implies (#[trigger] rest[i]).0.len() > 0
            && rest[i].0[0] == '$' && rest[i].0.last() == '}' by {
            assert(rest[i] == subs[i + 1]);
        }
    }
    if j == 0 {
        lemma_replace_whole(s, subs[0].1);
        lemma_subst_no_dollar(subs[0].1, rest);
    } else {
        assert(subs[0].0 != s);
        assert(subs[0].0.len() > 0);
        lemma_other_placeholder(s, subs[0].0);
        lemma_replace_absent(s, subs[0].0, subs[0].1);
        assert forall|i: int| 0 <= i < j - 1 implies (#[trigger] rest[i]).0 != s by {
            assert(rest[i] == subs[i + 1]);
        }
        assert(rest[j - 1] == subs[j]);
        lemma_subst_placeholder(s, rest, j - 1);
    }
}

/// The keys of the launch substitutions are all of the form `${...}`.
proof fn lemma_substitution_keys(
    paths: AppPaths,
    version: VersionJson,
    instance: Instance,
    instance_id: Seq<char>,
    session: AuthSession,
    classpath: Seq<char>,
    launcher_version: Seq<char>,
)
    ensures
        placeholder_keys(
            substitutions_spec(
                paths,
                version,
                instance,
                instance_id,
                session,
                classpath,
                launcher_version,
            ),
        ),
{
    reveal_strlit("${auth_player_name}");
    reveal_strlit("${version_name}");
    reveal_strlit("${game_directory}");
    reveal_strlit("${assets_root}");
    reveal_strlit("${assets_index_name}");
    reveal_strlit("${auth_uuid}");
    reveal_strlit("${auth_access_token}");
    reveal_strlit("${clientid}");
    reveal_strlit("${auth_xuid}");
    reveal_strlit("${user_type}");
    reveal_strlit("${version_type}");
    reveal_strlit("${natives_directory}");
    reveal_strlit("${launcher_name}");
    reveal_strlit("${launcher_version}");
    reveal_strlit("${classpath}");
    reveal_strlit("${library_directory}");
    reveal_strlit("${classpath_separator}");
}

/// Law: wherever a launch argument is exactly `${auth_access_token}`, the
/// launch passes the session's access token there; `${auth_uuid}` becomes
/// the session's UUID and `${auth_player_name}` its player name. (A value
/// that itself held a `$` could meet a later placeholder; tokens, UUIDs and
/// player names hold none.) `plan_launch` substitutes every JVM and game
/// argument with exactly these substitutions.
pub proof fn lemma_session_substituted(
    paths: AppPaths,
    version: VersionJson,
    instance: Instance,
    instance_id: Seq<char>,
    session: AuthSession,
    classpath: Seq<char>,
    launcher_version: Seq<char>,
    args: Seq<Seq<char>>,
    i: int,
)
    requires
        0 <= i < args.len(),
    ensures
        ({
            let subs = substitutions_spec(
                paths,
                version,
                instance,
                instance_id,
                session,
                classpath,
                launcher_version,
            );
            &&& args[i] == "${auth_access_token}"@ && !session.access_token@.contains('$')
                ==> subst_each(args, subs)[i] == session.access_token@
            &&& args[i] == "${auth_uuid}"@ && !session.uuid@.contains('$') ==> subst_each(
                args,
                subs,
            )[i] == session.uuid@
            &&& args[i] == "${auth_player_name}"@ && !session.username@.contains('$')
                ==> subst_each(args, subs)[i] == session.username@
        }),
{
    let subs = substitutions_spec(
        paths,
        version,
        instance,
        instance_id,
        session,
        classpath,
        launcher_version,
    );
    lemma_substitution_keys(paths, version, instance, instance_id, session, classpath, launcher_version);
    reveal_strlit("${auth_player_name}");
    reveal_strlit("${version_name}");
    reveal_strlit("${game_directory}");
    reveal_strlit("${assets_root}");
    reveal_strlit("${assets_index_name}");
    reveal_strlit("${auth_uuid}");
    reveal_strlit("${auth_access_token}");
    let token = "${auth_access_token}"@;
    let uuid = "${auth_uuid}"@;
    let name = "${auth_player_name}"@;
    assert(is_placeholder(token));
    assert(is_placeholder(uuid));
    assert(is_placeholder(name));
    if args[i] == token && !session.access_token@.contains('$') {
        assert(subs[4].0[3] != token[3]);
        assert forall|k: int| 0 <= k < 6 implies (#[trigger] subs[k]).0 != token by {
            if k == 4 {
                assert(subs[4].0[3] != token[3]);
            }
        }
        lemma_subst_placeholder(token, subs, 6);
    }
    if args[i] == uuid && !session.uuid@.contains('$') {
        lemma_subst_placeholder(uuid, subs, 5);
    }
    if args[i] == name && !session.username@.contains('$') {
        lemma_subst_placeholder(name, subs, 0);
    }
}

/// Joining a list with one more part appends the separator and the part.
proof fn lemma_join_push(parts: Seq<Seq<char>>, x: Seq<char>, sep: Seq<char>)
    ensures
        join_spec(parts.push(x), sep) == if parts.len() == 0 {
            x
        } else {
            join_spec(parts, sep) + sep + x
        },
{
    assert(parts.push(x).drop_last() =~= parts);
    assert(parts.push(x).last() == x);
    if parts.len() == 0 {
        assert(parts.push(x)[0] == x);
    }
}

/// Law: the class path of a launch ends with the game jar of
/// `game_jar_version_id` (which `plan_launch` takes from the instance's
/// version, not from the resolved profile's id), as its last entry: either
/// alone or after a `:`.
pub proof fn lemma_classpath_ends_with_game_jar(
    paths: AppPaths,
    version: VersionJson,
    game_jar_version_id: Seq<char>,
    host: HostOs,
)
    ensures
        ({
            let cp = classpath_spec(paths, version, game_jar_version_id, host);
            let jar = paths.version_jar_path_spec(game_jar_version_id);
            &&& jar.is_suffix_of(cp)
            &&& cp.len() == jar.len() || (cp.len() > jar.len() && cp[cp.len() - jar.len() - 1]
                == ':')
        }),
{
    reveal_strlit(":");
    let entries = classpath_entries(paths, version.libraries@, host);
    let jar = paths.version_jar_path_spec(game_jar_version_id);
    lemma_join_push(entries, jar, ":"@);
    let cp = classpath_spec(paths, version, game_jar_version_id, host);
    if entries.len() > 0 {
        let head = join_spec(entries, ":"@);
        assert(cp == head + ":"@ + jar);
        assert(cp.subrange(cp.len() - jar.len(), cp.len() as int) =~= jar);
        assert(cp[cp.len() - jar.len() - 1] == (head + ":"@)[head.len() as int]);
    } else {
        assert(cp.subrange(0, cp.len() as int) =~= jar);
    }
}

/// Law: a library whose rules (with no features) refuse it on the host
/// has no natives to extract, whatever natives it lists; a library with a
/// natives jar is one its rules allow, and it lists Linux natives.
pub proof fn lemma_refused_library_has_no_natives(paths: AppPaths, lib: Library, host: HostOs)
    ensures
        !rules_allow_spec(rules_view(lib.rules), Seq::empty(), host) ==> native_jar_spec(
            paths,
            lib,
            host,
        ) is None,
        native_jar_spec(paths, lib, host) is Some ==> rules_allow_spec(
            rules_view(lib.rules),
            Seq::empty(),
            host,
        ) && lib.natives is Some,
{
}

} // verus!
