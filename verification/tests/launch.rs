use cubic::auth::AuthSession;
use cubic::error::AppError;
use cubic::instance::{Instance, ModLoader};
use cubic::launch::{
    apply_substitutions, asset_index_id, build_classpath, default_features, native_jar,
    native_key, plan_launch, require_session, resolve_arguments, substitutions,
};
use cubic::metadata::types::{
    ArgumentValue, Artifact, AssetIndexRef, HostOs, Library, LibraryDownloads, OsRule, Rule,
    StringOrVec, VersionArguments, VersionJson,
};
use cubic::paths::AppPaths;

fn paths() -> AppPaths {
    AppPaths { config_dir: "/c".into(), data_dir: "/d".into(), cache_dir: "/k".into() }
}

fn s(x: &str) -> ArgumentValue {
    ArgumentValue::String(x.to_string())
}

fn demo_rule() -> Rule {
    Rule {
        action: "allow".into(),
        os: None,
        features: Some(vec![("is_demo_user".to_string(), true)]),
    }
}

fn artifact(path: &str) -> Artifact {
    Artifact { path: Some(path.into()), sha1: "h".into(), size: 1, url: format!("https://l/{path}") }
}

fn library() -> Library {
    Library {
        name: "a:b:1".into(),
        downloads: Some(LibraryDownloads {
            artifact: Some(artifact("a/b.jar")),
            classifiers: Some(vec![("natives-linux".into(), artifact("a/b-natives-linux.jar"))]),
        }),
        url: None,
        rules: None,
        natives: Some(vec![("linux".into(), "natives-linux".into())]),
    }
}

fn modern_version() -> VersionJson {
    VersionJson {
        id: "1.20.1".into(),
        version_type: Some("release".into()),
        inherits_from: None,
        main_class: "net.minecraft.client.main.Main".into(),
        minecraft_arguments: None,
        arguments: Some(VersionArguments {
            game: vec![
                s("--username"),
                s("${auth_player_name}"),
                ArgumentValue::Object { rules: Some(vec![demo_rule()]), value: StringOrVec::String("--demo".into()) },
                s("--assetIndex"),
                s("${assets_index_name}"),
                s("--userType"),
                s("${user_type}"),
            ],
            jvm: Some(vec![
                s("-Djava.library.path=${natives_directory}"),
                s("-cp"),
                s("${classpath}"),
            ]),
        }),
        libraries: vec![library()],
        asset_index: None,
        assets: Some("5".into()),
        downloads: None,
        java_version: None,
    }
}

fn instance() -> Instance {
    Instance {
        id: "inst".into(),
        name: "World".into(),
        version_id: "1.20.1".into(),
        loader: ModLoader::Vanilla,
        loader_version: None,
        launch_version_id: None,
        created_at: String::new(),
    }
}

fn session() -> AuthSession {
    AuthSession {
        access_token: "tok".into(),
        refresh_token: None,
        uuid: "uu".into(),
        username: "Steve".into(),
        xuid: None,
        offline: false,
    }
}

#[test]
fn default_features_are_off() {
    let f = default_features();
    assert_eq!(f.len(), 6);
    assert!(f.iter().all(|(_, on)| !on));
    assert_eq!(f[0].0, "is_demo_user");
    assert_eq!(f[5].0, "is_quick_play_realms");
}

#[test]
fn arguments_follow_their_rules() {
    let args = vec![
        s("a"),
        ArgumentValue::Object { rules: Some(vec![demo_rule()]), value: StringOrVec::String("demo".into()) },
        ArgumentValue::Object {
            rules: Some(vec![Rule {
                action: "allow".into(),
                os: Some(OsRule { name: Some("linux".into()), arch: None, version: None }),
                features: None,
            }]),
            value: StringOrVec::Vec(vec!["x".into(), "y".into()]),
        },
        ArgumentValue::Object { rules: None, value: StringOrVec::String("free".into()) },
    ];
    let off = default_features();
    assert_eq!(resolve_arguments(Some(&args), &off, HostOs::Linux), vec!["a", "x", "y", "free"]);
    assert_eq!(resolve_arguments(Some(&args), &off, HostOs::Windows), vec!["a", "free"]);
    let on = vec![("is_demo_user".to_string(), true)];
    assert_eq!(resolve_arguments(Some(&args), &on, HostOs::Osx), vec!["a", "demo", "free"]);
    assert!(resolve_arguments(None, &off, HostOs::Linux).is_empty());
}

#[test]
fn placeholders_are_replaced() {
    let mut args = vec!["--name".to_string(), "${a}-${b}".to_string(), "${a}${a}".to_string()];
    let map = vec![("${a}".to_string(), "1".to_string()), ("${b}".to_string(), "2".to_string())];
    apply_substitutions(&mut args, &map);
    assert_eq!(args, vec!["--name", "1-2", "11"]);
}

#[test]
fn class_path() {
    let v = modern_version();
    assert_eq!(
        build_classpath(&paths(), &v, "1.20.1", HostOs::Linux),
        "/d/libraries/a/b.jar:/d/versions/1.20.1/1.20.1.jar"
    );
    let mut only_win = modern_version();
    only_win.libraries[0].rules = Some(vec![Rule {
        action: "allow".into(),
        os: Some(OsRule { name: Some("windows".into()), arch: None, version: None }),
        features: None,
    }]);
    assert_eq!(build_classpath(&paths(), &only_win, "1.20.1", HostOs::Linux), "/d/versions/1.20.1/1.20.1.jar");
}

#[test]
fn natives_to_extract() {
    assert_eq!(native_key(&library()).as_deref(), Some("natives-linux"));
    assert_eq!(
        native_jar(&paths(), &library(), HostOs::Linux).as_deref(),
        Some("/d/libraries/a/b-natives-linux.jar")
    );
    let mut plain = library();
    plain.natives = None;
    assert!(native_key(&plain).is_none());
    assert!(native_jar(&paths(), &plain, HostOs::Linux).is_none());
}

#[test]
fn asset_index_fallbacks() {
    let mut v = modern_version();
    assert_eq!(asset_index_id(&v, "1.20.1"), "5");
    v.assets = None;
    v.asset_index = Some(AssetIndexRef { id: "8".into(), sha1: String::new(), size: 0, total_size: None, url: String::new() });
    assert_eq!(asset_index_id(&v, "1.20.1"), "8");
    v.asset_index = None;
    assert_eq!(asset_index_id(&v, "1.20.1"), "1.20.1");
}

#[test]
fn substitution_values() {
    let subs = substitutions(&paths(), &modern_version(), &instance(), "inst", &session(), "CP", "0.1.0");
    let get = |k: &str| subs.iter().find(|(a, _)| a == k).map(|(_, b)| b.clone()).unwrap();
    assert_eq!(subs.len(), 17);
    assert_eq!(get("${auth_player_name}"), "Steve");
    assert_eq!(get("${game_directory}"), "/d/instances/inst/minecraft");
    assert_eq!(get("${assets_root}"), "/d/assets");
    assert_eq!(get("${auth_xuid}"), "0");
    assert_eq!(get("${user_type}"), "msa");
    assert_eq!(get("${version_type}"), "release");
    assert_eq!(get("${natives_directory}"), "/d/instances/inst/minecraft/natives");
    assert_eq!(get("${launcher_name}"), "Cubic");
    assert_eq!(get("${launcher_version}"), "0.1.0");
    assert_eq!(get("${clientid}"), "cubic");
    assert_eq!(get("${classpath}"), "CP");
    assert_eq!(get("${library_directory}"), "/d/libraries");
    assert_eq!(get("${classpath_separator}"), ":");
}

#[test]
fn modern_launch_plan() {
    let plan = plan_launch(&paths(), &modern_version(), &instance(), "inst", &session(), 2048, "0.1.0", HostOs::Linux);
    assert_eq!(
        plan.jvm_args,
        vec![
            "-Xmx2048M",
            "-Djava.library.path=/d/instances/inst/minecraft/natives",
            "-cp",
            "/d/libraries/a/b.jar:/d/versions/1.20.1/1.20.1.jar",
        ]
    );
    assert_eq!(plan.game_args, vec!["--username", "Steve", "--assetIndex", "5", "--userType", "msa"]);
    assert_eq!(plan.main_class, "net.minecraft.client.main.Main");
    assert_eq!(plan.game_dir, "/d/instances/inst/minecraft");
    assert_eq!(plan.natives_dir, "/d/instances/inst/minecraft/natives");
}

#[test]
fn legacy_launch_plan() {
    let mut v = modern_version();
    v.arguments = None;
    v.minecraft_arguments = Some("--username ${auth_player_name}  --version ${version_name}".into());
    let mut sess = session();
    sess.offline = true;
    let plan = plan_launch(&paths(), &v, &instance(), "inst", &sess, 1024, "0.1.0", HostOs::Linux);
    assert_eq!(
        plan.jvm_args,
        vec!["-Xmx1024M", "-cp", "/d/libraries/a/b.jar:/d/versions/1.20.1/1.20.1.jar"]
    );
    assert_eq!(plan.game_args, vec!["--username", "Steve", "--version", "1.20.1"]);
}

#[test]
fn launch_plans_always_set_heap_and_class_path() {
    let mut v = modern_version();
    if let Some(a) = v.arguments.as_mut() {
        a.jvm = Some(vec![s("-Xmx4G"), s("-classpath"), s("${classpath}")]);
    }
    let plan = plan_launch(&paths(), &v, &instance(), "inst", &session(), 2048, "0.1.0", HostOs::Linux);
    assert_eq!(plan.jvm_args, vec!["-Xmx4G", "-classpath", "/d/libraries/a/b.jar:/d/versions/1.20.1/1.20.1.jar"]);
    let mut bare = modern_version();
    bare.arguments = None;
    let plan = plan_launch(&paths(), &bare, &instance(), "inst", &session(), 512, "0.1.0", HostOs::Linux);
    assert!(plan.jvm_args.iter().any(|a| a.starts_with("-Xmx")));
    assert!(plan.jvm_args.iter().any(|a| a == "-cp"));
    assert!(plan.game_args.is_empty());
}

#[test]
fn launching_needs_a_session() {
    assert_eq!(require_session(Some(session())).unwrap().username, "Steve");
    assert!(matches!(require_session(None), Err(AppError::NotSignedIn)));
}
