use cubic::metadata::resolve::{
    empty_args, empty_downloads, library_url, manifest_url, maven_path, merge_version,
    stored_profile, ChainStep, VersionChain,
};
use cubic::metadata::types::{
    rules_allow, ArgumentValue, Artifact, AssetIndexRef, HostOs, JavaVersionReq, LatestVersions,
    Library, LibraryDownloads, OsRule, Rule, VersionArguments, VersionDownloads, VersionInfo,
    VersionJson, VersionManifest,
};
use cubic::error::AppError;

fn lib(name: &str) -> Library {
    Library { name: name.to_string(), downloads: None, url: None, rules: None, natives: None }
}

fn profile(id: &str, parent: Option<&str>, libs: &[&str]) -> VersionJson {
    VersionJson {
        id: id.to_string(),
        version_type: None,
        inherits_from: parent.map(|p| p.to_string()),
        main_class: String::new(),
        minecraft_arguments: None,
        arguments: None,
        libraries: libs.iter().map(|n| lib(n)).collect(),
        asset_index: None,
        assets: None,
        downloads: None,
        java_version: None,
    }
}

fn rule(action: &str, os: Option<&str>, features: Option<Vec<(&str, bool)>>) -> Rule {
    Rule {
        action: action.to_string(),
        os: os.map(|n| OsRule { name: Some(n.to_string()), arch: None, version: None }),
        features: features.map(|f| f.into_iter().map(|(k, v)| (k.to_string(), v)).collect()),
    }
}

fn lib_names(v: &VersionJson) -> Vec<&str> {
    v.libraries.iter().map(|l| l.name.as_str()).collect()
}

#[test]
fn rule_lists() {
    let none: Vec<(String, bool)> = Vec::new();
    assert!(rules_allow(None, &none, HostOs::Linux));
    assert!(rules_allow(Some(&[]), &none, HostOs::Linux));
    let osx_only = [rule("allow", Some("osx"), None)];
    assert!(!rules_allow(Some(&osx_only), &none, HostOs::Linux));
    assert!(rules_allow(Some(&osx_only), &none, HostOs::Osx));
    let all_but_osx = [rule("allow", None, None), rule("disallow", Some("osx"), None)];
    assert!(rules_allow(Some(&all_but_osx), &none, HostOs::Linux));
    assert!(!rules_allow(Some(&all_but_osx), &none, HostOs::Osx));
}

#[test]
fn feature_rules() {
    let demo = [rule("allow", None, Some(vec![("is_demo_user", true)]))];
    let off = vec![("is_demo_user".to_string(), false)];
    let on = vec![("is_demo_user".to_string(), true)];
    let none: Vec<(String, bool)> = Vec::new();
    assert!(!rules_allow(Some(&demo), &off, HostOs::Linux));
    assert!(rules_allow(Some(&demo), &on, HostOs::Linux));
    assert!(!rules_allow(Some(&demo), &none, HostOs::Linux));
    let r = rule("allow", Some("linux"), Some(vec![("has_custom_resolution", false)]));
    assert!(r.applies(&none, HostOs::Linux));
    assert!(!r.applies(&none, HostOs::Windows));
    assert_eq!(HostOs::Windows.rule_name(), "windows");
    assert_eq!(HostOs::Osx.rule_name(), "osx");
    assert_eq!(HostOs::Linux.rule_name(), "linux");
}

#[test]
fn last_applying_rule_decides() {
    let none: Vec<(String, bool)> = Vec::new();
    let rules = [rule("disallow", None, None), rule("allow", Some("linux"), None)];
    assert!(rules_allow(Some(&rules), &none, HostOs::Linux));
    assert!(!rules_allow(Some(&rules), &none, HostOs::Windows));
}

#[test]
fn maven_paths() {
    assert_eq!(maven_path("org.lwjgl:lwjgl:3.3.1").unwrap(), "org/lwjgl/lwjgl/3.3.1/lwjgl-3.3.1.jar");
    assert_eq!(
        maven_path("org.lwjgl:lwjgl:3.3.1:natives-linux").unwrap(),
        "org/lwjgl/lwjgl/3.3.1/lwjgl-3.3.1-natives-linux.jar"
    );
    assert_eq!(maven_path("a:b").unwrap_err().message(), "Invalid maven coordinate: a:b");
}

#[test]
fn library_locations() {
    let mut l = lib("net.fabricmc:fabric-loader:0.15.0");
    l.url = Some("https://maven.fabricmc.net".into());
    let (p, u) = library_url(&l).unwrap();
    assert_eq!(p, "net/fabricmc/fabric-loader/0.15.0/fabric-loader-0.15.0.jar");
    assert_eq!(u, "https://maven.fabricmc.net/net/fabricmc/fabric-loader/0.15.0/fabric-loader-0.15.0.jar");
    let (_, u) = library_url(&lib("a.b:c:1")).unwrap();
    assert_eq!(u, "https://libraries.minecraft.net/a/b/c/1/c-1.jar");
    let mut l = lib("x:y:1");
    l.downloads = Some(LibraryDownloads {
        artifact: Some(Artifact { path: Some("x/y.jar".into()), sha1: "s".into(), size: 1, url: String::new() }),
        classifiers: None,
    });
    assert_eq!(library_url(&l).unwrap(), ("x/y.jar".to_string(), "https://libraries.minecraft.net/x/y.jar".to_string()));
    assert!(library_url(&lib("bad")).is_err());
}

#[test]
fn merging_profiles() {
    let mut base = profile("1.20.1", None, &["a", "b"]);
    base.main_class = "net.minecraft.client.main.Main".into();
    base.java_version = Some(JavaVersionReq { component: None, major_version: 17 });
    base.assets = Some("5".into());
    base.arguments = Some(VersionArguments {
        game: vec![ArgumentValue::String("--g1".into())],
        jvm: None,
    });
    let mut overlay = profile("fabric-1.20.1", Some("1.20.1"), &["c"]);
    overlay.main_class = "net.fabricmc.loader.impl.launch.knot.KnotClient".into();
    overlay.arguments = Some(VersionArguments {
        game: vec![ArgumentValue::String("--g2".into())],
        jvm: Some(vec![ArgumentValue::String("-Dx".into())]),
    });
    let m = merge_version(base, overlay);
    assert_eq!(m.id, "fabric-1.20.1");
    assert!(m.inherits_from.is_none());
    assert_eq!(m.main_class, "net.fabricmc.loader.impl.launch.knot.KnotClient");
    assert_eq!(lib_names(&m), vec!["a", "b", "c"]);
    assert_eq!(m.java_version.unwrap().major_version, 17);
    assert_eq!(m.assets.as_deref(), Some("5"));
    let args = m.arguments.unwrap();
    assert_eq!(args.game.len(), 2);
    assert_eq!(args.jvm.unwrap().len(), 1);
}

#[test]
fn empty_main_class_keeps_the_base() {
    let mut base = profile("b", None, &[]);
    base.main_class = "Main".into();
    let m = merge_version(base, profile("o", Some("b"), &[]));
    assert_eq!(m.main_class, "Main");
}

#[test]
fn resolving_a_chain() {
    let (mut chain, step) = VersionChain::new("fabric");
    assert!(matches!(step, ChainStep::Load(ref id) if id == "fabric"));
    let step = chain.record(profile("fabric", Some("1.20.1"), &["loader"]));
    assert!(matches!(step, ChainStep::Load(ref id) if id == "1.20.1"));
    let mut vanilla = profile("1.20.1", None, &["lwjgl", "gson"]);
    vanilla.java_version = Some(JavaVersionReq { component: None, major_version: 17 });
    let step = chain.record(vanilla);
    assert!(matches!(step, ChainStep::Done));
    let merged = chain.finish().unwrap();
    assert_eq!(merged.id, "fabric");
    assert_eq!(lib_names(&merged), vec!["lwjgl", "gson", "loader"]);
    assert_eq!(merged.java_version.unwrap().major_version, 17);
}

#[test]
fn chains_stop_after_eight_profiles() {
    let (mut chain, _) = VersionChain::new("p0");
    let mut last = ChainStep::Done;
    for i in 0..8 {
        last = chain.record(profile(&format!("p{i}"), Some(&format!("p{}", i + 1)), &[]));
    }
    assert!(matches!(last, ChainStep::Done));
    assert!(matches!(chain.record(profile("p8", None, &[])), ChainStep::Done));
    assert_eq!(chain.chain.len(), 8);
    assert_eq!(chain.finish().unwrap().id, "p0");
}

#[test]
fn empty_chains_name_the_missing_version() {
    let (chain, _) = VersionChain::new("1.99");
    match chain.finish() {
        Err(AppError::VersionNotFound(v)) => assert_eq!(v, "1.99"),
        other => panic!("unexpected {:?}", other.map(|v| v.id)),
    }
}

#[test]
fn manifest_lookup() {
    let info = |id: &str, url: &str| VersionInfo {
        id: id.into(),
        version_type: "release".into(),
        url: url.into(),
        time: String::new(),
        release_time: String::new(),
        sha1: None,
    };
    let m = VersionManifest {
        latest: LatestVersions { release: "1.20.1".into(), snapshot: "23w31a".into() },
        versions: vec![info("1.20.1", "u1"), info("1.20", "u2"), info("1.20.1", "u3")],
    };
    assert_eq!(manifest_url(&m, "1.20.1").unwrap(), "u1");
    assert_eq!(manifest_url(&m, "1.20").unwrap(), "u2");
    assert_eq!(manifest_url(&m, "1.8").unwrap_err().message(), "Version not found: 1.8");
}

#[test]
fn stored_profiles_take_the_requested_id() {
    assert_eq!(stored_profile(profile("x", None, &[]), "fabric-1").id, "fabric-1");
    assert_eq!(stored_profile(profile("x", None, &[]), "").id, "x");
    assert_eq!(stored_profile(profile("x", None, &["l"]), "x").libraries.len(), 1);
}

#[test]
fn empty_blocks() {
    let d: VersionDownloads = empty_downloads();
    assert!(d.client.path.is_none());
    assert_eq!(d.client.size, 0);
    assert!(d.client.url.is_empty());
    assert!(d.server.is_none());
    let a = empty_args();
    assert!(a.game.is_empty());
    assert!(a.jvm.is_none());
    let _ = AssetIndexRef { id: "5".into(), sha1: String::new(), size: 0, total_size: None, url: String::new() };
}
