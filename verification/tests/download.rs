use cubic::digest::sha1_hex;
use cubic::download::{
    download_status, existing_file, native_classifier, plan_assets, plan_libraries, plan_vanilla,
    push_artifact, unique_tmp, verify_sha1, ExistingFile, Fetch, FetchAction, FetchEvent,
};
use cubic::error::AppError;
use cubic::metadata::types::{
    Artifact, AssetIndexRef, AssetObject, HostOs, Library, LibraryDownloads, OsRule, Rule,
    VersionDownloads, VersionJson,
};
use cubic::paths::AppPaths;

fn paths() -> AppPaths {
    AppPaths { config_dir: "/c".into(), data_dir: "/d".into(), cache_dir: "/k".into() }
}

fn artifact(path: Option<&str>, url: &str) -> Artifact {
    Artifact { path: path.map(|p| p.to_string()), sha1: "abc".into(), size: 10, url: url.into() }
}

fn version(libs: Vec<Library>) -> VersionJson {
    VersionJson {
        id: "1.20.1".into(),
        version_type: Some("release".into()),
        inherits_from: None,
        main_class: "M".into(),
        minecraft_arguments: None,
        arguments: None,
        libraries: libs,
        asset_index: Some(AssetIndexRef {
            id: "5".into(),
            sha1: "ih".into(),
            size: 3,
            total_size: None,
            url: "https://idx/5.json".into(),
        }),
        assets: Some("5".into()),
        downloads: Some(VersionDownloads { client: artifact(None, "https://client.jar"), server: None }),
        java_version: None,
    }
}

fn native_lib() -> Library {
    Library {
        name: "org.lwjgl:lwjgl:3.3.1".into(),
        downloads: Some(LibraryDownloads {
            artifact: Some(artifact(Some("org/lwjgl/lwjgl.jar"), "https://l/lwjgl.jar")),
            classifiers: Some(vec![
                ("natives-linux".into(), artifact(Some("org/lwjgl/lwjgl-natives-linux.jar"), "https://l/n-linux.jar")),
                ("natives-windows".into(), artifact(Some("org/lwjgl/lwjgl-natives-windows.jar"), "https://l/n-win.jar")),
            ]),
        }),
        url: None,
        rules: None,
        natives: Some(vec![
            ("linux".into(), "natives-linux".into()),
            ("windows".into(), "natives-windows".into()),
        ]),
    }
}

#[test]
fn sha1_of_bytes() {
    assert_eq!(sha1_hex(b"hello world"), "2aae6c35c94fcfb415dbe95f408b9ce91ee846ed");
    assert_eq!(sha1_hex(b""), "da39a3ee5e6b4b0d3255bfef95601890afd80709");
}

#[test]
fn verifying_hashes() {
    assert!(verify_sha1("/f", "2aae6c35c94fcfb415dbe95f408b9ce91ee846ed", b"hello world").is_ok());
    assert!(verify_sha1("/f", "2AAE6C35C94FCFB415DBE95F408B9CE91EE846ED", b"hello world").is_ok());
    match verify_sha1("/f", "0000", b"hello world") {
        Err(AppError::HashMismatch { path, expected, actual }) => {
            assert_eq!(path, "/f");
            assert_eq!(expected, "0000");
            assert_eq!(actual, "2aae6c35c94fcfb415dbe95f408b9ce91ee846ed");
        }
        other => panic!("unexpected {:?}", other),
    }
}

#[test]
fn artifacts_are_planned_under_libraries() {
    let p = push_artifact(&paths(), &artifact(Some("a/b.jar"), "https://x/b.jar")).unwrap();
    assert_eq!(p.dest, "/d/libraries/a/b.jar");
    assert_eq!(p.url, "https://x/b.jar");
    assert_eq!(p.label, "a/b.jar");
    assert_eq!(p.sha1, "abc");
    assert_eq!(p.size, 10);
    assert_eq!(
        push_artifact(&paths(), &artifact(None, "https://x/b.jar")).unwrap_err().message(),
        "Library artifact missing path: https://x/b.jar"
    );
}

#[test]
fn natives_by_host() {
    assert_eq!(native_classifier(&native_lib(), HostOs::Linux).as_deref(), Some("natives-linux"));
    assert_eq!(native_classifier(&native_lib(), HostOs::Windows).as_deref(), Some("natives-windows"));
    assert_eq!(native_classifier(&native_lib(), HostOs::Osx), None);
}

#[test]
fn library_plans() {
    let mut osx_only = native_lib();
    osx_only.name = "osx:only:1".into();
    osx_only.rules = Some(vec![Rule {
        action: "allow".into(),
        os: Some(OsRule { name: Some("osx".into()), arch: None, version: None }),
        features: None,
    }]);
    let mut maven = Library { name: "net.fabricmc:sponge-mixin:0.12".into(), downloads: None, url: Some("https://maven.fabricmc.net/".into()), rules: None, natives: None };
    maven.rules = None;
    let v = version(vec![native_lib(), osx_only, maven]);
    let plan = plan_libraries(&paths(), &v, HostOs::Linux).unwrap();
    let dests: Vec<&str> = plan.iter().map(|f| f.dest.as_str()).collect();
    assert_eq!(
        dests,
        vec![
            "/d/libraries/org/lwjgl/lwjgl.jar",
            "/d/libraries/org/lwjgl/lwjgl-natives-linux.jar",
            "/d/libraries/net/fabricmc/sponge-mixin/0.12/sponge-mixin-0.12.jar",
        ]
    );
    assert_eq!(plan[2].url, "https://maven.fabricmc.net/net/fabricmc/sponge-mixin/0.12/sponge-mixin-0.12.jar");
    assert_eq!(plan[2].sha1, "");
    assert_eq!(plan[2].size, 0);
}

#[test]
fn library_plan_errors() {
    let bad = Library { name: "nocoords".into(), downloads: None, url: None, rules: None, natives: None };
    let v = version(vec![native_lib(), bad]);
    assert_eq!(
        plan_libraries(&paths(), &v, HostOs::Linux).unwrap_err().message(),
        "Invalid maven coordinate: nocoords"
    );
}

#[test]
fn vanilla_plans() {
    let v = version(vec![native_lib()]);
    let plan = plan_vanilla(&paths(), "1.20.1", &v, HostOs::Linux).unwrap();
    assert_eq!(plan.index.dest, "/d/assets/indexes/5.json");
    assert_eq!(plan.index.label, "asset-index-5");
    assert_eq!(plan.index.url, "https://idx/5.json");
    assert_eq!(plan.files[0].dest, "/d/versions/1.20.1/1.20.1.jar");
    assert_eq!(plan.files[0].label, "1.20.1.jar");
    assert_eq!(plan.files.len(), 3);
    let mut no_dl = version(Vec::new());
    no_dl.downloads = None;
    assert_eq!(
        plan_vanilla(&paths(), "1.20.1", &no_dl, HostOs::Linux).unwrap_err().message(),
        "Version 1.20.1 is missing client downloads"
    );
    let mut no_index = version(Vec::new());
    no_index.asset_index = None;
    assert_eq!(
        plan_vanilla(&paths(), "1.20.1", &no_index, HostOs::Linux).unwrap_err().message(),
        "Version 1.20.1 is missing assetIndex"
    );
}

#[test]
fn asset_plans() {
    let objects = vec![
        ("icons/icon_16x16.png".to_string(), AssetObject { hash: "bdf48ef6b5d0d23bbb02e17d04865216179f510a".into(), size: 3665 }),
        ("minecraft/sounds/x.ogg".to_string(), AssetObject { hash: "0f".into(), size: 1 }),
    ];
    let plan = plan_assets(&paths(), &objects).unwrap();
    assert_eq!(plan[0].url, "https://resources.download.minecraft.net/bd/bdf48ef6b5d0d23bbb02e17d04865216179f510a");
    assert_eq!(plan[0].dest, "/d/assets/objects/bd/bdf48ef6b5d0d23bbb02e17d04865216179f510a");
    assert_eq!(plan[0].label, "icons/icon_16x16.png");
    assert_eq!(plan[0].size, 3665);
    assert_eq!(plan[1].dest, "/d/assets/objects/0f/0f");
    let bad = vec![("x".to_string(), AssetObject { hash: "a".into(), size: 1 })];
    assert_eq!(plan_assets(&paths(), &bad).unwrap_err().message(), "Asset object 'x' has an invalid hash");
}

#[test]
fn temporary_download_names() {
    let t = unique_tmp(&paths(), "/d/libraries/a/b.jar");
    assert!(t.starts_with("/k/downloads/b.jar."));
    assert!(t.ends_with(".part"));
    assert_eq!(t.len(), "/k/downloads/b.jar.".len() + 36 + ".part".len());
    assert_ne!(t, unique_tmp(&paths(), "/d/libraries/a/b.jar"));
    assert!(unique_tmp(&paths(), "/").starts_with("/k/downloads/download."));
}

#[test]
fn temporary_names_follow_the_last_component() {
    assert!(unique_tmp(&paths(), "/d/x//y.jar/").starts_with("/k/downloads/y.jar."));
    assert!(unique_tmp(&paths(), "/d/x/y.jar/.").starts_with("/k/downloads/y.jar."));
    assert!(unique_tmp(&paths(), "/d/x/..").starts_with("/k/downloads/download."));
    assert!(unique_tmp(&paths(), ".").starts_with("/k/downloads/download."));
    assert!(unique_tmp(&paths(), "").starts_with("/k/downloads/download."));
}

#[test]
fn existing_files() {
    assert!(matches!(existing_file(Ok(())), ExistingFile::Keep));
    assert!(matches!(
        existing_file(Err(AppError::HashMismatch { path: "p".into(), expected: "e".into(), actual: "a".into() })),
        ExistingFile::Replace
    ));
    assert!(matches!(existing_file(Err(AppError::Io("x".into()))), ExistingFile::Fail(AppError::Io(_))));
}

#[test]
fn download_statuses() {
    assert!(download_status("https://u", true, "200 OK").is_ok());
    assert_eq!(
        download_status("https://u", false, "404 Not Found").unwrap_err().message(),
        "Download failed for https://u: 404 Not Found"
    );
}

#[test]
fn fetch_of_a_new_hashed_file() {
    let mut f = Fetch::new("https://u/a.jar", "abc");
    assert!(matches!(
        f.next(FetchEvent::Begin { cancelled: false, dest_exists: false }),
        FetchAction::Request { remove_existing: false }
    ));
    assert!(matches!(
        f.next(FetchEvent::Responded { ok: true, status: "200 OK".into() }),
        FetchAction::Write { bytes_done: 0 }
    ));
    assert!(matches!(f.next(FetchEvent::Chunk { cancelled: false, len: 10 }), FetchAction::Write { bytes_done: 10 }));
    assert!(matches!(f.next(FetchEvent::Chunk { cancelled: false, len: 5 }), FetchAction::Write { bytes_done: 15 }));
    assert_eq!(f.bytes_done, 15);
    assert!(matches!(f.next(FetchEvent::Ended), FetchAction::CheckTmp));
    assert!(matches!(f.next(FetchEvent::TmpChecked(Ok(()))), FetchAction::MoveIntoPlace));
    assert!(matches!(f.next(FetchEvent::Moved), FetchAction::Finish(Ok(()))));
}

#[test]
fn fetch_never_moves_a_mismatched_file() {
    let mut f = Fetch::new("https://u/a.jar", "abc");
    let mismatch = AppError::HashMismatch { path: "t".into(), expected: "abc".into(), actual: "def".into() };
    assert!(matches!(
        f.next(FetchEvent::TmpChecked(Err(mismatch))),
        FetchAction::Discard(AppError::HashMismatch { .. })
    ));
    let mut unhashed = Fetch::new("https://u/a.jar", "");
    assert!(matches!(unhashed.next(FetchEvent::Ended), FetchAction::MoveIntoPlace));
}

#[test]
fn fetch_of_an_existing_file() {
    let mut f = Fetch::new("u", "");
    assert!(matches!(f.next(FetchEvent::Begin { cancelled: false, dest_exists: true }), FetchAction::Finish(Ok(()))));
    let mut f = Fetch::new("u", "abc");
    assert!(matches!(f.next(FetchEvent::Begin { cancelled: false, dest_exists: true }), FetchAction::CheckExisting));
    assert!(matches!(f.next(FetchEvent::ExistingChecked(Ok(()))), FetchAction::Finish(Ok(()))));
    let mismatch = AppError::HashMismatch { path: "d".into(), expected: "abc".into(), actual: "x".into() };
    assert!(matches!(
        f.next(FetchEvent::ExistingChecked(Err(mismatch))),
        FetchAction::Request { remove_existing: true }
    ));
    assert!(matches!(
        f.next(FetchEvent::ExistingChecked(Err(AppError::Io("denied".into())))),
        FetchAction::Finish(Err(AppError::Io(_)))
    ));
}

#[test]
fn fetch_cancellations_and_failures() {
    let mut f = Fetch::new("https://u/a.jar", "abc");
    assert!(matches!(
        f.next(FetchEvent::Begin { cancelled: true, dest_exists: false }),
        FetchAction::Finish(Err(AppError::Cancelled))
    ));
    assert!(matches!(f.next(FetchEvent::Chunk { cancelled: true, len: 3 }), FetchAction::Discard(AppError::Cancelled)));
    match f.next(FetchEvent::Responded { ok: false, status: "404 Not Found".into() }) {
        FetchAction::Finish(Err(e)) => assert_eq!(e.message(), "Download failed for https://u/a.jar: 404 Not Found"),
        other => panic!("unexpected {:?}", other),
    }
}
