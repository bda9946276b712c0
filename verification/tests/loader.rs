use cubic::error::AppError;
use cubic::instance::{Instance, ModLoader};
use cubic::loader::{
    choose_loader_version, fabric_versions, install_next, install_report, loader_listing,
    loader_versions_status, loader_versions_url, preset_loader_version, profile_status,
    profile_url, quilt_versions, FabricLoaderEntry, FabricLoaderMeta, InstallEvent, InstallStep,
    LoaderListing, LoaderSource, LoaderVersionInfo, QuiltLoaderEntry, QuiltLoaderMeta,
};

fn info(v: &str, stable: bool) -> LoaderVersionInfo {
    LoaderVersionInfo { version: v.to_string(), stable }
}

fn instance(loader: ModLoader, loader_version: Option<&str>) -> Instance {
    Instance {
        id: "i".into(),
        name: "n".into(),
        version_id: "1.20.1".into(),
        loader,
        loader_version: loader_version.map(|v| v.to_string()),
        launch_version_id: None,
        created_at: String::new(),
    }
}

#[test]
fn listings_by_loader() {
    assert!(matches!(loader_listing(ModLoader::Vanilla), Ok(LoaderListing::Empty)));
    assert!(matches!(loader_listing(ModLoader::Fabric), Ok(LoaderListing::Fetch(LoaderSource::Fabric))));
    assert!(matches!(loader_listing(ModLoader::Quilt), Ok(LoaderListing::Fetch(LoaderSource::Quilt))));
    assert_eq!(
        loader_listing(ModLoader::Forge).unwrap_err().message(),
        "forge isn’t available in Cubic yet — use Fabric or Quilt"
    );
    assert_eq!(
        loader_listing(ModLoader::NeoForge).unwrap_err().message(),
        "neoforge isn’t available in Cubic yet — use Fabric or Quilt"
    );
}

#[test]
fn meta_addresses() {
    assert_eq!(loader_versions_url(LoaderSource::Fabric, "1.20.1"), "https://meta.fabricmc.net/v2/versions/loader/1.20.1");
    assert_eq!(loader_versions_url(LoaderSource::Quilt, "1.20.1"), "https://meta.quiltmc.org/v3/versions/loader/1.20.1");
    assert_eq!(
        profile_url(LoaderSource::Fabric, "1.20.1", "0.15.0"),
        "https://meta.fabricmc.net/v2/versions/loader/1.20.1/0.15.0/profile/json"
    );
    assert_eq!(
        profile_url(LoaderSource::Quilt, "1.20.1", "0.21.0"),
        "https://meta.quiltmc.org/v3/versions/loader/1.20.1/0.21.0/profile/json"
    );
}

#[test]
fn meta_failures() {
    assert!(loader_versions_status(LoaderSource::Fabric, true, "200 OK", "1.20.1").is_ok());
    assert_eq!(
        loader_versions_status(LoaderSource::Fabric, false, "404 Not Found", "1.2").unwrap_err().message(),
        "Fabric meta error 404 Not Found: 1.2"
    );
    assert_eq!(
        loader_versions_status(LoaderSource::Quilt, false, "500 Internal Server Error", "1.2").unwrap_err().message(),
        "Quilt meta error 500 Internal Server Error: 1.2"
    );
    assert_eq!(
        profile_status(LoaderSource::Quilt, false, "404 Not Found").unwrap_err().message(),
        "Failed to fetch Quilt profile: 404 Not Found"
    );
    assert!(profile_status(LoaderSource::Fabric, true, "200 OK").is_ok());
}

#[test]
fn version_lists() {
    let f = fabric_versions(vec![
        FabricLoaderEntry { loader: FabricLoaderMeta { version: "0.16.0".into(), stable: false } },
        FabricLoaderEntry { loader: FabricLoaderMeta { version: "0.15.11".into(), stable: true } },
    ]);
    assert_eq!(f.len(), 2);
    assert_eq!((f[0].version.as_str(), f[0].stable), ("0.16.0", false));
    assert_eq!((f[1].version.as_str(), f[1].stable), ("0.15.11", true));
    let q = quilt_versions(vec![QuiltLoaderEntry { loader: QuiltLoaderMeta { version: "0.26.0-beta.1".into() } }]);
    assert_eq!(q.len(), 1);
    assert!(q[0].stable);
    assert_eq!(q[0].version, "0.26.0-beta.1");
}

#[test]
fn choosing_loader_versions() {
    let vs = vec![info("0.16.0-beta", false), info("0.15.11", true), info("0.15.10", true)];
    assert_eq!(choose_loader_version(ModLoader::Fabric, "1.20.1", &vs).unwrap(), "0.15.11");
    let unstable = vec![info("a", false), info("b", false)];
    assert_eq!(choose_loader_version(ModLoader::Fabric, "1.20.1", &unstable).unwrap(), "a");
    assert_eq!(
        choose_loader_version(ModLoader::Quilt, "1.2", &Vec::new()).unwrap_err().message(),
        "No quilt loader versions found for 1.2"
    );
}

#[test]
fn preset_versions() {
    assert_eq!(preset_loader_version(&instance(ModLoader::Fabric, Some("0.15.0"))).as_deref(), Some("0.15.0"));
    assert_eq!(preset_loader_version(&instance(ModLoader::Fabric, Some("  "))), None);
    assert_eq!(preset_loader_version(&instance(ModLoader::Fabric, None)), None);
    assert_eq!(preset_loader_version(&instance(ModLoader::Fabric, Some(" 0.15 "))).as_deref(), Some(" 0.15 "));
}

#[test]
fn installing_vanilla() {
    let mut i = instance(ModLoader::Vanilla, None);
    match install_next(&mut i, InstallEvent::Begin) {
        Ok(Some(InstallStep::InstallVanilla { version_id })) => assert_eq!(version_id, "1.20.1"),
        other => panic!("unexpected {:?}", other),
    }
    assert!(matches!(install_next(&mut i, InstallEvent::VanillaInstalled), Ok(Some(InstallStep::Save))));
    assert_eq!(i.launch_version_id.as_deref(), Some("1.20.1"));
    assert!(matches!(install_next(&mut i, InstallEvent::Saved), Ok(None)));
}

#[test]
fn installing_fabric_from_the_list() {
    let mut i = instance(ModLoader::Fabric, None);
    match install_next(&mut i, InstallEvent::VanillaInstalled) {
        Ok(Some(InstallStep::ListLoaderVersions { source, url })) => {
            assert_eq!(source, LoaderSource::Fabric);
            assert_eq!(url, "https://meta.fabricmc.net/v2/versions/loader/1.20.1");
        }
        other => panic!("unexpected {:?}", other),
    }
    let versions = vec![info("0.16.0", false), info("0.15.11", true)];
    let step = install_next(&mut i, InstallEvent::LoaderVersions { source: LoaderSource::Fabric, versions });
    match step {
        Ok(Some(InstallStep::InstallProfile { source, url, loader_version })) => {
            assert_eq!(source, LoaderSource::Fabric);
            assert_eq!(loader_version, "0.15.11");
            assert_eq!(url, "https://meta.fabricmc.net/v2/versions/loader/1.20.1/0.15.11/profile/json");
        }
        other => panic!("unexpected {:?}", other),
    }
    let step = install_next(
        &mut i,
        InstallEvent::ProfileInstalled {
            loader_version: "0.15.11".into(),
            profile_id: "fabric-loader-0.15.11-1.20.1".into(),
        },
    );
    assert!(matches!(step, Ok(Some(InstallStep::Save))));
    assert_eq!(i.loader_version.as_deref(), Some("0.15.11"));
    assert_eq!(i.launch_version_id.as_deref(), Some("fabric-loader-0.15.11-1.20.1"));
    assert_eq!(i.effective_launch_id(), "fabric-loader-0.15.11-1.20.1");
}

#[test]
fn installing_quilt_with_a_preset_version() {
    let mut i = instance(ModLoader::Quilt, Some("0.21.0"));
    match install_next(&mut i, InstallEvent::VanillaInstalled) {
        Ok(Some(InstallStep::InstallProfile { source, url, loader_version })) => {
            assert_eq!(source, LoaderSource::Quilt);
            assert_eq!(loader_version, "0.21.0");
            assert_eq!(url, "https://meta.quiltmc.org/v3/versions/loader/1.20.1/0.21.0/profile/json");
        }
        other => panic!("unexpected {:?}", other),
    }
}

#[test]
fn installing_unsupported_or_empty() {
    let mut i = instance(ModLoader::Forge, None);
    assert_eq!(
        install_next(&mut i, InstallEvent::VanillaInstalled).unwrap_err().message(),
        "forge isn’t available in Cubic yet"
    );
    let mut i = instance(ModLoader::Fabric, None);
    let e = install_next(&mut i, InstallEvent::LoaderVersions { source: LoaderSource::Fabric, versions: Vec::new() });
    assert_eq!(e.unwrap_err().message(), "No fabric loader versions found for 1.20.1");
}

#[test]
fn install_reports() {
    let r = install_report(&Ok(()));
    assert!(r.ok && !r.cancelled && r.error.is_none());
    let r = install_report(&Err(AppError::Cancelled));
    assert!(!r.ok && r.cancelled && r.error.is_none());
    let r = install_report(&Err(AppError::msg("boom")));
    assert!(!r.ok && !r.cancelled);
    assert_eq!(r.error.as_deref(), Some("boom"));
}
