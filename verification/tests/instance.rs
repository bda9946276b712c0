use cubic::error::AppError;
use cubic::instance::{
    check_mod_file_name, new_instance, select_mod_files, sort_instances, CreateInstanceRequest,
    Instance, ModLoader, PathSanitize,
};

fn instance(name: &str) -> Instance {
    Instance {
        id: format!("id-{name}"),
        name: name.to_string(),
        version_id: "1.20.1".to_string(),
        loader: ModLoader::Vanilla,
        loader_version: None,
        launch_version_id: None,
        created_at: "2024-01-01T00:00:00+00:00".to_string(),
    }
}

fn request(name: &str, version: &str, loader: ModLoader) -> CreateInstanceRequest {
    CreateInstanceRequest {
        name: name.to_string(),
        version_id: version.to_string(),
        loader,
        loader_version: None,
    }
}

#[test]
fn loader_names() {
    assert_eq!(ModLoader::Vanilla.as_str(), "vanilla");
    assert_eq!(ModLoader::Fabric.as_str(), "fabric");
    assert_eq!(ModLoader::Quilt.as_str(), "quilt");
    assert_eq!(ModLoader::Forge.as_str(), "forge");
    assert_eq!(ModLoader::NeoForge.as_str(), "neoforge");
    assert_eq!(ModLoader::default(), ModLoader::Vanilla);
}

#[test]
fn loader_abilities() {
    assert!(!ModLoader::Vanilla.supports_mods());
    assert!(ModLoader::Forge.supports_mods());
    assert!(ModLoader::Quilt.supports_mods());
    assert!(ModLoader::Vanilla.is_implemented());
    assert!(ModLoader::Fabric.is_implemented());
    assert!(ModLoader::Quilt.is_implemented());
    assert!(!ModLoader::Forge.is_implemented());
    assert!(!ModLoader::NeoForge.is_implemented());
}

#[test]
fn launch_id_prefers_the_installed_profile() {
    let mut i = instance("a");
    assert_eq!(i.effective_launch_id(), "1.20.1");
    i.launch_version_id = Some(String::new());
    assert_eq!(i.effective_launch_id(), "1.20.1");
    i.launch_version_id = Some("fabric-loader-0.15.0-1.20.1".to_string());
    assert_eq!(i.effective_launch_id(), "fabric-loader-0.15.0-1.20.1");
}

#[test]
fn recording_an_install() {
    let mut i = instance("a");
    i.loader_version = Some("0.14".into());
    i.record_install(None, "1.20.1".into());
    assert_eq!(i.loader_version.as_deref(), Some("0.14"));
    assert_eq!(i.launch_version_id.as_deref(), Some("1.20.1"));
    i.record_install(Some("0.15".into()), "fabric-x".into());
    assert_eq!(i.loader_version.as_deref(), Some("0.15"));
    assert_eq!(i.launch_version_id.as_deref(), Some("fabric-x"));
    assert_eq!(i.name, "a");
}

#[test]
fn creating_instances() {
    let i = new_instance(request("  My World ", "1.20.1", ModLoader::Fabric)).unwrap();
    assert_eq!(i.name, "My World");
    assert_eq!(i.version_id, "1.20.1");
    assert_eq!(i.loader, ModLoader::Fabric);
    assert!(i.launch_version_id.is_none());
    assert_eq!(i.id.len(), 36);
    assert_eq!(&i.id[14..15], "4");
    assert!(i.created_at.ends_with("+00:00"));
    let t = i.created_at.as_bytes();
    assert_eq!(t[4], b'-');
    assert_eq!(t[7], b'-');
    assert_eq!(t[10], b'T');
    assert_eq!(t[13], b':');
    assert_eq!(t[16], b':');
    assert!(t[..4].iter().all(|b| b.is_ascii_digit()));
    assert!([25, 29, 32, 35].contains(&t.len()));
    let j = new_instance(request("Other", "1.20.1", ModLoader::Vanilla)).unwrap();
    assert_ne!(i.id, j.id);
}

#[test]
fn refused_instance_requests() {
    let e = new_instance(request("  ", "1.20.1", ModLoader::Vanilla)).unwrap_err();
    assert_eq!(e.message(), "Instance name cannot be empty");
    let e = new_instance(request("a", " ", ModLoader::Vanilla)).unwrap_err();
    assert_eq!(e.message(), "Version is required");
    let e = new_instance(request("a", "1.20.1", ModLoader::Forge)).unwrap_err();
    assert_eq!(
        e.message(),
        "forge loader support is not ready yet — pick Vanilla, Fabric, or Quilt"
    );
    let e = new_instance(request("a", "1.20.1", ModLoader::NeoForge)).unwrap_err();
    assert_eq!(
        e.message(),
        "neoforge loader support is not ready yet — pick Vanilla, Fabric, or Quilt"
    );
}

#[test]
fn instances_sort_by_name_ignoring_case() {
    let list = vec![instance("beta"), instance("Alpha"), instance("gamma"), instance("alpha")];
    let sorted = sort_instances(list);
    let names: Vec<&str> = sorted.iter().map(|i| i.name.as_str()).collect();
    assert_eq!(names, vec!["Alpha", "alpha", "beta", "gamma"]);
    assert!(sort_instances(Vec::new()).is_empty());
}

#[test]
fn mod_files_are_selected_and_sorted() {
    let names = vec![
        "z.jar".to_string(),
        "notes.txt".to_string(),
        "a.jar.disabled".to_string(),
        "b.JAR".to_string(),
        "m.jar".to_string(),
    ];
    assert_eq!(select_mod_files(names), vec!["a.jar.disabled", "m.jar", "z.jar"]);
}

#[test]
fn mod_file_names_are_sanitised() {
    assert!(PathSanitize("sodium.jar").is_ok());
    assert!(!PathSanitize("").is_ok());
    assert!(!PathSanitize("../x.jar").is_ok());
    assert!(!PathSanitize("a/b.jar").is_ok());
    assert!(!PathSanitize("a\\b.jar").is_ok());
    assert!(check_mod_file_name("ok.jar").is_ok());
    match check_mod_file_name("..") {
        Err(AppError::Message(m)) => assert_eq!(m, "Invalid mod file name"),
        other => panic!("unexpected {:?}", other),
    }
}
