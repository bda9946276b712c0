use cubic::paths::{join_path, AppPaths};

fn paths() -> AppPaths {
    AppPaths {
        config_dir: "/home/u/.config/minecraft-launcher".to_string(),
        data_dir: "/home/u/.local/share/minecraft-launcher".to_string(),
        cache_dir: "/home/u/.cache/minecraft-launcher".to_string(),
    }
}

#[test]
fn joining_paths() {
    assert_eq!(join_path("/a", "b"), "/a/b");
    assert_eq!(join_path("/a/", "b"), "/a/b");
    assert_eq!(join_path("", "b"), "b");
    assert_eq!(join_path("/a", "/etc"), "/etc");
    assert_eq!(join_path("/a", ""), "/a/");
}

#[test]
fn config_files() {
    let p = paths();
    assert_eq!(p.settings_file(), "/home/u/.config/minecraft-launcher/settings.json");
    assert_eq!(
        p.offline_session_file(),
        "/home/u/.config/minecraft-launcher/offline-session.json"
    );
}

#[test]
fn data_directories() {
    let p = paths();
    let d = "/home/u/.local/share/minecraft-launcher";
    assert_eq!(p.instances_dir(), format!("{d}/instances"));
    assert_eq!(p.libraries_dir(), format!("{d}/libraries"));
    assert_eq!(p.assets_dir(), format!("{d}/assets"));
    assert_eq!(p.versions_dir(), format!("{d}/versions"));
    assert_eq!(p.runtime_dir(), format!("{d}/runtime"));
    assert_eq!(p.download_tmp_dir(), "/home/u/.cache/minecraft-launcher/downloads");
}

#[test]
fn instance_directories() {
    let p = paths();
    let d = "/home/u/.local/share/minecraft-launcher/instances/abc";
    assert_eq!(p.instance_dir("abc"), d);
    assert_eq!(p.instance_game_dir("abc"), format!("{d}/minecraft"));
    assert_eq!(p.instance_mods_dir("abc"), format!("{d}/minecraft/mods"));
}

#[test]
fn instance_layout_nests() {
    let p = paths();
    for id in ["abc", "7f0c-11", "x/y"] {
        let inst = p.instance_dir(id);
        let game = p.instance_game_dir(id);
        let mods = p.instance_mods_dir(id);
        assert!(p.instances_dir().starts_with(&p.data_dir));
        assert!(inst.starts_with(&p.instances_dir()));
        assert!(game.starts_with(&inst));
        assert!(mods.starts_with(&game));
    }
}

#[test]
fn version_files() {
    let p = paths();
    let d = "/home/u/.local/share/minecraft-launcher/versions/1.20.1";
    assert_eq!(p.version_dir("1.20.1"), d);
    assert_eq!(p.version_json_path("1.20.1"), format!("{d}/1.20.1.json"));
    assert_eq!(p.version_jar_path("1.20.1"), format!("{d}/1.20.1.jar"));
    assert!(p.version_jar_path("1.20.1").starts_with(&p.version_dir("1.20.1")));
}

#[test]
fn directories_to_create() {
    let p = paths();
    let dirs = p.required_dirs();
    assert_eq!(dirs.len(), 8);
    assert_eq!(dirs[0], p.config_dir);
    assert_eq!(dirs[1], p.data_dir);
    assert_eq!(dirs[2], p.cache_dir);
    assert_eq!(dirs[3], p.instances_dir());
    assert_eq!(dirs[7], p.runtime_dir());
}

#[test]
fn java_binary_name() {
    assert_eq!(AppPaths::java_bin_name(), "java");
}
