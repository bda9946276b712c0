use cubic::instance::ModLoader;
use cubic::mods::{
    latest_mod_file, mod_destination, search_limit, search_request, user_agent, versions_request,
    MrFile, MrHashes, MrVersion,
};
use cubic::paths::AppPaths;

fn file(name: &str, primary: bool) -> MrFile {
    MrFile {
        url: format!("https://cdn.modrinth.com/{name}"),
        filename: name.to_string(),
        size: 100,
        primary,
        hashes: MrHashes { sha1: Some(format!("sha-{name}")) },
    }
}

fn version(id: &str, files: Vec<MrFile>) -> MrVersion {
    MrVersion { id: id.into(), name: format!("Name {id}"), version_number: "1.0".into(), files }
}

fn param<'a>(q: &'a [(String, String)], k: &str) -> &'a str {
    q.iter().find(|(a, _)| a == k).map(|(_, b)| b.as_str()).unwrap()
}

#[test]
fn hit_limits() {
    assert_eq!(search_limit(0), 1);
    assert_eq!(search_limit(1), 1);
    assert_eq!(search_limit(20), 20);
    assert_eq!(search_limit(40), 40);
    assert_eq!(search_limit(500), 40);
}

#[test]
fn search_requests() {
    let r = search_request("  sodium ", "1.20.1", ModLoader::Fabric, 40).unwrap();
    assert_eq!(r.url, "https://api.modrinth.com/v2/search");
    let keys: Vec<&str> = r.query.iter().map(|(k, _)| k.as_str()).collect();
    assert_eq!(keys, vec!["query", "limit", "index", "facets"]);
    assert_eq!(param(&r.query, "query"), "sodium");
    assert_eq!(param(&r.query, "limit"), "40");
    assert_eq!(param(&r.query, "index"), "relevance");
    assert_eq!(
        param(&r.query, "facets"),
        r#"[["project_type:mod"],["versions:1.20.1"],["categories:fabric"]]"#
    );
    let r = search_request("   ", "1.19", ModLoader::NeoForge, 0).unwrap();
    assert_eq!(param(&r.query, "index"), "downloads");
    assert_eq!(param(&r.query, "limit"), "1");
    assert_eq!(param(&r.query, "query"), "");
    assert_eq!(
        param(&r.query, "facets"),
        r#"[["project_type:mod"],["versions:1.19"],["categories:neoforge"]]"#
    );
    let e = search_request("x", "1.20", ModLoader::Vanilla, 10).unwrap_err();
    assert_eq!(e.message(), "Pick Fabric or Quilt on the instance before installing mods");
}

#[test]
fn facets_escape_their_text() {
    let r = search_request("x", "1.20\"", ModLoader::Quilt, 5).unwrap();
    assert_eq!(
        param(&r.query, "facets"),
        r#"[["project_type:mod"],["versions:1.20\""],["categories:quilt"]]"#
    );
}

#[test]
fn version_requests() {
    let r = versions_request("AANobbMI", "1.20.1", ModLoader::Quilt).unwrap();
    assert_eq!(r.url, "https://api.modrinth.com/v2/project/AANobbMI/version");
    assert_eq!(param(&r.query, "game_versions"), r#"["1.20.1"]"#);
    assert_eq!(param(&r.query, "loaders"), r#"["quilt"]"#);
    let e = versions_request("p", "1.20.1", ModLoader::Vanilla).unwrap_err();
    assert_eq!(e.message(), "Vanilla instances cannot install mods");
}

#[test]
fn the_first_primary_file_is_installed() {
    let versions = vec![
        version("v2", vec![file("a.jar", false), file("b.jar", true), file("c.jar", true)]),
        version("v1", vec![file("old.jar", true)]),
    ];
    let f = latest_mod_file(&versions).unwrap();
    assert_eq!(f.version_id, "v2");
    assert_eq!(f.name, "Name v2");
    assert_eq!(f.version_number, "1.0");
    assert_eq!(f.filename, "b.jar");
    assert_eq!(f.url, "https://cdn.modrinth.com/b.jar");
    assert_eq!(f.sha1.as_deref(), Some("sha-b.jar"));
    assert_eq!(f.size, 100);
}

#[test]
fn without_a_primary_file_the_first_is_installed() {
    let versions = vec![version("v", vec![file("a.jar", false), file("b.jar", false)])];
    assert_eq!(latest_mod_file(&versions).unwrap().filename, "a.jar");
}

#[test]
fn missing_versions_and_files() {
    assert_eq!(
        latest_mod_file(&Vec::new()).unwrap_err().message(),
        "No compatible Modrinth version found"
    );
    assert_eq!(
        latest_mod_file(&vec![version("v", Vec::new())]).unwrap_err().message(),
        "Modrinth version has no files"
    );
}

#[test]
fn mod_destinations() {
    let p = AppPaths { config_dir: "/c".into(), data_dir: "/d".into(), cache_dir: "/k".into() };
    assert_eq!(mod_destination(&p, "i", "sodium.jar"), "/d/instances/i/minecraft/mods/sodium.jar");
    assert_eq!(user_agent(), "Cubic/0.1 (github.com/twinsson/Cubic)");
}
