use cubic::error::AppError;
use cubic::java::{
    accept_installed, accept_override, component_candidates, component_for_major,
    effective_component, find_system_java, java_path_from_which, java_requirement,
    managed_java_bin, parse_major_from_version_output, parse_major_version_string,
    plan_runtime_files, release_major, runtime_file_job, runtime_from_version_output,
    runtime_marker, runtime_platform_key, runtime_with_major, select_runtime_manifest,
    sort_runtimes_desc, unique_paths, version_output_text, JavaEvent, JavaRuntime, JavaSearch,
    JavaStep, ManifestRef,
    RuntimeDownload, RuntimeFileDownloads, RuntimeFileEntry, RuntimeIndex, RuntimeVersion,
};
use cubic::metadata::types::{JavaVersionReq, VersionJson};
use cubic::paths::AppPaths;

fn paths() -> AppPaths {
    AppPaths {
        config_dir: "/c".to_string(),
        data_dir: "/d".to_string(),
        cache_dir: "/k".to_string(),
    }
}

fn rt(path: &str, major: u32) -> JavaRuntime {
    runtime_with_major(path, major)
}

fn entry(kind: &str, target: Option<&str>) -> RuntimeFileEntry {
    RuntimeFileEntry {
        kind: kind.to_string(),
        downloads: None,
        executable: false,
        target: target.map(|t| t.to_string()),
    }
}

fn bare_version() -> VersionJson {
    VersionJson {
        id: "1.20.1".into(),
        version_type: None,
        inherits_from: None,
        main_class: "net.minecraft.client.main.Main".into(),
        minecraft_arguments: None,
        arguments: None,
        libraries: Vec::new(),
        asset_index: None,
        assets: None,
        downloads: None,
        java_version: None,
    }
}

#[test]
fn major_versions_of_version_strings() {
    assert_eq!(parse_major_version_string("17.0.2"), Some(17));
    assert_eq!(parse_major_version_string("1.8.0_372"), Some(8));
    assert_eq!(parse_major_version_string("21"), Some(21));
    assert_eq!(parse_major_version_string("21-ea"), Some(21));
    assert_eq!(parse_major_version_string("1"), None);
    assert_eq!(parse_major_version_string("abc"), None);
    assert_eq!(parse_major_version_string(""), None);
}

#[test]
fn major_version_of_java_output() {
    let out = "openjdk version \"21.0.2\" 2024-01-16\nOpenJDK Runtime Environment (build 21.0.2+13)\n";
    assert_eq!(parse_major_from_version_output(out), Some(21));
    let old = "java version \"1.8.0_381\"\nJava(TM) SE Runtime Environment";
    assert_eq!(parse_major_from_version_output(old), Some(8));
    assert_eq!(parse_major_from_version_output("no version here"), None);
    assert_eq!(parse_major_from_version_output("x \"unterminated"), None);
}

#[test]
fn major_version_of_release_files() {
    let text = "IMPLEMENTOR=\"Eclipse Adoptium\"\nJAVA_VERSION=\"17.0.9\"\nOS_NAME=\"Linux\"\n";
    assert_eq!(release_major(text), Some(17));
    assert_eq!(release_major("JAVA_VERSION=1.8.0_402\n"), Some(8));
    assert_eq!(release_major("OS_NAME=Linux\n"), None);
}

#[test]
fn runtimes_from_version_output() {
    assert_eq!(version_output_text("  \n", "out"), "out");
    assert_eq!(version_output_text("err", "out"), "err");
    let r = runtime_from_version_output("/usr/bin/java", "openjdk version \"17.0.1\"", "").unwrap();
    assert_eq!(r.path, "/usr/bin/java");
    assert_eq!(r.major_version, 17);
    assert!(r.vendor_hint.is_none());
    let e = runtime_from_version_output("/x/java", "garbage", "").unwrap_err();
    assert_eq!(e.message(), "Could not parse Java version from /x/java");
}

#[test]
fn which_output() {
    assert_eq!(java_path_from_which(true, "/usr/bin/java\n").unwrap(), "/usr/bin/java");
    assert_eq!(
        java_path_from_which(false, "/usr/bin/java").unwrap_err().message(),
        "`java` not found on PATH"
    );
    assert!(java_path_from_which(true, "   ").is_err());
}

#[test]
fn runtimes_sort_newest_first() {
    let sorted = sort_runtimes_desc(vec![rt("/a", 8), rt("/b", 21), rt("/c", 17), rt("/d", 21)]);
    let got: Vec<(&str, u32)> = sorted.iter().map(|r| (r.path.as_str(), r.major_version)).collect();
    assert_eq!(got, vec![("/b", 21), ("/d", 21), ("/c", 17), ("/a", 8)]);
}

#[test]
fn system_java_is_the_newest_suitable() {
    let found = find_system_java(vec![rt("/a", 8), rt("/b", 17), rt("/c", 21)], 17).unwrap();
    assert_eq!(found.path, "/c");
    assert_eq!(found.major_version, 21);
    match find_system_java(vec![rt("/a", 8), rt("/b", 11)], 17) {
        Err(AppError::JavaNotFound { required }) => assert_eq!(required, 17),
        other => panic!("unexpected {:?}", other.map(|r| r.path)),
    }
    assert!(find_system_java(Vec::new(), 8).is_err());
}

#[test]
fn duplicate_paths_are_dropped() {
    let v = vec!["/a".to_string(), "/b".to_string(), "/a".to_string(), "/c".to_string(), "/b".to_string()];
    assert_eq!(unique_paths(&v), vec!["/a", "/b", "/c"]);
}

#[test]
fn components_by_major() {
    assert_eq!(component_for_major(8), "jre-legacy");
    assert_eq!(component_for_major(0), "jre-legacy");
    assert_eq!(component_for_major(9), "java-runtime-alpha");
    assert_eq!(component_for_major(16), "java-runtime-alpha");
    assert_eq!(component_for_major(17), "java-runtime-gamma");
    assert_eq!(component_for_major(18), "java-runtime-delta");
    assert_eq!(component_for_major(21), "java-runtime-delta");
    assert_eq!(component_for_major(22), "java-runtime-epsilon");
    assert_eq!(effective_component(Some("java-runtime-gamma"), 8), "java-runtime-gamma");
    assert_eq!(effective_component(Some(""), 21), "java-runtime-delta");
    assert_eq!(effective_component(None, 17), "java-runtime-gamma");
}

#[test]
fn managed_runtime_paths() {
    let p = paths();
    assert_eq!(managed_java_bin(&p, "java-runtime-delta"), "/d/runtime/java-runtime-delta/bin/java");
    assert_eq!(runtime_marker(&p, "jre-legacy"), "/d/runtime/jre-legacy/.cubic-complete");
}

#[test]
fn candidate_runtime_locations() {
    let p = paths();
    let c = component_candidates(&p, "java-runtime-gamma", None, None, Some("/home/u"), true);
    assert_eq!(
        c,
        vec![
            "/d/runtime/java-runtime-gamma/bin/java",
            "/home/u/.local/share/PrismLauncher/java/java-runtime-gamma/bin/java",
            "/home/u/.minecraft/runtime/java-runtime-gamma/linux/java-runtime-gamma/bin/java",
        ]
    );
    let c = component_candidates(&p, "g", Some("/ad"), Some("/la"), Some("/h"), false);
    assert_eq!(
        c,
        vec![
            "/d/runtime/g/bin/java",
            "/ad/PrismLauncher/java/g/bin/java",
            "/ad/.minecraft/runtime/g/windows-x64/g/bin/java",
            "/la/PrismLauncher/java/g/bin/java",
        ]
    );
}

#[test]
fn platform_keys() {
    assert_eq!(runtime_platform_key("linux", "x86_64"), "linux");
    assert_eq!(runtime_platform_key("linux", "x86"), "linux-i386");
    assert_eq!(runtime_platform_key("linux", "aarch64"), "linux");
    assert_eq!(runtime_platform_key("macos", "aarch64"), "mac-os-arm64");
    assert_eq!(runtime_platform_key("macos", "x86_64"), "mac-os");
    assert_eq!(runtime_platform_key("windows", "aarch64"), "windows-arm64");
    assert_eq!(runtime_platform_key("windows", "x86"), "windows-x86");
    assert_eq!(runtime_platform_key("windows", "x86_64"), "windows-x64");
    assert_eq!(runtime_platform_key("freebsd", "x86_64"), "linux");
}

#[test]
fn accepting_runtimes() {
    assert_eq!(accept_override(rt("/j", 21), 17).unwrap().path, "/j");
    assert_eq!(
        accept_override(rt("/j", 8), 17).unwrap_err().message(),
        "Configured Java at /j is major 8, need 17"
    );
    assert_eq!(accept_installed("c", rt("/j", 17), 17).unwrap().major_version, 17);
    assert_eq!(
        accept_installed("jre-legacy", rt("/j", 8), 21).unwrap_err().message(),
        "Installed jre-legacy is major 8, need 21"
    );
}

#[test]
fn java_requirements_of_profiles() {
    let mut v = bare_version();
    assert_eq!(java_requirement(&v), (8, None));
    v.java_version = Some(JavaVersionReq { component: Some("java-runtime-delta".into()), major_version: 21 });
    assert_eq!(java_requirement(&v), (21, Some("java-runtime-delta".to_string())));
}

#[test]
fn choosing_a_runtime_manifest() {
    let m = ManifestRef { sha1: "s".into(), url: "u".into() };
    let all: RuntimeIndex = vec![(
        "linux".to_string(),
        vec![
            ("java-runtime-gamma".to_string(), vec![RuntimeVersion { manifest: m }]),
            ("jre-legacy".to_string(), Vec::new()),
        ],
    )];
    let got = select_runtime_manifest(&all, "linux", "java-runtime-gamma").unwrap();
    assert_eq!((got.sha1.as_str(), got.url.as_str()), ("s", "u"));
    assert_eq!(
        select_runtime_manifest(&all, "linux", "jre-legacy").unwrap_err().message(),
        "Empty runtime list for jre-legacy"
    );
    assert_eq!(
        select_runtime_manifest(&all, "mac-os", "jre-legacy").unwrap_err().message(),
        "No Mojang Java runtime 'jre-legacy' for platform 'mac-os'"
    );
    assert_eq!(
        select_runtime_manifest(&all, "linux", "nope").unwrap_err().message(),
        "No Mojang Java runtime 'nope' for platform 'linux'"
    );
}

#[test]
fn runtime_layout() {
    let files = vec![
        ("bin".to_string(), entry("directory", None)),
        ("lib/z.so".to_string(), entry("file", None)),
        ("bin/java".to_string(), entry("file", None)),
        ("lib/link".to_string(), entry("link", Some("z.so"))),
        ("lib/broken".to_string(), entry("link", None)),
        ("lib".to_string(), entry("directory", None)),
        ("other".to_string(), entry("socket", None)),
    ];
    let plan = plan_runtime_files(files);
    assert_eq!(plan.dirs, vec!["bin", "lib"]);
    let names: Vec<&str> = plan.files.iter().map(|f| f.0.as_str()).collect();
    assert_eq!(names, vec!["bin/java", "lib/z.so"]);
    assert_eq!(plan.links, vec![("lib/link".to_string(), "z.so".to_string())]);
}

#[test]
fn runtime_file_jobs() {
    let mut e = entry("file", None);
    assert_eq!(
        runtime_file_job("/r", "bin/java", e.clone()).unwrap_err().message(),
        "Runtime file bin/java is missing downloads"
    );
    e.executable = true;
    e.downloads = Some(RuntimeFileDownloads {
        raw: RuntimeDownload { sha1: "h".into(), url: "https://x/java".into(), size: 42 },
    });
    let job = runtime_file_job("/r", "bin/java", e).unwrap();
    assert_eq!(job.dest, "/r/bin/java");
    assert_eq!(job.sha1, "h");
    assert_eq!(job.url, "https://x/java");
    assert_eq!(job.size, 42);
    assert!(job.executable);
}

#[test]
fn java_search_prefers_the_configured_java() {
    let search = JavaSearch::new(17, None);
    assert_eq!(search.component, "java-runtime-gamma");
    match search.next(JavaEvent::Begin { override_path: Some("/opt/jdk/bin/java".into()) }) {
        JavaStep::InspectOverride(p) => assert_eq!(p, "/opt/jdk/bin/java"),
        other => panic!("unexpected {:?}", other),
    }
    match search.next(JavaEvent::OverrideInspected(Ok(rt("/opt/jdk/bin/java", 21)))) {
        JavaStep::Finish(Ok(r)) => assert_eq!(r.major_version, 21),
        other => panic!("unexpected {:?}", other),
    }
    match search.next(JavaEvent::OverrideInspected(Ok(rt("/old/java", 8)))) {
        JavaStep::Finish(Err(e)) => assert_eq!(e.message(), "Configured Java at /old/java is major 8, need 17"),
        other => panic!("unexpected {:?}", other),
    }
}

#[test]
fn java_search_falls_back_in_order() {
    let search = JavaSearch::new(21, Some(""));
    assert_eq!(search.component, "java-runtime-delta");
    assert!(matches!(search.next(JavaEvent::Begin { override_path: None }), JavaStep::FindComponent));
    assert!(matches!(search.next(JavaEvent::ComponentFound(None)), JavaStep::ScanSystem));
    assert!(matches!(
        search.next(JavaEvent::ComponentFound(Some("/c/bin/java".into()))),
        JavaStep::InspectComponent(_)
    ));
    assert!(matches!(search.next(JavaEvent::ComponentInspected(Ok(rt("/c", 17)))), JavaStep::ScanSystem));
    assert!(matches!(search.next(JavaEvent::ComponentInspected(Err(AppError::msg("x")))), JavaStep::ScanSystem));
    match search.next(JavaEvent::ComponentInspected(Ok(rt("/c", 21)))) {
        JavaStep::Finish(Ok(r)) => assert_eq!(r.path, "/c"),
        other => panic!("unexpected {:?}", other),
    }
    match search.next(JavaEvent::SystemScanned(Ok(vec![rt("/a", 17), rt("/b", 22), rt("/c", 21)]))) {
        JavaStep::Finish(Ok(r)) => assert_eq!(r.path, "/b"),
        other => panic!("unexpected {:?}", other),
    }
    assert!(matches!(search.next(JavaEvent::SystemScanned(Ok(vec![rt("/a", 17)]))), JavaStep::Install));
    assert!(matches!(search.next(JavaEvent::SystemScanned(Err(AppError::msg("io")))), JavaStep::Install));
    assert!(matches!(search.next(JavaEvent::Installed(Ok(()))), JavaStep::InspectInstalled));
    assert!(matches!(search.next(JavaEvent::Installed(Err(AppError::Cancelled))), JavaStep::Finish(Err(AppError::Cancelled))));
    match search.next(JavaEvent::InstalledInspected(Ok(rt("/i", 17)))) {
        JavaStep::Finish(Err(e)) => assert_eq!(e.message(), "Installed java-runtime-delta is major 17, need 21"),
        other => panic!("unexpected {:?}", other),
    }
    assert!(matches!(search.next(JavaEvent::InstalledInspected(Ok(rt("/i", 21)))), JavaStep::Finish(Ok(_))));
}
