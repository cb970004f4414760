use antman::crate_manager::{
    add_crate_plan, collect_results, compile_plan, extern_crate_dir, fetch_target,
    install_list, unzip_dir_name,
};
use antman::crate_toml_config::{
    CrateKind, Deps, DependencyDetail, DependencyValue, DetailedDependency, Lib, Package, Source,
};
use antman::krate::{Crate, CrateIndex, CrateVersion, IndexError, Version};

fn index() -> CrateIndex {
    CrateIndex::from_entries(vec![(
            "json".to_string(),
            Crate {
                versions: vec![
                    CrateVersion { version: Version(1, 0, 0), url: "https://x/json-1.zip".to_string() },
                    CrateVersion { version: Version(1, 4, 2), url: "https://x/json-14.zip".to_string() },
                ],
            },
        )])
    .unwrap()
}

fn detail(version: Option<&str>, path: Option<&str>, git: Option<&str>) -> DependencyValue {
    DependencyValue::Detailed(DependencyDetail {
        version: version.map(|s| s.to_string()),
        path: path.map(|s| s.to_string()),
        git: git.map(|s| s.to_string()),
    })
}

fn dep(name: &str, version: &str, source: Source) -> DetailedDependency {
    DetailedDependency { name: name.to_string(), version: version.to_string(), path: None, source }
}

#[test]
fn bare_version_keeps_version_and_takes_index_url() {
    let d = DependencyValue::Version("0.9".to_string()).resolve("json", &index()).unwrap();
    assert_eq!(d.name, "json");
    assert_eq!(d.version, "0.9");
    assert_eq!(d.path, None);
    assert!(matches!(d.source, Source::Normal(ref u) if u == "https://x/json-14.zip"));
}

#[test]
fn git_dependency_needs_no_index() {
    let v = detail(Some("2.0"), Some("sub"), Some("https://git/x"));
    assert!(!v.needs_index());
    let d = v.resolve("x", &CrateIndex::empty()).unwrap();
    assert_eq!(d.version, "2.0");
    assert_eq!(d.path.as_deref(), Some("sub"));
    assert!(matches!(d.source, Source::Git(ref g) if g == "https://git/x"));
}

#[test]
fn git_dependency_without_version_has_empty_version() {
    let d = detail(None, None, Some("g")).resolve("x", &CrateIndex::empty()).unwrap();
    assert_eq!(d.version, "");
    assert_eq!(d.path, None);
}

#[test]
fn path_dependency_comes_from_path() {
    let v = detail(None, Some("../local"), None);
    assert!(!v.needs_index());
    let d = v.resolve("local", &CrateIndex::empty()).unwrap();
    assert_eq!(d.version, "");
    assert_eq!(d.path.as_deref(), Some("../local"));
    assert!(matches!(d.source, Source::Path(ref p) if p == "../local"));
}

#[test]
fn table_without_source_takes_latest_from_index() {
    let v = detail(Some("1.0.0"), None, None);
    assert!(v.needs_index());
    let d = v.resolve("json", &index()).unwrap();
    assert_eq!(d.version, "1.4.2");
    assert!(matches!(d.source, Source::Normal(ref u) if u == "https://x/json-14.zip"));
}

#[test]
fn resolving_unknown_crate_fails() {
    assert_eq!(
        DependencyValue::Version("1".to_string()).resolve("nope", &index()).unwrap_err(),
        IndexError::CrateNotFound
    );
    assert!(DependencyValue::Version("1".to_string()).needs_index());
}

#[test]
fn fetch_target_names_archive_and_dirs() {
    let t = fetch_target(&dep("json", "1.4.2", Source::Normal("u".to_string()))).unwrap();
    assert_eq!(t.url, "u");
    assert_eq!(t.crate_dir, "json");
    assert_eq!(t.version_dir, "json-1.4.2");
    assert_eq!(t.archive, "json-1.4.2.zip");
    let g = fetch_target(&dep("g", "", Source::Git("gitu".to_string()))).unwrap();
    assert_eq!(g.url, "gitu");
    assert_eq!(g.archive, "g-.zip");
}

#[test]
fn path_dependency_is_not_fetched() {
    assert!(fetch_target(&dep("p", "1", Source::Path("p".to_string()))).is_none());
}

#[test]
fn unzip_dir_uses_backslash() {
    assert_eq!(unzip_dir_name(&dep("json", "1.0", Source::Normal("u".to_string()))), "json\\json-1.0");
}

#[test]
fn extern_dir_is_name_version_src() {
    assert_eq!(
        extern_crate_dir(&dep("json", "1.0", Source::Normal("u".to_string()))),
        vec!["json".to_string(), "json-1.0".to_string(), "src".to_string()]
    );
}

#[test]
fn install_list_keeps_downloaded_in_order() {
    let results = vec![
        (Some("a.zip"), dep("a", "1", Source::Normal("u".to_string()))),
        (None, dep("b", "2", Source::Path("p".to_string()))),
        (Some("c.zip"), dep("c", "3", Source::Normal("u".to_string()))),
    ];
    assert_eq!(install_list(&results), vec![(0, "a\\a-1".to_string()), (2, "c\\c-3".to_string())]);
    let none: Vec<(Option<&str>, DetailedDependency)> = vec![];
    assert!(install_list(&none).is_empty());
}

#[test]
fn compile_plan_lists_every_dependency() {
    let results = vec![
        (None, dep("a", "1", Source::Normal("u".to_string()))),
        (Some(7u8), dep("b", "2", Source::Normal("u".to_string()))),
    ];
    let kind = CrateKind::Package {
        package: Package { name: "app".to_string(), version: "0.1.0".to_string(), edition: "2024".to_string() },
    };
    let plan = compile_plan(&kind, &results);
    assert_eq!(plan.extern_dirs.len(), 2);
    assert_eq!(plan.extern_dirs[0], vec!["a", "a-1", "src"]);
    assert_eq!(plan.installs, vec![(1, "b\\b-2".to_string())]);
    assert_eq!(plan.output_name, "app");
    let lib = CrateKind::Lib {
        lib: Lib { name: "l".to_string(), version: "1".to_string(), edition: "e".to_string() },
    };
    assert!(lib.is_lib());
    assert!(!kind.is_lib());
    assert_eq!(lib.crate_name(), "l");
}

#[test]
fn add_crate_plan_uses_latest_version() {
    let p = add_crate_plan(&index(), "json").unwrap();
    assert_eq!(p.version.version, Version(1, 4, 2));
    assert_eq!(p.version_dir, "json-1.4.2");
    assert_eq!(p.archive, "json-1.4.2.zip");
    assert_eq!(add_crate_plan(&index(), "x").unwrap_err(), IndexError::CrateNotFound);
}

#[test]
fn added_crate_is_where_build_looks() {
    let p = add_crate_plan(&index(), "json").unwrap();
    let d = DependencyValue::Version(p.version.version.to_string()).resolve("json", &index()).unwrap();
    let dir = extern_crate_dir(&d);
    assert_eq!(dir[0], "json");
    assert_eq!(dir[1], p.version_dir);
}

#[test]
fn collect_results_all_ok() {
    let r: Result<Vec<i32>, String> = collect_results(vec![Ok(1), Ok(2), Ok(3)]);
    assert_eq!(r, Ok(vec![1, 2, 3]));
    let e: Result<Vec<i32>, String> = collect_results(vec![]);
    assert_eq!(e, Ok(vec![]));
}

#[test]
fn collect_results_returns_first_error() {
    let r: Result<Vec<i32>, &str> = collect_results(vec![Ok(1), Err("first"), Ok(3), Err("second")]);
    assert_eq!(r, Err("first"));
}

#[test]
fn deps_refuse_duplicate_names() {
    let v = |s: &str| DependencyValue::Version(s.to_string());
    assert!(Deps::from_entries(vec![("a".to_string(), v("1")), ("a".to_string(), v("2"))]).is_none());
    let d = Deps::from_entries(vec![("a".to_string(), v("1")), ("b".to_string(), v("2"))]).unwrap();
    assert_eq!(d.entries_vec().len(), 2);
    assert_eq!(d.entries_vec()[1].0, "b");
    assert!(Deps::empty().entries_vec().is_empty());
}
