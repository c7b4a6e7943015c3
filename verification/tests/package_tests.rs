use rsup::package::package_info::{
    compare_version, keep_selected, try_compare_version, version_bounds_hold, DistTags, PkgInfo, VersionInfo,
};
use rsup::package::package_json::{
    collect_updated, manager_command, plan_update, quick_install_args, registry_url, remove_args, update_args,
    was_updated, CommandError, PkgJson, QuickInstallParams, RemoveParams, UpdateParams,
};
use rsup::package::{file_exist, map_insert, package_json_location, PackageJsonPath, Pkg};
use rsup::utils::rs_env::Env;

fn keys<V>(v: &[(String, V)]) -> Vec<&str> {
    v.iter().map(|(k, _)| k.as_str()).collect()
}

fn numbered(ks: &[&str]) -> Vec<(String, u32)> {
    ks.iter().enumerate().map(|(i, k)| (k.to_string(), i as u32)).collect()
}

fn version_info(v: &str) -> VersionInfo {
    VersionInfo {
        name: "pkg".to_string(),
        version: Some(v.to_string()),
        homepage: None,
        description: None,
        keywords: None,
        author: None,
        maintainers: None,
        dependencies: None,
        dev_dependencies: None,
        peer_dependencies: None,
        dist: None,
    }
}

fn registry_info(name: &str, latest: &str, versions: &[&str]) -> PkgInfo {
    let mut p = PkgInfo::default();
    p.name = name.to_string();
    p.dist_tags = DistTags { latest: latest.to_string() };
    p.versions = versions.iter().map(|v| (v.to_string(), version_info(v))).collect();
    p
}

fn update(name: &str, version: &str, is_dev: bool, is_change: Option<bool>) -> UpdateParams {
    UpdateParams { name: name.to_string(), version: version.to_string(), is_dev, is_change }
}

#[test]
fn compare_version_keeps_upgrades_in_order() {
    let all = numbered(&["1.0.0", "1.3.0", "1.1.0", "1.1.1-beta.1", "0.9.0", "1.2.0", "latest"]);
    let r = compare_version("^1.0.0", "1.2.0", all);
    assert_eq!(keys(&r), vec!["1.1.0", "1.2.0"]);
    assert_eq!(r[0].1, 2);
    assert_eq!(r[1].1, 5);
}

#[test]
fn compare_version_clears_range_prefix_and_suffix() {
    let all = numbered(&["1.2.3", "1.2.4", "2.0.0"]);
    assert_eq!(keys(&compare_version("~1.2.3-beta", "2.0.0", all.clone())), vec!["1.2.4", "2.0.0"]);
    assert_eq!(keys(&compare_version(">=1.2.3 <3", "2.0.0", all.clone())), vec!["1.2.4", "2.0.0"]);
    assert_eq!(keys(&compare_version("1.2.3", "1.2.3", all)), Vec::<&str>::new());
}

#[test]
fn compare_version_drops_non_canonical_keys() {
    let all = numbered(&["01.3.0", "1.3.0", "v1.4.0"]);
    assert_eq!(keys(&compare_version("1.0.0", "2.0.0", all)), vec!["1.3.0"]);
}

#[test]
fn try_compare_version_refuses_bad_versions() {
    assert!(try_compare_version("latest", "1.0.0", numbered(&["1.0.0"])).is_none());
    assert!(try_compare_version("^1.0.0", "next", numbered(&["1.0.0"])).is_none());
    assert!(try_compare_version("^1.0", "1.0.0", numbered(&["1.0.0"])).is_none());
    let r = try_compare_version("^1.0.0", "1.1.0", numbered(&["1.1.0"])).unwrap();
    assert_eq!(keys(&r), vec!["1.1.0"]);
    assert!(version_bounds_hold("^1.0.0", "1.1.0"));
    assert!(!version_bounds_hold("*", "1.1.0"));
}

#[test]
fn file_exist_appends_package_json() {
    assert_eq!(file_exist(".".to_string()), "./package.json");
    assert_eq!(file_exist("/a/package.json".to_string()), "/a/package.json");
    assert_eq!(file_exist("/a/b".to_string()), "/a/b/package.json");
}

#[test]
fn package_json_location_cases() {
    match package_json_location("/proj", true) {
        PackageJsonPath::Exact(p) => assert_eq!(p, "/proj/package.json"),
        other => panic!("unexpected {:?}", other),
    }
    match package_json_location("/proj/package.json", false) {
        PackageJsonPath::Exact(p) => assert_eq!(p, "/proj/package.json"),
        other => panic!("unexpected {:?}", other),
    }
    match package_json_location("/proj/readme.md", false) {
        PackageJsonPath::NextTo(p) => assert_eq!(p, "/proj/readme.md"),
        other => panic!("unexpected {:?}", other),
    }
}

#[test]
fn generate_pkg_info_entries() {
    assert!(Pkg::generate_pkg_info(None).is_empty());
    let r = Pkg::generate_pkg_info(Some(vec![
        ("vue".to_string(), "^3.4.0".to_string()),
        ("axios".to_string(), "1.6.0".to_string()),
    ]));
    assert_eq!(r.len(), 2);
    assert_eq!(r[0].0, "vue");
    assert_eq!(r[0].1.name, "vue");
    assert_eq!(r[0].1.version, Some("^3.4.0".to_string()));
    assert!(!r[0].1.is_finish && !r[0].1.is_del && !r[0].1.is_dev);
    assert!(r[0].1.versions.is_empty());
    assert_eq!(r[1].1.name, "axios");
}

fn project() -> Pkg {
    let mut p = Pkg::new();
    let json = PkgJson {
        name: Some("demo".to_string()),
        version: Some("0.1.0".to_string()),
        description: None,
        scripts: None,
        dependencies: Some(vec![("vue".to_string(), "^3.0.0".to_string())]),
        dev_dependencies: Some(vec![("vite".to_string(), "^5.0.0".to_string())]),
    };
    p.apply_pkg_json("/proj/package.json".to_string(), json, Some("npm".to_string()));
    p
}

#[test]
fn new_and_applied_project() {
    let empty = Pkg::new();
    assert_eq!(empty.path, "");
    assert!(empty.name.is_none() && empty.dependencies.is_empty());
    let p = project();
    assert_eq!(p.path, "/proj/package.json");
    assert_eq!(p.name, Some("demo".to_string()));
    assert_eq!(p.manager_name, Some("npm".to_string()));
    assert_eq!(p.dependencies[0].0, "vue");
    assert_eq!(p.dev_dependencies[0].0, "vite");
}

#[test]
fn fetched_info_computes_upgrades() {
    let mut p = project();
    let info = registry_info("vue", "3.2.0", &["3.0.0", "3.1.0", "3.2.0", "3.3.0-alpha"]);
    assert!(p.try_apply_fetched_info("vue".to_string(), "^3.0.0".to_string(), false, info));
    let (k, e) = &p.dependencies[0];
    assert_eq!(k, "vue");
    assert_eq!(p.dependencies.len(), 1);
    assert!(e.is_finish);
    assert!(!e.is_dev);
    assert_eq!(e.version, Some("^3.0.0".to_string()));
    assert_eq!(keys(&e.versions), vec!["3.1.0", "3.2.0"]);
}

#[test]
fn fetched_info_for_new_name_is_appended() {
    let mut p = project();
    let info = registry_info("sass", "1.0.0", &["1.0.0"]);
    p.apply_fetched_info("sass".to_string(), "1.0.0".to_string(), true, info);
    assert_eq!(p.dev_dependencies.len(), 2);
    assert_eq!(p.dev_dependencies[1].0, "sass");
    assert!(p.dev_dependencies[1].1.is_dev);
    assert!(p.dev_dependencies[1].1.versions.is_empty());
}

#[test]
fn fetched_info_with_bad_version_changes_nothing() {
    let mut p = project();
    let info = registry_info("vue", "3.2.0", &["3.1.0"]);
    assert!(!p.try_apply_fetched_info("vue".to_string(), "latest".to_string(), false, info));
    assert!(!p.dependencies[0].1.is_finish);
}

#[test]
fn update_then_remove_then_update() {
    let mut p = project();
    let info = registry_info("vue", "3.2.0", &["3.0.0", "3.1.0", "3.2.0"]);
    p.apply_fetched_info("vue".to_string(), "^3.0.0".to_string(), false, info);

    assert!(p.try_update_pkg_info(update("vue", "3.1.0", false, None)));
    assert_eq!(p.dependencies[0].1.version, Some("3.1.0".to_string()));
    assert_eq!(keys(&p.dependencies[0].1.versions), vec!["3.2.0"]);

    p.remove_pkg_info(RemoveParams { name: "vue".to_string(), is_dev: false });
    assert!(p.dependencies[0].1.is_del);
    p.remove_pkg_info(RemoveParams { name: "vue".to_string(), is_dev: false });
    assert!(p.dependencies[0].1.is_del);
    assert_eq!(p.dependencies[0].1.version, Some("3.1.0".to_string()));

    p.update_pkg_info(update("vue", "3.2.0", false, None));
    assert!(!p.dependencies[0].1.is_del);
    assert_eq!(p.dependencies[0].1.version, Some("3.2.0".to_string()));
    assert!(p.dependencies[0].1.versions.is_empty());
    assert_eq!(p.dev_dependencies[0].0, "vite");
}

#[test]
fn update_of_unknown_dependency_is_refused() {
    let mut p = project();
    assert!(!p.try_update_pkg_info(update("react", "18.0.0", false, None)));
    assert!(!p.try_update_pkg_info(update("vue", "3.0.0", true, None)));
    assert_eq!(p.dependencies.len(), 1);
}

#[test]
fn manager_command_program() {
    let env = Env::new("pnpm", "/usr/bin/pnpm".to_string(), "9.0.0".to_string());
    assert_eq!(manager_command(env.clone(), "pnpm", false), Ok("pnpm".to_string()));
    assert_eq!(manager_command(env, "pnpm", true), Ok("pnpm.cmd".to_string()));
    let node = Env::new("node", "/usr/bin/node".to_string(), "v20".to_string());
    assert_eq!(manager_command(node, "node", true), Ok("node".to_string()));
    assert_eq!(manager_command(None, "yarn", false), Err(CommandError::EnvNotFound("yarn".to_string())));
}

#[test]
fn command_arguments() {
    assert_eq!(update_args(&update("vue", "3.4.0", false, None)), vec!["install", "vue@3.4.0"]);
    assert_eq!(update_args(&update("vite", "5.0.0", true, None)), vec!["install", "vite@5.0.0", "-D"]);
    assert_eq!(remove_args(&RemoveParams { name: "vue".to_string(), is_dev: true }), vec!["remove", "vue"]);
    let q = QuickInstallParams {
        manager_name: "npm".to_string(),
        is_registry: true,
        registry: Some("https://r".to_string()),
        params: Some(vec!["--force".to_string()]),
    };
    assert_eq!(quick_install_args(q), vec!["install", "--registry", "https://r", "--force"]);
    let q = QuickInstallParams { manager_name: "npm".to_string(), is_registry: false, registry: None, params: None };
    assert_eq!(quick_install_args(q), vec!["install"]);
    assert_eq!(registry_url("https://registry.npmmirror.com", "vue"), "https://registry.npmmirror.com/vue");
}

#[test]
fn batch_update_names() {
    let params = vec![update("a", "1", false, None), update("b", "2", true, None), update("c", "3", false, None)];
    let names = collect_updated(&params, &vec![true, false, true]);
    assert_eq!(names, vec!["a", "c"]);
    assert!(was_updated(&names, &"c".to_string()));
    assert!(!was_updated(&names, &"b".to_string()));
}

#[test]
fn update_plan_for_type_change() {
    let plan = plan_update(&update("vue", "3.0.0", false, Some(true)));
    let remove = plan.remove.unwrap();
    assert_eq!(remove.name, "vue");
    assert!(!remove.is_dev);
    assert!(plan.install.is_dev);
    assert_eq!(plan.install.version, "3.0.0");

    let plan = plan_update(&update("vue", "3.0.0", true, Some(false)));
    assert!(plan.remove.is_none());
    assert!(plan.install.is_dev);
    let plan = plan_update(&update("vue", "3.0.0", false, None));
    assert!(plan.remove.is_none());
    assert!(!plan.install.is_dev);
}

#[test]
fn keep_selected_entries_in_order() {
    let all = numbered(&["1.0.0", "2.0.0", "1.5.0", "2.0.0"]);
    let selected = vec!["2.0.0".to_string(), "1.0.0".to_string(), "9.9.9".to_string()];
    let r = keep_selected(all, &selected);
    assert_eq!(keys(&r), vec!["1.0.0", "2.0.0", "2.0.0"]);
    assert_eq!(r[2].1, 3);
    assert!(keep_selected(numbered(&["1.0.0"]), &Vec::new()).is_empty());
}

#[test]
fn map_insert_replaces_same_key() {
    let mut list = Pkg::generate_pkg_info(Some(vec![
        ("vue".to_string(), "^3.0.0".to_string()),
        ("vite".to_string(), "^5.0.0".to_string()),
    ]));
    map_insert(&mut list, "vue".to_string(), registry_info("vue", "3.1.0", &[]));
    assert_eq!(keys(&list), vec!["vue", "vite"]);
    assert_eq!(list[0].1.dist_tags.latest, "3.1.0");
    map_insert(&mut list, "sass".to_string(), registry_info("sass", "1.0.0", &[]));
    assert_eq!(keys(&list), vec!["vue", "vite", "sass"]);
}

#[test]
fn apply_updates_only_installed_ones() {
    let mut p = project();
    p.apply_fetched_info("vue".to_string(), "^3.0.0".to_string(), false, registry_info("vue", "3.2.0", &["3.1.0", "3.2.0"]));
    p.apply_fetched_info("vite".to_string(), "^5.0.0".to_string(), true, registry_info("vite", "5.2.0", &["5.1.0", "5.2.0"]));
    let params = vec![update("vue", "3.1.0", false, None), update("vite", "5.1.0", true, None)];
    assert!(p.apply_updates(&params, &vec!["vite".to_string()]));
    assert_eq!(p.dependencies[0].1.version, Some("^3.0.0".to_string()));
    assert_eq!(p.dev_dependencies[0].1.version, Some("5.1.0".to_string()));
    assert_eq!(keys(&p.dev_dependencies[0].1.versions), vec!["5.2.0"]);
}

#[test]
fn apply_updates_stops_at_unknown_dependency() {
    let mut p = project();
    p.apply_fetched_info("vue".to_string(), "^3.0.0".to_string(), false, registry_info("vue", "3.2.0", &["3.1.0", "3.2.0"]));
    let params = vec![update("vue", "3.1.0", false, None), update("react", "18.0.0", false, None)];
    let names = vec!["vue".to_string(), "react".to_string()];
    assert!(!p.apply_updates(&params, &names));
    assert_eq!(p.dependencies[0].1.version, Some("3.1.0".to_string()));
}
