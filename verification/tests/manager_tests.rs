use rsup::manager::npm_lock::Pkg as NpmLock;
use rsup::manager::pnpm_lock::{Pkg as PnpmLock, PkgDependence, PkgImporter, PkgSetting};
use rsup::manager::{
    find_key, get_current_manager, pkg_lock, run_package_lock, GraphError, LockFile, ManagerType, PkgInfo,
    PkgLock,
};

fn pairs(items: &[(&str, &str)]) -> Vec<(String, String)> {
    items.iter().map(|(a, b)| (a.to_string(), b.to_string())).collect()
}

fn package(version: &str, deps: &[(&str, &str)], peers: &[(&str, &str)]) -> PkgInfo {
    let mut p = PkgInfo::default();
    p.version = version.to_string();
    p.resolved = format!("https://registry/{}", version);
    p.dependencies = pairs(deps);
    p.peer_dependencies = pairs(peers);
    p
}

fn npm_lock(version: i32, packages: Vec<(&str, PkgInfo)>) -> NpmLock {
    NpmLock {
        name: "demo".to_string(),
        version: "1.0.0".to_string(),
        lockfile_version: version,
        packages: packages.into_iter().map(|(k, v)| (k.to_string(), v)).collect(),
    }
}

fn dependence(version: &str) -> PkgDependence {
    PkgDependence { specifier: format!("^{}", version), version: version.to_string() }
}

#[test]
fn manager_type_names() {
    assert_eq!(ManagerType::Npm.to_string(), "npm");
    assert_eq!(ManagerType::Yarn.to_string(), "yarn");
    assert_eq!(ManagerType::Pnpm.to_string(), "pnpm");
    assert_eq!(ManagerType::from_str("pnpm"), ManagerType::Pnpm);
    assert_eq!(ManagerType::from_str("yarn"), ManagerType::Yarn);
    assert_eq!(ManagerType::from_str("npm"), ManagerType::Npm);
    assert_eq!(ManagerType::from_str("bun"), ManagerType::Npm);
    assert_eq!(ManagerType::from_str(""), ManagerType::Npm);
}

#[test]
fn manager_name_roundtrip() {
    for m in [ManagerType::Npm, ManagerType::Yarn, ManagerType::Pnpm] {
        assert_eq!(ManagerType::from_str(&m.to_string()), m);
    }
}

#[test]
fn lock_file_names() {
    assert_eq!(ManagerType::Npm.lock_file(), "package-lock.json");
    assert_eq!(ManagerType::Pnpm.lock_file(), "pnpm-lock.yaml");
    assert_eq!(ManagerType::Yarn.lock_file(), "yarn.lock");
    let s = pkg_lock("pnpm");
    assert_eq!(s.manager, ManagerType::Pnpm);
    assert_eq!(s.lock_file, "pnpm-lock.yaml");
    let s = pkg_lock("other");
    assert_eq!(s.manager, ManagerType::Npm);
    assert_eq!(s.lock_file, "package-lock.json");
}

#[test]
fn current_manager_by_lock_file() {
    assert_eq!(get_current_manager(true, true, true), Some("npm".to_string()));
    assert_eq!(get_current_manager(false, true, true), Some("pnpm".to_string()));
    assert_eq!(get_current_manager(false, false, true), Some("yarn".to_string()));
    assert_eq!(get_current_manager(false, false, false), None);
}

#[test]
fn find_key_first_match() {
    let es = pairs(&[("a", "1"), ("b", "2"), ("a", "3")]);
    assert_eq!(find_key(&es, "a"), Some(0));
    assert_eq!(find_key(&es, "b"), Some(1));
    assert_eq!(find_key(&es, "c"), None);
}

#[test]
fn npm_graph_with_loop_and_missing_peer() {
    let lock = npm_lock(
        3,
        vec![
            ("node_modules/a", package("1.0.0", &[("b", "^1")], &[("c", "*")])),
            ("node_modules/b", package("1.1.0", &[("a", "^1")], &[])),
        ],
    );
    let g = LockFile::Npm(lock).read_pkg_graph("a".to_string()).unwrap();
    assert_eq!(g.name, "a");
    assert_eq!(g.version, "1.0.0");
    assert_eq!(g.path, "node_modules/a");
    assert!(!g.is_loop);
    assert_eq!(g.relations.len(), 2);

    let b = &g.relations[0];
    assert_eq!(b.name, "b");
    assert_eq!(b.version, "1.1.0");
    assert_eq!(b.path, "node_modules/b");
    assert!(!b.is_peer);
    assert!(!b.is_loop);
    assert_eq!(b.relations.len(), 1);

    let back = &b.relations[0];
    assert_eq!(back.name, "a");
    assert_eq!(back.path, "node_modules/a");
    assert!(back.is_loop);
    assert!(back.relations.is_empty());

    let c = &g.relations[1];
    assert_eq!(c.name, "c");
    assert!(c.is_peer);
    assert_eq!(c.version, "");
    assert_eq!(c.path, "");
    assert!(c.relations.is_empty());
}

#[test]
fn npm_graph_prefers_nested_package() {
    let lock = npm_lock(
        2,
        vec![
            ("node_modules/a", package("1.0.0", &[("b", "^2")], &[])),
            ("node_modules/b", package("1.0.0", &[], &[])),
            ("node_modules/a/node_modules/b", package("2.0.0", &[("d", "^1")], &[])),
            ("node_modules/d", package("1.5.0", &[], &[])),
        ],
    );
    let g = LockFile::Npm(lock).read_pkg_graph("a".to_string()).unwrap();
    let b = &g.relations[0];
    assert_eq!(b.version, "2.0.0");
    assert_eq!(b.path, "node_modules/a/node_modules/b");
    let d = &b.relations[0];
    assert_eq!(d.name, "d");
    assert_eq!(d.version, "1.5.0");
    assert_eq!(d.path, "node_modules/d");
}

#[test]
fn npm_graph_errors() {
    let old = npm_lock(1, vec![("node_modules/a", package("1.0.0", &[], &[]))]);
    assert_eq!(LockFile::Npm(old).read_pkg_graph("a".to_string()).unwrap_err(), GraphError::UnsupportedNpmLockfile);
    let lock = npm_lock(3, vec![("node_modules/a", package("1.0.0", &[], &[]))]);
    assert_eq!(
        LockFile::Npm(lock).read_pkg_graph("zzz".to_string()).unwrap_err(),
        GraphError::DependencyNotFound("zzz".to_string())
    );
}

#[test]
fn run_package_lock_reads_graph() {
    let lock = LockFile::Npm(npm_lock(3, vec![("node_modules/vue", package("3.4.0", &[], &[]))]));
    let g = run_package_lock(&lock, "vue".to_string()).unwrap();
    assert_eq!(g.name, "vue");
    assert_eq!(g.version, "3.4.0");
    assert!(g.relations.is_empty());
}

fn pnpm_v6() -> PnpmLock {
    let mut lock = PnpmLock::default();
    lock.lockfile_version = "6.0".to_string();
    lock.dependencies = vec![("a".to_string(), dependence("1.0.0"))];
    lock.dev_dependencies = vec![("t".to_string(), dependence("0.1.0"))];
    lock.packages = vec![
        ("/a@1.0.0".to_string(), package("1.0.0", &[("b", "2.0.0")], &[("p", "1.0.0")])),
        ("/b@2.0.0".to_string(), package("2.0.0", &[("a", "1.0.0")], &[])),
        ("/t@0.1.0".to_string(), package("0.1.0", &[], &[])),
    ];
    lock
}

#[test]
fn pnpm_default_lock() {
    let lock = PnpmLock::default();
    assert_eq!(lock.lockfile_version, "");
    assert!(lock.settings.auto_install_peers);
    assert!(!lock.settings.exclude_links_from_lockfile);
    let s = PkgSetting::default();
    assert!(s.auto_install_peers);
}

#[test]
fn pnpm_keys_by_version() {
    let lock = pnpm_v6();
    assert_eq!(lock.get_package_key("a", "1.0.0"), "/a@1.0.0");
    let mut v9 = PnpmLock::default();
    v9.lockfile_version = "9.0".to_string();
    assert_eq!(v9.get_package_key("a", "1.0.0"), "a@1.0.0");
    let mut other = PnpmLock::default();
    other.lockfile_version = "5.4".to_string();
    assert_eq!(other.get_package_key("a", "1.0.0"), "/a@1.0.0");
    assert!(other.get_package_info("/a@1.0.0").is_none());
    assert_eq!(lock.get_package_info("/b@2.0.0").unwrap().version, "2.0.0");
    assert!(lock.get_package_info("/zz@1").is_none());
}

#[test]
fn pnpm_v6_graph() {
    let g = LockFile::Pnpm(pnpm_v6()).read_pkg_graph("a".to_string()).unwrap();
    assert_eq!(g.name, "a");
    assert_eq!(g.version, "1.0.0");
    assert_eq!(g.path, "/a@1.0.0");
    assert_eq!(g.relations.len(), 2);
    let b = &g.relations[0];
    assert_eq!(b.name, "b");
    assert_eq!(b.path, "/b@2.0.0");
    assert!(!b.is_loop);
    let back = &b.relations[0];
    assert_eq!(back.name, "a");
    assert!(back.is_loop);
    assert!(back.relations.is_empty());
    let p = &g.relations[1];
    assert_eq!(p.name, "p");
    assert_eq!(p.version, "1.0.0");
    assert_eq!(p.path, "/p@1.0.0");
    assert!(p.is_peer);
    assert!(!p.is_loop);
    assert_eq!(p.resolved, "");
}

#[test]
fn pnpm_dev_dependency_graph() {
    let g = LockFile::Pnpm(pnpm_v6()).read_pkg_graph("t".to_string()).unwrap();
    assert_eq!(g.version, "0.1.0");
    assert_eq!(g.path, "/t@0.1.0");
}

#[test]
fn pnpm_v9_graph_from_importer() {
    let mut lock = PnpmLock::default();
    lock.lockfile_version = "9.0".to_string();
    lock.importers = vec![(
        ".".to_string(),
        PkgImporter { dependencies: vec![("a".to_string(), dependence("1.0.0"))], dev_dependencies: vec![] },
    )];
    lock.snapshots = vec![
        ("a@1.0.0".to_string(), package("", &[("b", "2.0.0")], &[])),
        ("b@2.0.0".to_string(), package("", &[], &[])),
    ];
    let g = LockFile::Pnpm(lock).read_pkg_graph("a".to_string()).unwrap();
    assert_eq!(g.version, "1.0.0");
    assert_eq!(g.path, "a@1.0.0");
    assert_eq!(g.relations[0].name, "b");
    assert_eq!(g.relations[0].version, "2.0.0");
    assert_eq!(g.relations[0].path, "b@2.0.0");
}

#[test]
fn pnpm_graph_errors() {
    let mut lock = pnpm_v6();
    lock.lockfile_version = "5.4".to_string();
    assert_eq!(LockFile::Pnpm(lock).read_pkg_graph("a".to_string()).unwrap_err(), GraphError::UnsupportedPnpmLockfile);
    let mut lock = pnpm_v6();
    lock.packages.remove(0);
    assert_eq!(
        LockFile::Pnpm(lock).read_pkg_graph("a".to_string()).unwrap_err(),
        GraphError::DependencyNotFound("a".to_string())
    );
}

#[test]
fn pnpm_lock_summary() {
    let d = pnpm_v6().get_data();
    assert_eq!(d.name, "pnpm");
    assert_eq!(d.version, 0);
    assert_eq!(d.packages.len(), 3);
    assert_eq!(d.packages[1].0, "/b@2.0.0");
    let mut lock = PnpmLock::default();
    lock.lockfile_version = "9".to_string();
    assert_eq!(lock.get_data().version, 9);
    lock.lockfile_version = "-3".to_string();
    assert_eq!(lock.get_data().version, -3);
}

#[test]
fn default_and_cloned_nodes() {
    let d = PkgInfo::default();
    assert_eq!(d.name, "");
    assert!(d.relations.is_empty());
    assert!(!d.is_peer && !d.is_loop);
    let mut p = package("1.0.0", &[("x", "1")], &[]);
    p.relations.push(package("2.0.0", &[], &[]));
    let c = p.deep_clone();
    assert_eq!(c.version, "1.0.0");
    assert_eq!(c.dependencies, p.dependencies);
    assert_eq!(c.relations[0].version, "2.0.0");
}

#[test]
fn which_graphs_can_be_asked_for() {
    let v6 = LockFile::Pnpm(pnpm_v6());
    assert!(v6.can_read("a"));
    assert!(v6.can_read("t"));
    assert!(!v6.can_read("zz"));
    let mut v9 = PnpmLock::default();
    v9.lockfile_version = "9.0".to_string();
    assert!(!LockFile::Pnpm(v9).can_read("a"));
    let mut old = PnpmLock::default();
    old.lockfile_version = "5.4".to_string();
    assert!(LockFile::Pnpm(old).can_read("a"));
    assert!(LockFile::Npm(npm_lock(3, vec![])).can_read("anything"));
}
