use rsup::command::{rsup_archive_path, web_archive_path, web_dir};
use rsup::installer::config::Config as InstallConfig;
use rsup::installer::prompt::{
    check_env_os, is_path_added, origin_at, path_export_lines, shell_config_path, shell_file_name, EnvError,
    Origin as InstallOrigin,
};
use rsup::package::package_json::{RemoveParams, UpdateParams};
use rsup::text::{
    contains_str, ends_with, join_strings, parse_i32, parse_u16, split_char, u64_to_decimal,
};
use rsup::utils::rs_env::Env;
use rsup::utils::{command_file_name, get_pkg_url, which_command, Origin};
use rsup::web::api::{check_request, DepAction, DepFlow, RelationGraphReq, ReqParams, Route};
use rsup::config::Config;
use rsup::web::{static_file_path, PortProbe, PortSearch, ResParams};

#[test]
fn release_urls_by_origin_and_os() {
    let (url, web) = get_pkg_url(None, "linux");
    assert_eq!(url, "https://github.com/ngd-b/rsup/releases/download/latest/rsup-ubuntu-latest.tar.gz");
    assert_eq!(web, "https://github.com/ngd-b/rsup-web/releases/download/latest/rsup-web.tar.gz");
    let (url, web) = get_pkg_url(Some(Origin::Gitee), "macos");
    assert_eq!(url, "https://gitee.com/hboot/rsup/releases/download/latest/rsup-macos-latest.tar.gz");
    assert_eq!(web, "https://gitee.com/hboot/rsup-web/releases/download/latest/rsup-web.tar.gz");
    let (url, web) = get_pkg_url(None, "windows");
    assert_eq!(url, "https://github.com/ngd-b/rsup/releases/download/latest/rsup-windows-latest.zip");
    assert_eq!(web, "https://github.com/ngd-b/rsup-web/releases/download/latest/rsup-web.tar.gz");
    assert_eq!(Origin::Gitee.get_pkg_url(), "https://gitee.com/hboot");
}

#[test]
fn command_lookup_names() {
    assert_eq!(which_command(true), "where");
    assert_eq!(which_command(false), "which");
    assert_eq!(command_file_name("npm", true, true), "npm.cmd");
    assert_eq!(command_file_name("npm", false, true), "npm");
    assert_eq!(command_file_name("node", true, false), "node");
}

#[test]
fn env_from_lookup() {
    assert!(Env::new("yarn", String::new(), String::new()).is_none());
    let e = Env::new("npm", "/usr/bin/npm".to_string(), "10.2.0".to_string()).unwrap();
    assert_eq!(e.name, "npm");
    assert_eq!(e.path, "/usr/bin/npm");
    assert_eq!(e.version, "10.2.0");
    assert!(e.is_cmd);
    let n = Env::new("node", "/usr/bin/node".to_string(), "v20.0.0".to_string()).unwrap();
    assert!(!n.is_cmd);
    assert!(!Env::is_batch("node"));
    assert!(Env::is_batch("pnpm"));
}

#[test]
fn answers_of_the_interface() {
    let ok = ResParams::ok(5u32);
    assert!(ok.success);
    assert_eq!(ok.msg, "ok");
    assert_eq!(ok.data, Some(5));
    let err = ResParams::<String>::err("boom".to_string());
    assert!(!err.success);
    assert_eq!(err.msg, "boom");
    assert!(err.data.is_none());
}

#[test]
fn static_files_and_web_paths() {
    let config = Config::initial("/opt/rsup".to_string());
    assert_eq!(static_file_path(&config), "/opt/rsup/web");
    let mut custom = Config::default();
    custom.set("web.static_dir", "/srv/rsup-web".to_string()).unwrap();
    assert_eq!(static_file_path(&custom), "/srv/rsup-web");
    assert_eq!(web_archive_path("/opt/rsup"), "/opt/rsup/rsup-web.tar.gz");
    assert_eq!(web_dir("/opt/rsup"), "/opt/rsup/web");
    assert_eq!(rsup_archive_path("/opt/rsup"), "/opt/rsup/rsup.tar.gz");
}

#[test]
fn port_search_first_free() {
    let mut s = PortSearch::new(8888);
    assert_eq!(s.port, 8888);
    assert_eq!(s.next(false), PortProbe::TryNext);
    assert_eq!(s.next(false), PortProbe::TryNext);
    assert_eq!(s.next(true), PortProbe::Free(8890));
    assert_eq!(s.port, 8890);
}

#[test]
fn port_search_starts_at_configured_port() {
    let mut s = PortSearch::new(3000);
    assert_eq!(s.next(true), PortProbe::Free(3000));
}

#[test]
fn port_search_all_taken() {
    let mut s = PortSearch::new(8888);
    let mut tried = vec![s.port];
    loop {
        match s.next(false) {
            PortProbe::TryNext => tried.push(s.port),
            PortProbe::AllTaken(p) => {
                assert_eq!(p, 8908);
                break;
            }
            PortProbe::Free(p) => panic!("reported free without being free: {}", p),
        }
    }
    assert_eq!(tried, (8888..8908).collect::<Vec<u16>>());
}

#[test]
fn port_search_up_to_last_port() {
    let mut s = PortSearch::new(65534);
    assert_eq!(s.next(false), PortProbe::TryNext);
    assert_eq!(s.port, 65535);
    assert_eq!(s.next(true), PortProbe::Free(65535));
}

#[test]
fn routes_take_their_own_requests() {
    let graph = ReqParams::RelationGraph(RelationGraphReq { name: "vue".to_string() });
    assert!(graph.is_for(Route::Graph));
    assert!(!graph.is_for(Route::Update));
    assert_eq!(check_request(Route::Graph, &graph), None);
    assert_eq!(check_request(Route::Remove, &graph), Some("Invalid request parameters".to_string()));
    let remove = ReqParams::RemovePkg(RemoveParams { name: "vue".to_string(), is_dev: false });
    assert!(remove.is_for(Route::Remove));
    let batch = ReqParams::BatchUpdatePkg(vec![UpdateParams {
        name: "a".to_string(),
        version: "1".to_string(),
        is_dev: false,
        is_change: None,
    }]);
    assert!(batch.is_for(Route::BatchUpdate));
    assert!(!batch.is_for(Route::QuickInstall));
}

#[test]
fn installer_locations() {
    assert_eq!(InstallConfig::get_url("windows"), "C:\\Program Files\\rsup");
    assert_eq!(InstallConfig::get_url("linux"), "/usr/local/bin/rsup");
    let c = InstallConfig::new("/usr/local/bin/rsup".to_string());
    assert_eq!(c.port, 8888);
    assert_eq!(c.version, "");
    assert_eq!(c.dir, "/usr/local/bin/rsup");
}

#[test]
fn installer_origins() {
    assert_eq!(InstallOrigin::choices(), vec!["github", "gitee"]);
    assert_eq!(InstallOrigin::Gitee.as_str(), "gitee");
    assert_eq!(InstallOrigin::Github.get_pkg_url(), "https://github.com/ngd-b");
    assert_eq!(origin_at(0), Some(InstallOrigin::Github));
    assert_eq!(origin_at(1), Some(InstallOrigin::Gitee));
    assert_eq!(origin_at(2), None);
}

#[test]
fn installer_path_setup() {
    assert_eq!(check_env_os("windows"), Err(EnvError::NotSupportWindows));
    assert_eq!(check_env_os("linux"), Ok(()));
    assert_eq!(shell_file_name("macos"), ".zshrc");
    assert_eq!(shell_file_name("linux"), ".bashrc");
    assert_eq!(shell_config_path("/home/u", ".bashrc"), "/home/u/.bashrc");
    assert!(is_path_added("export PATH=\"/opt/rsup:$PATH\"", "/opt/rsup"));
    assert!(!is_path_added("export PATH=\"/usr/bin\"", "/opt/rsup"));
    assert_eq!(path_export_lines("/opt/rsup"), "\n# Add rsup to PATH\nexport PATH=\"/opt/rsup:$PATH\"\n");
}

#[test]
fn number_parsing() {
    assert_eq!(parse_u16("8080"), Some(8080));
    assert_eq!(parse_u16("+1"), Some(1));
    assert_eq!(parse_u16("65535"), Some(65535));
    assert_eq!(parse_u16("65536"), None);
    assert_eq!(parse_u16(""), None);
    assert_eq!(parse_u16("+"), None);
    assert_eq!(parse_u16("-1"), None);
    assert_eq!(parse_u16("12a"), None);
    assert_eq!(parse_i32("-2147483648"), Some(i32::MIN));
    assert_eq!(parse_i32("2147483647"), Some(i32::MAX));
    assert_eq!(parse_i32("2147483648"), None);
    assert_eq!(parse_i32("-"), None);
    assert_eq!(parse_i32("6.0"), None);
    assert_eq!(parse_i32("9"), Some(9));
    for s in ["0", "7", "+42", "-13", "00012"] {
        assert_eq!(parse_i32(s), s.parse::<i32>().ok());
    }
}

#[test]
fn decimal_text() {
    assert_eq!(u64_to_decimal(0), "0");
    assert_eq!(u64_to_decimal(8888), "8888");
    assert_eq!(u64_to_decimal(u64::MAX), u64::MAX.to_string());
    for n in [0u16, 1, 9, 10, 65535] {
        assert_eq!(parse_u16(&u64_to_decimal(n as u64)), Some(n));
    }
}

#[test]
fn text_helpers() {
    assert_eq!(split_char("web.port", '.'), vec!["web", "port"]);
    assert_eq!(split_char("", '.'), vec![""]);
    assert_eq!(split_char("a..b.", '.'), vec!["a", "", "b", ""]);
    assert!(ends_with("/p/package.json", "package.json"));
    assert!(!ends_with("json", "package.json"));
    assert!(contains_str("abcabd", "abd"));
    assert!(contains_str("abc", ""));
    assert!(!contains_str("ab", "abc"));
    let parts = vec!["a".to_string(), "b".to_string()];
    assert_eq!(join_strings("node_modules/", &parts, "/node_modules/"), "node_modules/a/node_modules/b");
    assert_eq!(join_strings("x", &Vec::new(), ","), "x");
}

#[test]
fn adding_path_twice_changes_nothing() {
    let content = "alias ll='ls -l'\n".to_string();
    let path = "/opt/rsup";
    assert!(!is_path_added(&content, path));
    let edited = format!("{}{}", content, path_export_lines(path));
    assert!(is_path_added(&edited, path));
    assert_eq!(edited, "alias ll='ls -l'\n\n# Add rsup to PATH\nexport PATH=\"/opt/rsup:$PATH\"\n");
}

fn upd(name: &str, is_dev: bool, is_change: Option<bool>) -> UpdateParams {
    UpdateParams { name: name.to_string(), version: "1.0.0".to_string(), is_dev, is_change }
}

#[test]
fn update_flow_with_type_change() {
    let (flow, action) = DepFlow::start_update(upd("vue", false, Some(true)));
    match action {
        DepAction::RunRemove(r) => {
            assert_eq!(r.name, "vue");
            assert!(!r.is_dev);
        }
        other => panic!("unexpected {:?}", other),
    }
    let (flow, action) = flow.next(Ok(()));
    match action {
        DepAction::RunInstall(p) => {
            assert_eq!(p.name, "vue");
            assert!(p.is_dev);
        }
        other => panic!("unexpected {:?}", other),
    }
    let (flow, action) = flow.next(Ok(()));
    match action {
        DepAction::CommitUpdate(p) => assert!(!p.is_dev),
        other => panic!("unexpected {:?}", other),
    }
    assert!(matches!(flow, DepFlow::Done));
}

#[test]
fn update_flow_failures_are_answered() {
    let (flow, action) = DepFlow::start_update(upd("vue", true, None));
    match action {
        DepAction::RunInstall(p) => assert!(p.is_dev),
        other => panic!("unexpected {:?}", other),
    }
    let (flow, action) = flow.next(Err("Failed to install vue@1.0.0".to_string()));
    match action {
        DepAction::Fail(msg) => assert_eq!(msg, "Failed to install vue@1.0.0"),
        other => panic!("unexpected {:?}", other),
    }
    assert!(matches!(flow, DepFlow::Done));
    let (flow, _) = DepFlow::start_update(upd("vue", false, Some(true)));
    let (_, action) = flow.next(Err("Failed to remove vue".to_string()));
    assert!(matches!(action, DepAction::Fail(_)));
}

#[test]
fn remove_flow() {
    let (flow, action) = DepFlow::start_remove(RemoveParams { name: "vue".to_string(), is_dev: true });
    assert!(matches!(action, DepAction::RunRemove(ref r) if r.name == "vue" && r.is_dev));
    let (_, action) = flow.next(Ok(()));
    assert!(matches!(action, DepAction::CommitRemove(ref r) if r.name == "vue"));
}
