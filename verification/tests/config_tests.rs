use rsup::config::{Config, ConfigError, PkgConfig, WebConfig};

fn some(s: &str) -> Option<String> {
    Some(s.to_string())
}

#[test]
fn default_config_values() {
    let c = Config::default();
    assert_eq!(c.name, "rsup");
    assert_eq!(c.version, "0.3.0");
    assert_eq!(c.dir, "");
    assert_eq!(c.web.port, 8888);
    assert_eq!(c.web.static_dir, "");
    assert_eq!(c.pkg.npm_registry, "https://registry.npmmirror.com");
}

#[test]
fn get_reads_dotted_keys() {
    let c = Config::default();
    assert_eq!(c.get("name"), some("rsup"));
    assert_eq!(c.get("version"), some("0.3.0"));
    assert_eq!(c.get("dir"), some(""));
    assert_eq!(c.get("web.port"), some("8888"));
    assert_eq!(c.get("web.static_dir"), some(""));
    assert_eq!(c.get("pkg.npm_registry"), some("https://registry.npmmirror.com"));
}

#[test]
fn get_unknown_keys_is_none() {
    let c = Config::default();
    assert_eq!(c.get("web"), None);
    assert_eq!(c.get("pkg"), None);
    assert_eq!(c.get("web.host"), None);
    assert_eq!(c.get("foo"), None);
    assert_eq!(c.get(""), None);
    assert_eq!(c.get("name.extra"), some("rsup"));
    assert_eq!(c.get("web.port.extra"), some("8888"));
}

#[test]
fn set_then_get_port() {
    let mut c = Config::default();
    assert_eq!(c.set("web.port", "8889".to_string()), Ok(()));
    assert_eq!(c.web.port, 8889);
    assert_eq!(c.get("web.port"), some("8889"));
}

#[test]
fn set_port_is_shown_in_decimal() {
    let mut c = Config::default();
    assert_eq!(c.set("web.port", "+08080".to_string()), Ok(()));
    assert_eq!(c.get("web.port"), some("8080"));
    assert_eq!(c.set("web.port", "65535".to_string()), Ok(()));
    assert_eq!(c.get("web.port"), some("65535"));
    assert_eq!(c.set("web.port", "0".to_string()), Ok(()));
    assert_eq!(c.get("web.port"), some("0"));
}

#[test]
fn set_text_items() {
    let mut c = Config::default();
    assert_eq!(c.set("name", "x".to_string()), Ok(()));
    assert_eq!(c.set("version", "1.0.0".to_string()), Ok(()));
    assert_eq!(c.set("dir", "/tmp/rsup".to_string()), Ok(()));
    assert_eq!(c.set("web.static_dir", "/tmp/rsup/web".to_string()), Ok(()));
    assert_eq!(c.set("pkg.npm_registry", "https://registry.npmjs.org".to_string()), Ok(()));
    assert_eq!(c.get("name"), some("x"));
    assert_eq!(c.get("version"), some("1.0.0"));
    assert_eq!(c.get("dir"), some("/tmp/rsup"));
    assert_eq!(c.get("web.static_dir"), some("/tmp/rsup/web"));
    assert_eq!(c.get("pkg.npm_registry"), some("https://registry.npmjs.org"));
}

#[test]
fn set_unknown_key_is_key_not_found() {
    let mut c = Config::default();
    assert_eq!(c.set("foo", "1".to_string()), Err(ConfigError::KeyNotFound));
    assert_eq!(c.set("web", "1".to_string()), Err(ConfigError::KeyNotFound));
    assert_eq!(c.set("web.host", "1".to_string()), Err(ConfigError::KeyNotFound));
    assert_eq!(c.set("pkg.registry", "1".to_string()), Err(ConfigError::KeyNotFound));
    assert_eq!(c.get("web.port"), some("8888"));
    assert_eq!(c.get("pkg.npm_registry"), some("https://registry.npmmirror.com"));
}

#[test]
fn set_keeps_other_items() {
    let mut c = Config::default();
    c.set("pkg.npm_registry", "r".to_string()).unwrap();
    assert_eq!(c.get("web.port"), some("8888"));
    assert_eq!(c.get("name"), some("rsup"));
    c.set("web.port", "9000".to_string()).unwrap();
    assert_eq!(c.get("pkg.npm_registry"), some("r"));
    assert_eq!(c.get("web.static_dir"), some(""));
}

#[test]
fn set_shown_value_changes_nothing() {
    let mut c = Config::default();
    for key in ["name", "version", "dir", "web.port", "web.static_dir", "pkg.npm_registry"] {
        let shown = c.get(key).unwrap();
        c.set(key, shown.clone()).unwrap();
        assert_eq!(c.get(key), Some(shown));
    }
    assert_eq!(c.web.port, 8888);
}

#[test]
fn table_get_and_set() {
    let mut w = WebConfig { port: 1, static_dir: "s".to_string() };
    assert_eq!(w.get(vec!["port"]), some("1"));
    assert_eq!(w.get(vec!["static_dir"]), some("s"));
    assert_eq!(w.get(vec![]), None);
    assert_eq!(w.get(vec!["other"]), None);
    assert!(w.set(vec!["port", "x"], "2".to_string()));
    assert_eq!(w.port, 2);
    assert!(!w.set(vec![], "3".to_string()));
    assert!(!w.set(vec!["other"], "3".to_string()));
    assert_eq!(w.port, 2);

    let mut p = PkgConfig { npm_registry: "a".to_string() };
    assert_eq!(p.get(vec!["npm_registry"]), some("a"));
    assert_eq!(p.get(vec![]), None);
    assert!(p.set(vec!["npm_registry"], "b".to_string()));
    assert_eq!(p.npm_registry, "b");
    assert!(!p.set(vec!["port"], "c".to_string()));
    assert!(!p.set(vec![], "c".to_string()));
    assert_eq!(p.npm_registry, "b");
}

#[test]
fn config_directory_by_os() {
    assert_eq!(Config::get_url("windows"), "C:\\Program Files\\rsup");
    assert_eq!(Config::get_url("linux"), "/opt/rsup");
    assert_eq!(Config::get_url("macos"), "/opt/rsup");
    assert_eq!(Config::config_file("/opt/rsup"), "/opt/rsup/config.toml");
}

#[test]
fn initial_config_in_directory() {
    let c = Config::initial("/opt/rsup".to_string());
    assert_eq!(c.dir, "/opt/rsup");
    assert_eq!(c.web.static_dir, "/opt/rsup/web");
    assert_eq!(c.web.port, 8888);
    assert_eq!(c.name, "rsup");
    assert_eq!(c.version, "0.3.0");
    assert_eq!(c.pkg.npm_registry, "https://registry.npmmirror.com");
}

#[test]
fn which_values_can_be_set() {
    assert!(Config::can_set("web.port", "8080"));
    assert!(!Config::can_set("web.port", "80a"));
    assert!(!Config::can_set("web.port", "70000"));
    assert!(Config::can_set("web.static_dir", "anything"));
    assert!(Config::can_set("name", "80a"));
    assert!(Config::can_set("foo.port", "x"));
    assert!(Config::can_set("web", "x"));
}
