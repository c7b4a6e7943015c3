//! The `rsup` configuration (`config.toml`): its defaults and the
//! dotted-key access (`name`, `web.port`, `pkg.npm_registry`, ...).

use vstd::prelude::*;
use vstd::string::*;
use crate::text::{concat, decimal, lemma_parse_decimal, lemma_split_on_nonempty, owned, parse_u16, parse_unsigned, split_char, split_on, str_eq, u64_to_decimal, views_of};

verus! {

/// The whole configuration.
#[derive(Debug, Clone)]
pub struct Config {
    pub name: String,
    pub version: String,
    pub dir: String,
    /// web service settings
    pub web: WebConfig,
    /// package registry settings
    pub pkg: PkgConfig,
}

/// Settings of the web service.
#[derive(Debug, Clone)]
pub struct WebConfig {
    pub port: u16,
    pub static_dir: String,
}

/// Settings of the package manager side.
#[derive(Debug, Clone)]
pub struct PkgConfig {
    pub npm_registry: String,
}

/// Why a configuration key could not be set.
#[derive(Debug, Clone, Copy, PartialEq, Eq)]
pub enum ConfigError {
    /// The key names no configuration item.
    KeyNotFound,
}

/// The configuration as plain values.
pub struct ConfigView {
    pub name: Seq<char>,
    pub version: Seq<char>,
    pub dir: Seq<char>,
    pub port: u16,
    pub static_dir: Seq<char>,
    pub npm_registry: Seq<char>,
}

impl View for Config {
    type V = ConfigView;

    open spec fn view(&self) -> ConfigView {
        ConfigView {
            name: self.name@,
            version: self.version@,
            dir: self.dir@,
            port: self.web.port,
            static_dir: self.web.static_dir@,
            npm_registry: self.pkg.npm_registry@,
        }
    }
}

/// The configuration items that a dotted key can address.
#[derive(Debug, Clone, Copy, PartialEq, Eq)]
pub enum ConfigField {
    Name,
    Version,
    Dir,
    WebPort,
    WebStaticDir,
    NpmRegistry,
}

/// The item of the `web` table that the remaining key parts address.
pub open spec fn web_field(parts: Seq<Seq<char>>) -> Option<ConfigField> {
    if parts.len() == 0 {
        None
    } else if parts[0] == "port"@ {
        Some(ConfigField::WebPort)
    } else if parts[0] == "static_dir"@ {
        Some(ConfigField::WebStaticDir)
    } else {
        None
    }
}

/// The item of the `pkg` table that the remaining key parts address.
pub open spec fn pkg_field(parts: Seq<Seq<char>>) -> Option<ConfigField> {
    if parts.len() == 0 {
        None
    } else if parts[0] == "npm_registry"@ {
        Some(ConfigField::NpmRegistry)
    } else {
        None
    }
}

/// The item that a dotted key addresses: the key is split on `.`, the first
/// part chooses a top-level item or table, the next part an item of the table;
/// further parts are ignored.
pub open spec fn config_field(key: Seq<char>) -> Option<ConfigField> {
    let parts = split_on(key, '.');
    let first = parts[0];
    let rest = parts.drop_first();
    if first == "name"@ {
        Some(ConfigField::Name)
    } else if first == "version"@ {
        Some(ConfigField::Version)
    } else if first == "dir"@ {
        Some(ConfigField::Dir)
    } else if first == "web"@ {
        web_field(rest)
    } else if first == "pkg"@ {
        pkg_field(rest)
    } else {
        None
    }
}

/// The text that `get` shows for an item: the port in decimal, the others as stored.
pub open spec fn field_text(c: ConfigView, f: ConfigField) -> Seq<char> {
    match f {
        ConfigField::Name => c.name,
        ConfigField::Version => c.version,
        ConfigField::Dir => c.dir,
        ConfigField::WebPort => decimal(c.port as nat),
        ConfigField::WebStaticDir => c.static_dir,
        ConfigField::NpmRegistry => c.npm_registry,
    }
}

/// Whether `value` can be stored in item `f` (a port must parse as a `u16`).
pub open spec fn accepts(f: ConfigField, value: Seq<char>) -> bool {
    f == ConfigField::WebPort ==> parse_unsigned(value, u16::MAX as nat) is Some
}

/// The configuration after storing `value` in item `f`.
pub open spec fn assign(c: ConfigView, f: ConfigField, value: Seq<char>) -> ConfigView {
    match f {
        ConfigField::Name => ConfigView { name: value, ..c },
        ConfigField::Version => ConfigView { version: value, ..c },
        ConfigField::Dir => ConfigView { dir: value, ..c },
        ConfigField::WebPort => ConfigView {
            port: parse_unsigned(value, u16::MAX as nat).unwrap() as u16,
            ..c
        },
        ConfigField::WebStaticDir => ConfigView { static_dir: value, ..c },
        ConfigField::NpmRegistry => ConfigView { npm_registry: value, ..c },
    }
}

/// What `get` answers for `key`.
pub open spec fn get_result(c: ConfigView, key: Seq<char>) -> Option<Seq<char>> {
    match config_field(key) {
        Some(f) => Some(field_text(c, f)),
        None => None,
    }
}

/// What `get` answers, as an optional string.
pub open spec fn opt_view(r: Option<String>) -> Option<Seq<char>> {
    match r {
        Some(s) => Some(s@),
        None => None,
    }
}

/// Whether `set` may be called: a port value must parse.
pub open spec fn set_allowed(key: Seq<char>, value: Seq<char>) -> bool {
    match config_field(key) {
        Some(f) => accepts(f, value),
        None => true,
    }
}

/// The default configuration, as plain values.
pub open spec fn default_view() -> ConfigView {
    ConfigView {
        name: "rsup"@,
        version: "0.3.0"@,
        dir: Seq::empty(),
        port: 8888,
        static_dir: Seq::empty(),
        npm_registry: "https://registry.npmmirror.com"@,
    }
}

impl Default for Config {
    fn default() -> (r: Self)
        ensures
            r@ == default_view(),
    {
        Config {
            name: owned("rsup"),
            version: owned("0.3.0"),
            dir: String::new(),
            web: WebConfig { port: 8888, static_dir: String::new() },
            pkg: PkgConfig { npm_registry: owned("https://registry.npmmirror.com") },
        }
    }
}

impl WebConfig {
    /// Reads the item of the `web` table that `parts` addresses.
    pub fn get(&self, parts: Vec<&str>) -> (r: Option<String>)
        ensures
            opt_view(r) == match web_field(views_of(parts@)) {
                Some(f) => Some(if f == ConfigField::WebPort {
                    decimal(self.port as nat)
                } else {
                    self.static_dir@
                }),
                None => None::<Seq<char>>,
            },
    {
        let mut parts = parts;
        if parts.len() == 0 {
            return None;
        }
        let ghost all = views_of(parts@);
        let key = parts.remove(0);
        assert(all[0] == key@);
        if str_eq(key, "port") {
            Some(u64_to_decimal(self.port as u64))
        } else if str_eq(key, "static_dir") {
            Some(self.static_dir.clone())
        } else {
            None
        }
    }

    /// Stores `value` in the item of the `web` table that `parts` addresses;
    /// `false` when there is no such item.
    pub fn set(&mut self, parts: Vec<&str>, value: String) -> (r: bool)
        requires
            web_field(views_of(parts@)) == Some(ConfigField::WebPort) ==> parse_unsigned(
                value@,
                u16::MAX as nat,
            ) is Some,
        ensures
            r == web_field(views_of(parts@)) is Some,
            match web_field(views_of(parts@)) {
                Some(ConfigField::WebPort) => final(self).port == parse_unsigned(
                    value@,
                    u16::MAX as nat,
                ).unwrap() as u16 && final(self).static_dir@ == old(self).static_dir@,
                Some(_) => final(self).static_dir@ == value@ && final(self).port == old(self).port,
                None => final(self).port == old(self).port && final(self).static_dir@
                    == old(self).static_dir@,
            },
    {
        let mut parts = parts;
        if parts.len() == 0 {
            return false;
        }
        let ghost all = views_of(parts@);
        let key = parts.remove(0);
        assert(all[0] == key@);
        if str_eq(key, "port") {
            match parse_u16(value.as_str()) {
                Some(p) => {
                    self.port = p;
                },
                None => {
                    assert(false);
                },
            }
        } else if str_eq(key, "static_dir") {
            self.static_dir = value;
        } else {
            return false;
        }
        true
    }
}

impl PkgConfig {
    /// Reads the item of the `pkg` table that `parts` addresses.
    pub fn get(&self, parts: Vec<&str>) -> (r: Option<String>)
        ensures
            opt_view(r) == match pkg_field(views_of(parts@)) {
                Some(_) => Some(self.npm_registry@),
                None => None::<Seq<char>>,
            },
    {
        let mut parts = parts;
        if parts.len() == 0 {
            return None;
        }
        let ghost all = views_of(parts@);
        let key = parts.remove(0);
        assert(all[0] == key@);
        if str_eq(key, "npm_registry") {
            Some(self.npm_registry.clone())
        } else {
            None
        }
    }

    /// Stores `value` in the item of the `pkg` table that `parts` addresses;
    /// `false` when there is no such item.
    pub fn set(&mut self, parts: Vec<&str>, value: String) -> (r: bool)
        ensures
            r == pkg_field(views_of(parts@)) is Some,
            final(self).npm_registry@ == if r {
                value@
            } else {
                old(self).npm_registry@
            },
    {
        let mut parts = parts;
        if parts.len() == 0 {
            return false;
        }
        let ghost all = views_of(parts@);
        let key = parts.remove(0);
        assert(all[0] == key@);
        if str_eq(key, "npm_registry") {
            self.npm_registry = value;
            true
        } else {
            false
        }
    }
}

impl Config {
    /// Reads the item that the dotted `key` addresses, shown as text.
    pub fn get(&self, key: &str) -> (r: Option<String>)
        ensures
            opt_view(r) == get_result(self@, key@),
    {
        let mut parts = split_char(key, '.');
        proof {
            lemma_split_on_nonempty(key@, '.');
        }
        let ghost all = views_of(parts@);
        let first = parts.remove(0);
        assert(all[0] == first@);
        assert(views_of(parts@) =~= all.drop_first());
        if str_eq(first, "name") {
            Some(self.name.clone())
        } else if str_eq(first, "version") {
            Some(self.version.clone())
        } else if str_eq(first, "dir") {
            Some(self.dir.clone())
        } else if str_eq(first, "web") {
            self.web.get(parts)
        } else if str_eq(first, "pkg") {
            self.pkg.get(parts)
        } else {
            None
        }
    }

    /// Stores `value` in the item that the dotted `key` addresses.
    /// Fails with `KeyNotFound`, changing nothing, when the key names no item.
    pub fn set(&mut self, key: &str, value: String) -> (r: Result<(), ConfigError>)
        requires
            set_allowed(key@, value@),
        ensures
            match config_field(key@) {
                Some(f) => r is Ok && final(self)@ == assign(old(self)@, f, value@),
                None => r == Err::<(), ConfigError>(ConfigError::KeyNotFound) && final(self)@
                    == old(self)@,
            },
    {
        let mut parts = split_char(key, '.');
        proof {
            lemma_split_on_nonempty(key@, '.');
        }
        let ghost all = views_of(parts@);
        let first = parts.remove(0);
        assert(all[0] == first@);
        assert(views_of(parts@) =~= all.drop_first());
        let ok = if str_eq(first, "name") {
            self.name = value;
            true
        } else if str_eq(first, "version") {
            self.version = value;
            true
        } else if str_eq(first, "dir") {
            self.dir = value;
            true
        } else if str_eq(first, "web") {
            self.web.set(parts, value)
        } else if str_eq(first, "pkg") {
            self.pkg.set(parts, value)
        } else {
            false
        };
        if ok {
            Ok(())
        } else {
            Err(ConfigError::KeyNotFound)
        }
    }

    /// Whether `set` may store `value` under `key`: a value for the port must
    /// be a `u16`.
    pub fn can_set(key: &str, value: &str) -> (r: bool)
        ensures
            r == set_allowed(key@, value@),
    {
        let parts = split_char(key, '.');
        proof {
            lemma_split_on_nonempty(key@, '.');
        }
        let ghost all = views_of(parts@);
        assert(all[0] == parts@[0]@);
        if parts.len() > 1 && str_eq(parts[0], "web") && str_eq(parts[1], "port") {
            assert(all[1] == parts@[1]@);
            assert(all.drop_first()[0] == all[1]);
            proof {
                reveal_strlit("web");
                reveal_strlit("name");
                reveal_strlit("version");
                reveal_strlit("dir");
            }
            assert("web"@.len() != "name"@.len() && "web"@.len() != "version"@.len());
            assert("web"@[0] != "dir"@[0]);
            assert(config_field(key@) == Some(ConfigField::WebPort));
            parse_u16(value).is_some()
        } else {
            proof {
                if all[0] == "web"@ && all.len() > 1 {
                    assert(all[1] == parts@[1]@);
                    assert(all.drop_first()[0] == all[1]);
                }
                assert(config_field(key@) != Some(ConfigField::WebPort));
            }
            true
        }
    }

    /// The configuration directory on an operating system (`std::env::consts::OS`).
    pub fn get_url(os: &str) -> (r: String)
        ensures
            r@ == config_dir(os@),
    {
        if str_eq(os, "windows") {
            owned("C:\\Program Files\\rsup")
        } else {
            owned("/opt/rsup")
        }
    }

    /// The path of the configuration file in the directory `dir`.
    pub fn config_file(dir: &str) -> (r: String)
        ensures
            r@ == dir@ + "/config.toml"@,
    {
        concat(dir, "/config.toml")
    }

    /// The configuration first written into the directory `dir`: the defaults,
    /// with `dir` as its directory and `dir/web` for the static files.
    pub fn initial(dir: String) -> (r: Config)
        ensures
            r@ == initial_view(dir@),
    {
        let static_dir = concat(dir.as_str(), "/web");
        let mut config = Config::default();
        config.dir = dir;
        config.web.static_dir = static_dir;
        config
    }
}

/// The configuration directory on an operating system.
pub open spec fn config_dir(os: Seq<char>) -> Seq<char> {
    if os == "windows"@ {
        "C:\\Program Files\\rsup"@
    } else {
        "/opt/rsup"@
    }
}

/// The configuration first written into the directory `dir`.
pub open spec fn initial_view(dir: Seq<char>) -> ConfigView {
    ConfigView {
        name: "rsup"@,
        version: "0.3.0"@,
        dir,
        port: 8888,
        static_dir: dir + "/web"@,
        npm_registry: "https://registry.npmmirror.com"@,
    }
}


/// Reading an item right after setting it gives the value that was set; for
/// the port, the decimal text of the number that the value parses to.
pub proof fn lemma_get_after_set(c: ConfigView, key: Seq<char>, value: Seq<char>)
    requires
        config_field(key) is Some,
        set_allowed(key, value),
    ensures
        get_result(assign(c, config_field(key).unwrap(), value), key) == Some(
            if config_field(key) == Some(ConfigField::WebPort) {
                decimal(parse_unsigned(value, u16::MAX as nat).unwrap())
            } else {
                value
            },
        ),
{
}

/// Setting one item leaves every other item as it was.
pub proof fn lemma_set_keeps_others(c: ConfigView, key: Seq<char>, value: Seq<char>, other: Seq<char>)
    requires
        config_field(key) is Some,
        set_allowed(key, value),
        config_field(other) is Some,
        config_field(other) != config_field(key),
    ensures
        get_result(assign(c, config_field(key).unwrap(), value), other) == get_result(c, other),
{
}

/// Storing the text that `get` shows for an item leaves the configuration as it was.
pub proof fn lemma_set_to_shown_value(c: ConfigView, key: Seq<char>)
    requires
        config_field(key) is Some,
    ensures
        set_allowed(key, field_text(c, config_field(key).unwrap())),
        assign(c, config_field(key).unwrap(), field_text(c, config_field(key).unwrap())) == c,
{
    lemma_parse_decimal(c.port as nat, u16::MAX as nat);
}

} // verus!
