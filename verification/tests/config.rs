//! The configuration, its file and the choice of an AUR helper.
use pacpin::config::{
    exclude_patterns, get_config_path, is_trusted_helper, load_config, settle_helper,
    temp_config_name, validate_helper, Config, ConfigFile, OneOrMany,
};
use pacpin::strmap::StrMap;

/// A file that says nothing.
fn silent() -> ConfigFile {
    ConfigFile {
        pinning: None,
        stability_delays: None,
        smart_orphans: None,
        integrations: None,
        vendor_stickiness: None,
        shell_aliases: None,
        helper: None,
        repo_order: Vec::new(),
        pins: StrMap::new(),
        exclude: StrMap::new(),
        delay: StrMap::new(),
        flatpak: None,
        nix: None,
        pipx: None,
    }
}

fn flag(table: &toml::Table, section: &str, name: &str) -> Option<bool> {
    table.get(section)?.as_table()?.get(name)?.as_bool()
}

/// What a configuration file says, read with a TOML parser.
fn parsed(text: &str) -> ConfigFile {
    let table: toml::Table = text.parse().unwrap();
    let mut file = silent();
    file.pinning = flag(&table, "features", "pinning");
    file.stability_delays = flag(&table, "features", "stability_delays");
    file.smart_orphans = flag(&table, "features", "smart_orphans");
    file.integrations = flag(&table, "features", "integrations");
    file.vendor_stickiness = flag(&table, "features", "vendor_stickiness");
    file.shell_aliases = flag(&table, "features", "shell_aliases");
    file.flatpak = flag(&table, "integrations", "flatpak");
    file.nix = flag(&table, "integrations", "nix");
    file.pipx = flag(&table, "integrations", "pipx");
    if let Some(options) = table.get("options").and_then(|o| o.as_table()) {
        file.helper = options.get("helper").and_then(|h| h.as_str()).map(|h| h.to_string());
    }
    if let Some(order) = table.get("repo_order").and_then(|o| o.as_array()) {
        file.repo_order = order.iter().map(|r| r.as_str().unwrap().to_string()).collect();
    }
    file
}

#[test]
fn test_features_default() {
    let toml_str = r#"
    [options]
    helper = "paru"
    "#;
    let (config, warning) = load_config(Some(parsed(toml_str)), false);
    assert!(config.features.pinning);
    assert!(!config.features.stability_delays);
    assert!(config.features.smart_orphans);
    assert_eq!(warning, None);
}

#[test]
fn test_features_explicit() {
    let toml_str = r#"
    [features]
    pinning = false
    stability_delays = true
    smart_orphans = false
    "#;
    let (config, _) = load_config(Some(parsed(toml_str)), false);
    assert!(!config.features.pinning);
    assert!(config.features.stability_delays);
    assert!(!config.features.smart_orphans);
    assert!(!config.features.integrations);
    assert!(config.features.shell_aliases);

    let toml_opt_out = r#"
    [features]
    shell_aliases = false
    "#;
    let (cfg_opt_out, _) = load_config(Some(parsed(toml_opt_out)), false);
    assert!(!cfg_opt_out.features.shell_aliases);
}

#[test]
fn test_integrations_config() {
    let toml_str = r#"
    [features]
    integrations = true

    [integrations]
    flatpak = true
    nix = true
    "#;
    let (config, _) = load_config(Some(parsed(toml_str)), false);
    assert!(config.features.integrations);
    assert!(config.integrations.flatpak);
    assert!(config.integrations.nix);
    assert!(!config.integrations.pipx);
}

#[test]
fn test_repo_order_config() {
    let toml_str = r#"
    repo_order = ["core", "cachyos", "extra"]
    "#;
    let (config, _) = load_config(Some(parsed(toml_str)), false);
    assert_eq!(config.repo_order, vec!["core", "cachyos", "extra"]);
}

#[test]
fn test_vendor_stickiness_config() {
    let toml_str = r#"
    [features]
    vendor_stickiness = true
    "#;
    let (config, _) = load_config(Some(parsed(toml_str)), false);
    assert!(config.features.vendor_stickiness);

    let default_config = Config::default();
    assert!(!default_config.features.vendor_stickiness);
}

#[test]
fn test_validate_helper() {
    assert_eq!(validate_helper("paru", false).unwrap(), "paru");
    assert_eq!(validate_helper("yay", false).unwrap(), "yay");
    assert_eq!(validate_helper("pikaur", false).unwrap(), "pikaur");

    assert!(validate_helper("", false).is_err());
    assert!(validate_helper("rm -rf /", false).is_err());
    assert!(validate_helper("paru; whoami", false).is_err());
    assert!(validate_helper("untrusted_helper_xyz", false).is_err());

    let sh_path = "/bin/sh";
    assert_eq!(validate_helper(sh_path, true).unwrap(), sh_path);
}

#[test]
fn each_refusal_of_a_helper_has_its_text() {
    assert_eq!(validate_helper("  ", true).unwrap_err(), "AUR helper name cannot be empty.");
    assert_eq!(
        validate_helper(" a;b ", true).unwrap_err(),
        "AUR helper 'a;b' contains illegal shell characters."
    );
    assert_eq!(
        validate_helper("/bin/sh", false).unwrap_err(),
        "Untrusted AUR helper '/bin/sh'. Expected one of [\"paru\", \"yay\", \"pikaur\", \"aurman\", \"pakku\", \"trizen\"] or an absolute path to an executable file."
    );
    assert!(validate_helper("bin/sh", true).is_err());
    assert_eq!(validate_helper("  trizen\n", false).unwrap(), "trizen");
    assert!(is_trusted_helper("aurman") && !is_trusted_helper("sh"));
}

#[test]
fn a_refused_helper_gives_way_to_the_default() {
    let (helper, warning) = settle_helper("bad", false);
    assert_eq!(helper, "paru");
    assert!(warning.unwrap().ends_with(" Falling back to 'paru'."));
    assert_eq!(settle_helper("yay", false), ("yay".to_string(), None));
    let mut file = silent();
    file.helper = Some("a|b".to_string());
    let (config, warning) = load_config(Some(file), false);
    assert_eq!(config.options.helper, "paru");
    assert_eq!(
        warning.unwrap(),
        " Warning: AUR helper 'a|b' contains illegal shell characters. Falling back to 'paru'."
    );
}

#[test]
fn no_file_gives_the_defaults() {
    let (config, warning) = load_config(None, false);
    assert_eq!(warning, None);
    assert_eq!(config.options.helper, "paru");
    assert!(config.pins.is_empty() && config.exclude.is_empty() && config.delay.is_empty());
    assert_eq!(config.features, Config::default().features);
}

#[test]
fn an_exclusion_is_one_pattern_or_many() {
    assert_eq!(exclude_patterns(&OneOrMany::One("a*".to_string())), vec!["a*"]);
    assert_eq!(
        exclude_patterns(&OneOrMany::Many(vec!["a".to_string(), "b".to_string()])),
        vec!["a", "b"]
    );
    let mut file = silent();
    file.exclude.insert("extra".to_string(), OneOrMany::Many(vec![]));
    file.exclude.insert("core".to_string(), OneOrMany::One("x".to_string()));
    file.pins.insert("mesa".to_string(), "core".to_string());
    file.delay.insert("linux".to_string(), 3);
    let (config, _) = load_config(Some(file), false);
    assert_eq!(config.exclude.len(), 2);
    assert_eq!(config.exclude.get("core").unwrap(), &vec!["x".to_string()]);
    assert_eq!(config.exclude.get("extra").unwrap(), &Vec::<String>::new());
    assert_eq!(config.pins.get("mesa").unwrap(), "core");
    assert_eq!(config.delay.get("linux"), Some(&3));
}

#[test]
fn the_configuration_lies_below_the_home_directory() {
    assert_eq!(
        get_config_path(Some("/home/u")),
        Some("/home/u/.config/pacpin/config.toml".to_string())
    );
    assert_eq!(get_config_path(Some(" \t")), None);
    assert_eq!(get_config_path(None), None);
    assert_eq!(temp_config_name(7, 1234), ".config.toml.tmp.7_1234");
}
