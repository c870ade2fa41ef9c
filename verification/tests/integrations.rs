//! Flatpak, Nix and pipx.
use pacpin::config::Config;
use pacpin::db::VersionOrder;
use pacpin::integrations::{
    flatpak_cache_file, flatpak_cache_is_fresh, parse_flatpak_updates, parse_nix_updates,
    pipx_listed, pipx_targets, pipx_updates, pypi_url, pypi_version, Available, ExternalUpdate,
    FlatpakProvider, IntegrationProvider, IntegrationsManager, NixProvider, PipxApp, PipxProvider,
    Provider,
};
use pacpin::sandbox::{is_private_dir, DirFacts};

#[test]
fn test_external_update_struct() {
    let update = ExternalUpdate {
        runner: "Flatpak".to_string(),
        id: "org.mozilla.firefox".to_string(),
        name: "Firefox".to_string(),
        repo: "flathub".to_string(),
        version: "130.0".to_string(),
    };
    assert_eq!(update.runner, "Flatpak");
    assert_eq!(update.repo, "flathub");
}

#[test]
fn test_flatpak_parsing() {
    let sample = "Minecraft Bedrock Launcher\tio.mrarm.mcpelauncher\tv1.8.4\tflathub\n";
    let updates = parse_flatpak_updates(sample);
    assert_eq!(updates.len(), 1);
    assert_eq!(updates[0].name, "Minecraft Bedrock Launcher");
    assert_eq!(updates[0].id, "io.mrarm.mcpelauncher");
    assert_eq!(updates[0].version, "v1.8.4");
    assert_eq!(updates[0].repo, "flathub");
    let parts: Vec<&str> = sample.trim().split('\t').collect();
    assert_eq!(parts.len(), 4);
}

#[test]
fn test_integrations_manager_disabled_by_default() {
    let config = Config::default();
    let available = Available { flatpak: true, nix: true, pipx: true };
    let providers = IntegrationsManager::get_active_providers(&config, available);
    assert!(providers.is_empty());
}

#[test]
fn test_provider_supports_clean() {
    let flatpak = FlatpakProvider;
    let nix = NixProvider;
    let pipx = PipxProvider;
    assert!(flatpak.supports_clean());
    assert!(nix.supports_clean());
    assert!(!pipx.supports_clean());
}

#[test]
fn test_flatpak_cache_is_private_and_rejects_symlink() {
    let made = DirFacts { is_dir: true, is_symlink: false, owned: true, mode: 0o700 };
    assert!(is_private_dir(made));
    let linked = DirFacts { is_dir: false, is_symlink: true, owned: true, mode: 0o777 };
    assert!(!is_private_dir(linked));
    assert!(flatpak_cache_file("/home/u").starts_with("/home/u/"));
}

#[test]
fn test_provider_detection_overlaps_and_preserves_order() {
    let mut config = Config::default();
    config.features.integrations = true;
    config.integrations.flatpak = true;
    config.integrations.nix = true;
    config.integrations.pipx = true;
    let available = Available { flatpak: true, nix: false, pipx: true };
    let selected = IntegrationsManager::get_active_providers(&config, available);
    assert_eq!(
        selected.iter().map(|p| p.name().to_string()).collect::<Vec<_>>(),
        vec![Provider::Flatpak.name().to_string(), Provider::Pipx.name().to_string()]
    );
    assert_eq!(IntegrationsManager::cleaners(&selected).len(), 1);
}

#[test]
fn updates_belong_to_their_runner() {
    let update = |runner: &str, id: &str| ExternalUpdate {
        runner: runner.to_string(),
        id: id.to_string(),
        name: id.to_string(),
        repo: "r".to_string(),
        version: "1".to_string(),
    };
    let all = vec![
        update(Provider::Flatpak.name(), "a.b.C"),
        update(Provider::Pipx.name(), "cowsay"),
    ];
    let own = IntegrationsManager::updates_for(Provider::Pipx, &all);
    assert_eq!(own.len(), 1);
    assert_eq!(own[0].id, "cowsay");
    let command = Provider::Pipx.upgrade_command(&own);
    assert_eq!(command.program, "pipx");
    assert!(Provider::Pipx.clean_command().is_none());
    assert!(Provider::Flatpak.clean_command().is_some());
}

#[test]
fn the_list_of_pipx_is_read_as_json() {
    let list = br#"{"venvs": {
        "cowsay": {"metadata": {"main_package": {"package_version": "6.0"}}},
        "broken": {"metadata": {}}
    }}"#;
    let listed = pipx_listed(list);
    assert!(listed.contains(&("cowsay".to_string(), "6.0".to_string())));
    assert!(pipx_listed(b"not json").is_empty());
    assert_eq!(pypi_version(br#"{"info": {"version": "6.1"}}"#), Some("6.1".to_string()));
    assert_eq!(pypi_version(br#"{"info": {}}"#), None);
    assert_eq!(pypi_url("cowsay"), "https://pypi.org/pypi/cowsay/json");
    assert_eq!(
        pipx_targets(&vec![("a".to_string(), Some("1".to_string())), ("b".to_string(), None)]),
        vec![("a".to_string(), "1".to_string())]
    );
}

#[test]
fn only_newer_releases_are_updates() {
    let app = |name: &str, order: VersionOrder| PipxApp {
        name: name.to_string(),
        installed: "1".to_string(),
        latest: Some("2".to_string()),
        versus_installed: order,
    };
    let updates = pipx_updates(&vec![app("a", VersionOrder::Newer), app("b", VersionOrder::Same)]);
    assert_eq!(updates.len(), 1);
    assert_eq!((updates[0].id.as_str(), updates[0].version.as_str()), ("a", "2"));
    assert!(parse_nix_updates("").is_empty());
    assert!(flatpak_cache_is_fresh(0) && !flatpak_cache_is_fresh(1_000_000));
}
