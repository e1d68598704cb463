use o324_daemon::config::{get_config_path, Config, ConfigError, ConfigInner, CoreConfig, ProfileConfig};

fn profile(location: Option<&str>) -> ProfileConfig {
    ProfileConfig {
        dbus_connection_name: None,
        dbus_service_path: None,
        storage_location: location.map(|s| s.to_string()),
    }
}

#[test]
fn default_profile_name() {
    let core = CoreConfig { computer_name: "pc".to_string(), default_profile_name: None };
    assert_eq!(core.get_default_profile_name(), "default");
    let core = CoreConfig { computer_name: "pc".to_string(), default_profile_name: Some("work".to_string()) };
    assert_eq!(core.get_default_profile_name(), "work");
}

#[test]
fn profile_defaults() {
    let p = profile(None);
    assert_eq!(p.get_dbus_service_path(), "/org/o324/Service");
    assert_eq!(p.get_dbus_connection_name(), "org.o324.Service");
    assert!(p.get_storage_location().ends_with("/.local/share/o324"));
    let p = ProfileConfig {
        dbus_connection_name: Some("a.b".to_string()),
        dbus_service_path: Some("/a/b".to_string()),
        storage_location: Some("/var/lib/o324".to_string()),
    };
    assert_eq!(p.get_dbus_service_path(), "/a/b");
    assert_eq!(p.get_dbus_connection_name(), "a.b");
    assert_eq!(p.get_storage_location(), "/var/lib/o324");
    assert_eq!(profile(Some("~user/x")).get_storage_location(), "~user/x");
    let expanded = profile(Some("~/x")).get_storage_location();
    assert!(expanded.ends_with("/x"));
    assert!(!expanded.starts_with('~'));
}

#[test]
fn current_profile_lookup() {
    let config = Config(ConfigInner {
        core: CoreConfig { computer_name: "pc".to_string(), default_profile_name: None },
        profile: vec![("other".to_string(), profile(Some("/o"))), ("default".to_string(), profile(Some("/d")))],
    });
    let p = config.get_current_profile().ok().unwrap();
    assert_eq!(p.storage_location.as_deref(), Some("/d"));
    let config = Config(ConfigInner {
        core: CoreConfig { computer_name: "pc".to_string(), default_profile_name: Some("x".to_string()) },
        profile: vec![],
    });
    match config.get_current_profile() {
        Err(e) => assert_eq!(e.message(), "Profile 'x' not found in config"),
        Ok(_) => panic!("no such profile"),
    }
}

#[test]
fn config_path_choice() {
    assert_eq!(get_config_path(&Some("/etc/o.toml".to_string()), None).ok(), Some("/etc/o.toml".to_string()));
    assert_eq!(
        get_config_path(&None, Some("/home/u/.config/o324".to_string())).ok(),
        Some("/home/u/.config/o324/config.toml".to_string())
    );
    assert_eq!(get_config_path(&None, Some("/cfg/".to_string())).ok(), Some("/cfg/config.toml".to_string()));
    match get_config_path(&None, None) {
        Err(e) => {
            assert!(matches!(e, ConfigError::ProjectDirsNotFound));
            assert_eq!(e.message(), "Project directories could not be found.");
        }
        Ok(_) => panic!("no directory"),
    }
}

#[test]
fn storage_location_expands_the_given_home() {
    let home = Some("/home/ann".to_string());
    assert_eq!(profile(None).storage_location_in(home.clone()), "/home/ann/.local/share/o324");
    assert_eq!(profile(Some("~/x")).storage_location_in(home.clone()), "/home/ann/x");
    assert_eq!(profile(Some("~")).storage_location_in(home.clone()), "/home/ann");
    assert_eq!(profile(Some("~user/x")).storage_location_in(home.clone()), "~user/x");
    assert_eq!(profile(Some("/srv/~/x")).storage_location_in(home), "/srv/~/x");
    assert_eq!(profile(Some("~/x")).storage_location_in(None), "~/x");
}
