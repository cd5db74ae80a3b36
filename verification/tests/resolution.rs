use paastel::errors::ConfigError;
use paastel::location::Location;
use paastel::namespace::Namespace;
use paastel::settings::{EnvVar, Settings};

fn env(pairs: &[(&str, &str)]) -> Vec<EnvVar> {
    pairs
        .iter()
        .map(|(n, v)| EnvVar { name: n.to_string(), value: v.to_string() })
        .collect()
}

fn file_at(path: &str) -> Location {
    Location::File { path: path.to_string() }
}

#[test]
fn absent_default_location_resolves_to_defaults() {
    let s = Settings::resolve(Location::Memory, None, &env(&[])).unwrap();
    assert_eq!(s.namespace().as_str(), "workspace");
    assert!(matches!(s.location(), Location::Memory));
}

#[test]
fn absent_file_keeps_location_and_default_namespace() {
    let s = Settings::resolve(file_at("/tmp/later.toml"), None, &env(&[])).unwrap();
    assert_eq!(s.namespace().as_str(), "workspace");
    match s.location() {
        Location::File { path } => assert_eq!(path, "/tmp/later.toml"),
        Location::Memory => panic!("location was not kept"),
    }
}

#[test]
fn environment_ignored_when_location_absent() {
    let vars = env(&[("PAASTEL_NAMESPACE", "staging")]);
    let s = Settings::resolve(file_at("/tmp/later.toml"), None, &vars).unwrap();
    assert_eq!(s.namespace().as_str(), "workspace");
}

#[test]
fn file_content_never_overrides_location() {
    let text = "namespace = \"prod\"\n[location]\nfile = \"/elsewhere.toml\"\n";
    let s = Settings::resolve(file_at("/etc/paastel/settings.toml"), Some(text), &env(&[]))
        .unwrap();
    assert_eq!(s.namespace().as_str(), "prod");
    match s.location() {
        Location::File { path } => assert_eq!(path, "/etc/paastel/settings.toml"),
        Location::Memory => panic!("location was not kept"),
    }
}

#[test]
fn malformed_file_is_a_hard_error() {
    let text = "namespace = prod\n";
    let r = Settings::resolve(file_at("/etc/paastel/settings.toml"), Some(text), &env(&[]));
    assert_eq!(r.unwrap_err(), ConfigError::Malformed { line: 1 });
}

#[test]
fn malformed_error_names_the_first_offending_line() {
    let text = "# header comment\nnamespace = \"ok\"\nbroken line\n";
    let r = Settings::resolve(file_at("/x/s.toml"), Some(text), &env(&[]));
    assert_eq!(r.unwrap_err(), ConfigError::Malformed { line: 3 });
}

#[test]
fn environment_overrides_file_and_location_stays_forced() {
    let text = "namespace = \"prod\"\n[location]\nfile = \"/elsewhere.toml\"\n";
    let vars = env(&[("PAASTEL_NAMESPACE", "staging")]);
    let s = Settings::resolve(file_at("/etc/paastel/settings.toml"), Some(text), &vars).unwrap();
    assert_eq!(s.namespace().as_str(), "staging");
    match s.location() {
        Location::File { path } => assert_eq!(path, "/etc/paastel/settings.toml"),
        Location::Memory => panic!("location was not kept"),
    }
}

#[test]
fn environment_name_matches_case_insensitively() {
    let text = "namespace = \"prod\"\n";
    let vars = env(&[("paastel_namespace", "staging")]);
    let s = Settings::resolve(file_at("/x/s.toml"), Some(text), &vars).unwrap();
    assert_eq!(s.namespace().as_str(), "staging");
}

#[test]
fn missing_namespace_in_every_source_is_an_error() {
    let text = "username = \"u\"\n";
    let r = Settings::resolve(file_at("/x/s.toml"), Some(text), &env(&[]));
    assert_eq!(r.unwrap_err(), ConfigError::MissingField);
}

#[test]
fn empty_content_misses_the_namespace() {
    let r = Settings::resolve(file_at("/x/s.toml"), Some(""), &env(&[]));
    assert_eq!(r.unwrap_err(), ConfigError::MissingField);
}

#[test]
fn empty_namespace_value_is_rejected() {
    let text = "namespace = \"\"\n";
    let r = Settings::resolve(file_at("/x/s.toml"), Some(text), &env(&[]));
    assert_eq!(r.unwrap_err(), ConfigError::EmptyNamespace);
}

#[test]
fn later_duplicate_key_wins() {
    let text = "namespace = \"one\"\nnamespace = \"two\"\n";
    let s = Settings::resolve(file_at("/x/s.toml"), Some(text), &env(&[])).unwrap();
    assert_eq!(s.namespace().as_str(), "two");
}

#[test]
fn comments_blanks_and_crlf_are_accepted() {
    let text = "# settings\r\n\r\n  namespace = \"prod\"  \r\n";
    let s = Settings::resolve(file_at("/x/s.toml"), Some(text), &env(&[])).unwrap();
    assert_eq!(s.namespace().as_str(), "prod");
}

#[test]
fn namespace_key_inside_a_section_does_not_count() {
    let text = "[location]\nnamespace = \"prod\"\n";
    let r = Settings::resolve(file_at("/x/s.toml"), Some(text), &env(&[]));
    assert_eq!(r.unwrap_err(), ConfigError::MissingField);
}

#[test]
fn bootstrap_mutators_adjust_the_value() {
    let mut s = Settings::resolve(Location::Memory, None, &env(&[])).unwrap();
    *s.namespace_mut() = Namespace::new("other".to_string()).unwrap();
    *s.location_mut() = Location::File { path: "/x/s.toml".to_string() };
    assert_eq!(s.namespace().as_str(), "other");
    match s.location() {
        Location::File { path } => assert_eq!(path, "/x/s.toml"),
        Location::Memory => panic!("location was not set"),
    }
}

#[test]
fn namespace_validation_rejects_only_the_empty_string() {
    assert_eq!(Namespace::new(String::new()).unwrap_err(), ConfigError::EmptyNamespace);
    assert_eq!(Namespace::new("n".to_string()).unwrap().as_str(), "n");
}

#[test]
fn default_settings_value() {
    let s = Settings::default();
    assert_eq!(s.namespace().as_str(), "workspace");
    assert!(matches!(s.location(), Location::Memory));
    assert!(Location::default().is_default());
    assert!(!file_at("/x").is_default());
}

#[test]
fn parent_dir_of_a_file_location() {
    let loc = file_at("/etc/paastel/settings.toml");
    assert_eq!(loc.parent_dir().unwrap(), "/etc/paastel");
}

#[test]
fn parent_dir_at_the_root_is_the_root() {
    assert_eq!(file_at("/settings.toml").parent_dir().unwrap(), "/");
}

#[test]
fn locations_without_a_parent_are_a_distinct_error() {
    assert_eq!(file_at("settings.toml").parent_dir().unwrap_err(), ConfigError::NoParent);
    assert_eq!(Location::Memory.parent_dir().unwrap_err(), ConfigError::NoParent);
}
