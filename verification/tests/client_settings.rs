use paastel::cli::Settings;
use paastel::errors::ConfigError;

fn full_text() -> String {
    [
        "api = \"https://api.example\"",
        "namespace = \"prod\"",
        "password = \"c2VjcmV0\"",
        "username = \"alice\"",
        "wss = \"wss://api.example\"",
        "location = \"/home/alice/.config/paastel/settings.toml\"",
        "",
    ]
    .join("\n")
}

#[test]
fn from_text_reads_every_field() {
    let s = Settings::from_text(&full_text()).unwrap();
    assert_eq!(s.api, "https://api.example");
    assert_eq!(s.namespace, "prod");
    assert_eq!(s.password, "c2VjcmV0");
    assert_eq!(s.username, "alice");
    assert_eq!(s.wss, "wss://api.example");
    assert_eq!(s.location, "/home/alice/.config/paastel/settings.toml");
}

#[test]
fn from_text_requires_every_field() {
    let text = "api = \"a\"\nnamespace = \"n\"\n";
    assert_eq!(Settings::from_text(text).unwrap_err(), ConfigError::MissingField);
}

#[test]
fn from_text_rejects_malformed_documents() {
    let text = "api = \"a\"\npassword: nope\n";
    assert_eq!(Settings::from_text(text).unwrap_err(), ConfigError::Malformed { line: 2 });
}

#[test]
fn to_text_renders_the_fixed_layout() {
    let s = Settings {
        api: "a".to_string(),
        namespace: "n".to_string(),
        password: "p".to_string(),
        username: "u".to_string(),
        wss: "w".to_string(),
        location: "l".to_string(),
    };
    let expected = "api = \"a\"\nnamespace = \"n\"\npassword = \"p\"\nusername = \"u\"\nwss = \"w\"\nlocation = \"l\"\n";
    assert_eq!(s.to_text(), expected);
}

#[test]
fn clean_values_round_trip() {
    let s = Settings::from_text(&full_text()).unwrap();
    let back = Settings::from_text(&s.to_text()).unwrap();
    assert_eq!(back.api, s.api);
    assert_eq!(back.namespace, s.namespace);
    assert_eq!(back.password, s.password);
    assert_eq!(back.username, s.username);
    assert_eq!(back.wss, s.wss);
    assert_eq!(back.location, s.location);
}

#[test]
fn default_record_has_the_default_namespace_only() {
    let s = Settings::default();
    assert_eq!(s.namespace, "workspace");
    assert_eq!(s.api, "");
    assert_eq!(s.password, "");
    assert_eq!(s.username, "");
    assert_eq!(s.wss, "");
    assert_eq!(s.location, "");
}
