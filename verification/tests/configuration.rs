use rdpweb::config::{
    default_height, default_port, default_width, validate, Args, ConfigError, Target,
};

fn target(name: Option<&str>, protocol: Option<&str>) -> Target {
    Target {
        protocol: protocol.map(str::to_owned),
        name: name.map(str::to_owned),
        host: "desktop".to_owned(),
        port: default_port(),
        username: "user".to_owned(),
        password: "secret".to_owned(),
        width: default_width(),
        height: default_height(),
    }
}

fn from_file(targets: Vec<Target>, name: Option<&str>) -> Args {
    Args {
        config: Some(targets),
        target: name.map(str::to_owned),
        host: Some("unused".to_owned()),
        port: 1,
        username: None,
        password: None,
        width: 0,
        height: 0,
    }
}

fn from_flags(host: Option<&str>, username: Option<&str>, password: Option<&str>) -> Args {
    Args {
        config: None,
        target: Some("unused".to_owned()),
        host: host.map(str::to_owned),
        port: 3390,
        username: username.map(str::to_owned),
        password: password.map(str::to_owned),
        width: 640,
        height: 480,
    }
}

fn error_of(args: Args) -> Option<ConfigError> {
    args.resolve_target().err()
}

#[test]
fn defaults_are_those_of_rdp() {
    assert_eq!((default_port(), default_width(), default_height()), (3389, 1280, 800));
}

#[test]
fn first_rdp_target_is_taken_without_a_name() {
    let targets = vec![
        target(Some("a"), Some("vnc")),
        target(Some("b"), None),
        target(Some("c"), Some("rdp")),
    ];
    let found = from_file(targets, None).resolve_target().ok().map(|found| found.name);
    assert_eq!(found, Some(Some("b".to_owned())));
}

#[test]
fn named_target_is_taken() {
    let targets = vec![
        target(None, None),
        target(Some("b"), Some("rdp")),
        target(Some("b"), Some("vnc")),
    ];
    let found = from_file(targets, Some("b")).resolve_target().ok().map(|found| found.protocol);
    assert_eq!(found, Some(Some("rdp".to_owned())));
}

#[test]
fn flags_make_an_rdp_target() {
    let found = from_flags(Some("2001:db8::20"), Some("u"), Some("")).resolve_target().ok();
    let found = match found {
        Some(found) => found,
        None => panic!("no target"),
    };
    assert_eq!(found.protocol.as_deref(), Some("rdp"));
    assert_eq!(found.name, None);
    assert_eq!(found.host, "2001:db8::20");
    assert_eq!((found.port, found.width, found.height), (3390, 640, 480));
    assert_eq!((found.username.as_str(), found.password.as_str()), ("u", ""));
}

#[test]
fn each_configuration_error_has_its_cause() {
    let vnc = || target(Some("a"), Some("vnc"));
    assert_eq!(error_of(from_file(vec![vnc()], Some("b"))), Some(ConfigError::TargetNotFound));
    assert_eq!(error_of(from_file(Vec::new(), None)), Some(ConfigError::NoRdpTarget));
    assert_eq!(error_of(from_file(vec![vnc()], None)), Some(ConfigError::NoRdpTarget));
    assert_eq!(error_of(from_file(vec![vnc()], Some("a"))), Some(ConfigError::NotAnRdpTarget));
    assert_eq!(error_of(from_flags(None, None, None)), Some(ConfigError::MissingHost));
    assert_eq!(error_of(from_flags(Some("h"), None, None)), Some(ConfigError::MissingUsername));
    assert_eq!(
        error_of(from_flags(Some("h"), Some("u"), None)),
        Some(ConfigError::MissingPassword)
    );
    assert_eq!(
        error_of(from_flags(Some(" \t"), Some(""), Some("p"))),
        Some(ConfigError::EmptyHost)
    );
    assert_eq!(
        error_of(from_flags(Some("h"), Some(""), Some("p"))),
        Some(ConfigError::EmptyUsername)
    );
    let mut flat = target(None, None);
    flat.height = 0;
    assert_eq!(validate(flat).err(), Some(ConfigError::EmptyDesktop));
    let mut narrow = target(None, None);
    narrow.width = 0;
    assert_eq!(error_of(from_file(vec![narrow], None)), Some(ConfigError::EmptyDesktop));
}

#[test]
fn usable_target_is_let_through() {
    let mut found = target(Some("n"), Some("anything"));
    found.host = " h ".to_owned();
    assert_eq!(validate(found).ok().map(|found| found.host), Some(" h ".to_owned()));
}

#[test]
fn each_configuration_error_has_its_words() {
    let cases = [
        (ConfigError::NoRdpTarget, "no RDP target found in rdpweb.toml"),
        (ConfigError::NotAnRdpTarget, "selected target is not an RDP target"),
        (
            ConfigError::MissingHost,
            "--host or RDPWEB_HOST is required when --config is omitted",
        ),
        (
            ConfigError::MissingUsername,
            "--username or RDPWEB_USERNAME is required when --config is omitted",
        ),
        (
            ConfigError::MissingPassword,
            "--password or RDPWEB_PASSWORD is required when --config is omitted",
        ),
        (ConfigError::EmptyHost, "RDP host is empty"),
        (ConfigError::EmptyUsername, "RDP username is empty"),
        (ConfigError::EmptyDesktop, "RDP desktop size must be non-zero"),
    ];
    for (error, words) in cases {
        assert_eq!(error.message("desk", "rdpweb.toml"), words);
        assert_eq!(error.worded("desk", "rdpweb.toml"), words);
    }
}

#[test]
fn missing_target_is_named_in_quotes() {
    let error = ConfigError::TargetNotFound;
    assert_eq!(error.message("desk", "a.toml"), "target \"desk\" not found in a.toml");
    assert_eq!(error.worded("<desk>", "a.toml"), "target <desk> not found in a.toml");
    for name in ["", "a\"b", "back\\slash", "tab\t", "\u{e9}\u{301}", "\u{202e}"] {
        assert_eq!(error.message(name, "f"), format!("target {name:?} not found in f"));
    }
}
