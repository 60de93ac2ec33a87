use retro_homepage::cli::{parse_args, CliCommand};
use retro_homepage::config::{config_status, get_config, serialize_config, ConfigStatus};

fn args(v: &[&str]) -> Vec<String> {
    v.iter().map(|s| s.to_string()).collect()
}

#[test]
fn default_port_and_port_options() {
    assert_eq!(parse_args(&args(&["srv"])), CliCommand::Serve { port: 3000 });
    assert_eq!(parse_args(&args(&[])), CliCommand::Serve { port: 3000 });
    assert_eq!(parse_args(&args(&["srv", "-p", "8080"])), CliCommand::Serve { port: 8080 });
    assert_eq!(parse_args(&args(&["srv", "--port", "+65535"])), CliCommand::Serve { port: 65535 });
    assert_eq!(parse_args(&args(&["srv", "-p", "1", "--port", "2"])), CliCommand::Serve { port: 2 });
}

#[test]
fn help_and_errors() {
    assert_eq!(parse_args(&args(&["srv", "-h"])), CliCommand::Help);
    assert_eq!(parse_args(&args(&["srv", "-p", "80", "--help", "bogus"])), CliCommand::Help);
    assert_eq!(
        parse_args(&args(&["srv", "-p", "65536"])),
        CliCommand::InvalidPort { value: "65536".to_string() }
    );
    assert_eq!(
        parse_args(&args(&["srv", "--port"])),
        CliCommand::MissingPort { option: "--port".to_string() }
    );
    assert_eq!(
        parse_args(&args(&["srv", "-x", "-h"])),
        CliCommand::UnknownOption { option: "-x".to_string() }
    );
    assert_eq!(
        parse_args(&args(&["srv", "-p", "-h"])),
        CliCommand::InvalidPort { value: "-h".to_string() }
    );
}

#[test]
fn stored_configuration_status() {
    match get_config(Some("{\"theme\": \"amber\"}")) {
        ConfigStatus::Configured { config } => assert_eq!(config["theme"], "amber"),
        ConfigStatus::Unconfigured => panic!("expected a configuration"),
    }
    assert_eq!(get_config(Some("not json")), ConfigStatus::Unconfigured);
    assert_eq!(get_config(Some("")), ConfigStatus::Unconfigured);
    assert_eq!(get_config(None), ConfigStatus::Unconfigured);
    assert_eq!(config_status(None), ConfigStatus::Unconfigured);
    let v: serde_json::Value = serde_json::from_str("[1, 2]").unwrap();
    assert_eq!(config_status(Some(v.clone())), ConfigStatus::Configured { config: v });
}

#[test]
fn configuration_is_stored_pretty_printed() {
    let v: serde_json::Value = serde_json::from_str("{\"a\":[1,2]}").unwrap();
    assert_eq!(serialize_config(&v), Some("{\n  \"a\": [\n    1,\n    2\n  ]\n}".to_string()));
}

#[test]
fn configured_value_is_the_file_content_and_saved_text_is_pretty() {
    let text = "{\"links\": [\"a\", \"b\"], \"n\": 3}";
    let expected: serde_json::Value = serde_json::from_str(text).unwrap();
    assert_eq!(get_config(Some(text)), ConfigStatus::Configured { config: expected.clone() });
    assert_eq!(serialize_config(&expected), Some(serde_json::to_string_pretty(&expected).unwrap()));
}
