use indexmap::IndexMap;
use nvim_mcp_client::config::{ConfigLoader, MCPConfig, SearchPath, ServerConfig, ValidationError};
use std::collections::HashMap;

fn local(command: &str, disabled: Option<bool>) -> ServerConfig {
    ServerConfig::Local {
        command: command.to_string(),
        args: None,
        env: None,
        disabled,
    }
}

fn remote(url: &str, disabled: Option<bool>) -> ServerConfig {
    ServerConfig::Remote {
        url: url.to_string(),
        headers: None,
        disabled,
    }
}

fn config_of(servers: Vec<(&str, ServerConfig)>) -> MCPConfig {
    let mut map = IndexMap::new();
    for (name, server) in servers {
        map.insert(name.to_string(), server);
    }
    MCPConfig { mcp_servers: map }
}

#[test]
fn absent_disabled_flag_means_enabled() {
    assert!(!local("npx", None).is_disabled());
    assert!(!local("npx", Some(false)).is_disabled());
    assert!(local("npx", Some(true)).is_disabled());
    assert!(!remote("https://example.org", None).is_disabled());
    assert!(remote("https://example.org", Some(true)).is_disabled());
}

#[test]
fn valid_configuration_passes() {
    let config = config_of(vec![
        ("a", local("npx", None)),
        ("b", remote("http://example.org/mcp", None)),
        ("c", remote("https://example.org/mcp", Some(true))),
    ]);
    assert!(config.validate().is_ok());
    assert!(MCPConfig::empty().validate().is_ok());
}

#[test]
fn empty_command_is_refused() {
    let config = config_of(vec![("a", local("npx", None)), ("b", local("", None))]);
    match config.validate() {
        Err(ValidationError::EmptyCommand { server }) => assert_eq!(server, "b"),
        other => panic!("unexpected: {:?}", other),
    }
}

#[test]
fn empty_url_is_refused() {
    let config = config_of(vec![("r", remote("", None))]);
    match config.validate() {
        Err(ValidationError::EmptyUrl { server }) => assert_eq!(server, "r"),
        other => panic!("unexpected: {:?}", other),
    }
}

#[test]
fn url_must_be_http_or_https() {
    let config = config_of(vec![("r", remote("ftp://example.org", None))]);
    match config.validate() {
        Err(ValidationError::InvalidUrl { server, url }) => {
            assert_eq!(server, "r");
            assert_eq!(url, "ftp://example.org");
        }
        other => panic!("unexpected: {:?}", other),
    }
    assert!(config_of(vec![("r", remote("http://", None))]).validate().is_ok());
    assert!(config_of(vec![("r", remote("https://x", None))]).validate().is_ok());
    assert!(config_of(vec![("r", remote("http:/x", None))]).validate().is_err());
    assert!(config_of(vec![("r", remote("HTTP://x", None))]).validate().is_err());
}

#[test]
fn first_fault_in_configured_order_is_reported() {
    let config = config_of(vec![
        ("ok", local("npx", None)),
        ("bad-url", remote("gopher://x", None)),
        ("bad-command", local("", None)),
    ]);
    match config.validate() {
        Err(ValidationError::InvalidUrl { server, .. }) => assert_eq!(server, "bad-url"),
        other => panic!("unexpected: {:?}", other),
    }
}

#[test]
fn disabled_backends_are_validated_too() {
    let config = config_of(vec![("off", local("", Some(true)))]);
    assert!(config.validate().is_err());
}

#[test]
fn validation_messages_name_the_backend() {
    assert_eq!(
        ValidationError::EmptyCommand { server: "a".to_string() }.message(),
        "Server 'a' has empty command"
    );
    assert_eq!(
        ValidationError::EmptyUrl { server: "b".to_string() }.message(),
        "Server 'b' has empty URL"
    );
    assert_eq!(
        ValidationError::InvalidUrl { server: "c".to_string(), url: "ftp://x".to_string() }
            .message(),
        "Server 'c' has invalid URL: ftp://x"
    );
}

#[test]
fn enabled_servers_keep_configured_order() {
    let config = config_of(vec![
        ("one", local("a", None)),
        ("two", local("b", Some(true))),
        ("three", remote("https://x", Some(false))),
        ("four", remote("https://y", Some(true))),
        ("five", local("c", None)),
    ]);
    let enabled = config.enabled_servers();
    let names: Vec<&str> = enabled.iter().map(|(name, _)| name.as_str()).collect();
    assert_eq!(names, vec!["one", "three", "five"]);
    match enabled[1].1 {
        ServerConfig::Remote { url, .. } => assert_eq!(url, "https://x"),
        other => panic!("unexpected: {:?}", other),
    }
    assert!(MCPConfig::empty().enabled_servers().is_empty());
}

#[test]
fn sample_configuration_is_as_documented() {
    let config = MCPConfig::create_sample_config();
    let names: Vec<&str> = config.mcp_servers.keys().map(|k| k.as_str()).collect();
    assert_eq!(names, vec!["filesystem", "fetch", "github"]);
    match &config.mcp_servers["filesystem"] {
        ServerConfig::Local { command, args, env, disabled } => {
            assert_eq!(command, "npx");
            assert_eq!(
                args.clone().unwrap(),
                vec!["-y", "@modelcontextprotocol/server-filesystem", "/tmp"]
            );
            assert!(env.is_none());
            assert_eq!(*disabled, Some(false));
        }
        other => panic!("unexpected: {:?}", other),
    }
    match &config.mcp_servers["fetch"] {
        ServerConfig::Local { command, args, env, disabled } => {
            assert_eq!(command, "uvx");
            assert_eq!(args.clone().unwrap(), vec!["mcp-server-fetch"]);
            assert!(env.is_none());
            assert_eq!(*disabled, Some(false));
        }
        other => panic!("unexpected: {:?}", other),
    }
    match &config.mcp_servers["github"] {
        ServerConfig::Remote { url, headers, disabled } => {
            assert_eq!(url, "https://api.githubcopilot.com/mcp/");
            let mut expected = HashMap::new();
            expected.insert(
                "Authorization".to_string(),
                "Bearer ${env:GITHUB_PERSONAL_ACCESS_TOKEN}".to_string(),
            );
            assert_eq!(headers.clone().unwrap(), expected);
            assert_eq!(*disabled, Some(true));
        }
        other => panic!("unexpected: {:?}", other),
    }
    assert!(config.validate().is_ok());
    assert_eq!(config.enabled_servers().len(), 2);
}

#[test]
fn cloned_configuration_keeps_every_field() {
    let mut env = HashMap::new();
    env.insert("KEY".to_string(), "value".to_string());
    let source = ServerConfig::Local {
        command: "npx".to_string(),
        args: Some(vec!["-y".to_string(), "x".to_string()]),
        env: Some(env.clone()),
        disabled: Some(true),
    };
    match source.clone() {
        ServerConfig::Local { command, args, env: copied, disabled } => {
            assert_eq!(command, "npx");
            assert_eq!(args, Some(vec!["-y".to_string(), "x".to_string()]));
            assert_eq!(copied, Some(env));
            assert_eq!(disabled, Some(true));
        }
        other => panic!("unexpected: {:?}", other),
    }
}

fn as_pairs(paths: &[SearchPath]) -> Vec<(Option<&str>, &str)> {
    paths
        .iter()
        .map(|p| (p.home.as_deref(), p.path.as_str()))
        .collect()
}

#[test]
fn default_search_paths_without_home() {
    let loader = ConfigLoader::with_home(None);
    assert_eq!(
        as_pairs(loader.search_paths()),
        vec![
            (None, ".mcphub/servers.json"),
            (None, ".vscode/mcp.json"),
            (None, ".cursor/mcp.json"),
        ]
    );
}

#[test]
fn default_search_paths_with_home() {
    let loader = ConfigLoader::with_home(Some("/home/alice".to_string()));
    assert_eq!(
        as_pairs(loader.search_paths()),
        vec![
            (None, ".mcphub/servers.json"),
            (None, ".vscode/mcp.json"),
            (None, ".cursor/mcp.json"),
            (Some("/home/alice"), ".config/mcphub/servers.json"),
            (Some("/home/alice"), ".config/mcp/servers.json"),
            (Some("/home/alice"), "mcp/servers.json"),
        ]
    );
}

#[test]
fn new_loader_starts_with_the_project_paths() {
    let loader = ConfigLoader::new();
    let paths = as_pairs(loader.search_paths());
    assert!(paths.len() == 3 || paths.len() == 6);
    assert_eq!(paths[0], (None, ".mcphub/servers.json"));
    assert_eq!(paths[2], (None, ".cursor/mcp.json"));
}

#[test]
fn added_search_path_goes_last() {
    let mut loader = ConfigLoader::with_home(None);
    loader.add_search_path("/etc/mcp.json");
    let paths = as_pairs(loader.search_paths());
    assert_eq!(paths.len(), 4);
    assert_eq!(paths[3], (None, "/etc/mcp.json"));
}

#[test]
fn first_place_with_a_file_is_loaded() {
    let loader = ConfigLoader::with_home(None);
    assert_eq!(loader.first_available(&vec![false, true, true]), Some(1));
    assert_eq!(loader.first_available(&vec![true, false, false]), Some(0));
    assert_eq!(loader.first_available(&vec![false, false, false]), None);
    assert_eq!(loader.first_available(&vec![]), None);
    assert_eq!(loader.first_available(&vec![false, false, false, true]), None);
}

fn env_of(pairs: &[(&str, &str)]) -> Vec<(String, String)> {
    pairs
        .iter()
        .map(|(name, value)| (name.to_string(), value.to_string()))
        .collect()
}

#[test]
fn environment_references_are_replaced() {
    let env = env_of(&[("TOKEN", "s3cret"), ("HOME_DIR", "/home/alice")]);
    assert_eq!(
        ConfigLoader::substitute_env("Bearer ${env:TOKEN}", &env),
        "Bearer s3cret"
    );
    assert_eq!(
        ConfigLoader::substitute_env("${env:HOME_DIR}/x and ${env:TOKEN} and ${env:TOKEN}", &env),
        "/home/alice/x and s3cret and s3cret"
    );
    assert_eq!(ConfigLoader::substitute_env("no references", &env), "no references");
    assert_eq!(ConfigLoader::substitute_env("", &env), "");
}

#[test]
fn unknown_variable_is_replaced_by_nothing() {
    let env = env_of(&[("A", "1")]);
    assert_eq!(ConfigLoader::substitute_env("x${env:MISSING}y", &env), "xy");
    assert_eq!(ConfigLoader::substitute_env("x${env:A}y", &[].to_vec()), "xy");
}

#[test]
fn first_value_of_a_name_counts() {
    let env = env_of(&[("A", "first"), ("A", "second")]);
    assert_eq!(ConfigLoader::substitute_env("${env:A}", &env), "first");
}

#[test]
fn a_value_that_holds_a_reference_is_expanded_in_turn() {
    let env = env_of(&[("A", "${env:B}"), ("B", "deep")]);
    assert_eq!(ConfigLoader::substitute_env("${env:A} ${env:B}", &env), "deep deep");
}

#[test]
fn malformed_references_are_left_alone() {
    let env = env_of(&[("A", "1")]);
    assert_eq!(ConfigLoader::substitute_env("${env:} ${env A} $env:A", &env), "${env:} ${env A} $env:A");
}

#[test]
fn expansion_without_a_leading_tilde_is_substitution() {
    let env = env_of(&[("A", "1")]);
    assert_eq!(
        ConfigLoader::expand_variables("{\"k\": \"${env:A}\", \"p\": \"~/x\"}", &env),
        "{\"k\": \"1\", \"p\": \"~/x\"}"
    );
}

#[test]
fn a_leading_tilde_gives_way_to_the_home_directory() {
    let expanded = ConfigLoader::expand_variables("~/mcp/${env:A}", &env_of(&[("A", "x")]));
    assert!(expanded == "~/mcp/x" || expanded.ends_with("/mcp/x"));
    assert_eq!(ConfigLoader::expand_variables("~other/x", &[].to_vec()), "~other/x");
}
