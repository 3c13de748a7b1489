use indexmap::IndexMap;
use nvim_mcp_client::client::{
    invocation_result, listed, ClientError, ConnectOutcome, ConnectionStatus, MCPClient,
    MCPServerConnection, MCPService, Resource, ResourceContent, SessionFactory, Tool, ToolResult,
    ToolResultContent,
};
use nvim_mcp_client::config::{MCPConfig, ServerConfig, ValidationError};
use serde_json::Value;
use std::collections::HashMap;
use std::sync::atomic::{AtomicUsize, Ordering};
use std::sync::{Arc, Mutex};

/// A session whose answers are fixed when it is made.
struct ScriptedSession {
    label: String,
    listing_fails: bool,
    disconnect_fails: bool,
    disconnects: Arc<AtomicUsize>,
}

impl MCPService for ScriptedSession {
    fn list_tools(&self) -> Result<Vec<Tool>, String> {
        if self.listing_fails {
            Err(format!("{} cannot list", self.label))
        } else {
            Ok(vec![Tool {
                name: format!("{}-tool", self.label),
                description: Some("a tool".to_string()),
                input_schema: None,
            }])
        }
    }

    fn call_tool(&self, name: &str, arguments: Option<Value>) -> Result<ToolResult, String> {
        if name == "explode" {
            return Err(format!("{} exploded", self.label));
        }
        Ok(ToolResult {
            content: vec![ToolResultContent {
                content_type: "text".to_string(),
                text: Some(format!("{}:{}", self.label, name)),
                data: arguments,
            }],
            is_error: false,
        })
    }

    fn list_resources(&self) -> Result<Vec<Resource>, String> {
        if self.listing_fails {
            Err(format!("{} cannot list", self.label))
        } else {
            Ok(vec![Resource {
                uri: format!("mem://{}", self.label),
                name: self.label.clone(),
                description: None,
                mime_type: None,
            }])
        }
    }

    fn read_resource(&self, uri: &str) -> Result<ResourceContent, String> {
        if uri == "mem://missing" {
            return Err("no such resource".to_string());
        }
        Ok(ResourceContent {
            uri: uri.to_string(),
            mime_type: Some("text/plain".to_string()),
            text: Some(format!("content of {}", uri)),
            blob: None,
        })
    }

    fn disconnect(&mut self) -> Result<(), String> {
        self.disconnects.fetch_add(1, Ordering::SeqCst);
        if self.disconnect_fails {
            Err("disconnect failed".to_string())
        } else {
            Ok(())
        }
    }
}

/// What the factory does with a command.
#[derive(Clone)]
enum Plan {
    Connect,
    ConnectButFailListing,
    ConnectButFailDisconnect,
    Refuse(String),
    Fault(String),
}

/// A factory that decides by the command of the backend. Its plans can be
/// changed while the orchestrator holds it.
struct ScriptedFactory {
    plans: Arc<Mutex<HashMap<String, Plan>>>,
    started: Arc<Mutex<Vec<String>>>,
    disconnects: Arc<AtomicUsize>,
}

impl SessionFactory for ScriptedFactory {
    type Pending = (String, Plan);

    fn start(
        &mut self,
        name: &str,
        command: &str,
        _args: &Option<Vec<String>>,
        _env: &Option<HashMap<String, String>>,
    ) -> Self::Pending {
        self.started.lock().unwrap().push(name.to_string());
        let plan = self
            .plans
            .lock()
            .unwrap()
            .get(command)
            .cloned()
            .unwrap_or(Plan::Refuse(format!("command not found: {}", command)));
        (name.to_string(), plan)
    }

    fn wait(&mut self, pending: Self::Pending) -> ConnectOutcome {
        let (name, plan) = pending;
        let session = |listing_fails: bool, disconnect_fails: bool| {
            ConnectOutcome::Ready(Box::new(ScriptedSession {
                label: name.clone(),
                listing_fails,
                disconnect_fails,
                disconnects: self.disconnects.clone(),
            }))
        };
        match plan {
            Plan::Connect => session(false, false),
            Plan::ConnectButFailListing => session(true, false),
            Plan::ConnectButFailDisconnect => session(false, true),
            Plan::Refuse(reason) => ConnectOutcome::Refused(reason),
            Plan::Fault(reason) => ConnectOutcome::Faulted(reason),
        }
    }
}

struct Handles {
    plans: Arc<Mutex<HashMap<String, Plan>>>,
    started: Arc<Mutex<Vec<String>>>,
    disconnects: Arc<AtomicUsize>,
}

fn factory(plans: Vec<(&str, Plan)>) -> (ScriptedFactory, Handles) {
    let plans: HashMap<String, Plan> = plans
        .into_iter()
        .map(|(command, plan)| (command.to_string(), plan))
        .collect();
    let plans = Arc::new(Mutex::new(plans));
    let started = Arc::new(Mutex::new(Vec::new()));
    let disconnects = Arc::new(AtomicUsize::new(0));
    (
        ScriptedFactory {
            plans: plans.clone(),
            started: started.clone(),
            disconnects: disconnects.clone(),
        },
        Handles { plans, started, disconnects },
    )
}

fn local(command: &str) -> ServerConfig {
    ServerConfig::Local {
        command: command.to_string(),
        args: None,
        env: None,
        disabled: None,
    }
}

fn local_disabled(command: &str) -> ServerConfig {
    ServerConfig::Local {
        command: command.to_string(),
        args: None,
        env: None,
        disabled: Some(true),
    }
}

fn remote(url: &str) -> ServerConfig {
    ServerConfig::Remote {
        url: url.to_string(),
        headers: None,
        disabled: None,
    }
}

fn config_of(servers: Vec<(&str, ServerConfig)>) -> MCPConfig {
    let mut map = IndexMap::new();
    for (name, server) in servers {
        map.insert(name.to_string(), server);
    }
    MCPConfig { mcp_servers: map }
}

fn describe(status: &ConnectionStatus) -> String {
    match status {
        ConnectionStatus::Disconnected => "disconnected".to_string(),
        ConnectionStatus::Connecting => "connecting".to_string(),
        ConnectionStatus::Connected => "connected".to_string(),
        ConnectionStatus::Failed(reason) => format!("failed: {}", reason),
    }
}

fn snapshot<F: SessionFactory>(client: &MCPClient<F>) -> Vec<(String, String)> {
    client
        .get_server_status()
        .iter()
        .map(|(name, status)| (name.clone(), describe(status)))
        .collect()
}

fn pairs(expected: Vec<(&str, &str)>) -> Vec<(String, String)> {
    expected
        .into_iter()
        .map(|(name, status)| (name.to_string(), status.to_string()))
        .collect()
}

#[test]
fn new_orchestrator_tracks_nothing() {
    let (f, handles) = factory(vec![("good", Plan::Connect)]);
    let client = MCPClient::new(config_of(vec![("a", local("good"))]), f);
    assert!(client.get_server_status().is_empty());
    assert!(client.list_all_tools().unwrap().is_empty());
    assert!(handles.started.lock().unwrap().is_empty());
}

#[test]
fn initialize_tracks_enabled_backends_in_configured_order() {
    let (f, handles) = factory(vec![("good", Plan::Connect)]);
    let config = config_of(vec![
        ("zeta", local("good")),
        ("off-1", local_disabled("good")),
        ("alpha", local("good")),
        ("off-2", local_disabled("good")),
        ("mid", local("good")),
    ]);
    let mut client = MCPClient::new(config, f);
    assert!(client.initialize().is_ok());
    assert_eq!(
        snapshot(&client),
        pairs(vec![
            ("zeta", "connected"),
            ("alpha", "connected"),
            ("mid", "connected"),
        ])
    );
    assert_eq!(
        *handles.started.lock().unwrap(),
        vec!["zeta".to_string(), "alpha".to_string(), "mid".to_string()]
    );
}

#[test]
fn disabled_backends_are_never_reachable() {
    let (f, _handles) = factory(vec![("good", Plan::Connect)]);
    let config = config_of(vec![("on", local("good")), ("off", local_disabled("good"))]);
    let mut client = MCPClient::new(config, f);
    client.initialize().unwrap();
    match client.call_tool("off", "x", None) {
        Err(ClientError::NotFound(name)) => assert_eq!(name, "off"),
        other => panic!("unexpected: {:?}", other.map(|_| ())),
    }
    match client.reconnect_server("off") {
        Err(ClientError::NotFound(name)) => assert_eq!(name, "off"),
        other => panic!("unexpected: {:?}", other),
    }
}

#[test]
fn initialize_with_only_disabled_backends_tracks_nothing() {
    let (f, handles) = factory(vec![("good", Plan::Connect)]);
    let config = config_of(vec![("off", local_disabled("good"))]);
    let mut client = MCPClient::new(config, f);
    assert!(client.initialize().is_ok());
    assert!(client.get_server_status().is_empty());
    assert!(handles.started.lock().unwrap().is_empty());
}

#[test]
fn initialize_refuses_a_faulty_configuration_and_tracks_nothing() {
    let (f, handles) = factory(vec![("good", Plan::Connect)]);
    let config = config_of(vec![("ok", local("good")), ("broken", local(""))]);
    let mut client = MCPClient::new(config, f);
    match client.initialize() {
        Err(ClientError::Validation(ValidationError::EmptyCommand { server })) => {
            assert_eq!(server, "broken")
        }
        other => panic!("unexpected: {:?}", other),
    }
    assert!(client.get_server_status().is_empty());
    assert!(handles.started.lock().unwrap().is_empty());
}

#[test]
fn connect_all_settles_every_backend() {
    let (f, _handles) = factory(vec![
        ("good", Plan::Connect),
        ("bad", Plan::Refuse("handshake failed".to_string())),
        ("crash", Plan::Fault("task 7 panicked".to_string())),
    ]);
    let config = config_of(vec![
        ("a", local("good")),
        ("b", local("bad")),
        ("c", local("crash")),
        ("d", local("good")),
        ("e", remote("https://example.org/mcp")),
    ]);
    let mut client = MCPClient::new(config, f);
    assert!(client.initialize().is_ok());
    assert_eq!(
        snapshot(&client),
        pairs(vec![
            ("a", "connected"),
            ("b", "failed: handshake failed"),
            ("c", "failed: Task failed: task 7 panicked"),
            ("d", "connected"),
            ("e", "failed: Remote MCP servers not yet implemented"),
        ])
    );
}

#[test]
fn connect_all_leaves_settled_backends_alone() {
    let (f, handles) = factory(vec![
        ("good", Plan::Connect),
        ("bad", Plan::Refuse("no".to_string())),
    ]);
    let config = config_of(vec![("a", local("good")), ("b", local("bad"))]);
    let mut client = MCPClient::new(config, f);
    client.initialize().unwrap();
    handles
        .plans
        .lock()
        .unwrap()
        .insert("bad".to_string(), Plan::Connect);
    assert!(client.connect_all().is_ok());
    assert_eq!(
        snapshot(&client),
        pairs(vec![("a", "connected"), ("b", "failed: no")])
    );
    assert_eq!(handles.started.lock().unwrap().len(), 2);
}

#[test]
fn connect_all_after_shutdown_connects_again() {
    let (f, handles) = factory(vec![("good", Plan::Connect)]);
    let config = config_of(vec![("a", local("good")), ("b", local("good"))]);
    let mut client = MCPClient::new(config, f);
    client.initialize().unwrap();
    client.shutdown().unwrap();
    assert!(client.connect_all().is_ok());
    assert_eq!(
        snapshot(&client),
        pairs(vec![("a", "connected"), ("b", "connected")])
    );
    assert_eq!(handles.started.lock().unwrap().len(), 4);
}

#[test]
fn call_tool_on_unknown_backend_is_not_found() {
    let (f, _handles) = factory(vec![
        ("good", Plan::Connect),
        ("bad", Plan::Refuse("no".to_string())),
    ]);
    let config = config_of(vec![("a", local("good")), ("b", local("bad"))]);
    let mut client = MCPClient::new(config, f);
    client.initialize().unwrap();
    match client.call_tool("gamma", "x", None) {
        Err(ClientError::NotFound(name)) => assert_eq!(name, "gamma"),
        other => panic!("unexpected: {:?}", other.map(|_| ())),
    }
    match client.read_resource("gamma", "mem://x") {
        Err(ClientError::NotFound(name)) => assert_eq!(name, "gamma"),
        other => panic!("unexpected: {:?}", other.map(|_| ())),
    }
    match client.call_tool("", "x", None) {
        Err(ClientError::NotFound(name)) => assert_eq!(name, ""),
        other => panic!("unexpected: {:?}", other.map(|_| ())),
    }
}

#[test]
fn call_tool_on_failed_or_disconnected_backend_is_not_connected() {
    let (f, _handles) = factory(vec![
        ("good", Plan::Connect),
        ("bad", Plan::Refuse("no".to_string())),
    ]);
    let config = config_of(vec![("a", local("good")), ("b", local("bad"))]);
    let mut client = MCPClient::new(config, f);
    client.initialize().unwrap();
    match client.call_tool("b", "x", None) {
        Err(ClientError::NotConnected(name)) => assert_eq!(name, "b"),
        other => panic!("unexpected: {:?}", other.map(|_| ())),
    }
    match client.read_resource("b", "mem://x") {
        Err(ClientError::NotConnected(name)) => assert_eq!(name, "b"),
        other => panic!("unexpected: {:?}", other.map(|_| ())),
    }
    client.shutdown().unwrap();
    match client.call_tool("a", "x", None) {
        Err(ClientError::NotConnected(name)) => assert_eq!(name, "a"),
        other => panic!("unexpected: {:?}", other.map(|_| ())),
    }
}

#[test]
fn call_tool_hands_the_call_to_the_session() {
    let (f, _handles) = factory(vec![("good", Plan::Connect)]);
    let config = config_of(vec![("a", local("good")), ("b", local("good"))]);
    let mut client = MCPClient::new(config, f);
    client.initialize().unwrap();
    let arguments = Value::String("payload".to_string());
    let result = client.call_tool("b", "echo", Some(arguments.clone())).unwrap();
    assert!(!result.is_error);
    assert_eq!(result.content.len(), 1);
    assert_eq!(result.content[0].content_type, "text");
    assert_eq!(result.content[0].text.as_deref(), Some("b:echo"));
    assert_eq!(result.content[0].data, Some(arguments));
}

#[test]
fn session_failure_is_passed_on_word_for_word() {
    let (f, _handles) = factory(vec![("good", Plan::Connect)]);
    let config = config_of(vec![("a", local("good"))]);
    let mut client = MCPClient::new(config, f);
    client.initialize().unwrap();
    match client.call_tool("a", "explode", None) {
        Err(ClientError::Invocation(reason)) => assert_eq!(reason, "a exploded"),
        other => panic!("unexpected: {:?}", other.map(|_| ())),
    }
    match client.read_resource("a", "mem://missing") {
        Err(ClientError::Invocation(reason)) => assert_eq!(reason, "no such resource"),
        other => panic!("unexpected: {:?}", other.map(|_| ())),
    }
}

#[test]
fn read_resource_hands_the_request_to_the_session() {
    let (f, _handles) = factory(vec![("good", Plan::Connect)]);
    let config = config_of(vec![("a", local("good"))]);
    let mut client = MCPClient::new(config, f);
    client.initialize().unwrap();
    let content = client.read_resource("a", "mem://note").unwrap();
    assert_eq!(content.uri, "mem://note");
    assert_eq!(content.mime_type.as_deref(), Some("text/plain"));
    assert_eq!(content.text.as_deref(), Some("content of mem://note"));
    assert_eq!(content.blob, None);
}

#[test]
fn reconnect_unknown_backend_is_not_found() {
    let (f, handles) = factory(vec![("good", Plan::Connect)]);
    let config = config_of(vec![("a", local("good"))]);
    let mut client = MCPClient::new(config, f);
    client.initialize().unwrap();
    match client.reconnect_server("nobody") {
        Err(ClientError::NotFound(name)) => assert_eq!(name, "nobody"),
        other => panic!("unexpected: {:?}", other),
    }
    assert_eq!(snapshot(&client), pairs(vec![("a", "connected")]));
    assert_eq!(handles.disconnects.load(Ordering::SeqCst), 0);
}

#[test]
fn reconnect_failure_detaches_the_previous_session() {
    let (f, handles) = factory(vec![("good", Plan::Connect)]);
    let config = config_of(vec![("a", local("good")), ("b", local("good"))]);
    let mut client = MCPClient::new(config, f);
    client.initialize().unwrap();
    handles
        .plans
        .lock()
        .unwrap()
        .insert("good".to_string(), Plan::Refuse("spawn failed".to_string()));
    match client.reconnect_server("a") {
        Err(ClientError::Acquisition(reason)) => assert_eq!(reason, "spawn failed"),
        other => panic!("unexpected: {:?}", other),
    }
    assert_eq!(
        snapshot(&client),
        pairs(vec![("a", "failed: spawn failed"), ("b", "connected")])
    );
    assert_eq!(handles.disconnects.load(Ordering::SeqCst), 1);
    match client.call_tool("a", "echo", None) {
        Err(ClientError::NotConnected(name)) => assert_eq!(name, "a"),
        other => panic!("unexpected: {:?}", other.map(|_| ())),
    }
    assert!(client.call_tool("b", "echo", None).is_ok());
}

#[test]
fn reconnect_fault_is_reported_as_the_status_reads() {
    let (f, handles) = factory(vec![("good", Plan::Connect)]);
    let config = config_of(vec![("a", local("good"))]);
    let mut client = MCPClient::new(config, f);
    client.initialize().unwrap();
    handles
        .plans
        .lock()
        .unwrap()
        .insert("good".to_string(), Plan::Fault("cancelled".to_string()));
    let error = client.reconnect_server("a").unwrap_err();
    assert_eq!(error.message(), "Task failed: cancelled");
    assert_eq!(
        snapshot(&client),
        pairs(vec![("a", "failed: Task failed: cancelled")])
    );
}

#[test]
fn reconnect_recovers_a_failed_backend() {
    let (f, handles) = factory(vec![("flaky", Plan::Refuse("not yet".to_string()))]);
    let config = config_of(vec![("a", local("flaky"))]);
    let mut client = MCPClient::new(config, f);
    client.initialize().unwrap();
    assert_eq!(snapshot(&client), pairs(vec![("a", "failed: not yet")]));
    handles
        .plans
        .lock()
        .unwrap()
        .insert("flaky".to_string(), Plan::Connect);
    assert!(client.reconnect_server("a").is_ok());
    assert_eq!(snapshot(&client), pairs(vec![("a", "connected")]));
    assert!(client.call_tool("a", "echo", None).is_ok());
    assert_eq!(handles.disconnects.load(Ordering::SeqCst), 0);
}

#[test]
fn reconnect_survives_a_failing_disconnect() {
    let (f, handles) = factory(vec![("good", Plan::ConnectButFailDisconnect)]);
    let config = config_of(vec![("a", local("good"))]);
    let mut client = MCPClient::new(config, f);
    client.initialize().unwrap();
    assert!(client.reconnect_server("a").is_ok());
    assert_eq!(snapshot(&client), pairs(vec![("a", "connected")]));
    assert_eq!(handles.disconnects.load(Ordering::SeqCst), 1);
}

#[test]
fn reconnect_of_a_remote_backend_always_fails() {
    let (f, handles) = factory(vec![]);
    let config = config_of(vec![("r", remote("https://example.org/mcp"))]);
    let mut client = MCPClient::new(config, f);
    client.initialize().unwrap();
    match client.reconnect_server("r") {
        Err(ClientError::Acquisition(reason)) => {
            assert_eq!(reason, "Remote MCP servers not yet implemented")
        }
        other => panic!("unexpected: {:?}", other),
    }
    assert_eq!(
        snapshot(&client),
        pairs(vec![("r", "failed: Remote MCP servers not yet implemented")])
    );
    assert!(handles.started.lock().unwrap().is_empty());
}

#[test]
fn shutdown_disconnects_every_backend() {
    let (f, handles) = factory(vec![
        ("good", Plan::Connect),
        ("stubborn", Plan::ConnectButFailDisconnect),
        ("bad", Plan::Refuse("no".to_string())),
    ]);
    let config = config_of(vec![
        ("a", local("good")),
        ("b", local("bad")),
        ("c", local("stubborn")),
    ]);
    let mut client = MCPClient::new(config, f);
    client.initialize().unwrap();
    assert!(client.shutdown().is_ok());
    assert_eq!(
        snapshot(&client),
        pairs(vec![
            ("a", "disconnected"),
            ("b", "disconnected"),
            ("c", "disconnected"),
        ])
    );
    assert_eq!(handles.disconnects.load(Ordering::SeqCst), 2);
    assert!(client.list_all_tools().unwrap().is_empty());
}

#[test]
fn shutdown_twice_changes_nothing_more() {
    let (f, handles) = factory(vec![("good", Plan::Connect)]);
    let config = config_of(vec![("a", local("good"))]);
    let mut client = MCPClient::new(config, f);
    client.initialize().unwrap();
    client.shutdown().unwrap();
    assert!(client.shutdown().is_ok());
    assert_eq!(snapshot(&client), pairs(vec![("a", "disconnected")]));
    assert_eq!(handles.disconnects.load(Ordering::SeqCst), 1);
}

#[test]
fn list_all_tools_keeps_only_backends_that_answer() {
    let (f, handles) = factory(vec![
        ("mute", Plan::ConnectButFailListing),
        ("good", Plan::Connect),
    ]);
    let config = config_of(vec![
        ("erroring", local("mute")),
        ("succeeding", local("good")),
        ("idle", local("good")),
    ]);
    let mut client = MCPClient::new(config, f);
    client.initialize().unwrap();
    client.shutdown().unwrap();
    client.reconnect_server("erroring").unwrap();
    client.reconnect_server("succeeding").unwrap();
    assert_eq!(
        snapshot(&client),
        pairs(vec![
            ("erroring", "connected"),
            ("succeeding", "connected"),
            ("idle", "disconnected"),
        ])
    );
    let tools = client.list_all_tools().unwrap();
    assert_eq!(tools.len(), 1);
    assert_eq!(tools[0].0, "succeeding");
    assert_eq!(tools[0].1.len(), 1);
    assert_eq!(tools[0].1[0].name, "succeeding-tool");
    let resources = client.list_all_resources().unwrap();
    assert_eq!(resources.len(), 1);
    assert_eq!(resources[0].0, "succeeding");
    assert_eq!(resources[0].1[0].uri, "mem://succeeding");
    let _ = handles;
}

#[test]
fn listings_follow_tracked_order() {
    let (f, _handles) = factory(vec![("good", Plan::Connect)]);
    let config = config_of(vec![
        ("zulu", local("good")),
        ("bravo", local("good")),
        ("mike", local("good")),
    ]);
    let mut client = MCPClient::new(config, f);
    client.initialize().unwrap();
    let names: Vec<String> = client
        .list_all_tools()
        .unwrap()
        .into_iter()
        .map(|(name, _)| name)
        .collect();
    assert_eq!(names, vec!["zulu", "bravo", "mike"]);
}

#[test]
fn example_scenario_alpha_and_beta() {
    let (f, _handles) = factory(vec![("alpha-server", Plan::Connect)]);
    let config = config_of(vec![
        ("alpha", local("alpha-server")),
        ("beta", local("no-such-command")),
    ]);
    let mut client = MCPClient::new(config, f);
    assert!(client.initialize().is_ok());
    assert_eq!(
        snapshot(&client),
        pairs(vec![
            ("alpha", "connected"),
            ("beta", "failed: command not found: no-such-command"),
        ])
    );
    match client.call_tool("beta", "x", None) {
        Err(ClientError::NotConnected(name)) => assert_eq!(name, "beta"),
        other => panic!("unexpected: {:?}", other.map(|_| ())),
    }
    match client.call_tool("gamma", "x", None) {
        Err(ClientError::NotFound(name)) => assert_eq!(name, "gamma"),
        other => panic!("unexpected: {:?}", other.map(|_| ())),
    }
}

#[test]
fn error_messages_name_the_backend() {
    assert_eq!(
        ClientError::NotFound("gamma".to_string()).message(),
        "Server 'gamma' not found"
    );
    assert_eq!(
        ClientError::NotConnected("beta".to_string()).message(),
        "Server 'beta' is not connected"
    );
    assert_eq!(
        ClientError::Acquisition("spawn failed".to_string()).message(),
        "spawn failed"
    );
    assert_eq!(
        ClientError::Invocation("tool failed".to_string()).message(),
        "tool failed"
    );
    assert_eq!(
        ClientError::Validation(ValidationError::EmptyUrl { server: "r".to_string() }).message(),
        "Server 'r' has empty URL"
    );
}

#[test]
fn initialize_again_tracks_afresh() {
    let (f, handles) = factory(vec![("good", Plan::Connect)]);
    let config = config_of(vec![("a", local("good")), ("b", local("good"))]);
    let mut client = MCPClient::new(config, f);
    client.initialize().unwrap();
    handles
        .plans
        .lock()
        .unwrap()
        .insert("good".to_string(), Plan::Refuse("gone".to_string()));
    assert!(client.initialize().is_ok());
    assert_eq!(
        snapshot(&client),
        pairs(vec![("a", "failed: gone"), ("b", "failed: gone")])
    );
}

#[test]
fn status_can_be_copied() {
    let failed = ConnectionStatus::Failed("why".to_string());
    assert_eq!(describe(&failed.clone()), "failed: why");
    assert_eq!(describe(&ConnectionStatus::Connecting.clone()), "connecting");
    assert_eq!(describe(&ConnectionStatus::Connected.clone()), "connected");
    assert_eq!(describe(&ConnectionStatus::Disconnected.clone()), "disconnected");
}

#[test]
fn answers_are_kept_or_dropped_by_their_outcome() {
    let kept = listed("a", Ok::<Vec<u8>, String>(vec![1, 2])).unwrap();
    assert_eq!(kept.0, "a");
    assert_eq!(kept.1, vec![1, 2]);
    assert!(listed::<u8>("a", Err("down".to_string())).is_none());
    assert_eq!(invocation_result(Ok::<u8, String>(7)).unwrap(), 7);
    match invocation_result::<u8>(Err("boom".to_string())) {
        Err(ClientError::Invocation(reason)) => assert_eq!(reason, "boom"),
        other => panic!("unexpected: {:?}", other),
    }
}

#[test]
fn settling_records_the_outcome() {
    let mut connection = MCPServerConnection::new("a".to_string(), local("x"));
    assert_eq!(describe(&connection.status), "disconnected");
    assert!(connection.service.is_none());
    connection.settle(ConnectOutcome::Refused("no".to_string()));
    assert_eq!(describe(&connection.status), "failed: no");
    assert!(connection.service.is_none());
    connection.settle(ConnectOutcome::Faulted("gone".to_string()));
    assert_eq!(describe(&connection.status), "failed: Task failed: gone");
    connection.settle(ConnectOutcome::Ready(Box::new(ScriptedSession {
        label: "a".to_string(),
        listing_fails: false,
        disconnect_fails: false,
        disconnects: Arc::new(AtomicUsize::new(0)),
    })));
    assert_eq!(describe(&connection.status), "connected");
    assert!(connection.service.is_some());
    assert_eq!(connection.name, "a");
}
