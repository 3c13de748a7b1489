//! The decisions of a JSON-RPC 2.0 dispatcher that serves an editor: which
//! requests are accepted, what each asks of the completion engine and the
//! orchestrator, and how an outcome is answered. Reading lines and turning
//! JSON into values and back is left to the caller.

use crate::client::{
    lists_connected, listing_names, routing_error, status_snapshot, ConnectionStatus, MCPClient,
    Resource, ResourceContent, SessionFactory, Tool, ToolResult,
};
use crate::completion::{merged, Completion, CompletionEngine, CompletionRequest, CompletionResponse};
use crate::text::{join2, same_text, starts_with};
use serde_json::Value;
use vstd::prelude::*;

verus! {

/// The error member of a response.
#[derive(Debug, Clone)]
pub struct JsonRpcError {
    pub code: i32,
    pub message: String,
    pub data: Option<Value>,
}

impl JsonRpcError {
    /// The line is not a request.
    pub fn parse_error() -> (r: Self)
        ensures
            r.code == -32700,
            r.message@ == "Parse error"@,
            r.data is None,
    {
        JsonRpcError { code: -32700, message: "Parse error".to_owned(), data: None }
    }

    /// The request is not one of JSON-RPC 2.0.
    pub fn invalid_request() -> (r: Self)
        ensures
            r.code == -32600,
            r.message@ == "Invalid request"@,
            r.data is None,
    {
        JsonRpcError { code: -32600, message: "Invalid request".to_owned(), data: None }
    }

    /// The method is not known.
    pub fn method_not_found(method: &str) -> (r: Self)
        ensures
            r.code == -32601,
            r.message@ == "Method not found: "@ + method@,
            r.data is None,
    {
        JsonRpcError { code: -32601, message: join2("Method not found: ", method), data: None }
    }

    /// The request failed, for the reason given.
    pub fn internal_error(message: String) -> (r: Self)
        ensures
            r.code == -32603,
            r.message@ == message@,
            r.data is None,
    {
        JsonRpcError { code: -32603, message, data: None }
    }
}

/// A request as it was read.
#[derive(Debug)]
pub struct JsonRpcRequest {
    pub jsonrpc: String,
    pub id: Option<Value>,
    pub method: String,
    pub params: Value,
}

/// A response as it is to be written.
#[derive(Debug, Clone)]
pub struct JsonRpcResponse {
    pub jsonrpc: String,
    pub id: Option<Value>,
    pub result: Option<Value>,
    pub error: Option<JsonRpcError>,
}

/// The methods that the dispatcher serves.
#[derive(Debug, Clone, Copy, PartialEq, Eq, Structural)]
pub enum Method {
    GetCompletion,
    ListTools,
    ListResources,
    CallTool,
    ReadResource,
    Status,
    Shutdown,
}

/// The method that a name stands for, where it stands for one.
pub open spec fn method_named(name: Seq<char>) -> Option<Method> {
    if name == "get_completion"@ {
        Some(Method::GetCompletion)
    } else if name == "list_tools"@ {
        Some(Method::ListTools)
    } else if name == "list_resources"@ {
        Some(Method::ListResources)
    } else if name == "call_tool"@ {
        Some(Method::CallTool)
    } else if name == "read_resource"@ {
        Some(Method::ReadResource)
    } else if name == "status"@ {
        Some(Method::Status)
    } else if name == "shutdown"@ {
        Some(Method::Shutdown)
    } else {
        None
    }
}

impl Method {
    /// The method that a name stands for, where it stands for one.
    pub fn parse(name: &str) -> (r: Option<Method>)
        ensures
            r == method_named(name@),
    {
        if same_text(name, "get_completion") {
            Some(Method::GetCompletion)
        } else if same_text(name, "list_tools") {
            Some(Method::ListTools)
        } else if same_text(name, "list_resources") {
            Some(Method::ListResources)
        } else if same_text(name, "call_tool") {
            Some(Method::CallTool)
        } else if same_text(name, "read_resource") {
            Some(Method::ReadResource)
        } else if same_text(name, "status") {
            Some(Method::Status)
        } else if same_text(name, "shutdown") {
            Some(Method::Shutdown)
        } else {
            None
        }
    }
}

/// What is wrong with the envelope of a request, if anything: it must be of
/// version 2.0.
pub open spec fn envelope_fault(version: Seq<char>) -> bool {
    version != "2.0"@
}

impl JsonRpcResponse {
    /// The answer to a line that is not a request: a parse error, without
    /// an id.
    pub fn unparsed() -> (r: Self)
        ensures
            r.jsonrpc@ == "2.0"@,
            r.id is None,
            r.result is None,
            r.error matches Some(e) && e.code == -32700 && e.message@ == "Parse error"@
                && e.data is None,
    {
        JsonRpcResponse {
            jsonrpc: "2.0".to_owned(),
            id: None,
            result: None,
            error: Some(JsonRpcError::parse_error()),
        }
    }

    /// The answer that carries a result.
    pub fn success(id: Option<Value>, result: Value) -> (r: Self)
        ensures
            r.jsonrpc@ == "2.0"@,
            r.id == id,
            r.result == Some(result),
            r.error is None,
    {
        JsonRpcResponse { jsonrpc: "2.0".to_owned(), id, result: Some(result), error: None }
    }

    /// The answer that carries an error.
    pub fn failure(id: Option<Value>, error: JsonRpcError) -> (r: Self)
        ensures
            r.jsonrpc@ == "2.0"@,
            r.id == id,
            r.result is None,
            r.error == Some(error),
    {
        JsonRpcResponse { jsonrpc: "2.0".to_owned(), id, result: None, error: Some(error) }
    }

    /// The answer to a request whose handling ended as `outcome` says. A
    /// result is passed on. A failure whose text begins with
    /// `Method not found` is answered as an unknown method, naming the
    /// method asked for; any other is an internal error with its text.
    pub fn conclude(id: Option<Value>, method: &str, outcome: Result<Value, String>) -> (r: Self)
        ensures
            r.jsonrpc@ == "2.0"@,
            r.id == id,
            match outcome {
                Ok(value) => r.result == Some(value) && r.error is None,
                Err(reason) => {
                    &&& r.result is None
                    &&& r.error matches Some(e)
                    &&& e.data is None
                    &&& if "Method not found"@.is_prefix_of(reason@) {
                        e.code == -32601 && e.message@ == "Method not found: "@ + method@
                    } else {
                        e.code == -32603 && e.message@ == reason@
                    }
                },
            },
    {
        match outcome {
            Ok(value) => Self::success(id, value),
            Err(reason) => {
                if starts_with(reason.as_str(), "Method not found") {
                    Self::failure(id, JsonRpcError::method_not_found(method))
                } else {
                    Self::failure(id, JsonRpcError::internal_error(reason))
                }
            },
        }
    }
}

impl JsonRpcRequest {
    /// Whether the request is accepted, and for which method. A request
    /// that is not of version 2.0 is refused as invalid, whatever it asks
    /// for; one that asks for a method which is not served fails with
    /// `Method not found`.
    pub fn accept(&self) -> (r: Result<Method, JsonRpcError>)
        ensures
            match r {
                Ok(method) => !envelope_fault(self.jsonrpc@) && method_named(self.method@) == Some(
                    method,
                ),
                Err(e) => {
                    &&& e.data is None
                    &&& if envelope_fault(self.jsonrpc@) {
                        e.code == -32600 && e.message@ == "Invalid request"@
                    } else {
                        &&& method_named(self.method@) is None
                        &&& e.code == -32601
                        &&& e.message@ == "Method not found: "@ + self.method@
                    }
                },
            },
    {
        if !same_text(self.jsonrpc.as_str(), "2.0") {
            return Err(JsonRpcError::invalid_request());
        }
        match Method::parse(self.method.as_str()) {
            Some(method) => Ok(method),
            None => Err(JsonRpcError::method_not_found(self.method.as_str())),
        }
    }
}

/// What a request asks for, once its parameters are read.
pub enum Call {
    GetCompletion(CompletionRequest),
    ListTools,
    ListResources,
    CallTool { server: String, tool: String, arguments: Option<Value> },
    ReadResource { server: String, uri: String },
    Status,
    Shutdown,
}

impl Call {
    /// The method that the call belongs to.
    pub open spec fn method(self) -> Method {
        match self {
            Call::GetCompletion(_) => Method::GetCompletion,
            Call::ListTools => Method::ListTools,
            Call::ListResources => Method::ListResources,
            Call::CallTool { .. } => Method::CallTool,
            Call::ReadResource { .. } => Method::ReadResource,
            Call::Status => Method::Status,
            Call::Shutdown => Method::Shutdown,
        }
    }
}

/// What a call is answered with, before it is written as JSON.
pub enum Reply {
    Completions(CompletionResponse),
    Tools(Vec<(String, Vec<Tool>)>),
    Resources(Vec<(String, Vec<Resource>)>),
    ToolResult(ToolResult),
    Resource(ResourceContent),
    /// The engine is ready; with an orchestrator, the status of each of its
    /// backends.
    Status { completion_engine: String, mcp_servers: Option<Vec<(String, ConnectionStatus)>> },
    /// The dispatcher is about to stop.
    ShuttingDown { status: String },
}

/// The reason given when a call needs an orchestrator and there is none.
pub open spec fn no_client() -> Seq<char> {
    "MCP client not initialized"@
}

/// Serves an editor: completions from the engine, tools and resources from
/// the orchestrator where there is one.
pub struct JsonRpcServer<F: SessionFactory> {
    completion_engine: CompletionEngine,
    mcp_client: Option<MCPClient<F>>,
}

impl<F: SessionFactory> JsonRpcServer<F> {
    /// The orchestrator that the dispatcher holds, if any.
    pub closed spec fn client(&self) -> Option<MCPClient<F>> {
        self.mcp_client
    }

    /// The invariant of the dispatcher: that of its orchestrator.
    pub open spec fn wf(&self) -> bool {
        self.client() matches Some(client) ==> client.wf()
    }

    /// A dispatcher over an engine and, where there is one, an orchestrator.
    pub fn new(completion_engine: CompletionEngine, mcp_client: Option<MCPClient<F>>) -> (r: Self)
        ensures
            r.client() == mcp_client,
    {
        JsonRpcServer { completion_engine, mcp_client }
    }

    /// Answers a call. Without an orchestrator the listings are empty, the
    /// status speaks of the engine alone, and a call that names a backend
    /// fails. With one, listings, statuses and routed calls are its own,
    /// a failure being answered with its message.
    pub fn handle(&self, call: Call) -> (r: Result<Reply, String>)
        requires
            self.wf(),
        ensures
            match call {
                Call::GetCompletion(_) => r matches Ok(Reply::Completions(response))
                    && exists|gathered: Seq<Completion>|
                    response.completions@ == #[trigger] merged(gathered),
                Call::ListTools => r matches Ok(Reply::Tools(listing)) && match self.client() {
                    Some(client) => lists_connected(listing_names(listing@), client@),
                    None => listing@.len() == 0,
                },
                Call::ListResources => r matches Ok(Reply::Resources(listing))
                    && match self.client() {
                    Some(client) => lists_connected(listing_names(listing@), client@),
                    None => listing@.len() == 0,
                },
                Call::CallTool { server, .. } => match self.client() {
                    Some(client) => match routing_error(client@, server@) {
                        Some(e) => r matches Err(reason) && reason@ == e.message(),
                        None => r is Err || r matches Ok(Reply::ToolResult(_)),
                    },
                    None => r matches Err(reason) && reason@ == no_client(),
                },
                Call::ReadResource { server, .. } => match self.client() {
                    Some(client) => match routing_error(client@, server@) {
                        Some(e) => r matches Err(reason) && reason@ == e.message(),
                        None => r is Err || r matches Ok(Reply::Resource(_)),
                    },
                    None => r matches Err(reason) && reason@ == no_client(),
                },
                Call::Status => r matches Ok(Reply::Status { completion_engine, mcp_servers })
                    && completion_engine@ == "ready"@ && match self.client() {
                    Some(client) => mcp_servers matches Some(listing) && listing@.map_values(
                        |pair: (String, ConnectionStatus)| (pair.0@, pair.1@),
                    ) == status_snapshot(client@),
                    None => mcp_servers is None,
                },
                Call::Shutdown => r matches Ok(Reply::ShuttingDown { status }) && status@
                    == "shutting down"@,
            },
    {
        match call {
            Call::GetCompletion(request) => {
                match self.completion_engine.get_completions(&request) {
                    Ok(response) => Ok(Reply::Completions(response)),
                    Err(reason) => Err(reason),
                }
            },
            Call::ListTools => match &self.mcp_client {
                Some(client) => match client.list_all_tools() {
                    Ok(listing) => Ok(Reply::Tools(listing)),
                    Err(e) => Err(e.message()),
                },
                None => Ok(Reply::Tools(Vec::new())),
            },
            Call::ListResources => match &self.mcp_client {
                Some(client) => match client.list_all_resources() {
                    Ok(listing) => Ok(Reply::Resources(listing)),
                    Err(e) => Err(e.message()),
                },
                None => Ok(Reply::Resources(Vec::new())),
            },
            Call::CallTool { server, tool, arguments } => match &self.mcp_client {
                Some(client) => match client.call_tool(server.as_str(), tool.as_str(), arguments) {
                    Ok(result) => Ok(Reply::ToolResult(result)),
                    Err(e) => Err(e.message()),
                },
                None => Err("MCP client not initialized".to_owned()),
            },
            Call::ReadResource { server, uri } => match &self.mcp_client {
                Some(client) => match client.read_resource(server.as_str(), uri.as_str()) {
                    Ok(content) => Ok(Reply::Resource(content)),
                    Err(e) => Err(e.message()),
                },
                None => Err("MCP client not initialized".to_owned()),
            },
            Call::Status => Ok(
                Reply::Status {
                    completion_engine: "ready".to_owned(),
                    mcp_servers: match &self.mcp_client {
                        Some(client) => Some(client.get_server_status()),
                        None => None,
                    },
                },
            ),
            Call::Shutdown => Ok(Reply::ShuttingDown { status: "shutting down".to_owned() }),
        }
    }
}

} // verus!
