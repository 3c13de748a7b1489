//! A client-side orchestrator for Model Context Protocol backends.
//!
//! The crate keeps an ordered set of named backends, brings their sessions up,
//! tracks their liveness and routes tool and resource operations to the
//! backend a caller names. Every function here is verified against the
//! contract written on it; the sessions themselves, and whatever launches
//! them, are supplied by the embedding program through the traits in
//! [`client`].

pub mod text;
pub mod config;
pub mod client;
pub mod laws;
pub mod completion;
pub mod providers;
pub mod server;
pub mod cli;

pub use client::{
    ClientError, ConnectOutcome, ConnectionStatus, MCPClient, MCPServerConnection, MCPService,
    Resource, ResourceContent, SessionFactory, Tool, ToolResult, ToolResultContent,
};
pub use completion::{
    Completion, CompletionEngine, CompletionProvider, CompletionRequest, CompletionResponse,
    CompletionSource, Confidence, Pattern, PatternDetector, Position,
};
pub use config::{ConfigLoader, MCPConfig, SearchPath, ServerConfig, ValidationError};
pub use providers::{StaticPatternDetector, StaticPatternProvider};
pub use server::JsonRpcServer;

pub use serde_json::Value;
