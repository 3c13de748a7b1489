//! The orchestrator: an ordered set of named backends, each with its
//! configuration, its status and, while connected, its session.
//!
//! Sessions and whatever brings them up are supplied from outside through
//! [`MCPService`] and [`SessionFactory`]. Nothing is assumed of either: every
//! contract here holds whatever they return.

use crate::config::{
    enabled_of, first_problem, inserted, MCPConfig, ServerConfig, ServerConfigView,
    ValidationError, ValidationErrorView,
};
use crate::text::{join2, join3};
use indexmap::IndexMap;
use serde_json::Value;
use std::collections::HashMap;
use vstd::prelude::*;

verus! {

/// `serde_json::Value`: any JSON value. It is carried through as it is;
/// nothing inside it is visible here.
#[verifier::external_type_specification]
#[verifier::external_body]
pub struct ExValue(Value);

/// Where a backend stands.
#[derive(Debug)]
pub enum ConnectionStatus {
    /// Not connected: the initial state, and the state after shutdown.
    Disconnected,
    /// An attempt to acquire a session is under way.
    Connecting,
    /// A session is attached and usable.
    Connected,
    /// The last attempt to acquire a session failed, for the reason given.
    Failed(String),
}

/// The mathematical content of a [`ConnectionStatus`].
pub enum StatusView {
    Disconnected,
    Connecting,
    Connected,
    Failed(Seq<char>),
}

impl View for ConnectionStatus {
    type V = StatusView;

    open spec fn view(&self) -> StatusView {
        match *self {
            ConnectionStatus::Disconnected => StatusView::Disconnected,
            ConnectionStatus::Connecting => StatusView::Connecting,
            ConnectionStatus::Connected => StatusView::Connected,
            ConnectionStatus::Failed(reason) => StatusView::Failed(reason@),
        }
    }
}

impl Clone for ConnectionStatus {
    fn clone(&self) -> (r: Self)
        ensures
            r@ == self@,
    {
        match self {
            ConnectionStatus::Disconnected => ConnectionStatus::Disconnected,
            ConnectionStatus::Connecting => ConnectionStatus::Connecting,
            ConnectionStatus::Connected => ConnectionStatus::Connected,
            ConnectionStatus::Failed(reason) => ConnectionStatus::Failed(reason.clone()),
        }
    }
}

/// A tool that a backend offers.
#[derive(Debug, Clone)]
pub struct Tool {
    pub name: String,
    pub description: Option<String>,
    pub input_schema: Option<Value>,
}

/// What a tool handed back.
#[derive(Debug, Clone)]
pub struct ToolResult {
    pub content: Vec<ToolResultContent>,
    pub is_error: bool,
}

/// One piece of a tool's result.
#[derive(Debug, Clone)]
pub struct ToolResultContent {
    pub content_type: String,
    pub text: Option<String>,
    pub data: Option<Value>,
}

/// A resource that a backend offers.
#[derive(Debug, Clone)]
pub struct Resource {
    pub uri: String,
    pub name: String,
    pub description: Option<String>,
    pub mime_type: Option<String>,
}

/// What a resource holds.
#[derive(Debug, Clone)]
pub struct ResourceContent {
    pub uri: String,
    pub mime_type: Option<String>,
    pub text: Option<String>,
    pub blob: Option<String>,
}

impl Tool {
    /// A tool as a session describes it. A session always gives a schema.
    pub fn described(name: String, description: Option<String>, input_schema: Value) -> (r: Self)
        ensures
            r.name == name,
            r.description == description,
            r.input_schema == Some(input_schema),
    {
        Tool { name, description, input_schema: Some(input_schema) }
    }
}

impl ToolResultContent {
    /// A piece of text.
    pub fn text(text: String) -> (r: Self)
        ensures
            r.content_type@ == "text"@,
            r.text == Some(text),
            r.data is None,
    {
        ToolResultContent { content_type: "text".to_owned(), text: Some(text), data: None }
    }

    /// An image, as the session encodes it.
    pub fn image(data: Value) -> (r: Self)
        ensures
            r.content_type@ == "image"@,
            r.text is None,
            r.data == Some(data),
    {
        ToolResultContent { content_type: "image".to_owned(), text: None, data: Some(data) }
    }

    /// A reference to a resource, as the session encodes it.
    pub fn resource(data: Value) -> (r: Self)
        ensures
            r.content_type@ == "resource"@,
            r.text is None,
            r.data == Some(data),
    {
        ToolResultContent { content_type: "resource".to_owned(), text: None, data: Some(data) }
    }

    /// A piece of audio, as the session encodes it.
    pub fn audio(data: Value) -> (r: Self)
        ensures
            r.content_type@ == "audio"@,
            r.text is None,
            r.data == Some(data),
    {
        ToolResultContent { content_type: "audio".to_owned(), text: None, data: Some(data) }
    }
}

impl ToolResult {
    /// A result from its pieces. A session that does not say whether the
    /// tool failed is taken to say that it did not.
    pub fn new(content: Vec<ToolResultContent>, is_error: Option<bool>) -> (r: Self)
        ensures
            r.content == content,
            r.is_error == (is_error == Some(true)),
    {
        ToolResult {
            content,
            is_error: match is_error {
                Some(flag) => flag,
                None => false,
            },
        }
    }
}

/// One item of what a session hands back for a resource: text, or binary
/// data in base 64.
#[derive(Debug)]
pub enum ResourceBody {
    Text { text: String, mime_type: Option<String> },
    Blob { blob: String, mime_type: Option<String> },
}

impl ResourceContent {
    /// The content of a resource, from the first item that the session
    /// handed back for it. With no item the content is empty.
    pub fn from_first(uri: &str, first: Option<ResourceBody>) -> (r: Self)
        ensures
            r.uri@ == uri@,
            match first {
                Some(ResourceBody::Text { text, mime_type }) => r.text == Some(text) && r.blob is None
                    && r.mime_type == mime_type,
                Some(ResourceBody::Blob { blob, mime_type }) => r.text is None && r.blob == Some(
                    blob,
                ) && r.mime_type == mime_type,
                None => r.text is None && r.blob is None && r.mime_type is None,
            },
    {
        match first {
            Some(ResourceBody::Text { text, mime_type }) => ResourceContent {
                uri: uri.to_owned(),
                mime_type,
                text: Some(text),
                blob: None,
            },
            Some(ResourceBody::Blob { blob, mime_type }) => ResourceContent {
                uri: uri.to_owned(),
                mime_type,
                text: None,
                blob: Some(blob),
            },
            None => ResourceContent { uri: uri.to_owned(), mime_type: None, text: None, blob: None },
        }
    }
}

/// A live session with one backend. Each operation either succeeds or fails
/// with a message.
pub trait MCPService: Send + Sync {
    fn list_tools(&self) -> Result<Vec<Tool>, String>;

    fn call_tool(&self, name: &str, arguments: Option<Value>) -> Result<ToolResult, String>;

    fn list_resources(&self) -> Result<Vec<Resource>, String>;

    fn read_resource(&self, uri: &str) -> Result<ResourceContent, String>;

    fn disconnect(&mut self) -> Result<(), String>;
}

/// How an attempt to acquire a session ended.
pub enum ConnectOutcome {
    /// The session is up.
    Ready(Box<dyn MCPService>),
    /// The attempt ran and failed, for the reason given.
    Refused(String),
    /// The attempt itself did not run to its end, for the reason given.
    Faulted(String),
}

/// The mathematical content of a [`ConnectOutcome`].
pub enum OutcomeView {
    Ready,
    Refused(Seq<char>),
    Faulted(Seq<char>),
}

impl View for ConnectOutcome {
    type V = OutcomeView;

    open spec fn view(&self) -> OutcomeView {
        match *self {
            ConnectOutcome::Ready(_) => OutcomeView::Ready,
            ConnectOutcome::Refused(reason) => OutcomeView::Refused(reason@),
            ConnectOutcome::Faulted(reason) => OutcomeView::Faulted(reason@),
        }
    }
}

/// Brings up sessions with local backends. `start` launches an attempt and
/// returns at once, so that many can be under way together; `wait` hands
/// back how one of them ended.
pub trait SessionFactory {
    type Pending;

    fn start(
        &mut self,
        name: &str,
        command: &str,
        args: &Option<Vec<String>>,
        env: &Option<HashMap<String, String>>,
    ) -> Self::Pending;

    fn wait(&mut self, pending: Self::Pending) -> ConnectOutcome;
}

/// Why an operation of the orchestrator failed.
#[derive(Debug)]
pub enum ClientError {
    /// The configuration is refused.
    Validation(ValidationError),
    /// No backend of this name is tracked.
    NotFound(String),
    /// The backend of this name is tracked but not connected.
    NotConnected(String),
    /// No session could be acquired, for the reason given.
    Acquisition(String),
    /// The session reported this failure.
    Invocation(String),
}

/// The mathematical content of a [`ClientError`].
pub enum ClientErrorView {
    Validation(ValidationErrorView),
    NotFound(Seq<char>),
    NotConnected(Seq<char>),
    Acquisition(Seq<char>),
    Invocation(Seq<char>),
}

impl View for ClientError {
    type V = ClientErrorView;

    open spec fn view(&self) -> ClientErrorView {
        match *self {
            ClientError::Validation(e) => ClientErrorView::Validation(e@),
            ClientError::NotFound(name) => ClientErrorView::NotFound(name@),
            ClientError::NotConnected(name) => ClientErrorView::NotConnected(name@),
            ClientError::Acquisition(reason) => ClientErrorView::Acquisition(reason@),
            ClientError::Invocation(reason) => ClientErrorView::Invocation(reason@),
        }
    }
}

impl ClientErrorView {
    /// The text shown to an operator.
    pub open spec fn message(self) -> Seq<char> {
        match self {
            ClientErrorView::Validation(e) => e.message(),
            ClientErrorView::NotFound(name) => "Server '"@ + name + "' not found"@,
            ClientErrorView::NotConnected(name) => "Server '"@ + name + "' is not connected"@,
            ClientErrorView::Acquisition(reason) => reason,
            ClientErrorView::Invocation(reason) => reason,
        }
    }
}

impl ClientError {
    /// The text shown to an operator.
    pub fn message(&self) -> (r: String)
        ensures
            r@ == self@.message(),
    {
        match self {
            ClientError::Validation(e) => e.message(),
            ClientError::NotFound(name) => join3("Server '", name.as_str(), "' not found"),
            ClientError::NotConnected(name) => join3(
                "Server '",
                name.as_str(),
                "' is not connected",
            ),
            ClientError::Acquisition(reason) => reason.clone(),
            ClientError::Invocation(reason) => reason.clone(),
        }
    }
}

/// One tracked backend.
pub struct MCPServerConnection {
    pub name: String,
    pub config: ServerConfig,
    pub service: Option<Box<dyn MCPService>>,
    pub status: ConnectionStatus,
}

/// What the contracts say of one tracked backend: its name, its
/// configuration, its status, and whether a session is attached.
pub struct BackendView {
    pub name: Seq<char>,
    pub config: ServerConfigView,
    pub status: StatusView,
    pub attached: bool,
}

impl View for MCPServerConnection {
    type V = BackendView;

    open spec fn view(&self) -> BackendView {
        BackendView {
            name: self.name@,
            config: self.config@,
            status: self.status@,
            attached: self.service is Some,
        }
    }
}

/// The reason recorded when a remote backend is asked for.
pub open spec fn remote_unsupported() -> Seq<char> {
    "Remote MCP servers not yet implemented"@
}

/// The status that an outcome leaves behind.
pub open spec fn status_after(outcome: OutcomeView) -> StatusView {
    match outcome {
        OutcomeView::Ready => StatusView::Connected,
        OutcomeView::Refused(reason) => StatusView::Failed(reason),
        OutcomeView::Faulted(reason) => StatusView::Failed("Task failed: "@ + reason),
    }
}

impl MCPServerConnection {
    /// A backend that is tracked and not yet connected.
    pub fn new(name: String, config: ServerConfig) -> (r: Self)
        ensures
            r@ == (BackendView {
                name: name@,
                config: config@,
                status: StatusView::Disconnected,
                attached: false,
            }),
    {
        MCPServerConnection {
            name,
            config,
            service: None,
            status: ConnectionStatus::Disconnected,
        }
    }

    /// Records how an attempt to acquire a session ended: a session that is
    /// up is attached and the backend is connected; otherwise the backend has
    /// failed, with the reason, and what was attached stays.
    pub fn settle(&mut self, outcome: ConnectOutcome)
        ensures
            final(self)@ == (BackendView {
                status: status_after(outcome@),
                attached: outcome@ is Ready || old(self)@.attached,
                ..old(self)@
            }),
    {
        match outcome {
            ConnectOutcome::Ready(service) => {
                self.service = Some(service);
                self.status = ConnectionStatus::Connected;
            },
            ConnectOutcome::Refused(reason) => {
                self.status = ConnectionStatus::Failed(reason);
            },
            ConnectOutcome::Faulted(reason) => {
                self.status = ConnectionStatus::Failed(join2("Task failed: ", reason.as_str()));
            },
        }
    }
}

/// What a routed operation returns for what the session answered: the
/// answer itself, a failure being passed on word for word.
pub fn invocation_result<T>(answer: Result<T, String>) -> (r: Result<T, ClientError>)
    ensures
        match answer {
            Ok(value) => r == Ok::<T, ClientError>(value),
            Err(reason) => r matches Err(e) && e@ == ClientErrorView::Invocation(reason@),
        },
{
    match answer {
        Ok(value) => Ok(value),
        Err(reason) => Err(ClientError::Invocation(reason)),
    }
}

/// What an aggregate listing keeps of one backend's answer: the items under
/// the backend's name where it answered, nothing where it failed.
pub fn listed<T>(name: &str, answer: Result<Vec<T>, String>) -> (r: Option<(String, Vec<T>)>)
    ensures
        match answer {
            Ok(items) => r matches Some(pair) && pair.0@ == name@ && pair.1 == items,
            Err(_) => r is None,
        },
{
    match answer {
        Ok(items) => Some((name.to_owned(), items)),
        Err(_) => None,
    }
}

/// The name-connection pairs that a map of tracked backends holds, in the
/// order in which the map walks them.
pub uninterp spec fn connection_entries(m: IndexMap<String, MCPServerConnection>) -> Seq<
    (Seq<char>, MCPServerConnection),
>;

/// `IndexMap::new`: the map it makes holds nothing.
#[verifier::external_body]
fn connections_new() -> (m: IndexMap<String, MCPServerConnection>)
    ensures
        connection_entries(m) == Seq::<(Seq<char>, MCPServerConnection)>::empty(),
{
    IndexMap::new()
}

/// `IndexMap::len`: the number of pairs held.
#[verifier::external_body]
fn connections_len(m: &IndexMap<String, MCPServerConnection>) -> (n: usize)
    ensures
        n == connection_entries(*m).len(),
{
    m.len()
}

/// `IndexMap::insert`: an equal key keeps its position and has its value
/// replaced, the old value being returned; otherwise the pair is appended and
/// nothing is returned.
#[verifier::external_body]
fn connections_insert(m: &mut IndexMap<String, MCPServerConnection>, key: String, value: MCPServerConnection) -> (r: Option<MCPServerConnection>)
    ensures
        inserted(connection_entries(*old(m)), connection_entries(*final(m)), key@, value, r),
{
    m.insert(key, value)
}

/// `IndexMap::get_index_of`: the position of the pair whose key equals
/// `key`, or nothing when no key does.
#[verifier::external_body]
fn connections_get_index_of(m: &IndexMap<String, MCPServerConnection>, key: &str) -> (r: Option<usize>)
    ensures
        match r {
            Some(i) => i < connection_entries(*m).len() && connection_entries(*m)[i as int].0
                == key@,
            None => forall|j: int|
                0 <= j < connection_entries(*m).len() ==> (#[trigger] connection_entries(*m)[j]).0
                    != key@,
        },
{
    m.get_index_of(key)
}

/// Indexing an `IndexMap` by position: the value of the pair at position `i`.
/// It panics when `i` is not below the length, which `requires` rules out.
#[verifier::external_body]
fn connection_at(m: &IndexMap<String, MCPServerConnection>, i: usize) -> (r: &MCPServerConnection)
    requires
        i < connection_entries(*m).len(),
    ensures
        *r == connection_entries(*m)[i as int].1,
{
    &m[i]
}

/// Indexing an `IndexMap` by position, mutably: the value of the pair at
/// position `i`, to be changed in place. Its key, the other pairs and the
/// order stay. It panics when `i` is not below the length, which `requires`
/// rules out.
#[verifier::external_body]
fn connection_at_mut(m: &mut IndexMap<String, MCPServerConnection>, i: usize) -> (r: &mut MCPServerConnection)
    requires
        i < connection_entries(*old(m)).len(),
    ensures
        *r == connection_entries(*old(m))[i as int].1,
        connection_entries(*final(m)) == connection_entries(*old(m)).update(
            i as int,
            (connection_entries(*old(m))[i as int].0, *final(r)),
        ),
{
    &mut m[i]
}

/// What the contracts say of each pair, in order.
spec fn views_of(entries: Seq<(Seq<char>, MCPServerConnection)>) -> Seq<BackendView> {
    entries.map_values(|entry: (Seq<char>, MCPServerConnection)| entry.1@)
}

/// The key of each pair, in order.
spec fn names_of(entries: Seq<(Seq<char>, MCPServerConnection)>) -> Seq<Seq<char>> {
    entries.map_values(|entry: (Seq<char>, MCPServerConnection)| entry.0)
}

/// What the contracts say of each pair that the map holds, in order.
spec fn backends_of(m: IndexMap<String, MCPServerConnection>) -> Seq<BackendView> {
    views_of(connection_entries(m))
}

/// The keys of the map, in order.
spec fn keys_of(m: IndexMap<String, MCPServerConnection>) -> Seq<Seq<char>> {
    names_of(connection_entries(m))
}

fn backend_count(m: &IndexMap<String, MCPServerConnection>) -> (n: usize)
    ensures
        n == backends_of(*m).len(),
        n == keys_of(*m).len(),
{
    connections_len(m)
}

fn backend_at(m: &IndexMap<String, MCPServerConnection>, i: usize) -> (r: &MCPServerConnection)
    requires
        i < backends_of(*m).len(),
    ensures
        r@ == backends_of(*m)[i as int],
{
    connection_at(m, i)
}

fn backend_at_mut(m: &mut IndexMap<String, MCPServerConnection>, i: usize) -> (r: &mut MCPServerConnection)
    requires
        i < backends_of(*old(m)).len(),
    ensures
        r@ == backends_of(*old(m))[i as int],
        backends_of(*final(m)) == backends_of(*old(m)).update(i as int, final(r)@),
        keys_of(*final(m)) == keys_of(*old(m)),
{
    proof {
        let entries = connection_entries(*m);
        let key = entries[i as int].0;
        assert forall|c: MCPServerConnection|
            views_of(#[trigger] entries.update(i as int, (key, c))) == views_of(entries).update(
                i as int,
                c@,
            ) && names_of(entries.update(i as int, (key, c))) == names_of(entries) by {
            assert(views_of(entries.update(i as int, (key, c))) =~= views_of(entries).update(
                i as int,
                c@,
            ));
            assert(names_of(entries.update(i as int, (key, c))) =~= names_of(entries));
        }
    }
    connection_at_mut(m, i)
}

fn backend_index(m: &IndexMap<String, MCPServerConnection>, key: &str) -> (r: Option<usize>)
    ensures
        match r {
            Some(i) => i < keys_of(*m).len() && keys_of(*m)[i as int] == key@,
            None => !keys_of(*m).contains(key@),
        },
{
    connections_get_index_of(m, key)
}

/// No two backends share a name, and a session is attached exactly to the
/// connected ones.
pub open spec fn well_formed(backends: Seq<BackendView>) -> bool {
    &&& forall|i: int, j: int|
        0 <= i < j < backends.len() ==> (#[trigger] backends[i]).name != (
        #[trigger] backends[j]).name
    &&& forall|i: int|
        0 <= i < backends.len() ==> ((#[trigger] backends[i]).attached
            <==> backends[i].status is Connected)
}

/// Whether a backend of this name is tracked.
pub open spec fn tracks(backends: Seq<BackendView>, name: Seq<char>) -> bool {
    exists|i: int| 0 <= i < backends.len() && (#[trigger] backends[i]).name == name
}

/// The position of the backend of this name, where one is tracked.
pub open spec fn position_of(backends: Seq<BackendView>, name: Seq<char>) -> int {
    choose|i: int| 0 <= i < backends.len() && (#[trigger] backends[i]).name == name
}

/// Why a request that names a backend cannot be handed to it: the name is
/// unknown, or the backend is not connected.
pub open spec fn routing_error(backends: Seq<BackendView>, name: Seq<char>) -> Option<
    ClientErrorView,
> {
    if !tracks(backends, name) {
        Some(ClientErrorView::NotFound(name))
    } else if !(backends[position_of(backends, name)].status is Connected) {
        Some(ClientErrorView::NotConnected(name))
    } else {
        None
    }
}

/// The same backends in the same order, whatever their statuses.
pub open spec fn same_backends(before: Seq<BackendView>, after: Seq<BackendView>) -> bool {
    &&& after.len() == before.len()
    &&& forall|i: int|
        0 <= i < before.len() ==> (#[trigger] after[i]).name == before[i].name && after[i].config
            == before[i].config
}

/// Every backend is disconnected and has no session.
pub open spec fn shut_down(before: Seq<BackendView>, after: Seq<BackendView>) -> bool {
    &&& same_backends(before, after)
    &&& forall|i: int|
        0 <= i < after.len() ==> (#[trigger] after[i]).status is Disconnected && !after[i].attached
}

/// Each backend's name with its status, in tracked order.
pub open spec fn status_snapshot(backends: Seq<BackendView>) -> Seq<(Seq<char>, StatusView)> {
    backends.map_values(|b: BackendView| (b.name, b.status))
}

/// `names` are the names of connected backends, taken in tracked order:
/// `picks` gives the position of each.
pub open spec fn is_selection_of_connected(
    names: Seq<Seq<char>>,
    backends: Seq<BackendView>,
    picks: Seq<int>,
) -> bool {
    &&& picks.len() == names.len()
    &&& forall|k: int|
        0 <= k < picks.len() ==> 0 <= #[trigger] picks[k] < backends.len()
            && backends[picks[k]].status is Connected && backends[picks[k]].name == names[k]
    &&& forall|k: int, l: int| 0 <= k < l < picks.len() ==> #[trigger] picks[k] < #[trigger] picks[l]
}

/// A backend that is tracked and not yet connected.
pub open spec fn fresh(name: Seq<char>, config: ServerConfigView) -> BackendView {
    BackendView { name, config, status: StatusView::Disconnected, attached: false }
}

/// The backends after one more is tracked afresh: a backend of that name
/// already there is replaced where it stands, a new one goes last.
pub open spec fn tracked_with(
    backends: Seq<BackendView>,
    name: Seq<char>,
    config: ServerConfigView,
) -> Seq<BackendView> {
    if tracks(backends, name) {
        backends.update(position_of(backends, name), fresh(name, config))
    } else {
        backends.push(fresh(name, config))
    }
}

/// The backends after each of `servers` is tracked afresh, in order.
pub open spec fn seeded(
    backends: Seq<BackendView>,
    servers: Seq<(Seq<char>, ServerConfigView)>,
) -> Seq<BackendView>
    decreases servers.len(),
{
    if servers.len() == 0 {
        backends
    } else {
        tracked_with(seeded(backends, servers.drop_last()), servers.last().0, servers.last().1)
    }
}

/// An attempt has ended for this backend: it is connected and has its
/// session, or it has failed and has none.
pub open spec fn is_settled(backend: BackendView) -> bool {
    ||| backend.status is Connected && backend.attached
    ||| backend.status is Failed && !backend.attached
}

/// What connecting does to one backend: a disconnected one ends up settled,
/// a remote one always failed for want of a transport; any other is left
/// as it was.
pub open spec fn settled_from(before: BackendView, after: BackendView) -> bool {
    if before.status is Disconnected {
        &&& after.name == before.name
        &&& after.config == before.config
        &&& is_settled(after)
        &&& before.config is Remote ==> after.status == StatusView::Failed(remote_unsupported())
    } else {
        after == before
    }
}

/// What connecting does to the tracked backends.
pub open spec fn connected_all(before: Seq<BackendView>, after: Seq<BackendView>) -> bool {
    &&& after.len() == before.len()
    &&& forall|i: int| 0 <= i < before.len() ==> settled_from(before[i], #[trigger] after[i])
}

/// What reconnecting the backend called `name` does. An unknown name
/// changes nothing and fails with `NotFound`. Otherwise only that backend
/// changes: it is connected and has a session where the call succeeds, and
/// where it fails it has none and its status holds the reason that the call
/// returns. A remote backend always fails for want of a transport.
pub open spec fn reconnected(
    before: Seq<BackendView>,
    after: Seq<BackendView>,
    name: Seq<char>,
    failure: Option<ClientErrorView>,
) -> bool {
    if !tracks(before, name) {
        after == before && failure == Some(ClientErrorView::NotFound(name))
    } else {
        let i = position_of(before, name);
        &&& same_backends(before, after)
        &&& forall|j: int| 0 <= j < before.len() && j != i ==> #[trigger] after[j] == before[j]
        &&& match failure {
            None => after[i].status is Connected && after[i].attached,
            Some(e) => e matches ClientErrorView::Acquisition(reason) && after[i].status
                == StatusView::Failed(reason) && !after[i].attached,
        }
        &&& before[i].config is Remote ==> failure == Some(
            ClientErrorView::Acquisition(remote_unsupported()),
        )
    }
}

/// What of a failed operation the contracts speak of.
pub open spec fn failure_of<T>(r: Result<T, ClientError>) -> Option<ClientErrorView> {
    match r {
        Ok(_) => None,
        Err(e) => Some(e@),
    }
}

/// `names` are the names of some of the connected backends, each once, in
/// tracked order.
pub open spec fn lists_connected(names: Seq<Seq<char>>, backends: Seq<BackendView>) -> bool {
    exists|picks: Seq<int>| #[trigger] is_selection_of_connected(names, backends, picks)
}

/// The names under which a listing files its items, in order.
pub open spec fn listing_names<T>(listing: Seq<(String, Vec<T>)>) -> Seq<Seq<char>> {
    listing.map_values(|pair: (String, Vec<T>)| pair.0@)
}

/// An attempt to acquire a session: under way, or already ended.
enum Acquisition<P> {
    InFlight(P),
    Settled(ConnectOutcome),
}

/// What holds of a backend between the start of its attempt and the end:
/// a disconnected backend is connecting and its attempt is filed, that of a
/// remote backend having ended at once for want of a transport; any other
/// backend is as it was and has no attempt.
spec fn awaiting<P>(before: BackendView, now: BackendView, slot: Option<Acquisition<P>>) -> bool {
    if before.status is Disconnected {
        &&& now == (BackendView { status: StatusView::Connecting, ..before })
        &&& slot is Some
        &&& before.config is Remote ==> (slot matches Some(Acquisition::Settled(outcome))
            && outcome@ == OutcomeView::Refused(remote_unsupported()))
    } else {
        now == before && slot is None
    }
}

/// Tracks a backend afresh under its name.
fn track_backend(m: &mut IndexMap<String, MCPServerConnection>, name: &String, config: &ServerConfig)
    requires
        filed_by_name(keys_of(*old(m)), backends_of(*old(m))),
        well_formed(backends_of(*old(m))),
    ensures
        backends_of(*final(m)) == tracked_with(backends_of(*old(m)), name@, config@),
        filed_by_name(keys_of(*final(m)), backends_of(*final(m))),
        well_formed(backends_of(*final(m))),
{
    let ghost before = connection_entries(*m);
    let connection = MCPServerConnection::new(name.clone(), config.clone());
    let replaced = connections_insert(m, name.clone(), connection);
    proof {
        let after = connection_entries(*m);
        let backends = views_of(before);
        match replaced {
            Some(previous) => {
                let i = choose|i: int|
                    0 <= i < before.len() && (#[trigger] before[i]).0 == name@ && before[i].1
                        == previous && after == before.update(i, (name@, connection));
                assert(names_of(before)[i] == name@);
                assert(backends[i].name == name@);
                assert(tracks(backends, name@));
                assert(position_of(backends, name@) == i);
                assert(views_of(after) =~= backends.update(i, fresh(name@, config@)));
                assert(names_of(after) =~= names_of(before));
            },
            None => {
                assert(!tracks(backends, name@)) by {
                    if tracks(backends, name@) {
                        let k = position_of(backends, name@);
                        assert(names_of(before)[k] == name@);
                        assert(before[k].0 == name@);
                    }
                }
                assert(views_of(after) =~= backends.push(fresh(name@, config@)));
                assert(names_of(after) =~= names_of(before).push(name@));
                assert forall|a: int, b: int| 0 <= a < b < views_of(after).len() implies (
                #[trigger] views_of(after)[a]).name != (#[trigger] views_of(after)[b]).name by {
                    if b == before.len() {
                        assert(names_of(before)[a] == backends[a].name);
                        assert(before[a].0 != name@);
                    }
                }
            },
        }
    }
}

/// The orchestrator. It owns every tracked backend and its session.
pub struct MCPClient<F: SessionFactory> {
    connections: IndexMap<String, MCPServerConnection>,
    config: MCPConfig,
    factory: F,
}

impl<F: SessionFactory> View for MCPClient<F> {
    type V = Seq<BackendView>;

    closed spec fn view(&self) -> Seq<BackendView> {
        backends_of(self.connections)
    }
}

/// Every backend is filed under its own name.
spec fn filed_by_name(keys: Seq<Seq<char>>, backends: Seq<BackendView>) -> bool {
    &&& keys.len() == backends.len()
    &&& forall|i: int| 0 <= i < keys.len() ==> #[trigger] keys[i] == backends[i].name
}

impl<F: SessionFactory> MCPClient<F> {
    /// The configuration that the orchestrator was made with.
    pub closed spec fn configured(&self) -> Seq<(Seq<char>, ServerConfigView)> {
        self.config@
    }

    /// The invariant of the orchestrator: every backend is filed under its
    /// own name, and the tracked backends are well formed.
    pub closed spec fn wf(&self) -> bool {
        &&& filed_by_name(keys_of(self.connections), self@)
        &&& well_formed(self@)
    }

    /// What the invariant says of the tracked backends.
    pub proof fn lemma_wf(&self)
        requires
            self.wf(),
        ensures
            well_formed(self@),
    {
    }

    /// An orchestrator for `config` that tracks nothing yet. Sessions will be
    /// brought up by `factory`.
    pub fn new(config: MCPConfig, factory: F) -> (r: Self)
        ensures
            r.wf(),
            r@.len() == 0,
            r.configured() == config@,
    {
        MCPClient { connections: connections_new(), config, factory }
    }

    /// The position of a connected backend by name, or why there is none.
    fn route(&self, server_name: &str) -> (r: Result<usize, ClientError>)
        requires
            self.wf(),
        ensures
            match r {
                Ok(i) => routing_error(self@, server_name@) is None && i < self@.len()
                    && self@[i as int].name == server_name@ && self@[i as int].status is Connected,
                Err(e) => routing_error(self@, server_name@) == Some(e@),
            },
    {
        match backend_index(&self.connections, server_name) {
            None => {
                assert(!tracks(self@, server_name@)) by {
                    if tracks(self@, server_name@) {
                        let k = position_of(self@, server_name@);
                        assert(keys_of(self.connections)[k] == server_name@);
                    }
                }
                Err(ClientError::NotFound(server_name.to_owned()))
            },
            Some(i) => {
                assert(self@[i as int].name == server_name@);
                assert(tracks(self@, server_name@));
                assert(position_of(self@, server_name@) == i);
                let connection = backend_at(&self.connections, i);
                match connection.status {
                    ConnectionStatus::Connected => Ok(i),
                    _ => Err(ClientError::NotConnected(server_name.to_owned())),
                }
            },
        }
    }

    /// Calls a tool on the backend named. Fails with `NotFound` when no such
    /// backend is tracked and with `NotConnected` when it is not connected;
    /// otherwise hands the call to the session and returns its answer, a
    /// failure as `Invocation`.
    pub fn call_tool(&self, server_name: &str, tool_name: &str, arguments: Option<Value>) -> (r: Result<ToolResult, ClientError>)
        requires
            self.wf(),
        ensures
            match routing_error(self@, server_name@) {
                Some(e) => r matches Err(x) && x@ == e,
                None => r is Ok || (r matches Err(x) && x@ is Invocation),
            },
    {
        let i = match self.route(server_name) {
            Ok(i) => i,
            Err(e) => {
                return Err(e);
            },
        };
        let connection = backend_at(&self.connections, i);
        match &connection.service {
            Some(service) => invocation_result(service.call_tool(tool_name, arguments)),
            None => Err(ClientError::NotConnected(server_name.to_owned())),
        }
    }

    /// Reads a resource from the backend named. Fails with `NotFound` when
    /// no such backend is tracked and with `NotConnected` when it is not
    /// connected; otherwise hands the request to the session and returns its
    /// answer, a failure as `Invocation`.
    pub fn read_resource(&self, server_name: &str, resource_uri: &str) -> (r: Result<ResourceContent, ClientError>)
        requires
            self.wf(),
        ensures
            match routing_error(self@, server_name@) {
                Some(e) => r matches Err(x) && x@ == e,
                None => r is Ok || (r matches Err(x) && x@ is Invocation),
            },
    {
        let i = match self.route(server_name) {
            Ok(i) => i,
            Err(e) => {
                return Err(e);
            },
        };
        let connection = backend_at(&self.connections, i);
        match &connection.service {
            Some(service) => invocation_result(service.read_resource(resource_uri)),
            None => Err(ClientError::NotConnected(server_name.to_owned())),
        }
    }

    /// Every tracked backend's name with its status, in tracked order.
    pub fn get_server_status(&self) -> (r: Vec<(String, ConnectionStatus)>)
        ensures
            r@.len() == self@.len(),
            r@.map_values(|pair: (String, ConnectionStatus)| (pair.0@, pair.1@)) == status_snapshot(
                self@,
            ),
    {
        let n = backend_count(&self.connections);
        let mut out: Vec<(String, ConnectionStatus)> = Vec::new();
        let mut i: usize = 0;
        while i < n
            invariant
                i <= n,
                n == self@.len(),
                out@.len() == i,
                forall|j: int|
                    0 <= j < i ==> (#[trigger] out@[j]).0@ == self@[j].name && out@[j].1@
                        == self@[j].status,
            decreases n - i,
        {
            let connection = backend_at(&self.connections, i);
            out.push((connection.name.clone(), connection.status.clone()));
            i = i + 1;
        }
        assert(out@.map_values(|pair: (String, ConnectionStatus)| (pair.0@, pair.1@))
            =~= status_snapshot(self@));
        out
    }

    /// Asks every connected backend for its tools. A backend that fails to
    /// answer is left out; the others appear under their names, in tracked
    /// order. The call itself never fails.
    pub fn list_all_tools(&self) -> (r: Result<Vec<(String, Vec<Tool>)>, ClientError>)
        ensures
            match r {
                Ok(listing) => lists_connected(listing_names(listing@), self@),
                Err(_) => false,
            },
    {
        let n = backend_count(&self.connections);
        let mut out: Vec<(String, Vec<Tool>)> = Vec::new();
        let ghost mut picks: Seq<int> = Seq::empty();
        let mut i: usize = 0;
        while i < n
            invariant
                i <= n,
                n == self@.len(),
                is_selection_of_connected(listing_names(out@), self@, picks),
                forall|k: int| 0 <= k < picks.len() ==> #[trigger] picks[k] < i,
            decreases n - i,
        {
            let connection = backend_at(&self.connections, i);
            if let (Some(service), ConnectionStatus::Connected) = (
                &connection.service,
                &connection.status,
            ) {
                if let Some(pair) = listed(connection.name.as_str(), service.list_tools()) {
                    out.push(pair);
                    proof {
                        picks = picks.push(i as int);
                    }
                }
            }
            i = i + 1;
        }
        Ok(out)
    }

    /// Asks every connected backend for its resources. A backend that fails
    /// to answer is left out; the others appear under their names, in
    /// tracked order. The call itself never fails.
    pub fn list_all_resources(&self) -> (r: Result<Vec<(String, Vec<Resource>)>, ClientError>)
        ensures
            match r {
                Ok(listing) => lists_connected(listing_names(listing@), self@),
                Err(_) => false,
            },
    {
        let n = backend_count(&self.connections);
        let mut out: Vec<(String, Vec<Resource>)> = Vec::new();
        let ghost mut picks: Seq<int> = Seq::empty();
        let mut i: usize = 0;
        while i < n
            invariant
                i <= n,
                n == self@.len(),
                is_selection_of_connected(listing_names(out@), self@, picks),
                forall|k: int| 0 <= k < picks.len() ==> #[trigger] picks[k] < i,
            decreases n - i,
        {
            let connection = backend_at(&self.connections, i);
            if let (Some(service), ConnectionStatus::Connected) = (
                &connection.service,
                &connection.status,
            ) {
                if let Some(pair) = listed(connection.name.as_str(), service.list_resources()) {
                    out.push(pair);
                    proof {
                        picks = picks.push(i as int);
                    }
                }
            }
            i = i + 1;
        }
        Ok(out)
    }

    /// Begins to acquire a session for one backend. A local backend's
    /// command, arguments and environment go to the factory, which starts
    /// the attempt. A remote backend has no transport: its attempt ends at
    /// once, refused.
    fn create_service_for_config(factory: &mut F, name: &str, config: &ServerConfig) -> (r: Acquisition<F::Pending>)
        ensures
            config@ is Local ==> r is InFlight,
            config@ is Remote ==> (r matches Acquisition::Settled(outcome) && outcome@
                == OutcomeView::Refused(remote_unsupported())),
    {
        match config {
            ServerConfig::Local { command, args, env, .. } => Acquisition::InFlight(
                factory.start(name, command.as_str(), args, env),
            ),
            ServerConfig::Remote { .. } => Acquisition::Settled(
                ConnectOutcome::Refused("Remote MCP servers not yet implemented".to_owned()),
            ),
        }
    }

    /// How an attempt ended, waiting for it where it is still under way.
    fn outcome_of(factory: &mut F, acquisition: Acquisition<F::Pending>) -> (r: ConnectOutcome)
        ensures
            acquisition matches Acquisition::Settled(outcome) ==> r == outcome,
    {
        match acquisition {
            Acquisition::InFlight(pending) => factory.wait(pending),
            Acquisition::Settled(outcome) => outcome,
        }
    }

    /// Validates the configuration, tracks every enabled backend afresh in
    /// configured order, and connects them all. Fails, changing nothing,
    /// exactly when the configuration is faulty, with its first fault;
    /// backends that fail to connect are no failure of the call.
    pub fn initialize(&mut self) -> (r: Result<(), ClientError>)
        requires
            old(self).wf(),
        ensures
            final(self).wf(),
            final(self).configured() == old(self).configured(),
            match r {
                Ok(_) => {
                    &&& first_problem(old(self).configured()) is None
                    &&& connected_all(
                        seeded(old(self)@, enabled_of(old(self).configured())),
                        final(self)@,
                    )
                },
                Err(e) => {
                    &&& final(self)@ == old(self)@
                    &&& first_problem(old(self).configured()) matches Some(problem)
                    &&& e@ == ClientErrorView::Validation(problem)
                },
            },
    {
        if let Err(e) = self.config.validate() {
            return Err(ClientError::Validation(e));
        }
        let ghost before = self@;
        let ghost targets = enabled_of(self.config@);
        let enabled = self.config.enabled_servers();
        let mut k: usize = 0;
        while k < enabled.len()
            invariant
                k <= enabled@.len(),
                enabled@.map_values(|pair: (&String, &ServerConfig)| (pair.0@, pair.1@)) == targets,
                filed_by_name(keys_of(self.connections), backends_of(self.connections)),
                well_formed(backends_of(self.connections)),
                backends_of(self.connections) == seeded(before, targets.take(k as int)),
                self.config == old(self).config,
            decreases enabled@.len() - k,
        {
            let (name, server_config) = enabled[k];
            proof {
                assert(targets[k as int] == (name@, server_config@));
                assert(targets.take(k as int + 1).drop_last() =~= targets.take(k as int));
                assert(targets.take(k as int + 1).last() == targets[k as int]);
            }
            track_backend(&mut self.connections, name, server_config);
            k = k + 1;
        }
        assert(targets.take(k as int) =~= targets);
        self.connect_all()
    }

    /// Acquires a session for every disconnected backend: each is marked
    /// connecting and its attempt started, then each attempt is waited for
    /// and recorded. A backend whose attempt succeeds is connected; one whose
    /// attempt fails has failed, with the reason. Backends that were not
    /// disconnected are left alone. The call itself never fails.
    pub fn connect_all(&mut self) -> (r: Result<(), ClientError>)
        requires
            old(self).wf(),
        ensures
            r is Ok,
            final(self).wf(),
            final(self).configured() == old(self).configured(),
            connected_all(old(self)@, final(self)@),
    {
        let ghost before = self@;
        let n = backend_count(&self.connections);
        let mut slots: Vec<Option<Acquisition<F::Pending>>> = Vec::new();
        let mut i: usize = 0;
        while i < n
            invariant
                i <= n,
                n == before.len(),
                n == self@.len(),
                slots@.len() == i,
                well_formed(before),
                self.config == old(self).config,
                filed_by_name(keys_of(self.connections), self@),
                forall|j: int| 0 <= j < i ==> awaiting(before[j], #[trigger] self@[j], slots@[j]),
                forall|j: int| i <= j < n ==> #[trigger] self@[j] == before[j],
            decreases n - i,
        {
            let connection = backend_at_mut(&mut self.connections, i);
            match connection.status {
                ConnectionStatus::Disconnected => {
                    connection.status = ConnectionStatus::Connecting;
                    let acquisition = Self::create_service_for_config(
                        &mut self.factory,
                        connection.name.as_str(),
                        &connection.config,
                    );
                    slots.push(Some(acquisition));
                },
                _ => {
                    slots.push(None);
                },
            }
            i = i + 1;
        }

        let ghost started = slots@;
        let mut i: usize = 0;
        for slot in it: slots.into_iter()
            invariant
                i == it.index(),
                it.seq() == started,
                started.len() == n,
                n == before.len(),
                n == self@.len(),
                well_formed(before),
                self.config == old(self).config,
                filed_by_name(keys_of(self.connections), self@),
                forall|j: int| 0 <= j < i ==> settled_from(before[j], #[trigger] self@[j]),
                forall|j: int| i <= j < n ==> awaiting(before[j], #[trigger] self@[j], started[j]),
        {
            if let Some(acquisition) = slot {
                let outcome = Self::outcome_of(&mut self.factory, acquisition);
                let connection = backend_at_mut(&mut self.connections, i);
                connection.settle(outcome);
            }
            i = i + 1;
        }
        Ok(())
    }

    /// Acquires a new session for the backend named. A session that is
    /// attached is first released, whether or not it disconnects cleanly.
    /// Fails with `NotFound`, changing nothing, when no such backend is
    /// tracked. Otherwise the backend is connected where the attempt
    /// succeeds; where it fails, the backend has failed and the reason
    /// recorded is the one returned.
    pub fn reconnect_server(&mut self, server_name: &str) -> (r: Result<(), ClientError>)
        requires
            old(self).wf(),
        ensures
            final(self).wf(),
            final(self).configured() == old(self).configured(),
            reconnected(old(self)@, final(self)@, server_name@, failure_of(r)),
    {
        let i = match backend_index(&self.connections, server_name) {
            Some(i) => i,
            None => {
                assert(!tracks(self@, server_name@)) by {
                    if tracks(self@, server_name@) {
                        let k = position_of(self@, server_name@);
                        assert(keys_of(self.connections)[k] == server_name@);
                    }
                }
                return Err(ClientError::NotFound(server_name.to_owned()));
            },
        };
        proof {
            assert(self@[i as int].name == server_name@);
            assert(tracks(self@, server_name@));
            assert(position_of(self@, server_name@) == i);
        }
        let connection = backend_at_mut(&mut self.connections, i);
        if let Some(mut service) = connection.service.take() {
            let _ = service.disconnect();
        }
        connection.status = ConnectionStatus::Connecting;
        let acquisition = Self::create_service_for_config(
            &mut self.factory,
            server_name,
            &connection.config,
        );
        let outcome = Self::outcome_of(&mut self.factory, acquisition);
        let result = match &outcome {
            ConnectOutcome::Ready(_) => Ok(()),
            ConnectOutcome::Refused(reason) => Err(ClientError::Acquisition(reason.clone())),
            ConnectOutcome::Faulted(reason) => Err(
                ClientError::Acquisition(join2("Task failed: ", reason.as_str())),
            ),
        };
        connection.settle(outcome);
        result
    }

    /// Releases every session and marks every backend disconnected, whatever
    /// its status was. A session that fails to disconnect is released all
    /// the same. The call itself never fails.
    pub fn shutdown(&mut self) -> (r: Result<(), ClientError>)
        requires
            old(self).wf(),
        ensures
            r is Ok,
            final(self).wf(),
            final(self).configured() == old(self).configured(),
            shut_down(old(self)@, final(self)@),
    {
        let n = backend_count(&self.connections);
        let mut i: usize = 0;
        while i < n
            invariant
                i <= n,
                n == self@.len(),
                self.configured() == old(self).configured(),
                same_backends(old(self)@, self@),
                well_formed(old(self)@),
                filed_by_name(keys_of(self.connections), self@),
                forall|j: int|
                    0 <= j < i ==> (#[trigger] self@[j]).status is Disconnected
                        && !self@[j].attached,
                forall|j: int| i <= j < n ==> #[trigger] self@[j] == old(self)@[j],
            decreases n - i,
        {
            let connection = backend_at_mut(&mut self.connections, i);
            if let Some(mut service) = connection.service.take() {
                let _ = service.disconnect();
            }
            connection.status = ConnectionStatus::Disconnected;
            i = i + 1;
        }
        Ok(())
    }
}

} // verus!
