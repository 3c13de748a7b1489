//! Declarative backend configuration: what each backend is, which of them are
//! enabled, and whether the whole set is fit to be used.

use crate::text::{join3, join4, same_text, starts_with, text_of};
use indexmap::IndexMap;
use regex::Regex;
use std::collections::HashMap;
use vstd::prelude::*;

verus! {

/// How one backend is reached: a local command that is spawned and spoken to
/// over its standard streams, or a remote endpoint.
#[derive(Debug)]
pub enum ServerConfig {
    Local {
        command: String,
        args: Option<Vec<String>>,
        env: Option<HashMap<String, String>>,
        disabled: Option<bool>,
    },
    Remote { url: String, headers: Option<HashMap<String, String>>, disabled: Option<bool> },
}

/// The mathematical content of a [`ServerConfig`].
pub enum ServerConfigView {
    Local {
        command: Seq<char>,
        args: Option<Seq<Seq<char>>>,
        env: Option<Map<Seq<char>, Seq<char>>>,
        disabled: Option<bool>,
    },
    Remote { url: Seq<char>, headers: Option<Map<Seq<char>, Seq<char>>>, disabled: Option<bool> },
}

impl ServerConfigView {
    /// A backend is disabled only when its flag is present and set.
    pub open spec fn is_disabled(self) -> bool {
        match self {
            ServerConfigView::Local { disabled, .. } => disabled == Some(true),
            ServerConfigView::Remote { disabled, .. } => disabled == Some(true),
        }
    }
}

impl View for ServerConfig {
    type V = ServerConfigView;

    open spec fn view(&self) -> ServerConfigView {
        match *self {
            ServerConfig::Local { command, args, env, disabled } => ServerConfigView::Local {
                command: command@,
                args: args.deep_view(),
                env: env.deep_view(),
                disabled,
            },
            ServerConfig::Remote { url, headers, disabled } => ServerConfigView::Remote {
                url: url@,
                headers: headers.deep_view(),
                disabled,
            },
        }
    }
}

/// Two string maps with the same entries have the same content.
proof fn lemma_same_entries_same_content(a: HashMap<String, String>, b: HashMap<String, String>)
    requires
        a@ == b@,
    ensures
        a.deep_view() == b.deep_view(),
{
    reveal(vstd::std_specs::hash::hash_map_deep_view_impl);
    assert(a.deep_view() =~= b.deep_view());
}

fn clone_strings(v: &Vec<String>) -> (r: Vec<String>)
    ensures
        r.deep_view() == v.deep_view(),
{
    let mut out: Vec<String> = Vec::new();
    let mut i: usize = 0;
    while i < v.len()
        invariant
            i <= v.len(),
            out@.len() == i,
            forall|j: int| 0 <= j < i ==> out@[j]@ == v@[j]@,
        decreases v.len() - i,
    {
        out.push(v[i].clone());
        i = i + 1;
    }
    assert(out.deep_view() =~= v.deep_view());
    out
}

fn clone_string_map(m: &Option<HashMap<String, String>>) -> (r: Option<HashMap<String, String>>)
    ensures
        r.deep_view() == m.deep_view(),
{
    match m {
        Some(inner) => {
            let copy = inner.clone();
            proof {
                lemma_same_entries_same_content(*inner, copy);
            }
            Some(copy)
        },
        None => None,
    }
}

impl Clone for ServerConfig {
    fn clone(&self) -> (r: Self)
        ensures
            r@ == self@,
    {
        match self {
            ServerConfig::Local { command, args, env, disabled } => ServerConfig::Local {
                command: command.clone(),
                args: match args {
                    Some(list) => Some(clone_strings(list)),
                    None => None,
                },
                env: clone_string_map(env),
                disabled: *disabled,
            },
            ServerConfig::Remote { url, headers, disabled } => ServerConfig::Remote {
                url: url.clone(),
                headers: clone_string_map(headers),
                disabled: *disabled,
            },
        }
    }
}

impl ServerConfig {
    /// Whether this backend is switched off. An absent flag means enabled.
    pub fn is_disabled(&self) -> (r: bool)
        ensures
            r == self@.is_disabled(),
    {
        match self {
            ServerConfig::Local { disabled, .. } => match disabled {
                Some(flag) => *flag,
                None => false,
            },
            ServerConfig::Remote { disabled, .. } => match disabled {
                Some(flag) => *flag,
                None => false,
            },
        }
    }
}


/// Why a configuration is refused.
#[derive(Debug)]
pub enum ValidationError {
    /// A local backend names no command.
    EmptyCommand { server: String },
    /// A remote backend names no endpoint.
    EmptyUrl { server: String },
    /// A remote backend's endpoint is neither `http://` nor `https://`.
    InvalidUrl { server: String, url: String },
}

/// The mathematical content of a [`ValidationError`].
pub enum ValidationErrorView {
    EmptyCommand { server: Seq<char> },
    EmptyUrl { server: Seq<char> },
    InvalidUrl { server: Seq<char>, url: Seq<char> },
}

impl View for ValidationError {
    type V = ValidationErrorView;

    open spec fn view(&self) -> ValidationErrorView {
        match *self {
            ValidationError::EmptyCommand { server } => ValidationErrorView::EmptyCommand {
                server: server@,
            },
            ValidationError::EmptyUrl { server } => ValidationErrorView::EmptyUrl {
                server: server@,
            },
            ValidationError::InvalidUrl { server, url } => ValidationErrorView::InvalidUrl {
                server: server@,
                url: url@,
            },
        }
    }
}

impl ValidationErrorView {
    /// The text shown to an operator.
    pub open spec fn message(self) -> Seq<char> {
        match self {
            ValidationErrorView::EmptyCommand { server } => "Server '"@ + server
                + "' has empty command"@,
            ValidationErrorView::EmptyUrl { server } => "Server '"@ + server + "' has empty URL"@,
            ValidationErrorView::InvalidUrl { server, url } => "Server '"@ + server
                + "' has invalid URL: "@ + url,
        }
    }
}

impl ValidationError {
    /// The text shown to an operator.
    pub fn message(&self) -> (r: String)
        ensures
            r@ == self@.message(),
    {
        match self {
            ValidationError::EmptyCommand { server } => join3(
                "Server '",
                server.as_str(),
                "' has empty command",
            ),
            ValidationError::EmptyUrl { server } => join3(
                "Server '",
                server.as_str(),
                "' has empty URL",
            ),
            ValidationError::InvalidUrl { server, url } => join4(
                "Server '",
                server.as_str(),
                "' has invalid URL: ",
                url.as_str(),
            ),
        }
    }
}

/// What is wrong with one backend's configuration, if anything: a local
/// backend needs a command, a remote one an `http://` or `https://` endpoint.
pub open spec fn problem_of(name: Seq<char>, config: ServerConfigView) -> Option<
    ValidationErrorView,
> {
    match config {
        ServerConfigView::Local { command, .. } => if command.len() == 0 {
            Some(ValidationErrorView::EmptyCommand { server: name })
        } else {
            None
        },
        ServerConfigView::Remote { url, .. } => if url.len() == 0 {
            Some(ValidationErrorView::EmptyUrl { server: name })
        } else if !"http://"@.is_prefix_of(url) && !"https://"@.is_prefix_of(url) {
            Some(ValidationErrorView::InvalidUrl { server: name, url })
        } else {
            None
        },
    }
}

/// Entry `i` is faulty and no entry before it is.
pub open spec fn is_first_problem(servers: Seq<(Seq<char>, ServerConfigView)>, i: int) -> bool {
    &&& 0 <= i < servers.len()
    &&& problem_of(servers[i].0, servers[i].1) is Some
    &&& forall|j: int| 0 <= j < i ==> problem_of(#[trigger] servers[j].0, servers[j].1) is None
}

/// The first fault of a configuration in configured order, if it has one.
pub open spec fn first_problem(servers: Seq<(Seq<char>, ServerConfigView)>) -> Option<
    ValidationErrorView,
> {
    if exists|i: int| is_first_problem(servers, i) {
        let i = choose|i: int| is_first_problem(servers, i);
        problem_of(servers[i].0, servers[i].1)
    } else {
        None
    }
}

/// A configuration has at most one first fault.
pub proof fn lemma_first_problem_unique(servers: Seq<(Seq<char>, ServerConfigView)>, i: int, j: int)
    requires
        is_first_problem(servers, i),
        is_first_problem(servers, j),
    ensures
        i == j,
{
    if i < j {
        assert(problem_of(servers[i].0, servers[i].1) is None);
    } else if j < i {
        assert(problem_of(servers[j].0, servers[j].1) is None);
    }
}

/// The enabled backends, in their configured order.
pub open spec fn enabled_of(servers: Seq<(Seq<char>, ServerConfigView)>) -> Seq<
    (Seq<char>, ServerConfigView),
> {
    servers.filter(|entry: (Seq<char>, ServerConfigView)| !entry.1.is_disabled())
}

fn check_server(name: &String, server: &ServerConfig) -> (r: Option<ValidationError>)
    ensures
        match r {
            Some(e) => problem_of(name@, server@) == Some(e@),
            None => problem_of(name@, server@) is None,
        },
{
    match server {
        ServerConfig::Local { command, .. } => {
            if command.as_str().is_empty() {
                Some(ValidationError::EmptyCommand { server: name.clone() })
            } else {
                None
            }
        },
        ServerConfig::Remote { url, .. } => {
            if url.as_str().is_empty() {
                Some(ValidationError::EmptyUrl { server: name.clone() })
            } else if !starts_with(url.as_str(), "http://") && !starts_with(
                url.as_str(),
                "https://",
            ) {
                Some(ValidationError::InvalidUrl { server: name.clone(), url: url.clone() })
            } else {
                None
            }
        },
    }
}

/// `indexmap::IndexMap`: a hash map that walks its pairs in the order in
/// which their keys were first inserted. Nothing inside it is visible here.
#[verifier::external_type_specification]
#[verifier::external_body]
#[verifier::reject_recursive_types(K)]
#[verifier::reject_recursive_types(V)]
#[verifier::reject_recursive_types(S)]
pub struct ExIndexMap<K, V, S>(IndexMap<K, V, S>);

/// The key-value pairs that a map of backend configurations holds, in the
/// order in which the map walks them.
pub uninterp spec fn server_entries(m: IndexMap<String, ServerConfig>) -> Seq<
    (Seq<char>, ServerConfig),
>;

/// How `insert` changes an insertion-ordered map: a key already present keeps
/// its place and takes the new value, handing the old one back; a new key
/// goes last.
pub open spec fn inserted<V>(
    before: Seq<(Seq<char>, V)>,
    after: Seq<(Seq<char>, V)>,
    key: Seq<char>,
    value: V,
    previous: Option<V>,
) -> bool {
    match previous {
        Some(old_value) => exists|i: int|
            0 <= i < before.len() && (#[trigger] before[i]).0 == key && before[i].1 == old_value
                && after == before.update(i, (key, value)),
        None => {
            &&& forall|i: int| 0 <= i < before.len() ==> (#[trigger] before[i]).0 != key
            &&& after == before.push((key, value))
        },
    }
}

/// `IndexMap::new`: the map it makes holds nothing.
#[verifier::external_body]
fn servers_new() -> (m: IndexMap<String, ServerConfig>)
    ensures
        server_entries(m) == Seq::<(Seq<char>, ServerConfig)>::empty(),
{
    IndexMap::new()
}

/// `IndexMap::len`: the number of pairs held.
#[verifier::external_body]
fn servers_len(m: &IndexMap<String, ServerConfig>) -> (n: usize)
    ensures
        n == server_entries(*m).len(),
{
    m.len()
}

/// `IndexMap::get_index`: the pair at position `i` of the map's order, or
/// nothing when `i` is not below its length.
#[verifier::external_body]
fn servers_get_index<'a>(m: &'a IndexMap<String, ServerConfig>, i: usize) -> (r: Option<(&'a String, &'a ServerConfig)>)
    ensures
        match r {
            Some((k, v)) => i < server_entries(*m).len() && k@ == server_entries(*m)[i as int].0
                && *v == server_entries(*m)[i as int].1,
            None => i >= server_entries(*m).len(),
        },
{
    m.get_index(i)
}

/// `IndexMap::insert`: an equal key keeps its position and has its value
/// replaced, the old value being returned; otherwise the pair is appended and
/// nothing is returned.
#[verifier::external_body]
fn servers_insert(m: &mut IndexMap<String, ServerConfig>, key: String, value: ServerConfig) -> (r: Option<ServerConfig>)
    ensures
        inserted(server_entries(*old(m)), server_entries(*final(m)), key@, value, r),
{
    m.insert(key, value)
}

/// `HashMap::insert` on string keys and values: afterwards the map sends the
/// key's text to the value's text and is otherwise as before.
#[verifier::external_body]
fn string_map_insert(m: &mut HashMap<String, String>, key: String, value: String)
    ensures
        final(m).deep_view() == old(m).deep_view().insert(key@, value@),
{
    m.insert(key, value);
}

/// The set of configured backends, keyed by name, in the order in which they
/// were declared.
#[derive(Debug)]
pub struct MCPConfig {
    pub mcp_servers: IndexMap<String, ServerConfig>,
}

impl View for MCPConfig {
    type V = Seq<(Seq<char>, ServerConfigView)>;

    open spec fn view(&self) -> Seq<(Seq<char>, ServerConfigView)> {
        server_entries(self.mcp_servers).map_values(
            |entry: (Seq<char>, ServerConfig)| (entry.0, entry.1@),
        )
    }
}

/// The configuration that [`MCPConfig::create_sample_config`] builds.
pub open spec fn sample_servers() -> Seq<(Seq<char>, ServerConfigView)> {
    seq![
        (
            "filesystem"@,
            ServerConfigView::Local {
                command: "npx"@,
                args: Some(seq!["-y"@, "@modelcontextprotocol/server-filesystem"@, "/tmp"@]),
                env: None,
                disabled: Some(false),
            },
        ),
        (
            "fetch"@,
            ServerConfigView::Local {
                command: "uvx"@,
                args: Some(seq!["mcp-server-fetch"@]),
                env: None,
                disabled: Some(false),
            },
        ),
        (
            "github"@,
            ServerConfigView::Remote {
                url: "https://api.githubcopilot.com/mcp/"@,
                headers: Some(
                    map!["Authorization"@ => "Bearer ${env:GITHUB_PERSONAL_ACCESS_TOKEN}"@],
                ),
                disabled: Some(true),
            },
        ),
    ]
}

impl MCPConfig {
    /// A configuration that declares no backend.
    pub fn empty() -> (r: Self)
        ensures
            r@.len() == 0,
    {
        MCPConfig { mcp_servers: servers_new() }
    }

    /// Checks every backend in configured order and reports the first fault.
    /// Succeeds exactly when no backend is faulty.
    pub fn validate(&self) -> (r: Result<(), ValidationError>)
        ensures
            match r {
                Ok(_) => first_problem(self@) is None,
                Err(e) => first_problem(self@) == Some(e@),
            },
    {
        let n = servers_len(&self.mcp_servers);
        let mut i: usize = 0;
        while i < n
            invariant
                i <= n,
                n == self@.len(),
                forall|j: int| 0 <= j < i ==> problem_of(#[trigger] self@[j].0, self@[j].1) is None,
            decreases n - i,
        {
            if let Some((name, server)) = servers_get_index(&self.mcp_servers, i) {
                if let Some(e) = check_server(name, server) {
                    proof {
                        assert(is_first_problem(self@, i as int));
                        let chosen = choose|k: int| is_first_problem(self@, k);
                        lemma_first_problem_unique(self@, i as int, chosen);
                    }
                    return Err(e);
                }
            }
            i = i + 1;
        }
        assert(first_problem(self@) is None) by {
            if exists|k: int| is_first_problem(self@, k) {
                let k = choose|k: int| is_first_problem(self@, k);
                assert(problem_of(self@[k].0, self@[k].1) is None);
            }
        }
        Ok(())
    }

    /// The backends that are not disabled, in configured order.
    pub fn enabled_servers(&self) -> (r: Vec<(&String, &ServerConfig)>)
        ensures
            r@.len() == enabled_of(self@).len(),
            r@.map_values(|pair: (&String, &ServerConfig)| (pair.0@, pair.1@)) == enabled_of(
                self@,
            ),
    {
        let n = servers_len(&self.mcp_servers);
        let mut out: Vec<(&String, &ServerConfig)> = Vec::new();
        let ghost keep = |entry: (Seq<char>, ServerConfigView)| !entry.1.is_disabled();
        let ghost project = |pair: (&String, &ServerConfig)| (pair.0@, pair.1@);
        let mut i: usize = 0;
        assert(self@.take(0).filter(keep) =~= Seq::empty()) by {
            reveal(Seq::filter);
        }
        while i < n
            invariant
                i <= n,
                n == self@.len(),
                keep == |entry: (Seq<char>, ServerConfigView)| !entry.1.is_disabled(),
                project == |pair: (&String, &ServerConfig)| (pair.0@, pair.1@),
                out@.map_values(project) == self@.take(i as int).filter(keep),
            decreases n - i,
        {
            proof {
                assert(self@.take(i as int + 1) =~= self@.take(i as int).push(self@[i as int]));
                self@.take(i as int).lemma_filter_push(self@[i as int], keep);
            }
            if let Some((name, server)) = servers_get_index(&self.mcp_servers, i) {
                if !server.is_disabled() {
                    let ghost before = out@;
                    out.push((name, server));
                    assert(out@.map_values(project) =~= before.map_values(project).push(
                        self@[i as int],
                    ));
                }
            }
            i = i + 1;
        }
        assert(self@.take(n as int) =~= self@);
        assert(out@.map_values(project).len() == out@.len());
        out
    }

    /// A configuration to start from: two local backends and one remote
    /// backend that is switched off.
    pub fn create_sample_config() -> (r: Self)
        ensures
            r@ == sample_servers(),
    {
        let mut servers = servers_new();

        let mut filesystem_args: Vec<String> = Vec::new();
        filesystem_args.push("-y".to_owned());
        filesystem_args.push("@modelcontextprotocol/server-filesystem".to_owned());
        filesystem_args.push("/tmp".to_owned());
        let filesystem = ServerConfig::Local {
            command: "npx".to_owned(),
            args: Some(filesystem_args),
            env: None,
            disabled: Some(false),
        };
        assert(filesystem@ == sample_servers()[0].1) by {
            assert(filesystem_args.deep_view() =~= seq![
                "-y"@,
                "@modelcontextprotocol/server-filesystem"@,
                "/tmp"@,
            ]);
        }
        let ghost first = filesystem;
        servers_insert(&mut servers, "filesystem".to_owned(), filesystem);
        assert(server_entries(servers) =~= seq![("filesystem"@, first)]);

        let mut fetch_args: Vec<String> = Vec::new();
        fetch_args.push("mcp-server-fetch".to_owned());
        let fetch = ServerConfig::Local {
            command: "uvx".to_owned(),
            args: Some(fetch_args),
            env: None,
            disabled: Some(false),
        };
        assert(fetch@ == sample_servers()[1].1) by {
            assert(fetch_args.deep_view() =~= seq!["mcp-server-fetch"@]);
        }
        proof {
            reveal_strlit("filesystem");
            reveal_strlit("fetch");
            reveal_strlit("github");
            assert("filesystem"@.len() == 10 && "fetch"@.len() == 5 && "github"@.len() == 6);
        }
        let ghost second = fetch;
        servers_insert(&mut servers, "fetch".to_owned(), fetch);
        assert(server_entries(servers) =~= seq![("filesystem"@, first), ("fetch"@, second)]);

        let mut headers: HashMap<String, String> = HashMap::new();
        assert(headers.deep_view() =~= Map::<Seq<char>, Seq<char>>::empty()) by {
            reveal(vstd::std_specs::hash::hash_map_deep_view_impl);
        }
        string_map_insert(
            &mut headers,
            "Authorization".to_owned(),
            "Bearer ${env:GITHUB_PERSONAL_ACCESS_TOKEN}".to_owned(),
        );
        let github = ServerConfig::Remote {
            url: "https://api.githubcopilot.com/mcp/".to_owned(),
            headers: Some(headers),
            disabled: Some(true),
        };
        assert(github@ == sample_servers()[2].1) by {
            assert(headers.deep_view() =~= map![
                "Authorization"@ => "Bearer ${env:GITHUB_PERSONAL_ACCESS_TOKEN}"@,
            ]);
        }
        let ghost third = github;
        servers_insert(&mut servers, "github".to_owned(), github);
        assert(server_entries(servers) =~= seq![
            ("filesystem"@, first),
            ("fetch"@, second),
            ("github"@, third),
        ]);

        let config = MCPConfig { mcp_servers: servers };
        assert(config@ =~= sample_servers());
        config
    }
}


/// One place where a configuration file is looked for: a path, taken from
/// the user's home directory where `home` names one and as it stands
/// otherwise.
#[derive(Debug)]
pub struct SearchPath {
    pub home: Option<String>,
    pub path: String,
}

/// The mathematical content of a [`SearchPath`].
pub struct SearchPathView {
    pub home: Option<Seq<char>>,
    pub path: Seq<char>,
}

impl View for SearchPath {
    type V = SearchPathView;

    open spec fn view(&self) -> SearchPathView {
        SearchPathView {
            home: text_of(self.home),
            path: self.path@,
        }
    }
}

/// The places searched before any is added: three in the working directory,
/// then, where the home directory is known, three below it.
pub open spec fn default_search_paths(home: Option<Seq<char>>) -> Seq<SearchPathView> {
    let project = seq![
        SearchPathView { home: None, path: ".mcphub/servers.json"@ },
        SearchPathView { home: None, path: ".vscode/mcp.json"@ },
        SearchPathView { home: None, path: ".cursor/mcp.json"@ },
    ];
    match home {
        Some(h) => project + seq![
            SearchPathView { home: Some(h), path: ".config/mcphub/servers.json"@ },
            SearchPathView { home: Some(h), path: ".config/mcp/servers.json"@ },
            SearchPathView { home: Some(h), path: "mcp/servers.json"@ },
        ],
        None => project,
    }
}

/// `dirs::home_dir`: the home directory of the user who runs the program,
/// where the system knows one. It is read from the environment, so nothing
/// is claimed of it.
#[verifier::external_body]
fn home_dir() -> (r: Option<String>) {
    dirs::home_dir().map(|dir| dir.to_string_lossy().into_owned())
}

/// Where configuration files are looked for, in order of preference.
#[derive(Debug)]
pub struct ConfigLoader {
    search_paths: Vec<SearchPath>,
}

impl View for ConfigLoader {
    type V = Seq<SearchPathView>;

    closed spec fn view(&self) -> Seq<SearchPathView> {
        self.search_paths@.map_values(|p: SearchPath| p@)
    }
}

fn project_path(path: &str) -> (r: SearchPath)
    ensures
        r@ == (SearchPathView { home: None, path: path@ }),
{
    SearchPath { home: None, path: path.to_owned() }
}

fn home_path(home: &String, path: &str) -> (r: SearchPath)
    ensures
        r@ == (SearchPathView { home: Some(home@), path: path@ }),
{
    SearchPath { home: Some(home.clone()), path: path.to_owned() }
}

impl ConfigLoader {
    /// A loader with the default places for the home directory given.
    pub fn with_home(home: Option<String>) -> (r: Self)
        ensures
            r@ == default_search_paths(text_of(home)),
    {
        let mut paths: Vec<SearchPath> = Vec::new();
        paths.push(project_path(".mcphub/servers.json"));
        paths.push(project_path(".vscode/mcp.json"));
        paths.push(project_path(".cursor/mcp.json"));
        if let Some(h) = &home {
            paths.push(home_path(h, ".config/mcphub/servers.json"));
            paths.push(home_path(h, ".config/mcp/servers.json"));
            paths.push(home_path(h, "mcp/servers.json"));
        }
        let loader = ConfigLoader { search_paths: paths };
        assert(loader@ =~= default_search_paths(text_of(home)));
        loader
    }

    /// A loader with the default places for the user who runs the program.
    pub fn new() -> (r: Self)
        ensures
            exists|home: Option<Seq<char>>| r@ == #[trigger] default_search_paths(home),
    {
        let home = home_dir();
        let ghost witness: Option<Seq<char>> = text_of(home);
        let loader = Self::with_home(home);
        assert(loader@ == default_search_paths(witness));
        loader
    }

    /// Adds a place to search, after all those already known.
    pub fn add_search_path(&mut self, path: &str)
        ensures
            final(self)@ == old(self)@.push(SearchPathView { home: None, path: path@ }),
    {
        self.search_paths.push(project_path(path));
        assert(self@ =~= old(self)@.push(SearchPathView { home: None, path: path@ }));
    }

    /// The places searched, most preferred first.
    pub fn search_paths(&self) -> (r: &Vec<SearchPath>)
        ensures
            r@.map_values(|p: SearchPath| p@) == self@,
    {
        &self.search_paths
    }

    /// Which place to load from, given for each place in order whether a
    /// file is there: the first that has one. `None` when no place has a
    /// file, in which case the configuration is empty.
    pub fn first_available(&self, present: &Vec<bool>) -> (r: Option<usize>)
        ensures
            match r {
                Some(i) => i < self@.len() && i < present@.len() && present@[i as int]
                    && forall|j: int| 0 <= j < i ==> !present@[j],
                None => forall|j: int| 0 <= j < self@.len() && j < present@.len() ==> !present@[j],
            },
    {
        let mut i: usize = 0;
        while i < self.search_paths.len() && i < present.len()
            invariant
                self@.len() == self.search_paths@.len(),
                forall|j: int| 0 <= j < i ==> !present@[j],
                i <= self.search_paths@.len(),
                i <= present@.len(),
            decreases present@.len() - i,
        {
            if present[i] {
                return Some(i);
            }
            i = i + 1;
        }
        None
    }
}


/// What the `regex` crate captures of `pattern` in `text`: for each match,
/// in order, the text of each of its groups, the whole match being the
/// first, and `None` for a group that took no part. `None` where `pattern`
/// is no expression that the crate accepts.
pub uninterp spec fn regex_captures(pattern: Seq<char>, text: Seq<char>) -> Option<
    Seq<Seq<Option<Seq<char>>>>,
>;

/// `Regex::new` followed by `Regex::captures_iter`, each match read group by
/// group with `Captures::iter`: the matches of `pattern` in `text`. A
/// pattern that does not compile gives `None`. The answer depends on the
/// two texts alone.
#[verifier::external_body]
fn captures(pattern: &str, text: &str) -> (r: Option<Vec<Vec<Option<String>>>>)
    ensures
        r.deep_view() == regex_captures(pattern@, text@),
{
    match Regex::new(pattern) {
        Ok(expression) => Some(
            expression.captures_iter(text).map(
                |found| found.iter().map(|group| group.map(|m| m.as_str().to_owned())).collect(),
            ).collect(),
        ),
        Err(_) => None,
    }
}

/// The text with every occurrence of `from` replaced by `to`, occurrences
/// being found from the left and not overlapping.
pub open spec fn replace_all(text: Seq<char>, from: Seq<char>, to: Seq<char>) -> Seq<char>
    recommends
        from.len() > 0,
    decreases text.len(),
{
    if from.len() == 0 || text.len() == 0 {
        text
    } else if from.is_prefix_of(text) {
        to + replace_all(text.skip(from.len() as int), from, to)
    } else {
        seq![text[0]] + replace_all(text.drop_first(), from, to)
    }
}

/// `str::replace`: the text with all matches of `from` replaced by `to`.
/// An empty `from` is left out.
#[verifier::external_body]
fn replace(text: &str, from: &str, to: &str) -> (r: String)
    requires
        from@.len() > 0,
    ensures
        r@ == replace_all(text@, from@, to@),
{
    text.replace(from, to)
}

/// What may come of expanding a tilde: the text as it is, or, where it
/// begins with a tilde, some home directory followed by what stands behind
/// the tilde.
pub open spec fn tilde_outcome(text: Seq<char>, expanded: Seq<char>) -> bool {
    ||| expanded == text
    ||| text.len() > 0 && text[0] == '~' && text.skip(1).is_suffix_of(expanded)
}

/// `shellexpand::tilde`: a tilde at the very start, alone or before a
/// separator, gives way to the home directory of the user who runs the
/// program, where the system knows one; any other text comes back as it is.
#[verifier::external_body]
fn tilde(text: &str) -> (r: String)
    ensures
        tilde_outcome(text@, r@),
{
    shellexpand::tilde(text).into_owned()
}

/// The value of a variable among `env`, the first of that name counting;
/// empty where there is none.
pub open spec fn env_value(env: Seq<(Seq<char>, Seq<char>)>, name: Seq<char>) -> Seq<char>
    decreases env.len(),
{
    if env.len() == 0 {
        Seq::empty()
    } else if env[0].0 == name {
        env[0].1
    } else {
        env_value(env.drop_first(), name)
    }
}

/// What a match refers to: the text of the reference and the name of the
/// variable in it.
pub open spec fn reference_of(groups: Seq<Option<Seq<char>>>) -> Option<(Seq<char>, Seq<char>)> {
    if groups.len() >= 2 && groups[0] is Some && groups[1] is Some && groups[0]->0.len() > 0 {
        Some((groups[0]->0, groups[1]->0))
    } else {
        None
    }
}

/// The text after each reference found has been taken in turn and every
/// occurrence of it replaced by the value of its variable.
pub open spec fn substituted(
    text: Seq<char>,
    found: Seq<Seq<Option<Seq<char>>>>,
    env: Seq<(Seq<char>, Seq<char>)>,
) -> Seq<char>
    decreases found.len(),
{
    if found.len() == 0 {
        text
    } else {
        let before = substituted(text, found.drop_last(), env);
        match reference_of(found.last()) {
            Some((whole, name)) => replace_all(before, whole, env_value(env, name)),
            None => before,
        }
    }
}

/// The text with each `${env:NAME}` replaced by the value of `NAME`.
pub open spec fn env_expanded(content: Seq<char>, env: Seq<(Seq<char>, Seq<char>)>) -> Seq<char> {
    match regex_captures(r"\$\{env:([^}]+)\}"@, content) {
        Some(found) => substituted(content, found, env),
        None => content,
    }
}

fn lookup(env: &Vec<(String, String)>, name: &str) -> (r: String)
    ensures
        r@ == env_value(env.deep_view(), name@),
{
    let mut i: usize = 0;
    assert(env.deep_view().skip(0) =~= env.deep_view());
    while i < env.len()
        invariant
            i <= env@.len(),
            env_value(env.deep_view(), name@) == env_value(
                env.deep_view().skip(i as int),
                name@,
            ),
        decreases env@.len() - i,
    {
        proof {
            let rest = env.deep_view().skip(i as int);
            assert(rest[0] == (env@[i as int].0@, env@[i as int].1@));
            assert(rest.drop_first() =~= env.deep_view().skip(i as int + 1));
        }
        if same_text(env[i].0.as_str(), name) {
            return env[i].1.clone();
        }
        i = i + 1;
    }
    String::new()
}

impl ConfigLoader {
    /// The text of a configuration file with each `${env:NAME}` replaced by
    /// the value that `env` gives for `NAME`, or by nothing where it gives
    /// none. `env` holds the variables of the environment, name and value.
    pub fn substitute_env(content: &str, env: &Vec<(String, String)>) -> (r: String)
        ensures
            r@ == env_expanded(content@, env.deep_view()),
    {
        let found = match captures(r"\$\{env:([^}]+)\}", content) {
            Some(found) => found,
            None => {
                return content.to_owned();
            },
        };
        let mut result = content.to_owned();
        let mut i: usize = 0;
        while i < found.len()
            invariant
                i <= found@.len(),
                result@ == substituted(content@, found.deep_view().take(i as int), env.deep_view()),
            decreases found@.len() - i,
        {
            proof {
                assert(found.deep_view().take(i as int + 1).drop_last() =~= found.deep_view().take(
                    i as int,
                ));
                assert(found.deep_view().take(i as int + 1).last() == found@[i as int].deep_view());
            }
            let groups = &found[i];
            if groups.len() >= 2 {
                if let (Some(whole), Some(name)) = (&groups[0], &groups[1]) {
                    if !whole.as_str().is_empty() {
                        let value = lookup(env, name.as_str());
                        result = replace(result.as_str(), whole.as_str(), value.as_str());
                    }
                }
            }
            i = i + 1;
        }
        assert(found.deep_view().take(i as int) =~= found.deep_view());
        result
    }

    /// The text of a configuration file made ready for reading: references
    /// to the environment are replaced as [`ConfigLoader::substitute_env`]
    /// says, then a tilde at the very start gives way to the home
    /// directory.
    pub fn expand_variables(content: &str, env: &Vec<(String, String)>) -> (r: String)
        ensures
            tilde_outcome(env_expanded(content@, env.deep_view()), r@),
    {
        let substituted = Self::substitute_env(content, env);
        tilde(substituted.as_str())
    }
}


impl Default for ConfigLoader {
    fn default() -> (r: Self)
        ensures
            exists|home: Option<Seq<char>>| r@ == #[trigger] default_search_paths(home),
    {
        Self::new()
    }
}

} // verus!
