use crate::table::{find_named, lemma_same_table, names_unique, same_table, table_view, tables_agree, ViewEq};
use vstd::prelude::*;

verus! {

/// Where credential material comes from.
#[derive(Debug, Eq)]
pub enum Content {
    /// Location of the content on disk.
    Path(String),
    /// The content itself, inline (typically base64 text).
    Data(String),
}

/// The mathematical value of a `Content`.
pub enum ContentView {
    Path(Seq<char>),
    Data(Seq<char>),
}

impl View for Content {
    type V = ContentView;

    open spec fn view(&self) -> ContentView {
        match self {
            Content::Path(s) => ContentView::Path(s@),
            Content::Data(s) => ContentView::Data(s@),
        }
    }
}

/// The view of an optional string.
pub open spec fn text_view(o: Option<String>) -> Option<Seq<char>> {
    match o {
        Some(s) => Some(s@),
        None => None,
    }
}

/// The view of an optional `Content`.
pub open spec fn content_view(o: Option<Content>) -> Option<ContentView> {
    match o {
        Some(c) => Some(c@),
        None => None,
    }
}

fn same_text(a: &Option<String>, b: &Option<String>) -> (r: bool)
    ensures
        r == (text_view(*a) == text_view(*b)),
{
    match (a, b) {
        (Some(x), Some(y)) => *x == *y,
        (None, None) => true,
        _ => false,
    }
}

impl ViewEq for Content {
    fn view_eq(&self, other: &Content) -> (r: bool) {
        match (self, other) {
            (Content::Path(x), Content::Path(y)) => *x == *y,
            (Content::Data(x), Content::Data(y)) => *x == *y,
            _ => false,
        }
    }
}

fn same_content(a: &Option<Content>, b: &Option<Content>) -> (r: bool)
    ensures
        r == (content_view(*a) == content_view(*b)),
{
    match (a, b) {
        (Some(x), Some(y)) => x.view_eq(y),
        (None, None) => true,
        _ => false,
    }
}

impl PartialEq for Content {
    fn eq(&self, other: &Content) -> (r: bool) {
        self.view_eq(other)
    }
}

impl vstd::std_specs::cmp::PartialEqSpecImpl for Content {
    open spec fn obeys_eq_spec() -> bool {
        true
    }

    open spec fn eq_spec(&self, other: &Content) -> bool {
        self@ == other@
    }
}

/// The API version a cluster has when none is given.
pub open spec fn default_api_version() -> Seq<char> {
    "v1"@
}

/// The server address a cluster has when none is given.
pub open spec fn default_server() -> Seq<char> {
    "http://localhost:8001"@
}

/// Settings for reaching a cluster, with the defaults applied.
#[derive(Debug, Eq)]
pub struct Cluster {
    /// The cluster's supported API version.
    pub api_version: String,
    /// The server URI.
    pub server: String,
    /// Whether a client should skip TLS verification.
    pub insecure_skip_tls_verify: bool,
    /// Material with which a client checks that the server is authentic.
    pub certificate_authority: Option<Content>,
}

/// The mathematical value of a `Cluster`.
pub struct ClusterView {
    pub api_version: Seq<char>,
    pub server: Seq<char>,
    pub insecure_skip_tls_verify: bool,
    pub certificate_authority: Option<ContentView>,
}

impl View for Cluster {
    type V = ClusterView;

    open spec fn view(&self) -> ClusterView {
        ClusterView {
            api_version: self.api_version@,
            server: self.server@,
            insecure_skip_tls_verify: self.insecure_skip_tls_verify,
            certificate_authority: content_view(self.certificate_authority),
        }
    }
}

/// The cluster that the given optional settings describe: each absent one
/// takes its default.
pub open spec fn cluster_with_defaults(
    api_version: Option<Seq<char>>,
    server: Option<Seq<char>>,
    insecure_skip_tls_verify: Option<bool>,
    certificate_authority: Option<ContentView>,
) -> ClusterView {
    ClusterView {
        api_version: match api_version {
            Some(v) => v,
            None => default_api_version(),
        },
        server: match server {
            Some(s) => s,
            None => default_server(),
        },
        insecure_skip_tls_verify: match insecure_skip_tls_verify {
            Some(b) => b,
            None => false,
        },
        certificate_authority,
    }
}

impl Cluster {
    /// A cluster from optional settings, each absent one taking its default:
    /// API version `v1`, server `http://localhost:8001`, TLS verification on.
    pub fn new(
        api_version: Option<String>,
        server: Option<String>,
        insecure_skip_tls_verify: Option<bool>,
        certificate_authority: Option<Content>,
    ) -> (r: Cluster)
        ensures
            r@ == cluster_with_defaults(
                text_view(api_version),
                text_view(server),
                insecure_skip_tls_verify,
                content_view(certificate_authority),
            ),
    {
        let api_version = match api_version {
            Some(v) => v,
            None => "v1".to_owned(),
        };
        let server = match server {
            Some(s) => s,
            None => "http://localhost:8001".to_owned(),
        };
        let insecure_skip_tls_verify = match insecure_skip_tls_verify {
            Some(b) => b,
            None => false,
        };
        Cluster { api_version, server, insecure_skip_tls_verify, certificate_authority }
    }
}

impl ViewEq for Cluster {
    fn view_eq(&self, other: &Cluster) -> (r: bool) {
        self.api_version == other.api_version && self.server == other.server
            && self.insecure_skip_tls_verify == other.insecure_skip_tls_verify && same_content(
            &self.certificate_authority,
            &other.certificate_authority,
        )
    }
}

impl PartialEq for Cluster {
    fn eq(&self, other: &Cluster) -> (r: bool) {
        self.view_eq(other)
    }
}

impl vstd::std_specs::cmp::PartialEqSpecImpl for Cluster {
    open spec fn obeys_eq_spec() -> bool {
        true
    }

    open spec fn eq_spec(&self, other: &Cluster) -> bool {
        self@ == other@
    }
}

impl Default for Cluster {
    /// The cluster with every setting at its default.
    fn default() -> (r: Cluster)
        ensures
            r@ == cluster_with_defaults(None, None, None, None),
    {
        Cluster {
            api_version: "v1".to_owned(),
            server: "http://localhost:8001".to_owned(),
            insecure_skip_tls_verify: false,
            certificate_authority: None,
        }
    }
}

/// Credentials with which requests to a cluster are authenticated. Any
/// combination of them may be given.
#[derive(Debug, Eq)]
pub struct User {
    pub client_certificate: Option<Content>,
    pub client_key: Option<Content>,
    pub token: Option<String>,
    pub username: Option<String>,
    pub password: Option<String>,
}

/// The mathematical value of a `User`.
pub struct UserView {
    pub client_certificate: Option<ContentView>,
    pub client_key: Option<ContentView>,
    pub token: Option<Seq<char>>,
    pub username: Option<Seq<char>>,
    pub password: Option<Seq<char>>,
}

impl View for User {
    type V = UserView;

    open spec fn view(&self) -> UserView {
        UserView {
            client_certificate: content_view(self.client_certificate),
            client_key: content_view(self.client_key),
            token: text_view(self.token),
            username: text_view(self.username),
            password: text_view(self.password),
        }
    }
}

impl User {
    /// A user holding exactly the given credentials.
    pub fn new(
        client_cert: Option<Content>,
        client_key: Option<Content>,
        token: Option<String>,
        username: Option<String>,
        password: Option<String>,
    ) -> (r: User)
        ensures
            r.client_certificate == client_cert,
            r.client_key == client_key,
            r.token == token,
            r.username == username,
            r.password == password,
    {
        User { client_certificate: client_cert, client_key, token, username, password }
    }
}

impl ViewEq for User {
    fn view_eq(&self, other: &User) -> (r: bool) {
        same_content(&self.client_certificate, &other.client_certificate) && same_content(
            &self.client_key,
            &other.client_key,
        ) && same_text(&self.token, &other.token) && same_text(&self.username, &other.username)
            && same_text(&self.password, &other.password)
    }
}

impl PartialEq for User {
    fn eq(&self, other: &User) -> (r: bool) {
        self.view_eq(other)
    }
}

impl vstd::std_specs::cmp::PartialEqSpecImpl for User {
    open spec fn obeys_eq_spec() -> bool {
        true
    }

    open spec fn eq_spec(&self, other: &User) -> bool {
        self@ == other@
    }
}

/// A named choice of cluster, namespace and user. The names are not checked
/// against the configuration's tables.
#[derive(Debug, Eq)]
pub struct Context {
    /// The name of a cluster.
    pub cluster: Option<String>,
    /// The name of a namespace.
    pub namespace: Option<String>,
    /// The name of a user.
    pub user: Option<String>,
}

/// The mathematical value of a `Context`.
pub struct ContextView {
    pub cluster: Option<Seq<char>>,
    pub namespace: Option<Seq<char>>,
    pub user: Option<Seq<char>>,
}

impl View for Context {
    type V = ContextView;

    open spec fn view(&self) -> ContextView {
        ContextView {
            cluster: text_view(self.cluster),
            namespace: text_view(self.namespace),
            user: text_view(self.user),
        }
    }
}

impl Context {
    /// A context holding exactly the given names.
    pub fn new(cluster: Option<String>, namespace: Option<String>, user: Option<String>) -> (r:
        Context)
        ensures
            r.cluster == cluster,
            r.namespace == namespace,
            r.user == user,
    {
        Context { cluster, namespace, user }
    }
}

impl ViewEq for Context {
    fn view_eq(&self, other: &Context) -> (r: bool) {
        same_text(&self.cluster, &other.cluster) && same_text(&self.namespace, &other.namespace)
            && same_text(&self.user, &other.user)
    }
}

impl PartialEq for Context {
    fn eq(&self, other: &Context) -> (r: bool) {
        self.view_eq(other)
    }
}

impl vstd::std_specs::cmp::PartialEqSpecImpl for Context {
    open spec fn obeys_eq_spec() -> bool {
        true
    }

    open spec fn eq_spec(&self, other: &Context) -> bool {
        self@ == other@
    }
}

/// A whole configuration: clusters, contexts and users, each under its
/// name, and the name of the current context.
#[derive(Debug)]
pub struct Config {
    /// Each cluster under its name.
    pub clusters: Vec<(String, Cluster)>,
    /// Each context under its name.
    pub contexts: Vec<(String, Context)>,
    /// Each user under its name.
    pub users: Vec<(String, User)>,
    /// The name of the current context. It is not checked against `contexts`.
    pub current_context: String,
}

/// The mathematical value of a `Config`.
pub struct ConfigView {
    pub clusters: Map<Seq<char>, ClusterView>,
    pub contexts: Map<Seq<char>, ContextView>,
    pub users: Map<Seq<char>, UserView>,
    pub current_context: Seq<char>,
}

impl View for Config {
    type V = ConfigView;

    open spec fn view(&self) -> ConfigView {
        ConfigView {
            clusters: table_view(self.clusters@),
            contexts: table_view(self.contexts@),
            users: table_view(self.users@),
            current_context: self.current_context@,
        }
    }
}

impl Config {
    /// No name occurs twice in any of the three tables.
    pub open spec fn wf(&self) -> bool {
        &&& names_unique(self.clusters@)
        &&& names_unique(self.contexts@)
        &&& names_unique(self.users@)
    }

    /// The cluster named `name`.
    pub fn cluster(&self, name: &str) -> (r: Option<&Cluster>)
        ensures
            r is Some <==> self@.clusters.contains_key(name@),
            match r {
                Some(c) => self.wf() ==> self@.clusters[name@] == c@,
                None => true,
            },
    {
        find_named(&self.clusters, name)
    }

    /// The context named `name`.
    pub fn context(&self, name: &str) -> (r: Option<&Context>)
        ensures
            r is Some <==> self@.contexts.contains_key(name@),
            match r {
                Some(c) => self.wf() ==> self@.contexts[name@] == c@,
                None => true,
            },
    {
        find_named(&self.contexts, name)
    }

    /// The user named `name`.
    pub fn user(&self, name: &str) -> (r: Option<&User>)
        ensures
            r is Some <==> self@.users.contains_key(name@),
            match r {
                Some(u) => self.wf() ==> self@.users[name@] == u@,
                None => true,
            },
    {
        find_named(&self.users, name)
    }
}

/// Whether two configurations agree entry by entry in each table and on the
/// current context; the order of the entries does not matter. For
/// well-formed configurations this is equality of their views.
pub open spec fn same_config(a: Config, b: Config) -> bool {
    &&& same_table(a.clusters@, b.clusters@)
    &&& same_table(a.contexts@, b.contexts@)
    &&& same_table(a.users@, b.users@)
    &&& a.current_context@ == b.current_context@
}

impl PartialEq for Config {
    fn eq(&self, other: &Config) -> (r: bool) {
        self.current_context == other.current_context && tables_agree(
            &self.clusters,
            &other.clusters,
        ) && tables_agree(&self.contexts, &other.contexts) && tables_agree(
            &self.users,
            &other.users,
        )
    }
}

impl vstd::std_specs::cmp::PartialEqSpecImpl for Config {
    open spec fn obeys_eq_spec() -> bool {
        true
    }

    open spec fn eq_spec(&self, other: &Config) -> bool {
        same_config(*self, *other)
    }
}

/// Between well-formed configurations, `==` is equality of their views.
pub proof fn lemma_config_eq_is_view_eq(a: Config, b: Config)
    requires
        a.wf(),
        b.wf(),
    ensures
        same_config(a, b) <==> a@ == b@,
{
    lemma_same_table(a.clusters@, b.clusters@);
    lemma_same_table(a.contexts@, b.contexts@);
    lemma_same_table(a.users@, b.users@);
}

} // verus!
