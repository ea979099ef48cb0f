use crate::config::{
    cluster_with_defaults, Cluster, ClusterView, Config, ConfigView, Content, ContentView, Context,
    ContextView, User, UserView,
};
use crate::node::{child, child_or_bad, flag_field, text_field, Node};
use crate::table::{insert_named, names_unique, table_view};
use vstd::prelude::*;

verus! {

/// One of the three named lists of a configuration document.
#[derive(Debug, Clone, Copy, PartialEq, Eq)]
pub enum Section {
    Clusters,
    Contexts,
    Users,
}

/// A document that loaded but does not have the shape of a configuration.
#[derive(Debug, Clone, Copy, PartialEq, Eq)]
pub enum SchemaError {
    /// The text holds no document.
    NoDocument,
    /// The document has no string `current-context`.
    MissingCurrentContext,
    /// The document has no list under the section's key.
    MissingSection(Section),
    /// An entry of the section has no string `name`.
    MissingName(Section),
}

/// The document key of a section's list.
pub open spec fn section_key(section: Section) -> Seq<char> {
    match section {
        Section::Clusters => "clusters"@,
        Section::Contexts => "contexts"@,
        Section::Users => "users"@,
    }
}

/// The key under which an entry of a section holds its settings.
pub open spec fn entry_key(section: Section) -> Seq<char> {
    match section {
        Section::Clusters => "cluster"@,
        Section::Contexts => "context"@,
        Section::Users => "user"@,
    }
}

fn section_name(section: Section) -> (r: &'static str)
    ensures
        r@ == section_key(section),
{
    match section {
        Section::Clusters => "clusters",
        Section::Contexts => "contexts",
        Section::Users => "users",
    }
}

fn entry_name(section: Section) -> (r: &'static str)
    ensures
        r@ == entry_key(section),
{
    match section {
        Section::Clusters => "cluster",
        Section::Contexts => "context",
        Section::Users => "user",
    }
}

/// Credential material given under a path key or a data key: the inline
/// data wins where both are given.
pub open spec fn content_of(body: Node, path_key: Seq<char>, data_key: Seq<char>) -> Option<
    ContentView,
> {
    match text_field(body, data_key) {
        Some(d) => Some(ContentView::Data(d)),
        None => match text_field(body, path_key) {
            Some(p) => Some(ContentView::Path(p)),
            None => None,
        },
    }
}

/// The cluster that the settings `body` of a cluster entry describe.
pub open spec fn cluster_from(body: Node) -> ClusterView {
    cluster_with_defaults(
        text_field(body, "api-version"@),
        text_field(body, "server"@),
        flag_field(body, "insecure-skip-tls-verify"@),
        content_of(body, "certificate-authority"@, "certificate-authority-data"@),
    )
}

/// The user that the settings `body` of a user entry describe.
pub open spec fn user_from(body: Node) -> UserView {
    UserView {
        client_certificate: content_of(body, "client-certificate"@, "client-certificate-data"@),
        client_key: content_of(body, "client-key"@, "client-key-data"@),
        token: text_field(body, "token"@),
        username: text_field(body, "username"@),
        password: text_field(body, "password"@),
    }
}

/// The context that the settings `body` of a context entry describe.
pub open spec fn context_from(body: Node) -> ContextView {
    ContextView {
        cluster: text_field(body, "cluster"@),
        namespace: text_field(body, "namespace"@),
        user: text_field(body, "user"@),
    }
}

/// Reads credential material given under a path key or a data key.
pub fn content_field(body: &Node, path_key: &str, data_key: &str) -> (r: Option<Content>)
    ensures
        crate::config::content_view(r) == content_of(*body, path_key@, data_key@),
{
    match body.text_field(data_key) {
        Some(d) => Some(Content::Data(d)),
        None => match body.text_field(path_key) {
            Some(p) => Some(Content::Path(p)),
            None => None,
        },
    }
}

/// A kind of entry that a section lists, built from the settings of one entry.
pub trait Entity: View + Sized {
    spec fn spec_from_body(body: Node) -> Self::V;

    fn from_body(body: &Node) -> (r: Self)
        ensures
            r@ == Self::spec_from_body(*body),
    ;
}

impl Entity for Cluster {
    open spec fn spec_from_body(body: Node) -> ClusterView {
        cluster_from(body)
    }

    fn from_body(body: &Node) -> (r: Cluster) {
        Cluster::new(
            body.text_field("api-version"),
            body.text_field("server"),
            body.flag_field("insecure-skip-tls-verify"),
            content_field(body, "certificate-authority", "certificate-authority-data"),
        )
    }
}

impl Entity for User {
    open spec fn spec_from_body(body: Node) -> UserView {
        user_from(body)
    }

    fn from_body(body: &Node) -> (r: User) {
        User::new(
            content_field(body, "client-certificate", "client-certificate-data"),
            content_field(body, "client-key", "client-key-data"),
            body.text_field("token"),
            body.text_field("username"),
            body.text_field("password"),
        )
    }
}

impl Entity for Context {
    open spec fn spec_from_body(body: Node) -> ContextView {
        context_from(body)
    }

    fn from_body(body: &Node) -> (r: Context) {
        Context::new(body.text_field("cluster"), body.text_field("namespace"), body.text_field("user"))
    }
}

/// The entries `items` of a section as a map from name to entity, a later
/// entry replacing an earlier one of the same name; the first entry without
/// a string name makes it an error.
pub open spec fn section_from<T: Entity>(items: Seq<Node>, section: Section) -> Result<
    Map<Seq<char>, T::V>,
    SchemaError,
>
    decreases items.len(),
{
    if items.len() == 0 {
        Ok(Map::empty())
    } else {
        match section_from::<T>(items.drop_last(), section) {
            Err(e) => Err(e),
            Ok(m) => match text_field(items.last(), "name"@) {
                None => Err(SchemaError::MissingName(section)),
                Some(name) => Ok(
                    m.insert(name, T::spec_from_body(child_or_bad(items.last(), entry_key(section)))),
                ),
            },
        }
    }
}

/// The section `section` of the document `doc`.
pub open spec fn section_of<T: Entity>(doc: Node, section: Section) -> Result<
    Map<Seq<char>, T::V>,
    SchemaError,
> {
    match child(doc, section_key(section)) {
        Some(Node::Array(items)) => section_from::<T>(items@, section),
        _ => Err(SchemaError::MissingSection(section)),
    }
}

/// The configuration that the document `doc` describes. The current context
/// is read first, then the users, the contexts and the clusters; the first
/// failure is the result.
pub open spec fn config_of(doc: Node) -> Result<ConfigView, SchemaError> {
    match text_field(doc, "current-context"@) {
        None => Err(SchemaError::MissingCurrentContext),
        Some(current_context) => match section_of::<User>(doc, Section::Users) {
            Err(e) => Err(e),
            Ok(users) => match section_of::<Context>(doc, Section::Contexts) {
                Err(e) => Err(e),
                Ok(contexts) => match section_of::<Cluster>(doc, Section::Clusters) {
                    Err(e) => Err(e),
                    Ok(clusters) => Ok(ConfigView { clusters, contexts, users, current_context }),
                },
            },
        },
    }
}

/// The configuration that the first of the loaded documents `docs` describes.
pub open spec fn config_of_documents(docs: Seq<Node>) -> Result<ConfigView, SchemaError> {
    if docs.len() == 0 {
        Err(SchemaError::NoDocument)
    } else {
        config_of(docs[0])
    }
}

/// Once a prefix of the entries fails, the whole list fails the same way.
pub proof fn lemma_section_error_stays<T: Entity>(items: Seq<Node>, section: Section, n: int)
    requires
        0 <= n <= items.len(),
        section_from::<T>(items.take(n), section) is Err,
    ensures
        section_from::<T>(items, section) == section_from::<T>(items.take(n), section),
    decreases items.len() - n,
{
    if n < items.len() {
        assert(items.take(n + 1).drop_last() =~= items.take(n));
        lemma_section_error_stays::<T>(items, section, n + 1);
    } else {
        assert(items.take(n) =~= items);
    }
}

fn read_section<T: Entity>(doc: &Node, section: Section) -> (r: Result<
    Vec<(String, T)>,
    SchemaError,
>)
    ensures
        match section_of::<T>(*doc, section) {
            Ok(m) => r matches Ok(v) && names_unique(v@) && table_view(v@) == m,
            Err(e) => r == Err::<Vec<(String, T)>, SchemaError>(e),
        },
{
    let items = match doc.get(section_name(section)) {
        Some(Node::Array(items)) => items,
        _ => {
            return Err(SchemaError::MissingSection(section));
        },
    };
    let key = entry_name(section);
    let mut out: Vec<(String, T)> = Vec::new();
    let mut i: usize = 0;
    proof {
        assert(items@.take(0) =~= Seq::<Node>::empty());
        assert(table_view(out@) =~= Map::<Seq<char>, T::V>::empty());
    }
    while i < items.len()
        invariant
            0 <= i <= items@.len(),
            key@ == entry_key(section),
            child(*doc, section_key(section)) == Some(Node::Array(*items)),
            names_unique(out@),
            section_from::<T>(items@.take(i as int), section) == Ok::<
                Map<Seq<char>, T::V>,
                SchemaError,
            >(table_view(out@)),
        decreases items@.len() - i,
    {
        let item = &items[i];
        proof {
            assert(items@.take(i + 1).drop_last() =~= items@.take(i as int));
            assert(items@.take(i + 1).last() == items@[i as int]);
        }
        match item.text_field("name") {
            None => {
                proof {
                    lemma_section_error_stays::<T>(items@, section, i + 1);
                }
                return Err(SchemaError::MissingName(section));
            },
            Some(name) => {
                let bad = Node::BadValue;
                let body = match item.get(key) {
                    Some(b) => b,
                    None => &bad,
                };
                let t = T::from_body(body);
                insert_named(&mut out, name, t);
            },
        }
        i = i + 1;
    }
    proof {
        assert(items@.take(items@.len() as int) =~= items@);
    }
    Ok(out)
}

impl Config {
    /// Reads a configuration from a loaded document.
    pub fn from_document(doc: &Node) -> (r: Result<Config, SchemaError>)
        ensures
            match config_of(*doc) {
                Ok(v) => r matches Ok(c) && c.wf() && c@ == v,
                Err(e) => r == Err::<Config, SchemaError>(e),
            },
    {
        let current_context = match doc.text_field("current-context") {
            Some(c) => c,
            None => {
                return Err(SchemaError::MissingCurrentContext);
            },
        };
        let users = match read_section::<User>(doc, Section::Users) {
            Ok(u) => u,
            Err(e) => {
                return Err(e);
            },
        };
        let contexts = match read_section::<Context>(doc, Section::Contexts) {
            Ok(c) => c,
            Err(e) => {
                return Err(e);
            },
        };
        let clusters = match read_section::<Cluster>(doc, Section::Clusters) {
            Ok(c) => c,
            Err(e) => {
                return Err(e);
            },
        };
        Ok(Config { clusters, contexts, users, current_context })
    }

    /// Reads a configuration from the first of the loaded documents `docs`.
    pub fn from_documents(docs: &Vec<Node>) -> (r: Result<Config, SchemaError>)
        ensures
            match config_of_documents(docs@) {
                Ok(v) => r matches Ok(c) && c.wf() && c@ == v,
                Err(e) => r == Err::<Config, SchemaError>(e),
            },
    {
        if docs.len() == 0 {
            Err(SchemaError::NoDocument)
        } else {
            Config::from_document(&docs[0])
        }
    }
}

} // verus!
