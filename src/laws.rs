use crate::config::{Cluster, ClusterView, Config, ContentView, Context, User, UserView};
use crate::extract::{
    cluster_from, config_of, content_of, lemma_section_error_stays, section_from, section_key, entry_key,
    section_of, user_from, Entity, SchemaError, Section,
};
use crate::load::{loads_within_limits, parse_text, parses_to, Error};
use crate::node::{child, child_or_bad, is_key, lookup_from, text_field, Node};
use vstd::prelude::*;

verus! {

/// Reading is a function of the text: two results that reading the same
/// text may give agree on success, on the configuration, and on the kind of
/// error.
pub proof fn lemma_parse_is_function(
    a: Seq<char>,
    b: Seq<char>,
    r1: Result<Config, Error>,
    r2: Result<Config, Error>,
)
    requires
        a == b,
        parses_to(a, r1),
        parses_to(b, r2),
    ensures
        r1 is Ok <==> r2 is Ok,
        r1 matches Ok(c1) ==> (r2 matches Ok(c2) && c1@ == c2@),
        r1 matches Err(Error::Schema(e1)) ==> (r2 matches Err(Error::Schema(e2)) && e1 == e2),
        (r1 matches Err(Error::Yaml(_))) <==> (r2 matches Err(Error::Yaml(_))),
{
}

/// Where credential material is given both inline and as a path, the inline
/// data is taken and the path is dropped.
pub proof fn lemma_data_wins(body: Node, path_key: Seq<char>, data_key: Seq<char>, d: Seq<char>)
    requires
        text_field(body, path_key) is Some,
        text_field(body, data_key) == Some(d),
    ensures
        content_of(body, path_key, data_key) == Some(ContentView::Data(d)),
{
}

/// A cluster given both `certificate-authority-data` and
/// `certificate-authority` takes the inline data as its certificate authority.
pub proof fn lemma_cluster_data_wins(body: Node, d: Seq<char>)
    requires
        text_field(body, "certificate-authority"@) is Some,
        text_field(body, "certificate-authority-data"@) == Some(d),
    ensures
        cluster_from(body).certificate_authority == Some(ContentView::Data(d)),
{
}

/// A user given both the inline and the path form of its client certificate,
/// and of its client key, takes the inline data for each.
pub proof fn lemma_user_data_wins(body: Node, cert: Seq<char>, key: Seq<char>)
    requires
        text_field(body, "client-certificate"@) is Some,
        text_field(body, "client-certificate-data"@) == Some(cert),
        text_field(body, "client-key"@) is Some,
        text_field(body, "client-key-data"@) == Some(key),
    ensures
        user_from(body).client_certificate == Some(ContentView::Data(cert)),
        user_from(body).client_key == Some(ContentView::Data(key)),
{
}

/// A cluster entry that gives none of its settings is the default cluster:
/// API version `v1`, server `http://localhost:8001`, TLS verification on, no
/// certificate authority.
pub proof fn lemma_cluster_defaults(body: Node)
    requires
        child(body, "api-version"@) is None,
        child(body, "server"@) is None,
        child(body, "insecure-skip-tls-verify"@) is None,
        child(body, "certificate-authority"@) is None,
        child(body, "certificate-authority-data"@) is None,
    ensures
        cluster_from(body) == (ClusterView {
            api_version: "v1"@,
            server: "http://localhost:8001"@,
            insecure_skip_tls_verify: false,
            certificate_authority: None,
        }),
{
}

/// A user entry that gives only a token has that token and nothing else.
pub proof fn lemma_token_only_user(body: Node, t: Seq<char>)
    requires
        text_field(body, "token"@) == Some(t),
        child(body, "username"@) is None,
        child(body, "password"@) is None,
        child(body, "client-certificate"@) is None,
        child(body, "client-certificate-data"@) is None,
        child(body, "client-key"@) is None,
        child(body, "client-key-data"@) is None,
    ensures
        user_from(body) == (UserView {
            client_certificate: None,
            client_key: None,
            token: Some(t),
            username: None,
            password: None,
        }),
{
}

/// Whether `k` is one of the keys that a configuration document is read by.
pub open spec fn is_config_key(k: Node) -> bool {
    ||| is_key(k, "current-context"@)
    ||| is_key(k, "clusters"@)
    ||| is_key(k, "contexts"@)
    ||| is_key(k, "users"@)
}

proof fn lemma_lookup_shift(v: Seq<(Node, Node)>, p: int, e: (Node, Node), key: Seq<char>, j: int)
    requires
        0 <= p <= j <= v.len(),
    ensures
        lookup_from(v.insert(p, e), key, j + 1) == lookup_from(v, key, j),
    decreases v.len() - j,
{
    if j < v.len() {
        assert(v.insert(p, e)[j + 1] == v[j]);
        lemma_lookup_shift(v, p, e, key, j + 1);
    }
}

proof fn lemma_lookup_insert(v: Seq<(Node, Node)>, p: int, e: (Node, Node), key: Seq<char>, i: int)
    requires
        0 <= i <= p <= v.len(),
        !is_key(e.0, key),
    ensures
        lookup_from(v.insert(p, e), key, i) == lookup_from(v, key, i),
    decreases p - i,
{
    if i < p {
        assert(v.insert(p, e)[i] == v[i]);
        lemma_lookup_insert(v, p, e, key, i + 1);
    } else {
        assert(v.insert(p, e)[p] == e);
        lemma_lookup_shift(v, p, e, key, p);
    }
}

/// An entry under a key that the configuration is not read by, wherever it
/// stands in the document, changes nothing that is read.
pub proof fn lemma_other_keys_ignored(doc: Node, wider: Node, p: int, extra: (Node, Node))
    requires
        doc is Hash,
        wider is Hash,
        0 <= p <= doc->Hash_0@.len(),
        wider->Hash_0@ == doc->Hash_0@.insert(p, extra),
        !is_config_key(extra.0),
    ensures
        config_of(wider) == config_of(doc),
{
    let v = doc->Hash_0@;
    lemma_lookup_insert(v, p, extra, "current-context"@, 0);
    lemma_lookup_insert(v, p, extra, "clusters"@, 0);
    lemma_lookup_insert(v, p, extra, "contexts"@, 0);
    lemma_lookup_insert(v, p, extra, "users"@, 0);
    assert(section_key(Section::Clusters) == "clusters"@);
    assert(section_key(Section::Contexts) == "contexts"@);
    assert(section_key(Section::Users) == "users"@);
}

/// A document without a string `current-context` is a schema error.
pub proof fn lemma_missing_current_context(doc: Node)
    requires
        text_field(doc, "current-context"@) is None,
    ensures
        config_of(doc) == Err::<crate::config::ConfigView, SchemaError>(
            SchemaError::MissingCurrentContext,
        ),
{
}

proof fn lemma_section_fails<T: Entity>(doc: Node, section: Section, j: int)
    requires
        child(doc, section_key(section)) matches Some(Node::Array(items)) && 0 <= j
            < items@.len() && text_field(items@[j], "name"@) is None,
    ensures
        section_of::<T>(doc, section) is Err,
{
    let items = child(doc, section_key(section))->Some_0->Array_0@;
    assert(items.take(j + 1).drop_last() =~= items.take(j));
    assert(items.take(j + 1).last() == items[j]);
    lemma_section_error_stays::<T>(items, section, j + 1);
}

/// A document with an entry that has no string `name`, in any of the three
/// lists, is a schema error.
pub proof fn lemma_missing_name(doc: Node, section: Section, j: int)
    requires
        child(doc, section_key(section)) matches Some(Node::Array(items)) && 0 <= j
            < items@.len() && text_field(items@[j], "name"@) is None,
    ensures
        config_of(doc) is Err,
{
    match section {
        Section::Users => lemma_section_fails::<User>(doc, section, j),
        Section::Contexts => lemma_section_fails::<Context>(doc, section, j),
        Section::Clusters => lemma_section_fails::<Cluster>(doc, section, j),
    }
}

/// Whether the entry at `j` of `items` is named `n` and no later entry is.
pub open spec fn last_of_name(items: Seq<Node>, j: int, n: Seq<char>) -> bool {
    &&& 0 <= j < items.len()
    &&& text_field(items[j], "name"@) == Some(n)
    &&& forall|k: int| j < k < items.len() ==> text_field(#[trigger] items[k], "name"@) != Some(n)
}

/// A section that reads without error maps the name of its entry at `j`,
/// where no later entry has that name, to what that entry describes.
pub proof fn lemma_entry_resolved<T: Entity>(items: Seq<Node>, section: Section, j: int, n: Seq<char>)
    requires
        section_from::<T>(items, section) is Ok,
        last_of_name(items, j, n),
    ensures
        section_from::<T>(items, section)->Ok_0.contains_key(n),
        section_from::<T>(items, section)->Ok_0[n] == T::spec_from_body(
            child_or_bad(items[j], entry_key(section)),
        ),
    decreases items.len(),
{
    let prefix = items.drop_last();
    if j < items.len() - 1 {
        assert(text_field(items[items.len() - 1], "name"@) != Some(n));
        assert forall|k: int| j < k < prefix.len() implies text_field(
            #[trigger] prefix[k],
            "name"@,
        ) != Some(n) by {
            assert(prefix[k] == items[k]);
        }
        assert(prefix[j] == items[j]);
        lemma_entry_resolved::<T>(prefix, section, j, n);
    }
}

/// The settings object of the entry at `j` of the list under `list_key`.
pub open spec fn entry_body(doc: Node, list_key: Seq<char>, j: int, body_key: Seq<char>) -> Node {
    child_or_bad(child(doc, list_key)->Some_0->Array_0@[j], body_key)
}

/// Whether the list under `list_key` has, at `j`, the last entry named `n`.
pub open spec fn last_entry_named(doc: Node, list_key: Seq<char>, j: int, n: Seq<char>) -> bool {
    child(doc, list_key) matches Some(Node::Array(items)) && last_of_name(items@, j, n)
}

proof fn lemma_config_cluster(doc: Node, j: int, n: Seq<char>)
    requires
        config_of(doc) is Ok,
        last_entry_named(doc, "clusters"@, j, n),
    ensures
        config_of(doc)->Ok_0.clusters.contains_key(n),
        config_of(doc)->Ok_0.clusters[n] == cluster_from(entry_body(doc, "clusters"@, j, "cluster"@)),
{
    assert(section_key(Section::Clusters) == "clusters"@);
    let items = child(doc, "clusters"@)->Some_0->Array_0@;
    lemma_entry_resolved::<Cluster>(items, Section::Clusters, j, n);
}

proof fn lemma_config_user(doc: Node, j: int, n: Seq<char>)
    requires
        config_of(doc) is Ok,
        last_entry_named(doc, "users"@, j, n),
    ensures
        config_of(doc)->Ok_0.users.contains_key(n),
        config_of(doc)->Ok_0.users[n] == user_from(entry_body(doc, "users"@, j, "user"@)),
{
    assert(section_key(Section::Users) == "users"@);
    let items = child(doc, "users"@)->Some_0->Array_0@;
    lemma_entry_resolved::<User>(items, Section::Users, j, n);
}

/// In a configuration read from a document, a cluster whose entry gives its
/// certificate authority both inline and as a path has the inline data.
pub proof fn lemma_config_cluster_data_wins(doc: Node, j: int, n: Seq<char>, d: Seq<char>)
    requires
        config_of(doc) is Ok,
        last_entry_named(doc, "clusters"@, j, n),
        text_field(entry_body(doc, "clusters"@, j, "cluster"@), "certificate-authority"@) is Some,
        text_field(entry_body(doc, "clusters"@, j, "cluster"@), "certificate-authority-data"@)
            == Some(d),
    ensures
        config_of(doc)->Ok_0.clusters[n].certificate_authority == Some(ContentView::Data(d)),
{
    lemma_config_cluster(doc, j, n);
}

/// In a configuration read from a document, a user whose entry gives its
/// client certificate and its client key both inline and as paths has the
/// inline data for each.
pub proof fn lemma_config_user_data_wins(doc: Node, j: int, n: Seq<char>, cert: Seq<char>, key: Seq<char>)
    requires
        config_of(doc) is Ok,
        last_entry_named(doc, "users"@, j, n),
        text_field(entry_body(doc, "users"@, j, "user"@), "client-certificate"@) is Some,
        text_field(entry_body(doc, "users"@, j, "user"@), "client-certificate-data"@) == Some(cert),
        text_field(entry_body(doc, "users"@, j, "user"@), "client-key"@) is Some,
        text_field(entry_body(doc, "users"@, j, "user"@), "client-key-data"@) == Some(key),
    ensures
        config_of(doc)->Ok_0.users[n].client_certificate == Some(ContentView::Data(cert)),
        config_of(doc)->Ok_0.users[n].client_key == Some(ContentView::Data(key)),
{
    lemma_config_user(doc, j, n);
}

/// In a configuration read from a document, a cluster whose entry gives none
/// of its settings is the default cluster.
pub proof fn lemma_config_cluster_defaults(doc: Node, j: int, n: Seq<char>)
    requires
        config_of(doc) is Ok,
        last_entry_named(doc, "clusters"@, j, n),
        child(entry_body(doc, "clusters"@, j, "cluster"@), "api-version"@) is None,
        child(entry_body(doc, "clusters"@, j, "cluster"@), "server"@) is None,
        child(entry_body(doc, "clusters"@, j, "cluster"@), "insecure-skip-tls-verify"@) is None,
        child(entry_body(doc, "clusters"@, j, "cluster"@), "certificate-authority"@) is None,
        child(entry_body(doc, "clusters"@, j, "cluster"@), "certificate-authority-data"@) is None,
    ensures
        config_of(doc)->Ok_0.clusters[n] == (ClusterView {
            api_version: "v1"@,
            server: "http://localhost:8001"@,
            insecure_skip_tls_verify: false,
            certificate_authority: None,
        }),
{
    lemma_config_cluster(doc, j, n);
}

/// In a configuration read from a document, a user whose entry gives only a
/// token has that token and nothing else.
pub proof fn lemma_config_token_only_user(doc: Node, j: int, n: Seq<char>, t: Seq<char>)
    requires
        config_of(doc) is Ok,
        last_entry_named(doc, "users"@, j, n),
        text_field(entry_body(doc, "users"@, j, "user"@), "token"@) == Some(t),
        child(entry_body(doc, "users"@, j, "user"@), "username"@) is None,
        child(entry_body(doc, "users"@, j, "user"@), "password"@) is None,
        child(entry_body(doc, "users"@, j, "user"@), "client-certificate"@) is None,
        child(entry_body(doc, "users"@, j, "user"@), "client-certificate-data"@) is None,
        child(entry_body(doc, "users"@, j, "user"@), "client-key"@) is None,
        child(entry_body(doc, "users"@, j, "user"@), "client-key-data"@) is None,
    ensures
        config_of(doc)->Ok_0.users[n] == (UserView {
            client_certificate: None,
            client_key: None,
            token: Some(t),
            username: None,
            password: None,
        }),
{
    lemma_config_user(doc, j, n);
}

/// On a text that loads within the machine's limits, reading fails only where
/// the loader rejects the text or the document has the wrong shape, and
/// succeeds with exactly the configuration the document describes.
pub proof fn lemma_errors_within_limits(text: Seq<char>, r: Result<Config, Error>)
    requires
        loads_within_limits(text),
        parses_to(text, r),
    ensures
        !(r matches Err(Error::TooDeep)),
        !(r matches Err(Error::TooLarge)),
        r matches Err(Error::Yaml(_)) <==> parse_text(text) is None,
        r matches Err(Error::Schema(e)) ==> parse_text(text) == Some(
            Err::<crate::config::ConfigView, SchemaError>(e),
        ),
        r matches Ok(c) ==> parse_text(text) == Some(Ok::<crate::config::ConfigView, SchemaError>(c@)),
{
}

} // verus!
