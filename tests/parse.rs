use kubecfg::{Cluster, Config, Content, Context, User};
use kubecfg::extract::{SchemaError, Section};
use kubecfg::Error;
use kubecfg::node::Node;

const SAMPLE: &str = r#"current-context: federal-context
apiVersion: v1
clusters:
- cluster:
    api-version: v1
    server: http://cow.org:8080
  name: cow-cluster
- cluster:
    certificate-authority: path/to/my/cafile
    server: https://horse.org:4443
  name: horse-cluster
- cluster:
    insecure-skip-tls-verify: true
    server: https://pig.org:443
  name: pig-cluster
contexts:
- context:
    cluster: horse-cluster
    namespace: chisel-ns
    user: green-user
  name: federal-context
- context:
    cluster: pig-cluster
    namespace: saw-ns
    user: black-user
  name: queen-anne-context
kind: Config
preferences:
  colors: true
users:
- name: blue-user
  user:
    token: blue-token
- name: green-user
  user:
    client-certificate: path/to/my/client/cert
    client-key: path/to/my/client/key
"#;

fn s(x: &str) -> String {
    x.to_owned()
}

fn schema_error(text: &str) -> SchemaError {
    match Config::from_str(text) {
        Err(Error::Schema(e)) => e,
        other => panic!("expected a schema error, got {:?}", other),
    }
}

#[test]
fn parse() {
    assert!(Config::from_str(SAMPLE).is_ok());
}

#[test]
fn sample_has_every_entry() {
    let c = Config::from_str(SAMPLE).unwrap();
    assert_eq!(c.clusters.len(), 3);
    assert_eq!(c.contexts.len(), 2);
    assert_eq!(c.users.len(), 2);
    assert_eq!(c.current_context, "federal-context");
    assert!(c.cluster("pig-cluster").unwrap().insecure_skip_tls_verify);
}

#[test]
fn sample_entries_resolved() {
    let c = Config::from_str(SAMPLE).unwrap();
    assert_eq!(
        c.cluster("cow-cluster"),
        Some(&Cluster::new(Some(s("v1")), Some(s("http://cow.org:8080")), None, None))
    );
    assert_eq!(
        c.cluster("horse-cluster"),
        Some(&Cluster {
            api_version: s("v1"),
            server: s("https://horse.org:4443"),
            insecure_skip_tls_verify: false,
            certificate_authority: Some(Content::Path(s("path/to/my/cafile"))),
        })
    );
    assert_eq!(
        c.context("federal-context"),
        Some(&Context::new(Some(s("horse-cluster")), Some(s("chisel-ns")), Some(s("green-user"))))
    );
    assert_eq!(
        c.context("queen-anne-context"),
        Some(&Context::new(Some(s("pig-cluster")), Some(s("saw-ns")), Some(s("black-user"))))
    );
    assert_eq!(
        c.user("green-user"),
        Some(&User::new(
            Some(Content::Path(s("path/to/my/client/cert"))),
            Some(Content::Path(s("path/to/my/client/key"))),
            None,
            None,
            None,
        ))
    );
    assert!(c.user("black-user").is_none());
    assert!(c.cluster("federal-context").is_none());
}

#[test]
fn same_text_same_config() {
    let a = Config::from_str(SAMPLE).unwrap();
    let b = Config::from_str(SAMPLE).unwrap();
    assert_eq!(a, b);
}

#[test]
fn inline_data_beats_path() {
    let text = "current-context: c
clusters:
- name: k
  cluster:
    certificate-authority: /ca.crt
    certificate-authority-data: Q0E=
contexts: []
users:
- name: u
  user:
    client-certificate: /client.crt
    client-certificate-data: Q0VSVA==
    client-key: /client.key
    client-key-data: S0VZ
";
    let c = Config::from_str(text).unwrap();
    assert_eq!(
        c.cluster("k").unwrap().certificate_authority,
        Some(Content::Data(s("Q0E=")))
    );
    let u = c.user("u").unwrap();
    assert_eq!(u.client_certificate, Some(Content::Data(s("Q0VSVA=="))));
    assert_eq!(u.client_key, Some(Content::Data(s("S0VZ"))));
}

#[test]
fn data_alone_is_data() {
    let text = "current-context: c
clusters:
- name: k
  cluster:
    certificate-authority-data: Q0E=
contexts: []
users: []
";
    let c = Config::from_str(text).unwrap();
    assert_eq!(
        c.cluster("k").unwrap().certificate_authority,
        Some(Content::Data(s("Q0E=")))
    );
}

#[test]
fn empty_cluster_takes_defaults() {
    let text = "current-context: c
clusters:
- name: bare
  cluster: {}
- name: no-settings
contexts: []
users: []
";
    let c = Config::from_str(text).unwrap();
    let expected = Cluster {
        api_version: s("v1"),
        server: s("http://localhost:8001"),
        insecure_skip_tls_verify: false,
        certificate_authority: None,
    };
    assert_eq!(c.cluster("bare"), Some(&expected));
    assert_eq!(c.cluster("no-settings"), Some(&expected));
    assert_eq!(Cluster::default(), expected);
    assert_eq!(Cluster::new(None, None, None, None), expected);
}

#[test]
fn non_boolean_skip_flag_is_false() {
    let text = "current-context: c
clusters:
- name: k
  cluster:
    insecure-skip-tls-verify: \"true\"
contexts: []
users: []
";
    let c = Config::from_str(text).unwrap();
    assert!(!c.cluster("k").unwrap().insecure_skip_tls_verify);
}

#[test]
fn token_only_user() {
    let text = "current-context: c
clusters: []
contexts: []
users:
- name: blue-user
  user:
    token: blue-token
";
    let c = Config::from_str(text).unwrap();
    assert_eq!(
        c.user("blue-user"),
        Some(&User::new(None, None, Some(s("blue-token")), None, None))
    );
}

#[test]
fn basic_auth_user() {
    let text = "current-context: c
clusters: []
contexts: []
users:
- name: admin
  user:
    username: root
    password: hunter2
    token: 7
";
    let c = Config::from_str(text).unwrap();
    assert_eq!(
        c.user("admin"),
        Some(&User::new(None, None, None, Some(s("root")), Some(s("hunter2"))))
    );
}

#[test]
fn unknown_top_level_keys_ignored() {
    let plain = "current-context: c
clusters:
- name: k
  cluster:
    server: https://k.example:6443
contexts:
- name: c
  context:
    cluster: k
users: []
";
    let decorated = "kind: Config
apiVersion: v1
current-context: c
preferences:
  colors: true
clusters:
- name: k
  cluster:
    server: https://k.example:6443
extensions: [1, 2]
contexts:
- name: c
  context:
    cluster: k
users: []
";
    assert_eq!(Config::from_str(plain).unwrap(), Config::from_str(decorated).unwrap());
}

#[test]
fn missing_current_context() {
    let text = "clusters: []
contexts: []
users: []
";
    assert_eq!(schema_error(text), SchemaError::MissingCurrentContext);
}

#[test]
fn non_string_current_context() {
    let text = "current-context: [a]
clusters: []
contexts: []
users: []
";
    assert_eq!(schema_error(text), SchemaError::MissingCurrentContext);
}

#[test]
fn missing_cluster_name() {
    let text = "current-context: c
clusters:
- cluster:
    server: https://k.example
contexts: []
users: []
";
    assert_eq!(schema_error(text), SchemaError::MissingName(Section::Clusters));
}

#[test]
fn missing_context_name() {
    let text = "current-context: c
clusters: []
contexts:
- name: a
  context: {}
- context:
    cluster: k
users: []
";
    assert_eq!(schema_error(text), SchemaError::MissingName(Section::Contexts));
}

#[test]
fn missing_user_name() {
    let text = "current-context: c
clusters: []
contexts: []
users:
- user:
    token: t
";
    assert_eq!(schema_error(text), SchemaError::MissingName(Section::Users));
}

#[test]
fn missing_sections() {
    let no_users = "current-context: c
clusters: []
contexts: []
";
    assert_eq!(schema_error(no_users), SchemaError::MissingSection(Section::Users));
    let no_contexts = "current-context: c
clusters: []
users: []
";
    assert_eq!(schema_error(no_contexts), SchemaError::MissingSection(Section::Contexts));
    let clusters_not_list = "current-context: c
clusters: none
contexts: []
users: []
";
    assert_eq!(schema_error(clusters_not_list), SchemaError::MissingSection(Section::Clusters));
}

#[test]
fn users_checked_before_clusters() {
    let text = "current-context: c
clusters:
- server: x
contexts: []
users:
- token: t
";
    assert_eq!(schema_error(text), SchemaError::MissingName(Section::Users));
}

#[test]
fn empty_text_has_no_document() {
    assert_eq!(schema_error(""), SchemaError::NoDocument);
}

#[test]
fn scalar_document_is_schema_error() {
    assert_eq!(schema_error("just words"), SchemaError::MissingCurrentContext);
}

#[test]
fn malformed_yaml_is_yaml_error() {
    let r = Config::from_str("current-context: [unclosed\nclusters: {");
    assert!(matches!(r, Err(Error::Yaml(_))));
}

#[test]
fn later_entry_of_same_name_wins() {
    let text = "current-context: c
clusters:
- name: k
  cluster:
    server: https://first
- name: k
  cluster:
    server: https://second
contexts: []
users: []
";
    let c = Config::from_str(text).unwrap();
    assert_eq!(c.clusters.len(), 1);
    assert_eq!(c.cluster("k").unwrap().server, "https://second");
}

#[test]
fn first_document_is_read() {
    let text = "current-context: one
clusters: []
contexts: []
users: []
---
current-context: two
";
    let c = Config::from_str(text).unwrap();
    assert_eq!(c.current_context, "one");
}

fn hash(entries: Vec<(&str, Node)>) -> Node {
    Node::Hash(entries.into_iter().map(|(k, v)| (Node::Str(s(k)), v)).collect())
}

#[test]
fn document_built_by_hand() {
    let doc = hash(vec![
        ("current-context", Node::Str(s("ctx"))),
        (
            "clusters",
            Node::Array(vec![hash(vec![
                ("name", Node::Str(s("k"))),
                (
                    "cluster",
                    hash(vec![
                        ("insecure-skip-tls-verify", Node::Boolean(true)),
                        ("api-version", Node::Integer(2)),
                    ]),
                ),
            ])]),
        ),
        ("contexts", Node::Array(vec![])),
        ("users", Node::Array(vec![])),
    ]);
    let c = Config::from_document(&doc).unwrap();
    assert_eq!(c.current_context, "ctx");
    assert_eq!(
        c.cluster("k"),
        Some(&Cluster::new(None, None, Some(true), None))
    );
    assert_eq!(Config::from_documents(&vec![]).unwrap_err(), SchemaError::NoDocument);
    assert_eq!(
        Config::from_document(&Node::Null).unwrap_err(),
        SchemaError::MissingCurrentContext
    );
}

#[test]
fn node_lookup() {
    let n = hash(vec![("a", Node::Str(s("x"))), ("b", Node::Boolean(false))]);
    assert_eq!(n.text_field("a"), Some(s("x")));
    assert_eq!(n.text_field("b"), None);
    assert_eq!(n.flag_field("b"), Some(false));
    assert_eq!(n.flag_field("a"), None);
    assert!(n.get("c").is_none());
    assert!(Node::Array(vec![]).get("a").is_none());
}

#[test]
fn deep_block_nesting_is_refused() {
    let mut text = String::new();
    for _ in 0..100_000 {
        text.push_str("- ");
    }
    text.push('x');
    assert!(matches!(Config::from_str(&text), Err(Error::TooDeep)));
}

#[test]
fn deep_indentation_without_nesting_is_read() {
    let mut text = String::from("current-context: c\nclusters: []\ncontexts: []\nusers: []\nnote: |\n");
    text.push_str(&" ".repeat(1000));
    text.push_str("x\n");
    text.push_str(&" ".repeat(1000));
    text.push_str("- - - y\n");
    assert!(Config::from_str(&text).is_ok());
    let mut indented = String::from("current-context: c\nclusters: []\ncontexts: []\nusers: []\nextra:\n");
    indented.push_str(&" ".repeat(1000));
    indented.push_str("k: v\n");
    assert!(Config::from_str(&indented).is_ok());
}

#[test]
fn aliases_that_nest_too_deep_are_refused() {
    let mut text = String::new();
    for i in 0..200 {
        text.push_str(&format!("a{}: &a{} ", i, i));
        text.push_str(&"[".repeat(255));
        if i == 0 {
            text.push('x');
        } else {
            text.push_str(&format!("*a{}", i - 1));
        }
        text.push_str(&"]".repeat(255));
        text.push('\n');
    }
    assert!(matches!(Config::from_str(&text), Err(Error::TooDeep)));
}

#[test]
fn aliases_within_the_limit_load() {
    let mut text = String::from("a: &a ");
    text.push_str(&"[".repeat(250));
    text.push('x');
    text.push_str(&"]".repeat(250));
    text.push_str("\nb: ");
    text.push_str(&"[".repeat(255));
    text.push_str("*a");
    text.push_str(&"]".repeat(255));
    text.push('\n');
    assert_eq!(schema_error(&text), SchemaError::MissingCurrentContext);
}

#[test]
fn unknown_alias_is_yaml_error() {
    assert!(matches!(Config::from_str("a: *nowhere\n"), Err(Error::Yaml(_))));
}

#[test]
fn long_data_lines_are_read() {
    let data = "QUJD".repeat(5000);
    let text = format!(
        "current-context: c\nclusters:\n- name: k\n  cluster:\n    certificate-authority-data: {}\ncontexts: []\nusers: []\n",
        data
    );
    let c = Config::from_str(&text).unwrap();
    assert_eq!(c.cluster("k").unwrap().certificate_authority, Some(Content::Data(data)));
}

#[test]
fn equality_ignores_entry_order() {
    let a = "current-context: c
clusters:
- name: a
  cluster: {server: https://a}
- name: b
  cluster: {server: https://b}
contexts: []
users: []
";
    let b = "current-context: c
clusters:
- name: b
  cluster: {server: https://b}
- name: a
  cluster: {server: https://a}
contexts: []
users: []
";
    let c = "current-context: c
clusters:
- name: a
  cluster: {server: https://a}
- name: b
  cluster: {server: https://other}
contexts: []
users: []
";
    assert_eq!(Config::from_str(a).unwrap(), Config::from_str(b).unwrap());
    assert_ne!(Config::from_str(a).unwrap(), Config::from_str(c).unwrap());
}

#[test]
fn errors_convert() {
    let io = std::io::Error::new(std::io::ErrorKind::NotFound, "gone");
    assert!(matches!(Error::from(io), Error::IO(_)));
    let scan = match Config::from_str("a: [") {
        Err(Error::Yaml(e)) => e,
        other => panic!("expected a scan error, got {:?}", other),
    };
    assert!(matches!(Error::from(scan), Error::Yaml(_)));
    let r: kubecfg::Result<Config> = Config::from_str("");
    assert!(r.is_err());
}

#[test]
fn content_equality() {
    assert_eq!(Content::Path(s("p")), Content::Path(s("p")));
    assert_ne!(Content::Path(s("p")), Content::Data(s("p")));
    assert_ne!(
        User::new(None, None, Some(s("t")), None, None),
        User::new(None, None, None, None, None)
    );
}

fn nested_keys(levels: usize) -> String {
    let mut text = String::new();
    for i in 0..levels {
        text.push_str(&" ".repeat(i));
        text.push_str("k:");
        if i + 1 < levels {
            text.push('\n');
        }
    }
    text.push(' ');
    text.push_str(&"[".repeat(255));
    text.push('x');
    text.push_str(&"]".repeat(255));
    text.push('\n');
    text
}

#[test]
fn deepest_admitted_nesting_loads() {
    // 256 mappings, 255 sequences and a scalar: 512 levels.
    assert_eq!(schema_error(&nested_keys(256)), SchemaError::MissingCurrentContext);
    assert!(matches!(Config::from_str(&nested_keys(257)), Err(Error::TooDeep)));
    let mut seq = "- ".repeat(128);
    seq.push_str(&"{a: ".repeat(255));
    seq.push('x');
    seq.push_str(&"}".repeat(255));
    assert_eq!(schema_error(&seq), SchemaError::MissingCurrentContext);
}

#[test]
fn aliases_that_multiply_too_much_are_refused() {
    let mut text = String::from("a0: &a0 [x, x, x, x, x, x, x, x, x, x]\n");
    for i in 1..10 {
        let refs = vec![format!("*a{}", i - 1); 10].join(", ");
        text.push_str(&format!("a{}: &a{} [{}]\n", i, i, refs));
    }
    assert!(matches!(Config::from_str(&text), Err(Error::TooLarge)));
}

#[test]
fn shared_aliases_within_the_limit_load() {
    let text = "current-context: c
defaults: &d
  server: https://shared.example
clusters:
- name: a
  cluster: *d
- name: b
  cluster: *d
contexts: []
users: []
";
    let c = Config::from_str(text).unwrap();
    assert_eq!(c.cluster("a").unwrap().server, "https://shared.example");
    assert_eq!(c.cluster("b").unwrap().server, "https://shared.example");
}
