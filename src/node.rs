use vstd::prelude::*;

verus! {

/// A node of a loaded YAML document, one variant for each kind of value
/// that the loader produces.
#[derive(Debug)]
pub enum Node {
    /// A floating-point scalar, kept as its text.
    Real(String),
    /// An integer scalar.
    Integer(i64),
    /// A string scalar.
    Str(String),
    /// A boolean scalar.
    Boolean(bool),
    /// A sequence of nodes.
    Array(Vec<Node>),
    /// A mapping, as its entries in document order.
    Hash(Vec<(Node, Node)>),
    /// An alias that the loader could not resolve.
    Alias(usize),
    /// An explicit null.
    Null,
    /// A value that is missing or could not be read.
    BadValue,
}

/// Whether the mapping key `k` is the string `key`.
pub open spec fn is_key(k: Node, key: Seq<char>) -> bool {
    k matches Node::Str(s) && s@ == key
}

/// The value of the first entry, at index `i` or later, whose key is `key`.
pub open spec fn lookup_from(entries: Seq<(Node, Node)>, key: Seq<char>, i: int) -> Option<Node>
    decreases entries.len() - i,
{
    if i < 0 || i >= entries.len() {
        None
    } else if is_key(entries[i].0, key) {
        Some(entries[i].1)
    } else {
        lookup_from(entries, key, i + 1)
    }
}

/// The child of `n` under the string key `key`; `None` where `n` is no
/// mapping or holds no such key.
pub open spec fn child(n: Node, key: Seq<char>) -> Option<Node> {
    match n {
        Node::Hash(entries) => lookup_from(entries@, key, 0),
        _ => None,
    }
}

/// The child of `n` under `key`, with `BadValue` standing for an absent one.
pub open spec fn child_or_bad(n: Node, key: Seq<char>) -> Node {
    match child(n, key) {
        Some(c) => c,
        None => Node::BadValue,
    }
}

/// The text of the child under `key`, where that child is a string.
pub open spec fn text_field(n: Node, key: Seq<char>) -> Option<Seq<char>> {
    match child(n, key) {
        Some(Node::Str(s)) => Some(s@),
        _ => None,
    }
}

/// The value of the child under `key`, where that child is a boolean.
pub open spec fn flag_field(n: Node, key: Seq<char>) -> Option<bool> {
    match child(n, key) {
        Some(Node::Boolean(b)) => Some(b),
        _ => None,
    }
}

impl Node {
    /// The child of this node under the string key `key`.
    pub fn get(&self, key: &str) -> (r: Option<&Node>)
        ensures
            match r {
                Some(c) => child(*self, key@) == Some(*c),
                None => child(*self, key@) is None,
            },
    {
        match self {
            Node::Hash(entries) => {
                let wanted = key.to_owned();
                let mut i: usize = 0;
                while i < entries.len()
                    invariant
                        0 <= i <= entries.len(),
                        wanted@ == key@,
                        child(*self, key@) == lookup_from(entries@, key@, 0),
                        lookup_from(entries@, key@, 0) == lookup_from(entries@, key@, i as int),
                    decreases entries.len() - i,
                {
                    let entry = &entries[i];
                    if let Node::Str(s) = &entry.0 {
                        if *s == wanted {
                            assert(is_key(entries@[i as int].0, key@));
                            return Some(&entry.1);
                        }
                    }
                    i = i + 1;
                }
                None
            },
            _ => None,
        }
    }

    /// The text of the child under `key`, where that child is a string.
    pub fn text_field(&self, key: &str) -> (r: Option<String>)
        ensures
            match r {
                Some(s) => text_field(*self, key@) == Some(s@),
                None => text_field(*self, key@) is None,
            },
    {
        match self.get(key) {
            Some(Node::Str(s)) => Some(s.clone()),
            _ => None,
        }
    }

    /// The value of the child under `key`, where that child is a boolean.
    pub fn flag_field(&self, key: &str) -> (r: Option<bool>)
        ensures
            r == flag_field(*self, key@),
    {
        match self.get(key) {
            Some(Node::Boolean(b)) => Some(*b),
            _ => None,
        }
    }
}

} // verus!
