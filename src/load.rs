use crate::config::{Config, ConfigView};
use crate::extract::{config_of_documents, SchemaError};
use crate::depth::{
    loaded_height, loaded_size, within_depth, within_size, YamlEvent, MAX_DEPTH, MAX_NODES,
};
use crate::node::Node;
use yaml_rust::parser::{Event, Parser};
use yaml_rust::scanner::ScanError;
use yaml_rust::{Yaml, YamlLoader};
use vstd::prelude::*;

verus! {

#[verifier::external_type_specification]
#[verifier::external_body]
pub struct ExScanError(ScanError);

#[verifier::external_type_specification]
#[verifier::external_body]
pub struct ExIoError(std::io::Error);

#[verifier::external_type_specification]
#[verifier::external_body]
pub struct ExYaml(Yaml);

#[verifier::external_type_specification]
#[verifier::external_body]
pub struct ExEvent(Event);

/// Why a configuration could not be had.
#[derive(Debug)]
pub enum Error {
    /// The home directory, where the default configuration lives, is unknown.
    Homeless,
    /// The configuration file could not be read.
    IO(std::io::Error),
    /// The text is not YAML; the scanner's diagnostic is kept.
    Yaml(ScanError),
    /// The text is YAML, but the tree it loads, with aliases expanded, is more
    /// than `MAX_DEPTH` levels deep: a limit of this machine's stack, not of
    /// the format.
    TooDeep,
    /// The text is YAML, but loading it, with aliases expanded, would build
    /// more than `MAX_NODES` nodes: a limit of this machine's memory, not of
    /// the format.
    TooLarge,
    /// The document does not have the shape of a configuration.
    Schema(SchemaError),
}

/// The result of the operations of this library that can fail.
pub type Result<T> = std::result::Result<T, Error>;

impl From<std::io::Error> for Error {
    fn from(e: std::io::Error) -> (r: Error)
        ensures
            r == Error::IO(e),
    {
        Error::IO(e)
    }
}

impl vstd::std_specs::convert::FromSpecImpl<std::io::Error> for Error {
    open spec fn obeys_from_spec() -> bool {
        true
    }

    open spec fn from_spec(e: std::io::Error) -> Error {
        Error::IO(e)
    }
}

impl From<ScanError> for Error {
    fn from(e: ScanError) -> (r: Error)
        ensures
            r == Error::Yaml(e),
    {
        Error::Yaml(e)
    }
}

impl vstd::std_specs::convert::FromSpecImpl<ScanError> for Error {
    open spec fn obeys_from_spec() -> bool {
        true
    }

    open spec fn from_spec(e: ScanError) -> Error {
        Error::Yaml(e)
    }
}

/// The events that the YAML parser produces from `text`, up to the end of the
/// stream, or `None` where it reports a scan error.
pub uninterp spec fn yaml_events(text: Seq<char>) -> Option<Seq<YamlEvent>>;

/// Relies on `yaml_rust::parser::Parser::next`: the events of `raw` in order,
/// through the end of the stream, or the scan error met first; they depend on
/// the text alone. The parser keeps its states in a stack of its own, so it
/// does not recurse as the text nests.
#[verifier::external_body]
fn parse_events(raw: &str) -> (r: std::result::Result<Vec<YamlEvent>, ScanError>)
    ensures
        match r {
            Ok(evs) => yaml_events(raw@) == Some(evs@),
            Err(_) => yaml_events(raw@) is None,
        },
{
    let mut parser = Parser::new(raw.chars());
    let mut events = Vec::new();
    loop {
        let (ev, _) = parser.next()?;
        let end = ev == Event::StreamEnd;
        events.push(event_of(ev));
        if end {
            return Ok(events);
        }
    }
}

/// Copies a `yaml_rust::parser::Event` into a `YamlEvent`, variant for
/// variant, keeping the anchor ids; `parse_events` applies it to each event.
#[verifier::external_body]
fn event_of(ev: Event) -> YamlEvent {
    match ev {
        Event::Nothing => YamlEvent::Nothing,
        Event::StreamStart => YamlEvent::StreamStart,
        Event::StreamEnd => YamlEvent::StreamEnd,
        Event::DocumentStart => YamlEvent::DocumentStart,
        Event::DocumentEnd => YamlEvent::DocumentEnd,
        Event::Alias(id) => YamlEvent::Alias(id),
        Event::Scalar(_, _, a, _) => YamlEvent::Scalar(a),
        Event::SequenceStart(a) => YamlEvent::SequenceStart(a),
        Event::SequenceEnd => YamlEvent::SequenceEnd,
        Event::MappingStart(a) => YamlEvent::MappingStart(a),
        Event::MappingEnd => YamlEvent::MappingEnd,
    }
}

/// Whether the parser reads `text` without error into events whose loaded
/// tree is at most `MAX_DEPTH` levels deep and counts at most `MAX_NODES`
/// nodes.
pub open spec fn loads_within_limits(text: Seq<char>) -> bool {
    yaml_events(text) matches Some(evs) && loaded_height(evs) <= MAX_DEPTH && loaded_size(evs)
        <= MAX_NODES
}

/// The documents that the YAML loader reads from `text`, or `None` where it
/// reports a scan error.
pub uninterp spec fn yaml_documents(text: Seq<char>) -> Option<Seq<Node>>;

/// Relies on `yaml_rust::YamlLoader::load_from_str`: the documents of `raw`,
/// or the scan error met on the way, which depend on the text alone. The
/// loader consumes the parser's events; it, the copies it makes of anchored
/// values and `node_of` recurse once per level of the tree they build, and
/// allocate once per node copied, which the `requires` bounds.
#[verifier::external_body]
fn load_documents(raw: &str) -> (r: std::result::Result<Vec<Node>, ScanError>)
    requires
        loads_within_limits(raw@),
    ensures
        match r {
            Ok(docs) => yaml_documents(raw@) == Some(docs@),
            Err(_) => yaml_documents(raw@) is None,
        },
{
    match YamlLoader::load_from_str(raw) {
        Ok(docs) => Ok(docs.iter().map(node_of).collect()),
        Err(e) => Err(e),
    }
}

/// Copies a `yaml_rust::Yaml` that the loader produced into a `Node`,
/// variant for variant; `load_documents` applies it to each document.
#[verifier::external_body]
fn node_of(y: &Yaml) -> Node {
    match y {
        Yaml::Real(s) => Node::Real(s.clone()),
        Yaml::Integer(i) => Node::Integer(*i),
        Yaml::String(s) => Node::Str(s.clone()),
        Yaml::Boolean(b) => Node::Boolean(*b),
        Yaml::Array(items) => Node::Array(items.iter().map(node_of).collect()),
        Yaml::Hash(h) => Node::Hash(h.iter().map(|(k, v)| (node_of(k), node_of(v))).collect()),
        Yaml::Alias(a) => Node::Alias(*a),
        Yaml::Null => Node::Null,
        Yaml::BadValue => Node::BadValue,
    }
}

/// What loading the text `text` gives: `None` where the loader reports a
/// scan error, else the configuration of its first document
/// or the schema error.
pub open spec fn parse_text(text: Seq<char>) -> Option<std::result::Result<ConfigView, SchemaError>> {
    match yaml_documents(text) {
        None => None,
        Some(docs) => Some(config_of_documents(docs)),
    }
}

/// Whether `r` is a result that reading the text `text` may give.
pub open spec fn parses_to(text: Seq<char>, r: Result<Config>) -> bool {
    match yaml_events(text) {
        None => r matches Err(Error::Yaml(_)),
        Some(evs) => if loaded_height(evs) > MAX_DEPTH {
            r matches Err(Error::TooDeep)
        } else if loaded_size(evs) > MAX_NODES {
            r matches Err(Error::TooLarge)
        } else {
            match parse_text(text) {
                None => r matches Err(Error::Yaml(_)),
                Some(Ok(v)) => r matches Ok(c) && c.wf() && c@ == v,
                Some(Err(e)) => r matches Err(Error::Schema(e2)) && e2 == e,
            }
        },
    }
}

impl Config {
    /// Reads a configuration from the text of a YAML document.
    pub fn from_str(raw: &str) -> (r: Result<Config>)
        ensures
            parses_to(raw@, r),
    {
        match parse_events(raw) {
            Err(e) => {
                return Err(Error::Yaml(e));
            },
            Ok(evs) => {
                if !within_depth(&evs) {
                    return Err(Error::TooDeep);
                }
                if !within_size(&evs) {
                    return Err(Error::TooLarge);
                }
            },
        }
        match load_documents(raw) {
            Err(e) => Err(Error::Yaml(e)),
            Ok(docs) => match Config::from_documents(&docs) {
                Ok(c) => Ok(c),
                Err(e) => Err(Error::Schema(e)),
            },
        }
    }
}

} // verus!
