//! YAML documents as plain trees.

use vstd::prelude::*;
use crate::text::str_eq;

verus! {

/// `yaml_rust::Yaml`, a parsed YAML value; it is only turned into a tree.
#[verifier::external_type_specification]
#[verifier::external_body]
pub struct ExYaml(yaml_rust::Yaml);

/// One node of a YAML document. A mapping keeps its entries in the order of
/// the document.
#[derive(Debug)]
pub enum Node {
    Real(String),
    Integer(i64),
    Text(String),
    Boolean(bool),
    Array(Vec<Node>),
    Hash(Vec<(Node, Node)>),
    Alias(usize),
    Null,
    BadValue,
}

/// What `yaml_rust::YamlLoader::load_from_str` makes of a text: the documents
/// it holds, or the scanner's complaint.
pub uninterp spec fn parsed_yaml(source: Seq<char>) -> Result<Seq<Node>, Seq<char>>;

/// A loader's answer as plain values.
pub open spec fn loaded(docs: Result<Vec<Node>, String>) -> Result<Seq<Node>, Seq<char>> {
    match docs {
        Ok(nodes) => Ok(nodes@),
        Err(complaint) => Err(complaint@),
    }
}

/// The tree of a `yaml_rust::Yaml` value, variant for variant; nothing is
/// claimed of it here.
#[verifier::external_body]
fn node_of(yaml: &yaml_rust::Yaml) -> (node: Node) {
    match yaml {
        yaml_rust::Yaml::Real(v) => Node::Real(v.clone()),
        yaml_rust::Yaml::Integer(v) => Node::Integer(*v),
        yaml_rust::Yaml::String(v) => Node::Text(v.clone()),
        yaml_rust::Yaml::Boolean(v) => Node::Boolean(*v),
        yaml_rust::Yaml::Array(v) => Node::Array(v.iter().map(node_of).collect()),
        yaml_rust::Yaml::Hash(h) => Node::Hash(h.iter().map(|(k, v)| (node_of(k), node_of(v))).collect()),
        yaml_rust::Yaml::Alias(v) => Node::Alias(*v),
        yaml_rust::Yaml::Null => Node::Null,
        yaml_rust::Yaml::BadValue => Node::BadValue,
    }
}

/// Parses `source` with `yaml_rust::YamlLoader::load_from_str` and hands the
/// documents out as trees, or the scanner's error as its text. The contract
/// only names the outcome: the same text always gives the same one.
#[verifier::external_body]
pub(crate) fn load_documents(source: &str) -> (docs: Result<Vec<Node>, String>)
    ensures
        loaded(docs) == parsed_yaml(source@),
{
    match yaml_rust::YamlLoader::load_from_str(source) {
        Ok(docs) => Ok(docs.iter().map(node_of).collect()),
        Err(err) => Err(err.to_string()),
    }
}

/// The position of the first entry of `entries` whose key is the text `key`.
pub open spec fn entry_position(entries: Seq<(Node, Node)>, key: Seq<char>, from: int) -> Option<int>
    decreases entries.len() - from,
{
    if from < 0 || from >= entries.len() {
        None
    } else if entries[from].0 matches Node::Text(k) && k@ == key {
        Some(from)
    } else {
        entry_position(entries, key, from + 1)
    }
}

/// The value that the mapping `node` holds under the text `key`: that of the
/// first such entry. None where `node` is no mapping or has no such entry.
pub open spec fn field(node: Node, key: Seq<char>) -> Option<Node> {
    match node {
        Node::Hash(entries) => match entry_position(entries@, key, 0) {
            Some(i) => Some(entries@[i].1),
            None => None,
        },
        _ => None,
    }
}

impl Node {
    /// The value under `key`, where the node is a mapping that has one.
    pub fn get(&self, key: &str) -> (found: Option<&Node>)
        ensures
            match found {
                Some(value) => field(*self, key@) == Some(*value),
                None => field(*self, key@) is None,
            },
    {
        match self {
            Node::Hash(entries) => {
                let mut i: usize = 0;
                while i < entries.len()
                    invariant
                        i <= entries@.len(),
                        *self == Node::Hash(*entries),
                        entry_position(entries@, key@, 0) == entry_position(entries@, key@, i as int),
                    decreases entries@.len() - i,
                {
                    let hit = match &entries[i].0 {
                        Node::Text(k) => str_eq(k.as_str(), key),
                        _ => false,
                    };
                    assert(hit == (entries@[i as int].0 matches Node::Text(k) && k@ == key@));
                    if hit {
                        assert(entry_position(entries@, key@, i as int) == Some(i as int));
                        return Some(&entries[i].1);
                    }
                    i = i + 1;
                }
                None
            },
            _ => None,
        }
    }

    /// The number, where the node is an integer.
    pub fn as_i64(&self) -> (value: Option<i64>)
        ensures
            value == (match *self {
                Node::Integer(v) => Some(v),
                _ => None,
            }),
    {
        match self {
            Node::Integer(v) => Some(*v),
            _ => None,
        }
    }

    /// The text, where the node is a string.
    pub fn as_str(&self) -> (value: Option<&String>)
        ensures
            match *self {
                Node::Text(v) => value == Some(&v),
                _ => value is None,
            },
    {
        match self {
            Node::Text(v) => Some(v),
            _ => None,
        }
    }

    /// The truth value, where the node is a boolean.
    pub fn as_bool(&self) -> (value: Option<bool>)
        ensures
            value == (match *self {
                Node::Boolean(v) => Some(v),
                _ => None,
            }),
    {
        match self {
            Node::Boolean(v) => Some(*v),
            _ => None,
        }
    }

    /// The items, where the node is a sequence.
    pub fn as_vec(&self) -> (value: Option<&Vec<Node>>)
        ensures
            match *self {
                Node::Array(v) => value == Some(&v),
                _ => value is None,
            },
    {
        match self {
            Node::Array(v) => Some(v),
            _ => None,
        }
    }
}

} // verus!
