use vstd::prelude::*;
use vstd::string::*;

use super::parse::same_text;

verus! {

/// A node of a parsed configuration document, held as plain values.
#[derive(Debug)]
pub enum Node {
    Real(String),
    Integer(i64),
    String(String),
    Boolean(bool),
    Array(Vec<Node>),
    Hash(Vec<Entry>),
    Alias(usize),
    Null,
    BadValue,
}

/// One entry of a mapping.
#[derive(Debug)]
pub struct Entry {
    pub key: Node,
    pub value: Node,
}

/// `yaml_rust::Yaml`: a document as the parser hands it out. Nothing is
/// known of what is inside.
#[verifier::external_type_specification]
#[verifier::external_body]
pub struct ExYaml(yaml_rust::Yaml);

/// `yaml_rust::ScanError`: why a text did not parse. Nothing is known of
/// what is inside.
#[verifier::external_type_specification]
#[verifier::external_body]
pub struct ExScanError(yaml_rust::ScanError);

/// The documents that a text holds, as plain values; `None` for a text
/// that does not parse.
pub uninterp spec fn yaml_docs(source: Seq<char>) -> Option<Seq<Node>>;

/// `yaml_rust::YamlLoader::load_from_str`: the documents of a text, copied
/// into plain values, or the error on which the scan stopped. What comes
/// back depends on the text alone.
#[verifier::external_body]
fn load_from_str(source: &str) -> (r: Result<Vec<Node>, yaml_rust::ScanError>)
    ensures
        match r {
            Ok(docs) => yaml_docs(source@) == Some(docs@),
            Err(_) => yaml_docs(source@) is None,
        },
{
    yaml_rust::YamlLoader::load_from_str(source).map(|docs| docs.iter().map(plain).collect())
}

/// Copies a `yaml_rust::Yaml` into plain values, variant by variant and
/// field by field. Nothing is stated of the copy here; `load_from_str`
/// names what it gives.
#[verifier::external_body]
fn plain(doc: &yaml_rust::Yaml) -> (r: Node) {
    match doc {
        yaml_rust::Yaml::Real(s) => Node::Real(s.clone()),
        yaml_rust::Yaml::Integer(i) => Node::Integer(*i),
        yaml_rust::Yaml::String(s) => Node::String(s.clone()),
        yaml_rust::Yaml::Boolean(b) => Node::Boolean(*b),
        yaml_rust::Yaml::Array(v) => Node::Array(v.iter().map(plain).collect()),
        yaml_rust::Yaml::Hash(h) => {
            Node::Hash(h.iter().map(|(k, v)| Entry { key: plain(k), value: plain(v) }).collect())
        },
        yaml_rust::Yaml::Alias(n) => Node::Alias(*n),
        yaml_rust::Yaml::Null => Node::Null,
        yaml_rust::Yaml::BadValue => Node::BadValue,
    }
}

/// The value under the text key `key` among the entries of a mapping, the
/// first one if there are several; `BadValue` if there is none.
pub open spec fn lookup(entries: Seq<Entry>, key: Seq<char>) -> Node
    decreases entries.len(),
{
    if entries.len() == 0 {
        Node::BadValue
    } else {
        if entries[0].key matches Node::String(k) && k@ == key {
            entries[0].value
        } else {
            lookup(entries.skip(1), key)
        }
    }
}

/// The value under the integer key `key` among the entries of a mapping.
pub open spec fn lookup_int(entries: Seq<Entry>, key: i64) -> Node
    decreases entries.len(),
{
    if entries.len() == 0 {
        Node::BadValue
    } else {
        if entries[0].key matches Node::Integer(k) && k == key {
            entries[0].value
        } else {
            lookup_int(entries.skip(1), key)
        }
    }
}

impl Node {
    /// The text of a text scalar.
    pub open spec fn text(self) -> Option<Seq<char>> {
        match self {
            Node::String(s) => Some(s@),
            _ => None,
        }
    }

    pub open spec fn integer(self) -> Option<i64> {
        match self {
            Node::Integer(i) => Some(i),
            _ => None,
        }
    }

    pub open spec fn boolean(self) -> Option<bool> {
        match self {
            Node::Boolean(b) => Some(b),
            _ => None,
        }
    }

    /// The items of a list; none for any other value.
    pub open spec fn items(self) -> Seq<Node> {
        match self {
            Node::Array(v) => v@,
            _ => Seq::empty(),
        }
    }

    /// The value under the key `key` of a mapping; `BadValue` where there is
    /// none and for any other value.
    pub open spec fn field(self, key: Seq<char>) -> Node {
        match self {
            Node::Hash(h) => lookup(h@, key),
            _ => Node::BadValue,
        }
    }

    /// Item `idx` of a list, or the value under the integer key `idx` of a
    /// mapping; `BadValue` where there is none.
    pub open spec fn item(self, idx: usize) -> Node {
        match self {
            Node::Array(v) => if idx < v@.len() {
                v@[idx as int]
            } else {
                Node::BadValue
            },
            Node::Hash(h) => lookup_int(h@, #[verifier::truncate] (idx as i64)),
            _ => Node::BadValue,
        }
    }

    /// How many items a list has, or entries a mapping; zero for any other value.
    pub open spec fn size(self) -> nat {
        match self {
            Node::Array(v) => v@.len(),
            Node::Hash(h) => h@.len(),
            _ => 0,
        }
    }

    pub fn len(&self) -> (r: usize)
        ensures
            r == self.size(),
    {
        match self {
            Node::Array(v) => v.len(),
            Node::Hash(h) => h.len(),
            _ => 0,
        }
    }

    pub fn as_str(&self) -> (r: Option<&str>)
        ensures
            r.deep_view() == self.text(),
    {
        match self {
            Node::String(s) => Some(s.as_str()),
            _ => None,
        }
    }

    pub fn as_i64(&self) -> (r: Option<i64>)
        ensures
            r == self.integer(),
    {
        match self {
            Node::Integer(i) => Some(*i),
            _ => None,
        }
    }

    pub fn as_bool(&self) -> (r: Option<bool>)
        ensures
            r == self.boolean(),
    {
        match self {
            Node::Boolean(b) => Some(*b),
            _ => None,
        }
    }

    pub fn is_badvalue(&self) -> (r: bool)
        ensures
            r == (self is BadValue),
    {
        match self {
            Node::BadValue => true,
            _ => false,
        }
    }

    /// The value under `key`, by reference; `None` stands for `BadValue`.
    pub fn get(&self, key: &str) -> (r: Option<&Node>)
        ensures
            match r {
                Some(v) => *v == self.field(key@),
                None => self.field(key@) is BadValue,
            },
    {
        match self {
            Node::Hash(h) => {
                let mut i: usize = 0;
                assert(h@.skip(0) =~= h@);
                while i < h.len()
                    invariant
                        i <= h.len(),
                        self.field(key@) == lookup(h@, key@),
                        lookup(h@, key@) == lookup(h@.skip(i as int), key@),
                    decreases h.len() - i,
                {
                    let found = match &h[i].key {
                        Node::String(k) => same_text(k.as_str(), key),
                        _ => false,
                    };
                    if found {
                        return Some(&h[i].value);
                    }
                    assert(h@.skip(i as int).skip(1) =~= h@.skip(i + 1));
                    i = i + 1;
                }
                None
            },
            _ => None,
        }
    }

    /// Item `idx`, by reference; `None` stands for `BadValue`.
    pub fn at(&self, idx: usize) -> (r: Option<&Node>)
        ensures
            match r {
                Some(v) => *v == self.item(idx),
                None => self.item(idx) is BadValue,
            },
    {
        match self {
            Node::Array(v) => if idx < v.len() {
                Some(&v[idx])
            } else {
                None
            },
            Node::Hash(h) => {
                let key = #[verifier::truncate] (idx as i64);
                let mut i: usize = 0;
                assert(h@.skip(0) =~= h@);
                while i < h.len()
                    invariant
                        i <= h.len(),
                        key == #[verifier::truncate] (idx as i64),
                        self.item(idx) == lookup_int(h@, key),
                        lookup_int(h@, key) == lookup_int(h@.skip(i as int), key),
                    decreases h.len() - i,
                {
                    let found = match &h[i].key {
                        Node::Integer(k) => *k == key,
                        _ => false,
                    };
                    if found {
                        return Some(&h[i].value);
                    }
                    assert(h@.skip(i as int).skip(1) =~= h@.skip(i + 1));
                    i = i + 1;
                }
                None
            },
            _ => None,
        }
    }
}

/// The items of `list` from number `i` on, up to the first that is missing.
pub open spec fn items_from(list: Node, i: nat) -> Seq<Node>
    decreases list.size() - i,
{
    if i < list.size() && i <= usize::MAX && !(list.item(i as usize) is BadValue) {
        seq![list.item(i as usize)] + items_from(list, i + 1)
    } else {
        Seq::empty()
    }
}

/// The program entries of a configuration: the items under `programs`, in
/// their order, up to the first that is missing.
pub open spec fn programs_of(config: Node) -> Seq<Node> {
    items_from(config.field("programs"@), 0)
}

/// The first document of a configuration text; `None` for a text that
/// does not parse or holds no document.
pub open spec fn first_doc(source: Seq<char>) -> Option<Node> {
    match yaml_docs(source) {
        Some(docs) => if docs.len() > 0 {
            Some(docs[0])
        } else {
            None
        },
        None => None,
    }
}

/// The first document of a configuration text, as plain values.
pub fn text_to_yaml(source: &str) -> (r: Option<Node>)
    ensures
        r == first_doc(source@),
{
    match load_from_str(source) {
        Ok(mut docs) => if docs.len() > 0 {
            Some(docs.swap_remove(0))
        } else {
            None
        },
        Err(_) => None,
    }
}

} // verus!
