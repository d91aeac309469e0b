use crate::deck::Error;
use vstd::prelude::*;

verus! {

/// A YAML value, as the parser gives it.
pub enum Yaml {
    /// `null` or nothing.
    Null,
    /// A boolean.
    Bool(bool),
    /// An integer, as written.
    Int(String),
    /// A number with a fraction, as written.
    Float(String),
    /// A string.
    Str(String),
    /// A sequence.
    List(Vec<YamlNode>),
    /// A mapping, in the order written.
    Dict(Vec<(YamlNode, YamlNode)>),
    /// A reference to an anchor that was not replaced by its value.
    Alias(String),
}

/// A YAML value and the byte position where it starts.
pub struct YamlNode {
    /// The value.
    pub yaml: Yaml,
    /// Its position in the text.
    pub pos: u64,
}

/// The value stored under `key` in a mapping, from entry `i` on.
pub open spec fn entry_from(pairs: Seq<(YamlNode, YamlNode)>, key: Seq<char>, i: nat) -> Option<YamlNode>
    decreases pairs.len() - i,
{
    if i >= pairs.len() {
        None
    } else if pairs[i as int].0.yaml matches Yaml::Str(s) && s@ == key {
        Some(pairs[i as int].1)
    } else {
        entry_from(pairs, key, i + 1)
    }
}

/// The value stored under `key`, where the node is a mapping that has the key.
pub open spec fn entry(n: YamlNode, key: Seq<char>) -> Option<YamlNode> {
    match n.yaml {
        Yaml::Dict(p) => entry_from(p@, key, 0),
        _ => None,
    }
}

/// The text of a scalar; `null` is the empty text.
pub open spec fn scalar_text(y: Yaml) -> Option<Seq<char>> {
    match y {
        Yaml::Null => Some(Seq::empty()),
        Yaml::Bool(b) => Some(if b { "true"@ } else { "false"@ }),
        Yaml::Int(s) => Some(s@),
        Yaml::Float(s) => Some(s@),
        Yaml::Str(s) => Some(s@),
        _ => None,
    }
}

/// The text field `key` of a mapping: empty where absent, an error naming
/// the field where it is not a scalar.
pub open spec fn text_field(n: YamlNode, key: Seq<char>) -> Result<Seq<char>, (Seq<char>, u64)> {
    match entry(n, key) {
        None => Ok(Seq::empty()),
        Some(v) => match scalar_text(v.yaml) {
            Some(t) => Ok(t),
            None => Err((key, v.pos)),
        },
    }
}

/// The boolean field `key` of a mapping: `default` where absent or `null`.
pub open spec fn bool_field(n: YamlNode, key: Seq<char>, default: bool) -> Result<bool, (Seq<char>, u64)> {
    match entry(n, key) {
        None => Ok(default),
        Some(v) => match v.yaml {
            Yaml::Null => Ok(default),
            Yaml::Bool(b) => Ok(b),
            _ => Err((key, v.pos)),
        },
    }
}

/// Whether the error is a field type error on this field, kind and position.
pub open spec fn is_field_error(e: Error, field: Seq<char>, kind: Seq<char>, pos: u64) -> bool {
    e matches Error::FieldType(f, k, p) && f@ == field && k@ == kind && p == pos
}

/// Whether two texts are the same.
pub fn same_text(a: &str, b: &str) -> (r: bool)
    ensures
        r == (a@ == b@),
{
    String::from_str(a) == String::from_str(b)
}

impl YamlNode {
    /// The value stored under `key`, where this node is a mapping that has the key.
    pub fn get(&self, key: &str) -> (r: Option<&YamlNode>)
        ensures
            r matches Some(v) ==> entry(*self, key@) == Some(*v),
            r is None ==> entry(*self, key@) is None,
    {
        match &self.yaml {
            Yaml::Dict(p) => {
                let mut i: usize = 0;
                while i < p.len()
                    invariant
                        self.yaml == Yaml::Dict(*p),
                        i <= p@.len(),
                        entry_from(p@, key@, i as nat) == entry(*self, key@),
                    decreases p@.len() - i,
                {
                    match &p[i].0.yaml {
                        Yaml::Str(s) => {
                            if same_text(s.as_str(), key) {
                                return Some(&p[i].1);
                            }
                        },
                        _ => {},
                    }
                    i = i + 1;
                }
                None
            },
            _ => None,
        }
    }

    /// The text of this scalar; `null` is the empty text.
    pub fn scalar(&self) -> (r: Option<String>)
        ensures
            r matches Some(t) ==> scalar_text(self.yaml) == Some(t@),
            r is None ==> scalar_text(self.yaml) is None,
    {
        match &self.yaml {
            Yaml::Null => Some(String::new()),
            Yaml::Bool(b) => Some(if *b { String::from_str("true") } else { String::from_str("false") }),
            Yaml::Int(s) => Some(s.clone()),
            Yaml::Float(s) => Some(s.clone()),
            Yaml::Str(s) => Some(s.clone()),
            _ => None,
        }
    }

    /// The text field `key` of this mapping: empty where absent.
    pub fn text(&self, key: &str) -> (r: Result<String, Error>)
        ensures
            text_field(*self, key@) matches Ok(t) ==> r matches Ok(s) && s@ == t,
            text_field(*self, key@) matches Err((f, p)) ==> r matches Err(e) && is_field_error(e, f, "string"@, p),
    {
        match self.get(key) {
            None => Ok(String::new()),
            Some(v) => match v.scalar() {
                Some(t) => Ok(t),
                None => Err(Error::FieldType(String::from_str(key), String::from_str("string"), v.pos)),
            },
        }
    }

    /// The boolean field `key` of this mapping: `default` where absent or `null`.
    pub fn flag(&self, key: &str, default: bool) -> (r: Result<bool, Error>)
        ensures
            bool_field(*self, key@, default) matches Ok(b) ==> r == Ok::<bool, Error>(b),
            bool_field(*self, key@, default) matches Err((f, p)) ==> r matches Err(e) && is_field_error(e, f, "boolean"@, p),
    {
        match self.get(key) {
            None => Ok(default),
            Some(v) => match &v.yaml {
                Yaml::Null => Ok(default),
                Yaml::Bool(b) => Ok(*b),
                _ => Err(Error::FieldType(String::from_str(key), String::from_str("boolean"), v.pos)),
            },
        }
    }
}

} // verus!
