//! The trusted boundary to the YAML parser.
//!
//! The rule description is a YAML document; parsing it and walking the parsed
//! tree is done by `serde_yaml`. Parsing is a deterministic function of the
//! bytes, so its outcome is given a name: `spec_yaml_doc` maps the bytes to a
//! plain model of the parsed tree (`YamlDoc`), or `None` when they do not
//! parse. Each borrowed parsed value travels together with its model in a
//! ghost field, paired only by this module, and every trusted accessor states
//! its result over that model; the extraction logic in `rules` is then
//! verified against the model alone.

use vstd::prelude::*;

verus! {

#[verifier::external_type_specification]
#[verifier::external_body]
pub struct ExYamlValue(serde_yaml::Value);

#[verifier::external_type_specification]
#[verifier::external_body]
pub struct ExYamlError(serde_yaml::Error);

/// A plain model of a parsed YAML value, as the accessors of this module
/// observe it: `!Tag` wrappers are folded away (every accessor untags before
/// looking), a number is `Int` exactly when it fits an `i64`, a mapping keeps
/// its string-keyed entries, and everything else the loader never reads into
/// — null, strings, other numbers — is `Other`.
pub enum YamlDoc {
    Bool(bool),
    Int(i64),
    List(Seq<YamlDoc>),
    Mapping(Map<Seq<char>, YamlDoc>),
    Other,
}

/// The model of the value that `serde_yaml::from_slice` returns for these
/// bytes, or `None` when the bytes do not parse as one YAML document. The
/// outcome depends on the bytes alone.
pub uninterp spec fn spec_yaml_doc(bytes: Seq<u8>) -> Option<YamlDoc>;

/// Whether the bytes parse as one YAML document.
pub open spec fn spec_yaml_parses(bytes: Seq<u8>) -> bool {
    spec_yaml_doc(bytes) is Some
}

/// What `serde_yaml::Value::as_bool` answers on a value with this model.
pub open spec fn spec_doc_as_bool(d: YamlDoc) -> Option<bool> {
    match d {
        YamlDoc::Bool(b) => Some(b),
        _ => None,
    }
}

/// What `serde_yaml::Value::as_i64` answers on a value with this model.
pub open spec fn spec_doc_as_i64(d: YamlDoc) -> Option<i64> {
    match d {
        YamlDoc::Int(i) => Some(i),
        _ => None,
    }
}

/// What looking up a string key answers on a value with this model: the entry
/// at the key for a mapping that has it, `None` for a mapping without it and
/// for every non-mapping value.
pub open spec fn spec_doc_get(d: YamlDoc, key: Seq<char>) -> Option<YamlDoc> {
    match d {
        YamlDoc::Mapping(m) => if m.contains_key(key) {
            Some(m[key])
        } else {
            None
        },
        _ => None,
    }
}

/// An owned parsed YAML document, paired with its model.
pub struct YamlNode {
    value: serde_yaml::Value,
    model: Ghost<YamlDoc>,
}

/// A borrowed parsed YAML value, paired with its model.
pub struct YamlNodeRef<'a> {
    value: &'a serde_yaml::Value,
    model: Ghost<YamlDoc>,
}

/// A borrowed parsed YAML sequence, paired with the models of its elements.
pub struct YamlSeqRef<'a> {
    value: &'a Vec<serde_yaml::Value>,
    model: Ghost<Seq<YamlDoc>>,
}

/// Relies on `serde_yaml::from_slice`: parses one YAML document from bytes,
/// succeeding exactly when the bytes parse.
#[verifier::external_body]
fn raw_parse(bytes: &[u8]) -> (r: Result<serde_yaml::Value, serde_yaml::Error>)
    ensures
        r is Ok <==> spec_yaml_doc(bytes@) is Some,
{
    serde_yaml::from_slice(bytes)
}

/// Relies on `serde_yaml::Value::get` with a string key: answers `Some`
/// exactly when the value is a mapping with that key.
#[verifier::external_body]
fn raw_get<'a>(node: &YamlNodeRef<'a>, key: &str) -> (r: Option<&'a serde_yaml::Value>)
    ensures
        r is Some <==> spec_doc_get(node.model(), key@) is Some,
{
    node.value.get(key)
}

/// Relies on `serde_yaml::Value::as_sequence`: answers the elements exactly
/// when the value is a sequence, as many as the model lists.
#[verifier::external_body]
fn raw_as_list<'a>(node: &YamlNodeRef<'a>) -> (r: Option<&'a Vec<serde_yaml::Value>>)
    ensures
        r is Some <==> node.model() is List,
        r matches Some(v) ==> v@.len() == node.model()->List_0.len(),
{
    node.value.as_sequence()
}

/// Relies on `Vec::len`: the element count of the borrowed sequence, which
/// equals the length of its model.
#[verifier::external_body]
fn raw_list_len(list: &YamlSeqRef<'_>) -> (r: usize)
    ensures
        r == list.model().len(),
{
    list.value.len()
}

/// Relies on `Vec`'s indexing: the element at an in-range index of the
/// borrowed sequence.
#[verifier::external_body]
fn raw_list_index<'a>(list: &YamlSeqRef<'a>, i: usize) -> (r: &'a serde_yaml::Value)
    requires
        i < list.model().len(),
{
    &list.value[i]
}

/// Parses a YAML rule description, handing back the root value with the
/// model `spec_yaml_doc` names for these bytes.
pub(crate) fn yaml_parse(bytes: &[u8]) -> (r: Result<YamlNode, serde_yaml::Error>)
    ensures
        r is Ok <==> spec_yaml_parses(bytes@),
        r matches Ok(n) ==> n.model() == spec_yaml_doc(bytes@)->Some_0,
{
    match raw_parse(bytes) {
        Ok(value) => Ok(YamlNode { value, model: Ghost(spec_yaml_doc(bytes@)->Some_0) }),
        Err(e) => Err(e),
    }
}

impl YamlNode {
    /// The model of this document's root value.
    pub closed spec fn model(self) -> YamlDoc {
        self.model@
    }

    /// Borrows the root value.
    pub(crate) fn root<'a>(&'a self) -> (r: YamlNodeRef<'a>)
        ensures
            r.model() == self.model(),
    {
        YamlNodeRef { value: &self.value, model: Ghost(self.model@) }
    }
}

impl<'a> YamlNodeRef<'a> {
    /// The model of this value.
    pub closed spec fn model(self) -> YamlDoc {
        self.model@
    }

    /// Looks a string key up in this value; `None` for a non-mapping value
    /// or a missing key.
    pub(crate) fn get(&self, key: &str) -> (r: Option<YamlNodeRef<'a>>)
        ensures
            r is Some <==> spec_doc_get(self.model(), key@) is Some,
            r matches Some(n) ==> n.model() == spec_doc_get(self.model(), key@)->Some_0,
    {
        match raw_get(self, key) {
            Some(v) => Some(
                YamlNodeRef { value: v, model: Ghost(spec_doc_get(self.model(), key@)->Some_0) },
            ),
            None => None,
        }
    }

    /// Relies on `serde_yaml::Value::as_bool`: the boolean this value holds,
    /// or `None` for a non-boolean value.
    #[verifier::external_body]
    pub(crate) fn as_bool(&self) -> (r: Option<bool>)
        ensures
            r == spec_doc_as_bool(self.model()),
    {
        self.value.as_bool()
    }

    /// Relies on `serde_yaml::Value::as_i64`: the integer this value holds
    /// when it fits in an `i64`, and `None` otherwise.
    #[verifier::external_body]
    pub(crate) fn as_i64(&self) -> (r: Option<i64>)
        ensures
            r == spec_doc_as_i64(self.model()),
    {
        self.value.as_i64()
    }

    /// Relies on `serde_yaml::Value::is_mapping`: whether this value is a
    /// mapping.
    #[verifier::external_body]
    pub(crate) fn is_mapping(&self) -> (r: bool)
        ensures
            r == (self.model() is Mapping),
    {
        self.value.is_mapping()
    }

    /// The elements of this value if it is a sequence, `None` otherwise.
    pub(crate) fn as_list(&self) -> (r: Option<YamlSeqRef<'a>>)
        ensures
            r is Some <==> self.model() is List,
            r matches Some(l) ==> l.model() == self.model()->List_0,
    {
        match raw_as_list(self) {
            Some(v) => Some(YamlSeqRef { value: v, model: Ghost(self.model()->List_0) }),
            None => None,
        }
    }
}

impl<'a> YamlSeqRef<'a> {
    /// The models of this sequence's elements, in order.
    pub closed spec fn model(self) -> Seq<YamlDoc> {
        self.model@
    }

    /// The element count.
    pub(crate) fn len(&self) -> (r: usize)
        ensures
            r == self.model().len(),
    {
        raw_list_len(self)
    }

    /// The element at an in-range index.
    pub(crate) fn index(&self, i: usize) -> (r: YamlNodeRef<'a>)
        requires
            i < self.model().len(),
        ensures
            r.model() == self.model()[i as int],
    {
        let v = raw_list_index(self, i);
        YamlNodeRef { value: v, model: Ghost(self.model()[i as int]) }
    }
}

} // verus!
