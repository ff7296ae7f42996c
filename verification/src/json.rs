//! Flat JSON objects, written by `serde_json`.
use vstd::prelude::*;

verus! {

/// A value in a JSON object.
#[derive(Clone, Debug)]
pub enum JsonScalar {
    Text(String),
    Flag(bool),
    Count(u64),
}

/// What a [`JsonScalar`] holds.
pub enum JsonModel {
    Text(Seq<char>),
    Flag(bool),
    Count(u64),
}

impl View for JsonScalar {
    type V = JsonModel;

    open spec fn view(&self) -> JsonModel {
        match *self {
            JsonScalar::Text(s) => JsonModel::Text(s@),
            JsonScalar::Flag(b) => JsonModel::Flag(b),
            JsonScalar::Count(n) => JsonModel::Count(n),
        }
    }
}

/// A member of a JSON object.
#[derive(Clone, Debug)]
pub struct JsonField {
    pub key: String,
    pub value: JsonScalar,
}

impl View for JsonField {
    type V = (Seq<char>, JsonModel);

    open spec fn view(&self) -> (Seq<char>, JsonModel) {
        (self.key@, self.value@)
    }
}

/// An object, or a list of objects.
#[derive(Debug)]
pub enum JsonDocument {
    Object(Vec<JsonField>),
    List(Vec<Vec<JsonField>>),
}

/// What a [`JsonDocument`] holds: members by key, in order.
pub enum DocumentModel {
    Object(Seq<(Seq<char>, JsonModel)>),
    List(Seq<Seq<(Seq<char>, JsonModel)>>),
}

/// What the members of an object hold.
pub open spec fn object_model(fields: Seq<JsonField>) -> Seq<(Seq<char>, JsonModel)> {
    Seq::new(fields.len(), |i: int| fields[i]@)
}

/// What the objects of a list hold.
pub open spec fn list_model(rows: Seq<Vec<JsonField>>) -> Seq<Seq<(Seq<char>, JsonModel)>> {
    Seq::new(rows.len(), |i: int| object_model(rows[i]@))
}

impl View for JsonDocument {
    type V = DocumentModel;

    open spec fn view(&self) -> DocumentModel {
        match *self {
            JsonDocument::Object(fields) => DocumentModel::Object(object_model(fields@)),
            JsonDocument::List(rows) => DocumentModel::List(list_model(rows@)),
        }
    }
}

/// What `serde_json` writes for an object or a list of objects, if it can.
pub uninterp spec fn pretty(document: DocumentModel) -> Option<Seq<char>>;

/// `serde_json::to_string_pretty`: the text that it returns is a function of the members, their
/// keys and their order. Nothing is claimed of how the text looks.
#[verifier::external_body]
pub(crate) fn write_json(document: &JsonDocument) -> (r: Option<String>)
    ensures
        crate::text::chars::opt_string(r) == pretty(document@),
{
    let object = |row: &Vec<JsonField>| -> serde_json::Value {
        row.iter().map(|f| (f.key.clone(), match &f.value {
            JsonScalar::Text(s) => serde_json::Value::from(s.as_str()),
            JsonScalar::Flag(b) => serde_json::Value::from(*b),
            JsonScalar::Count(n) => serde_json::Value::from(*n),
        })).collect()
    };
    let value: serde_json::Value = match document {
        JsonDocument::Object(fields) => object(fields),
        JsonDocument::List(rows) => rows.iter().map(object).collect(),
    };
    serde_json::to_string_pretty(&value).ok()
}

/// A member with a text.
pub fn text_field(key: &str, text: &str) -> (f: JsonField)
    ensures
        f@ == (key@, JsonModel::Text(text@)),
{
    JsonField { key: key.to_owned(), value: JsonScalar::Text(text.to_owned()) }
}

/// A member that is true or false.
pub fn flag_field(key: &str, flag: bool) -> (f: JsonField)
    ensures
        f@ == (key@, JsonModel::Flag(flag)),
{
    JsonField { key: key.to_owned(), value: JsonScalar::Flag(flag) }
}

/// A member with a number.
pub fn count_field(key: &str, count: u64) -> (f: JsonField)
    ensures
        f@ == (key@, JsonModel::Count(count)),
{
    JsonField { key: key.to_owned(), value: JsonScalar::Count(count) }
}

} // verus!
