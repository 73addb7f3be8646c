use vstd::prelude::*;

use crate::metadata::{
    insert_all, insert_entry, keys_distinct, lemma_insert_all_distinct, lemma_insert_distinct,
    lemma_remove_distinct, lookup, pairs_view, remove_entry, EntrySeq, Metadata,
};
use crate::models::Document;

verus! {

/// What `serde_json` reads from a text that holds a JSON object: its members
/// in the order of its map, string values as they are and other values in
/// their JSON form. `None` where the text is not a JSON object.
pub uninterp spec fn json_fields_of(s: Seq<char>) -> Option<EntrySeq>;

/// Relies on `serde_json::from_str` into a `serde_json::Value` and on
/// `Value`'s `to_string` for members that are not strings.
#[verifier::external_body]
pub(crate) fn json_object_fields(s: &String) -> (r: Option<Vec<(String, String)>>)
    ensures
        match r {
            Some(v) => json_fields_of(s@) == Some(pairs_view(v@)),
            None => json_fields_of(s@) is None,
        },
{
    match serde_json::from_str::<serde_json::Value>(s) {
        Ok(serde_json::Value::Object(m)) => Some(
            m.into_iter().map(|(k, v)| match v {
                serde_json::Value::String(t) => (k, t),
                other => (k, other.to_string()),
            }).collect(),
        ),
        _ => None,
    }
}

/// Relies on `uuid::Uuid::new_v4` and its hyphenated text form.
#[verifier::external_body]
fn new_point_id() -> (r: String)
    ensures
        r@.len() == 36,
{
    uuid::Uuid::new_v4().to_string()
}

/// The embedding settings stored for a datasource.
#[derive(Debug, Clone)]
pub struct ModelParameters {
    pub model: String,
    pub embedding_length: usize,
}

/// What the metadata store holds for a datasource.
#[derive(Debug, Clone)]
pub struct DatasourceConfig {
    pub model: Option<ModelParameters>,
    /// The record member that holds the text to embed.
    pub text_field: Option<String>,
}

/// Why a record could not be written.
#[derive(Debug, Clone, Copy, PartialEq, Eq, Structural)]
pub enum WriteError {
    /// The payload is not a JSON object.
    InvalidRecord,
    /// No model or no text field is configured for the datasource.
    Lookup,
    /// The record lacks the configured text field.
    MissingTextField,
    /// The vector's length differs from the configured embedding length.
    DimensionMismatch,
}

/// A record ready for embedding: its text and flattened metadata (text under
/// `page_content`), with the settings the upsert checks against.
#[derive(Debug)]
pub struct PreparedRecord {
    pub datasource_id: String,
    pub text: String,
    pub metadata: Metadata,
    pub vector_length: usize,
    pub model_name: String,
}

/// A point for the vector store. The vector holds the bit patterns of its
/// `f32` components.
#[derive(Debug)]
pub struct VectorPoint {
    pub id: String,
    pub vector: Vec<u32>,
    pub payload: Metadata,
}

/// The key under which a point's text is stored.
pub open spec fn page_content_key() -> Seq<char> {
    "page_content"@
}

/// The abstract result of preparing a record from its decoded members.
pub open spec fn prepared_spec(fields: Option<EntrySeq>, config: DatasourceConfig) -> Result<
    (Seq<char>, EntrySeq),
    WriteError,
> {
    match fields {
        None => Err(WriteError::InvalidRecord),
        Some(f) => match (config.model, config.text_field) {
            (Some(_), Some(tf)) => {
                let m = insert_all(Seq::empty(), f);
                match lookup(m, tf@) {
                    None => Err(WriteError::MissingTextField),
                    Some(t) => Ok(
                        (t, insert_entry(remove_entry(m, tf@), page_content_key(), t)),
                    ),
                }
            },
            _ => Err(WriteError::Lookup),
        },
    }
}

pub open spec fn prepared_view(r: Result<PreparedRecord, WriteError>) -> Result<
    (Seq<char>, EntrySeq),
    WriteError,
> {
    match r {
        Ok(p) => Ok((p.text@, p.metadata@)),
        Err(e) => Err(e),
    }
}

/// A prepared record's payload holds its text under `page_content`, keeps
/// no entry under the configured text field (unless that field is
/// `page_content` itself) and has distinct keys.
pub proof fn lemma_prepared_payload(fields: EntrySeq, config: DatasourceConfig)
    ensures
        prepared_spec(Some(fields), config) matches Ok((t, m)) ==> {
            &&& lookup(m, page_content_key()) == Some(t)
            &&& keys_distinct(m)
            &&& forall|tf: String|
                config.text_field == Some(tf) && tf@ != page_content_key() ==> lookup(m, tf@) is None
        },
{
    if let (Some(_), Some(tf)) = (config.model, config.text_field) {
        let m0 = insert_all(Seq::empty(), fields);
        lemma_insert_all_distinct(Seq::empty(), fields);
        if let Some(t) = lookup(m0, tf@) {
            let m1 = remove_entry(m0, tf@);
            lemma_remove_distinct(m0, tf@);
            lemma_insert_distinct(m1, page_content_key(), t);
            assert(tf@ != page_content_key() ==> lookup(insert_entry(m1, page_content_key(), t), tf@)
                == lookup(m1, tf@));
        }
    }
}

/// The settings a prepared record carries.
pub open spec fn carries_config(r: Result<PreparedRecord, WriteError>, datasource_id: String, config: DatasourceConfig) -> bool {
    r matches Ok(p) ==> {
        &&& p.datasource_id@ == datasource_id@
        &&& config.model matches Some(mp)
        &&& p.vector_length == mp.embedding_length
        &&& p.model_name@ == mp.model@
        &&& p.metadata.wf()
    }
}

/// Prepares a record from its decoded members: the configured text field is
/// taken out of the flattened map and stored again under `page_content`.
pub fn prepare_from_fields(
    datasource_id: &String,
    fields: Option<Vec<(String, String)>>,
    config: &DatasourceConfig,
) -> (r: Result<PreparedRecord, WriteError>)
    ensures
        prepared_view(r) == prepared_spec(
            match fields {
                Some(v) => Some(pairs_view(v@)),
                None => None,
            },
            *config,
        ),
        carries_config(r, *datasource_id, *config),
{
    let f = match fields {
        None => {
            return Err(WriteError::InvalidRecord);
        },
        Some(f) => f,
    };
    let (mp, tf) = match (&config.model, &config.text_field) {
        (Some(mp), Some(tf)) => (mp, tf),
        _ => {
            return Err(WriteError::Lookup);
        },
    };
    let mut metadata = Metadata::from_pairs(f);
    let ghost m0 = metadata@;
    match metadata.remove(tf) {
        None => Err(WriteError::MissingTextField),
        Some(text) => {
            metadata.insert(String::from_str("page_content"), text.clone());
            assert(metadata@ == insert_entry(remove_entry(m0, tf@), page_content_key(), text@));
            Ok(
                PreparedRecord {
                    datasource_id: datasource_id.clone(),
                    text,
                    metadata,
                    vector_length: mp.embedding_length,
                    model_name: mp.model.clone(),
                },
            )
        },
    }
}

/// Prepares a JSON-encoded record of a datasource for embedding.
pub fn prepare_record(datasource_id: &String, message: &String, config: &DatasourceConfig) -> (r:
    Result<PreparedRecord, WriteError>)
    ensures
        prepared_view(r) == prepared_spec(json_fields_of(message@), *config),
        carries_config(r, *datasource_id, *config),
{
    let fields = json_object_fields(message);
    prepare_from_fields(datasource_id, fields, config)
}

/// Builds a point with the given id; the vector must have the configured
/// length.
pub fn build_point(id: String, vector: Vec<u32>, payload: Metadata, vector_length: usize) -> (r:
    Result<VectorPoint, WriteError>)
    ensures
        r is Err <==> vector@.len() != vector_length,
        r matches Err(e) ==> e == WriteError::DimensionMismatch,
        r matches Ok(p) ==> p.id == id && p.vector@ == vector@ && p.payload@ == payload@,
{
    if vector.len() != vector_length {
        Err(WriteError::DimensionMismatch)
    } else {
        Ok(VectorPoint { id, vector, payload })
    }
}

/// The point of a prepared record under a fresh random id.
pub fn make_point(record: &PreparedRecord, vector: Vec<u32>) -> (r: Result<VectorPoint, WriteError>)
    ensures
        r is Err <==> vector@.len() != record.vector_length,
        r matches Err(e) ==> e == WriteError::DimensionMismatch,
        r matches Ok(p) ==> p.id@.len() == 36 && p.vector@ == vector@ && p.payload@
            == record.metadata@,
{
    let id = new_point_id();
    build_point(id, vector, record.metadata.duplicate(), record.vector_length)
}

/// The point of a chunk: its metadata with its text under `page_content`.
pub fn make_chunk_point(doc: &Document, vector: Vec<u32>, vector_length: usize) -> (r: Result<
    VectorPoint,
    WriteError,
>)
    requires
        doc.metadata matches Some(m) ==> m.wf(),
    ensures
        r is Err <==> vector@.len() != vector_length,
        r matches Ok(p) ==> p.id@.len() == 36 && p.vector@ == vector@ && p.payload@
            == insert_entry(
            match doc.metadata {
                Some(m) => m@,
                None => Seq::empty(),
            },
            page_content_key(),
            doc.page_content@,
        ),
{
    let mut payload = match &doc.metadata {
        Some(m) => m.duplicate(),
        None => Metadata::new(),
    };
    payload.insert(String::from_str("page_content"), doc.page_content.clone());
    let id = new_point_id();
    build_point(id, vector, payload, vector_length)
}

/// The key of the usage counter in the cache store.
pub fn usage_counter_key() -> (r: String)
    ensures
        r@ == "upserted_points"@,
{
    String::from_str("upserted_points")
}

/// What the write path reports once the store answered an upsert: success
/// only for a confirmed write, and the usage counter's increment (1 exactly
/// then, 0 otherwise).
pub fn upsert_outcome(upsert: &Result<bool, String>) -> (r: (bool, u64))
    ensures
        r.0 == (*upsert == Ok::<bool, String>(true)),
        r.1 == if r.0 { 1u64 } else { 0u64 },
{
    match upsert {
        Ok(true) => (true, 1),
        _ => (false, 0),
    }
}

} // verus!
