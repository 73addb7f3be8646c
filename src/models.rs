use vstd::prelude::*;

use crate::metadata::Metadata;
use vstd::std_specs::cmp::PartialEqSpec;

verus! {

/// A slice of source text with its metadata and, once computed, its embedding.
///
/// The embedding is kept as the IEEE-754 bit patterns of its `f32` components.
/// Two documents are equal exactly when their text is equal.
#[derive(Debug, Clone)]
pub struct Document {
    pub page_content: String,
    pub metadata: Option<Metadata>,
    pub embedding_vector: Option<Vec<u32>>,
}

impl Document {
    pub fn new(
        page_content: String,
        metadata: Option<Metadata>,
        embedding_vector: Option<Vec<u32>>,
    ) -> (r: Document)
        ensures
            r.page_content == page_content,
            r.metadata == metadata,
            r.embedding_vector == embedding_vector,
    {
        Document { page_content, metadata, embedding_vector }
    }
}

impl PartialEq for Document {
    fn eq(&self, other: &Document) -> (r: bool) {
        self.page_content == other.page_content
    }
}

impl vstd::std_specs::cmp::PartialEqSpecImpl for Document {
    open spec fn obeys_eq_spec() -> bool {
        true
    }

    open spec fn eq_spec(&self, other: &Document) -> bool {
        self.page_content@ == other.page_content@
    }
}

impl Eq for Document {}

impl core::hash::Hash for Document {
    fn hash<H: core::hash::Hasher>(&self, state: &mut H) {
        hash_text(&self.page_content, state);
    }
}

/// Relies on std's `Hash` for `String`: feeds the text into `state`.
#[verifier::external_body]
fn hash_text<H: core::hash::Hasher>(s: &String, state: &mut H) {
    core::hash::Hash::hash(s, state)
}

/// Documents compare by their text alone: metadata and embeddings play no part.
pub proof fn lemma_document_eq_by_content(a: Document, b: Document)
    ensures
        a.eq_spec(&b) <==> a.page_content@ == b.page_content@,
        a.page_content@ == b.page_content@ ==> a.eq_spec(&b),
        a.page_content@ != b.page_content@ ==> !a.eq_spec(&b),
{
}

/// The supported source formats.
#[derive(Debug, Clone, Copy, PartialEq, Eq, Structural)]
pub enum FileType {
    PDF,
    TXT,
    DOCX,
    UNKNOWN,
}

/// The file type named by a lowercase extension token.
pub open spec fn file_type_of(s: Seq<char>) -> FileType {
    if s == "pdf"@ {
        FileType::PDF
    } else if s == "txt"@ {
        FileType::TXT
    } else if s == "docx"@ || s == "pptx"@ || s == "xlsx"@ || s == "odt"@ || s == "ods"@
        || s == "odp"@ {
        FileType::DOCX
    } else {
        FileType::UNKNOWN
    }
}

/// The canonical lowercase token of a file type.
pub open spec fn token_of(t: FileType) -> Seq<char> {
    match t {
        FileType::PDF => "pdf"@,
        FileType::TXT => "txt"@,
        FileType::DOCX => "docx"@,
        FileType::UNKNOWN => "unknown"@,
    }
}

impl From<String> for FileType {
    fn from(value: String) -> (r: FileType) {
        if value == String::from_str("pdf") {
            FileType::PDF
        } else if value == String::from_str("txt") {
            FileType::TXT
        } else if value == String::from_str("docx") || value == String::from_str("pptx")
            || value == String::from_str("xlsx") || value == String::from_str("odt")
            || value == String::from_str("ods") || value == String::from_str("odp") {
            FileType::DOCX
        } else {
            FileType::UNKNOWN
        }
    }
}

impl vstd::std_specs::convert::FromSpecImpl<String> for FileType {
    open spec fn obeys_from_spec() -> bool {
        true
    }

    open spec fn from_spec(v: String) -> FileType {
        file_type_of(v@)
    }
}

impl FileType {
    /// The canonical lowercase token of this file type.
    pub fn to_string(&self) -> (r: String)
        ensures
            r@ == token_of(*self),
    {
        match self {
            FileType::PDF => String::from_str("pdf"),
            FileType::TXT => String::from_str("txt"),
            FileType::DOCX => String::from_str("docx"),
            FileType::UNKNOWN => String::from_str("unknown"),
        }
    }
}

/// Each variant renders to a token that maps back to the same variant.
pub proof fn lemma_file_type_token_round_trip(t: FileType)
    ensures
        t != FileType::UNKNOWN ==> file_type_of(token_of(t)) == t,
        t == FileType::UNKNOWN ==> token_of(t) == "unknown"@,
{
    reveal_strlit("pdf");
    reveal_strlit("txt");
    reveal_strlit("docx");
    reveal_strlit("unknown");
    reveal_strlit("pptx");
    reveal_strlit("xlsx");
    reveal_strlit("odt");
    reveal_strlit("ods");
    reveal_strlit("odp");
    assert("txt"@[0] != "pdf"@[0]);
    assert("docx"@.len() != "pdf"@.len());
    assert("docx"@.len() != "txt"@.len());
}

} // verus!
