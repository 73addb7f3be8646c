use vstd::prelude::*;

use crate::chunking::TextChunker;
use crate::metadata::{insert_all, insert_entry, EntrySeq, Metadata};
use vstd::string::StringExecFns;

verus! {

broadcast use vstd::std_specs::vec::group_vec_axioms;

/// A value found in a PDF dictionary.
///
/// `Real` holds the decimal rendering of the real number, as written by the
/// reader that decoded the file.
#[derive(Debug)]
pub enum PdfObject {
    Text(Vec<u8>),
    Name(Vec<u8>),
    Integer(i64),
    Real(String),
    Boolean(bool),
    Array(Vec<PdfObject>),
    Dictionary(Vec<(Vec<u8>, PdfObject)>),
    Stream,
    Other,
}

/// What `String::from_utf8_lossy` yields for the given bytes.
pub uninterp spec fn lossy_text_of(b: Seq<u8>) -> Seq<char>;

/// The decimal rendering of an integer.
pub open spec fn decimal_of(n: int) -> Seq<char>
    decreases (if n < 0 { -n + 1 } else { n }),
{
    if n < 0 {
        seq!['-'] + decimal_of(-n)
    } else if n < 10 {
        seq![digit_char(n)]
    } else {
        decimal_of(n / 10).push(digit_char(n % 10))
    }
}

pub open spec fn digit_char(d: int) -> char {
    if d == 0 { '0' }
    else if d == 1 { '1' }
    else if d == 2 { '2' }
    else if d == 3 { '3' }
    else if d == 4 { '4' }
    else if d == 5 { '5' }
    else if d == 6 { '6' }
    else if d == 7 { '7' }
    else if d == 8 { '8' }
    else { '9' }
}

/// What `serde_json::to_string` yields for a JSON object of the given string
/// entries (`None` for an error).
pub uninterp spec fn json_object_of(p: EntrySeq) -> Option<Seq<char>>;

/// Relies on `String::from_utf8_lossy`: a function of the bytes, and on valid
/// UTF-8 the decoded text.
#[verifier::external_body]
fn lossy_text(b: &Vec<u8>) -> (r: String)
    ensures
        r@ == lossy_text_of(b@),
        vstd::utf8::valid_utf8(b@) ==> r@ == vstd::utf8::decode_utf8(b@),
{
    String::from_utf8_lossy(b).into_owned()
}

/// Relies on `ToString` for `i128`: the decimal rendering.
#[verifier::external_body]
pub(crate) fn decimal_text(n: i128) -> (r: String)
    ensures
        r@ == decimal_of(n as int),
{
    n.to_string()
}

/// Relies on `serde_json::to_string` on a `serde_json::Map` of string values.
#[verifier::external_body]
fn json_object_text(p: &Vec<(String, String)>) -> (r: Option<String>)
    ensures
        r is Some <==> json_object_of(crate::metadata::pairs_view(p@)) is Some,
        r matches Some(s) ==> json_object_of(crate::metadata::pairs_view(p@)) == Some(s@),
{
    let m: serde_json::Map<String, serde_json::Value> =
        p.iter().map(|e| (e.0.clone(), serde_json::Value::String(e.1.clone()))).collect();
    serde_json::to_string(&m).ok()
}

/// Text of a value that has a direct rendering.
pub open spec fn scalar_text(o: PdfObject) -> Option<Seq<char>> {
    match o {
        PdfObject::Text(b) => Some(lossy_text_of(b@)),
        PdfObject::Name(b) => Some(lossy_text_of(b@)),
        PdfObject::Integer(i) => Some(decimal_of(i as int)),
        PdfObject::Real(t) => Some(t@),
        PdfObject::Boolean(b) => Some(if b { "true"@ } else { "false"@ }),
        _ => None,
    }
}

/// Text of an array element.
pub open spec fn element_text(o: PdfObject) -> Seq<char> {
    match scalar_text(o) {
        Some(t) => t,
        None => "Unknown Type"@,
    }
}

/// The texts of the first `n` elements, separated by `", "`.
pub open spec fn joined_elements(items: Seq<PdfObject>, n: int) -> Seq<char>
    decreases n,
{
    if n <= 0 {
        Seq::empty()
    } else if n == 1 {
        element_text(items[0])
    } else {
        joined_elements(items, n - 1) + ", "@ + element_text(items[n - 1])
    }
}

/// Text of a dictionary value.
pub open spec fn value_text(o: PdfObject) -> Seq<char>
    decreases o, 0int,
{
    match o {
        PdfObject::Array(items) => "["@ + joined_elements(items@, items@.len() as int) + "]"@,
        PdfObject::Dictionary(d) => match json_object_of(dict_entries(d, d.len() as int)) {
            Some(t) => t,
            None => "Invalid JSON"@,
        },
        PdfObject::Stream => "Stream Data"@,
        PdfObject::Other => "Unknown Type"@,
        _ => element_text(o),
    }
}

/// The map built from the first `n` entries of a dictionary: each key as
/// text, each value rendered, later keys replacing earlier equal ones.
pub open spec fn dict_entries(d: Vec<(Vec<u8>, PdfObject)>, n: int) -> EntrySeq
    decreases d, n,
{
    if n <= 0 || n > d.len() {
        Seq::empty()
    } else {
        insert_all(
            dict_entries(d, n - 1),
            seq![(lossy_text_of(d[n - 1].0@), value_text(d[n - 1].1))],
        )
    }
}

fn element_to_text(o: &PdfObject) -> (r: String)
    ensures
        r@ == element_text(*o),
{
    match o {
        PdfObject::Text(b) => lossy_text(b),
        PdfObject::Name(b) => lossy_text(b),
        PdfObject::Integer(i) => decimal_text(*i as i128),
        PdfObject::Real(t) => t.clone(),
        PdfObject::Boolean(b) => {
            if *b {
                String::from_str("true")
            } else {
                String::from_str("false")
            }
        },
        _ => String::from_str("Unknown Type"),
    }
}

fn array_to_text(items: &Vec<PdfObject>) -> (r: String)
    ensures
        r@ == "["@ + joined_elements(items@, items@.len() as int) + "]"@,
{
    let mut s = String::new();
    let mut i: usize = 0;
    while i < items.len()
        invariant
            i <= items@.len(),
            s@ == joined_elements(items@, i as int),
        decreases items@.len() - i,
    {
        if i > 0 {
            s.append(", ");
        }
        let t = element_to_text(&items[i]);
        s.append(t.as_str());
        i = i + 1;
    }
    let mut r = String::from_str("[");
    r.append(s.as_str());
    r.append("]");
    r
}

impl TextChunker {
    /// Renders a dictionary value as text.
    pub fn value_to_text(&self, o: &PdfObject) -> (r: String)
        ensures
            r@ == value_text(*o),
        decreases *o, 0int,
    {
        match o {
            PdfObject::Array(items) => array_to_text(items),
            PdfObject::Dictionary(d) => {
                let nested = self.dictionary_to_hashmap(d);
                match json_object_text(nested.as_pairs()) {
                    Some(t) => t,
                    None => String::from_str("Invalid JSON"),
                }
            },
            PdfObject::Stream => String::from_str("Stream Data"),
            PdfObject::Other => String::from_str("Unknown Type"),
            _ => element_to_text(o),
        }
    }

    /// The string map of a PDF dictionary: each key decoded as text, each
    /// value rendered by `value_to_text`, a later key replacing an earlier
    /// equal one.
    pub fn dictionary_to_hashmap(&self, dict: &Vec<(Vec<u8>, PdfObject)>) -> (r: Metadata)
        ensures
            r.wf(),
            r@ == dict_entries(*dict, dict@.len() as int),
        decreases *dict, dict@.len(),
    {
        let mut m = Metadata::new();
        let mut i: usize = 0;
        while i < dict.len()
            invariant
                i <= dict@.len(),
                m.wf(),
                m@ == dict_entries(*dict, i as int),
            decreases dict@.len() - i,
        {
            let e = &dict[i];
            let k = lossy_text(&e.0);
            proof {
                assert(decreases_to!(*dict => dict[i as int]));
            }
            let v = self.value_to_text(&e.1);
            m.insert(k, v);
            proof {
                let one = seq![(k@, v@)];
                assert(one.drop_last() =~= Seq::<(Seq<char>, Seq<char>)>::empty());
                assert(insert_all(dict_entries(*dict, i as int), one.drop_last()) == dict_entries(
                    *dict,
                    i as int,
                ));
                assert(one.last() == (k@, v@));
                assert(insert_all(dict_entries(*dict, i as int), one) == insert_entry(
                    dict_entries(*dict, i as int),
                    k@,
                    v@,
                ));
            }
            i = i + 1;
        }
        m
    }
}

} // verus!
