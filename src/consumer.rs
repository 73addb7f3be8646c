use vstd::prelude::*;

use crate::metadata::{insert_all, lookup, pairs_view, EntrySeq, Metadata};
use crate::models::{file_type_of, FileType};
use crate::write_path::{json_fields_of, json_object_fields};

verus! {

/// The broker headers that routing reads.
#[derive(Debug, Clone)]
pub struct MessageHeaders {
    /// `<datasourceId>_<suffix>`.
    pub stream: Option<String>,
    /// Set when the body points at an object in storage.
    pub has_type: bool,
}

/// Where an object to ingest is stored.
#[derive(Debug, Clone)]
pub struct ObjectPointer {
    pub bucket: String,
    pub object: String,
}

/// What the consumer does with a message.
#[derive(Debug)]
pub enum MessageRoute {
    /// Left unacknowledged: no `stream` header, or a body that is not UTF-8.
    Skip,
    /// An inline record, handed to the write path.
    Record { datasource_id: String, text: String },
    /// An uploaded file: the pointer (when the body names one) is fetched,
    /// extracted and chunked, then the body goes to the write path too.
    FileUpload { datasource_id: String, text: String, pointer: Option<ObjectPointer> },
}

/// The abstract route.
pub enum RouteView {
    Skip,
    Record(Seq<char>, Seq<char>),
    FileUpload(Seq<char>, Seq<char>, Option<(Seq<char>, Seq<char>)>),
}

pub open spec fn route_view(r: MessageRoute) -> RouteView {
    match r {
        MessageRoute::Skip => RouteView::Skip,
        MessageRoute::Record { datasource_id, text } => RouteView::Record(datasource_id@, text@),
        MessageRoute::FileUpload { datasource_id, text, pointer } => RouteView::FileUpload(
            datasource_id@,
            text@,
            match pointer {
                Some(p) => Some((p.bucket@, p.object@)),
                None => None,
            },
        ),
    }
}

/// `p` is the part of `s` before its first `_` (all of `s` when it has none).
pub open spec fn is_stream_prefix(s: Seq<char>, p: Seq<char>) -> bool {
    &&& p.len() <= s.len()
    &&& p == s.take(p.len() as int)
    &&& p.len() < s.len() ==> s[p.len() as int] == '_'
    &&& forall|j: int| 0 <= j < p.len() ==> p[j] != '_'
}

/// `e` is what follows the last `.` of `s`.
pub open spec fn is_extension(s: Seq<char>, e: Seq<char>) -> bool {
    &&& e.len() < s.len()
    &&& s[s.len() - e.len() - 1] == '.'
    &&& e == s.skip(s.len() - e.len())
    &&& forall|j: int| 0 <= j < e.len() ==> e[j] != '.'
}

/// The object pointer that a JSON body names, under `bucket` and `object`.
pub open spec fn pointer_spec(text: Seq<char>) -> Option<(Seq<char>, Seq<char>)> {
    match json_fields_of(text) {
        Some(f) => {
            let m = insert_all(Seq::empty(), f);
            match (lookup(m, "bucket"@), lookup(m, "object"@)) {
                (Some(b), Some(o)) => Some((b, o)),
                _ => None,
            }
        },
        None => None,
    }
}

/// Relies on `String::from_utf8`: it succeeds exactly on valid UTF-8.
#[verifier::external_body]
fn decode_body(b: &Vec<u8>) -> (r: Option<String>)
    ensures
        r is Some <==> vstd::utf8::valid_utf8(b@),
        r matches Some(s) ==> s@ == vstd::utf8::decode_utf8(b@),
{
    String::from_utf8(b.clone()).ok()
}

/// The datasource id of a `stream` header: its part before the first `_`.
pub fn datasource_id_of(stream: &String) -> (r: String)
    ensures
        is_stream_prefix(stream@, r@),
{
    let s = stream.as_str();
    let n = s.unicode_len();
    let mut i: usize = 0;
    while i < n && s.get_char(i) != '_'
        invariant
            n == stream@.len(),
            s@ == stream@,
            i <= n,
            forall|j: int| 0 <= j < i ==> stream@[j] != '_',
        decreases n - i,
    {
        i = i + 1;
    }
    let r = s.substring_char(0, i).to_owned();
    assert(r@ =~= stream@.take(i as int));
    r
}

/// What follows the last `.` of an object name, if it has a `.`.
pub fn extension_of(name: &String) -> (r: Option<String>)
    ensures
        match r {
            Some(e) => is_extension(name@, e@),
            None => forall|j: int| 0 <= j < name@.len() ==> name@[j] != '.',
        },
{
    let s = name.as_str();
    let n = s.unicode_len();
    let mut i: usize = n;
    while i > 0
        invariant
            n == name@.len(),
            s@ == name@,
            i <= n,
            forall|j: int| i <= j < n ==> name@[j] != '.',
        decreases i,
    {
        if s.get_char(i - 1) == '.' {
            let e = s.substring_char(i, n).to_owned();
            assert(e@ =~= name@.skip(i as int));
            return Some(e);
        }
        i = i - 1;
    }
    None
}

/// The file type that an object name's extension selects (`UNKNOWN` without
/// one).
pub fn file_type_of_object(name: &String) -> (r: FileType)
    ensures
        match extension_of_spec(name@) {
            Some(e) => r == file_type_of(e),
            None => r == FileType::UNKNOWN,
        },
{
    match extension_of(name) {
        Some(e) => {
            proof {
                lemma_extension_unique(name@, e@);
            }
            FileType::from(e)
        },
        None => {
            proof {
                if extension_of_spec(name@) is Some {
                    let e = extension_of_spec(name@)->0;
                    assert(name@[name@.len() - e.len() - 1] == '.');
                }
            }
            FileType::UNKNOWN
        },
    }
}

/// The extension of a name, if any.
pub open spec fn extension_of_spec(s: Seq<char>) -> Option<Seq<char>> {
    if exists|e: Seq<char>| is_extension(s, e) {
        Some(choose|e: Seq<char>| is_extension(s, e))
    } else {
        None
    }
}

proof fn lemma_extension_unique(s: Seq<char>, e: Seq<char>)
    requires
        is_extension(s, e),
    ensures
        extension_of_spec(s) == Some(e),
{
    let f = choose|f: Seq<char>| is_extension(s, f);
    assert(is_extension(s, f));
    if f.len() < e.len() {
        let k = e.len() - f.len() - 1;
        assert(e[k] == s[s.len() - e.len() + k]);
    } else if e.len() < f.len() {
        let k = f.len() - e.len() - 1;
        assert(f[k] == s[s.len() - f.len() + k]);
    }
    assert(e =~= f);
}

/// Reads the object pointer named by a JSON body.
pub fn object_pointer(text: &String) -> (r: Option<ObjectPointer>)
    ensures
        match r {
            Some(p) => pointer_spec(text@) == Some((p.bucket@, p.object@)),
            None => pointer_spec(text@) is None,
        },
{
    match json_object_fields(text) {
        None => None,
        Some(f) => {
            let m = Metadata::from_pairs(f);
            let b = m.get(&String::from_str("bucket"));
            let o = m.get(&String::from_str("object"));
            match (b, o) {
                (Some(b), Some(o)) => Some(ObjectPointer { bucket: b.clone(), object: o.clone() }),
                _ => None,
            }
        },
    }
}

/// The route of a message.
pub open spec fn route_spec(headers: MessageHeaders, body: Seq<u8>, ds: Seq<char>) -> RouteView {
    match headers.stream {
        None => RouteView::Skip,
        Some(_) => if !vstd::utf8::valid_utf8(body) {
            RouteView::Skip
        } else {
            let text = vstd::utf8::decode_utf8(body);
            if headers.has_type {
                RouteView::FileUpload(ds, text, pointer_spec(text))
            } else {
                RouteView::Record(ds, text)
            }
        },
    }
}

/// Classifies a message by its headers and body. The datasource id is the
/// `stream` header's part before its first `_`.
pub fn classify_message(headers: &MessageHeaders, body: &Vec<u8>) -> (r: MessageRoute)
    ensures
        headers.stream matches Some(s) ==> exists|ds: Seq<char>|
            is_stream_prefix(s@, ds) && route_view(r) == route_spec(*headers, body@, ds),
        headers.stream is None ==> route_view(r) == RouteView::Skip,
{
    let stream = match &headers.stream {
        None => {
            return MessageRoute::Skip;
        },
        Some(s) => s,
    };
    let ds = datasource_id_of(stream);
    let r = match decode_body(body) {
        None => MessageRoute::Skip,
        Some(text) => {
            if headers.has_type {
                let pointer = object_pointer(&text);
                MessageRoute::FileUpload { datasource_id: ds, text, pointer }
            } else {
                MessageRoute::Record { datasource_id: ds, text }
            }
        },
    };
    assert(route_view(r) == route_spec(*headers, body@, ds@));
    r
}

/// Whether a message is acknowledged once processed: every routed message
/// is, whatever the write path reported; a skipped one is not.
pub fn acknowledges(route: &MessageRoute) -> (r: bool)
    ensures
        r == !(route_view(*route) is Skip),
{
    match route {
        MessageRoute::Skip => false,
        _ => true,
    }
}

/// Whether a message fetches from object storage.
pub fn fetches_object(route: &MessageRoute) -> (r: bool)
    ensures
        r == (route_view(*route) matches RouteView::FileUpload(_, _, p) && p is Some),
{
    match route {
        MessageRoute::FileUpload { pointer: Some(_), .. } => true,
        _ => false,
    }
}

} // verus!
