use std::collections::hash_map::DefaultHasher;
use std::hash::{Hash, Hasher};

use vector_db_proxy::chunking::{
    ChunkingError, ChunkingStrategy, EmbeddingModel, ExtractionError, FontInfo, TextChunker,
};
use vector_db_proxy::consumer::{
    acknowledges, classify_message, datasource_id_of, extension_of, fetches_object,
    file_type_of_object, object_pointer, MessageHeaders, MessageRoute,
};
use vector_db_proxy::metadata::Metadata;
use vector_db_proxy::models::{Document, FileType};
use vector_db_proxy::pdf::PdfObject;
use vector_db_proxy::queue::{EmbeddingQueue, EmbeddingQueueItem};
use vector_db_proxy::write_path::{
    build_point, make_chunk_point, make_point, prepare_from_fields, prepare_record,
    upsert_outcome, usage_counter_key, DatasourceConfig, ModelParameters, WriteError,
};

fn s(x: &str) -> String {
    x.to_string()
}

fn get(m: &Metadata, k: &str) -> Option<String> {
    m.get(&s(k)).cloned()
}

fn model(max: usize) -> EmbeddingModel {
    EmbeddingModel { name: s("modelA"), embedding_length: 4, max_chunk_chars: max }
}

fn config_a() -> DatasourceConfig {
    DatasourceConfig {
        model: Some(ModelParameters { model: s("modelA"), embedding_length: 4 }),
        text_field: Some(s("text")),
    }
}

fn hash_of(d: &Document) -> u64 {
    let mut h = DefaultHasher::new();
    d.hash(&mut h);
    h.finish()
}

#[test]
fn metadata_insert_replaces_and_remove_takes_out() {
    let mut m = Metadata::new();
    m.insert(s("a"), s("1"));
    m.insert(s("b"), s("2"));
    m.insert(s("a"), s("3"));
    assert_eq!(m.len(), 2);
    assert_eq!(get(&m, "a"), Some(s("3")));
    assert_eq!(m.remove(&s("a")), Some(s("3")));
    assert_eq!(get(&m, "a"), None);
    assert_eq!(m.remove(&s("zz")), None);
    assert_eq!(m.len(), 1);
}

#[test]
fn file_type_mapping() {
    assert_eq!(FileType::from(s("pdf")), FileType::PDF);
    assert_eq!(FileType::from(s("txt")), FileType::TXT);
    for t in ["docx", "pptx", "xlsx", "odt", "ods", "odp"] {
        assert_eq!(FileType::from(s(t)), FileType::DOCX);
    }
    assert_eq!(FileType::from(s("csv")), FileType::UNKNOWN);
    assert_eq!(FileType::from(s("PDF")), FileType::UNKNOWN);
    assert_eq!(FileType::from(s("")), FileType::UNKNOWN);
}

#[test]
fn file_type_renders_canonical_token() {
    assert_eq!(FileType::PDF.to_string(), "pdf");
    assert_eq!(FileType::TXT.to_string(), "txt");
    assert_eq!(FileType::DOCX.to_string(), "docx");
    assert_eq!(FileType::UNKNOWN.to_string(), "unknown");
    for t in [FileType::PDF, FileType::TXT, FileType::DOCX] {
        assert_eq!(FileType::from(t.to_string()), t);
    }
}

#[test]
fn documents_equal_by_content_alone() {
    let mut m = Metadata::new();
    m.insert(s("k"), s("v"));
    let a = Document::new(s("same text"), Some(m), None);
    let b = Document::new(s("same text"), None, Some(vec![1, 2]));
    let c = Document::new(s("other text"), None, None);
    assert!(a == b);
    assert_eq!(hash_of(&a), hash_of(&b));
    assert!(a != c);
}

#[test]
fn pdf_with_text_counts_bytes() {
    let chunker = TextChunker::default();
    let pages = vec![
        Some(vec![
            FontInfo { base_font: s("Helvetica"), encoding: Some(s("WinAnsiEncoding")) },
            FontInfo { base_font: s("Symbol"), encoding: None },
        ]),
        None,
    ];
    let fonts = chunker.detect_pdf_fonts(&pages);
    assert_eq!(get(&fonts, "Helvetica"), Some(s("WinAnsiEncoding")));
    assert_eq!(get(&fonts, "Symbol"), Some(s("Unknown")));
    let (text, meta) = chunker.extract_text_from_pdf(fonts, Ok(s("héllo"))).unwrap();
    assert_eq!(text, "héllo");
    assert_eq!(get(&meta, "character count"), Some(s("6")));
    assert_eq!(get(&meta, "Helvetica"), Some(s("WinAnsiEncoding")));
}

#[test]
fn pdf_without_text_is_an_error() {
    let chunker = TextChunker::default();
    let r = chunker.extract_text_from_pdf(Metadata::new(), Ok(String::new()));
    assert!(matches!(r, Err(ExtractionError::EmptyText)));
    let r = chunker.extract_text_from_pdf(Metadata::new(), Err(s("broken xref")));
    assert!(matches!(r, Err(ExtractionError::Failed(m)) if m == "broken xref"));
}

#[test]
fn txt_and_docx_extraction() {
    let chunker = TextChunker::default();
    let (t, m) = chunker.extract_text_from_txt(Ok(s("plain words"))).unwrap();
    assert_eq!(t, "plain words");
    assert_eq!(m.len(), 0);
    let (t, m) = chunker.extract_text_from_docx(Ok(s("slide text"))).unwrap();
    assert_eq!(t, "slide text");
    assert_eq!(m.len(), 0);
    let r = chunker.extract_text_from_txt(Err(s("No such file")));
    assert!(matches!(r, Err(ExtractionError::Failed(m)) if m == "No such file"));
}

#[test]
fn dictionary_rendering() {
    let chunker = TextChunker::default();
    let dict = vec![
        (b"Type".to_vec(), PdfObject::Name(b"Page".to_vec())),
        (b"Rotate".to_vec(), PdfObject::Integer(-90)),
        (b"UserUnit".to_vec(), PdfObject::Real(s("1.5"))),
        (b"Hidden".to_vec(), PdfObject::Boolean(false)),
        (
            b"MediaBox".to_vec(),
            PdfObject::Array(vec![
                PdfObject::Integer(0),
                PdfObject::Integer(612),
                PdfObject::Text(b"x".to_vec()),
                PdfObject::Stream,
            ]),
        ),
        (
            b"Info".to_vec(),
            PdfObject::Dictionary(vec![
                (b"b".to_vec(), PdfObject::Integer(2)),
                (b"a".to_vec(), PdfObject::Text(b"one".to_vec())),
            ]),
        ),
        (b"Contents".to_vec(), PdfObject::Stream),
        (b"Parent".to_vec(), PdfObject::Other),
        (vec![0xff], PdfObject::Boolean(true)),
    ];
    let m = chunker.dictionary_to_hashmap(&dict);
    assert_eq!(m.len(), 9);
    assert_eq!(get(&m, "Type"), Some(s("Page")));
    assert_eq!(get(&m, "Rotate"), Some(s("-90")));
    assert_eq!(get(&m, "UserUnit"), Some(s("1.5")));
    assert_eq!(get(&m, "Hidden"), Some(s("false")));
    assert_eq!(get(&m, "MediaBox"), Some(s("[0, 612, x, Unknown Type]")));
    assert_eq!(get(&m, "Info"), Some(s("{\"a\":\"one\",\"b\":\"2\"}")));
    assert_eq!(get(&m, "Contents"), Some(s("Stream Data")));
    assert_eq!(get(&m, "Parent"), Some(s("Unknown Type")));
    assert_eq!(get(&m, "\u{fffd}"), Some(s("true")));
}

fn joined(docs: &[Document]) -> String {
    docs.iter().map(|d| d.page_content.as_str()).collect::<Vec<_>>().concat()
}

#[test]
fn semantic_chunks_end_at_sentences() {
    let chunker = TextChunker::default();
    let text = s("One. Two is longer. Three");
    let docs = chunker
        .chunk(text.clone(), None, ChunkingStrategy::SEMANTIC_CHUNKING, None, model(100))
        .unwrap();
    let parts: Vec<&str> = docs.iter().map(|d| d.page_content.as_str()).collect();
    assert_eq!(parts, vec!["One.", " Two is longer.", " Three"]);
    assert_eq!(joined(&docs), text);
}

#[test]
fn semantic_chunks_respect_the_size_limit() {
    let chunker = TextChunker::default();
    let docs = chunker
        .chunk(s("abcdefg. hi"), None, ChunkingStrategy::SEMANTIC_CHUNKING, None, model(3))
        .unwrap();
    let parts: Vec<&str> = docs.iter().map(|d| d.page_content.as_str()).collect();
    assert_eq!(parts, vec!["abc", "def", "g.", " hi"]);
}

#[test]
fn character_chunks_are_fixed_windows() {
    let chunker = TextChunker::default();
    let mut m = Metadata::new();
    m.insert(s("source"), s("a.txt"));
    let text = s("héllo, wörld");
    let docs = chunker
        .chunk(text.clone(), Some(m), ChunkingStrategy::CHARACTER_CHUNKING, None, model(5))
        .unwrap();
    let parts: Vec<&str> = docs.iter().map(|d| d.page_content.as_str()).collect();
    assert_eq!(parts, vec!["héllo", ", wör", "ld"]);
    assert_eq!(joined(&docs), text);
    for d in &docs {
        assert_eq!(get(d.metadata.as_ref().unwrap(), "source"), Some(s("a.txt")));
        assert!(d.embedding_vector.is_none());
    }
}

#[test]
fn chunking_token_sets_the_boundary() {
    let chunker = TextChunker::default();
    let docs = chunker
        .chunk(s("a;b;c"), None, ChunkingStrategy::CHARACTER_CHUNKING, Some(s(";")), model(0))
        .unwrap();
    let parts: Vec<&str> = docs.iter().map(|d| d.page_content.as_str()).collect();
    assert_eq!(parts, vec!["a", ";", "b", ";", "c"]);
    let docs = chunker
        .chunk(s("a;b;c"), None, ChunkingStrategy::SEMANTIC_CHUNKING, Some(s(";")), model(10))
        .unwrap();
    let parts: Vec<&str> = docs.iter().map(|d| d.page_content.as_str()).collect();
    assert_eq!(parts, vec!["a;", "b;", "c"]);
}

#[test]
fn empty_text_yields_chunking_error() {
    let chunker = TextChunker::default();
    let r = chunker.chunk(String::new(), None, ChunkingStrategy::SEMANTIC_CHUNKING, None, model(10));
    assert!(matches!(r, Err(ChunkingError::NoChunks)));
}

fn item(ds: &str, p: &str) -> EmbeddingQueueItem {
    EmbeddingQueueItem { datasource_id: s(ds), payload: s(p) }
}

#[test]
fn queue_is_fifo() {
    let mut q = EmbeddingQueue::new();
    assert!(q.dequeue().is_none());
    q.enqueue(item("d", "1"));
    q.enqueue(item("d", "2"));
    assert_eq!(q.len(), 2);
    assert_eq!(q.dequeue().unwrap().payload, "1");
    assert_eq!(q.dequeue().unwrap().payload, "2");
    assert!(q.is_empty());
}

#[test]
fn interleaved_producers_drain_completely_in_order() {
    let n = 3;
    let k = 4;
    let mut q = EmbeddingQueue::new();
    for round in 0..k {
        for p in 0..n {
            q.enqueue(item(&format!("p{}", p), &format!("{}", round)));
        }
    }
    let out = q.drain();
    assert_eq!(out.len(), n * k);
    assert!(q.is_empty());
    for p in 0..n {
        let mine: Vec<String> = out
            .iter()
            .filter(|i| i.datasource_id == format!("p{}", p))
            .map(|i| i.payload.clone())
            .collect();
        let expected: Vec<String> = (0..k).map(|r| format!("{}", r)).collect();
        assert_eq!(mine, expected);
    }
}

#[test]
fn csv_rows_fan_out_to_queue() {
    let chunker = TextChunker::default();
    let mut q = EmbeddingQueue::new();
    let rows = vec![
        Ok(vec![s("1"), s("alice"), s("x")]),
        Err(s("bad row")),
        Ok(vec![s("2"), s("bob"), s("y")]),
        Ok(vec![s("3")]),
    ];
    chunker.extract_text_from_csv(rows, &s("ds9"), &mut q);
    let out = q.drain();
    let payloads: Vec<&str> = out.iter().map(|i| i.payload.as_str()).collect();
    assert_eq!(payloads, vec!["1, alice, x", "2, bob, y", "3"]);
    assert!(out.iter().all(|i| i.datasource_id == "ds9"));
}

#[test]
fn tabular_source_yields_three_points_and_three_increments() {
    let chunker = TextChunker::default();
    let mut q = EmbeddingQueue::new();
    let rows = vec![
        Ok(vec![s("a"), s("1")]),
        Ok(vec![s("b"), s("2")]),
        Ok(vec![s("c"), s("3")]),
    ];
    chunker.extract_text_from_csv(rows, &s("ds1"), &mut q);
    assert_eq!(q.len(), 3);
    let config = DatasourceConfig {
        model: Some(ModelParameters { model: s("modelA"), embedding_length: 4 }),
        text_field: Some(s("text")),
    };
    let mut points = 0;
    let mut counter: u64 = 0;
    while let Some(it) = q.dequeue() {
        assert_eq!(it.datasource_id, "ds1");
        let record = format!("{{\"text\":\"{}\"}}", it.payload);
        let prepared = prepare_record(&it.datasource_id, &record, &config).unwrap();
        let point = make_point(&prepared, vec![0, 0, 0, 0]).unwrap();
        assert_eq!(get(&point.payload, "page_content"), Some(it.payload.clone()));
        points += 1;
        let (ok, inc) = upsert_outcome(&Ok(true));
        assert!(ok);
        counter += inc;
    }
    assert_eq!(points, 3);
    assert_eq!(counter, 3);
}

#[test]
fn write_path_builds_one_point() {
    let prepared = prepare_record(&s("ds1"), &s("{\"text\":\"hello world\"}"), &config_a()).unwrap();
    assert_eq!(prepared.text, "hello world");
    assert_eq!(prepared.vector_length, 4);
    assert_eq!(prepared.model_name, "modelA");
    assert_eq!(prepared.datasource_id, "ds1");
    let vector: Vec<u32> = [0.5f32, -1.0, 0.25, 2.0].iter().map(|f| f.to_bits()).collect();
    let point = make_point(&prepared, vector.clone()).unwrap();
    assert_eq!(point.vector.len(), 4);
    assert_eq!(point.vector, vector);
    assert_eq!(point.id.len(), 36);
    assert_eq!(get(&point.payload, "page_content"), Some(s("hello world")));
    assert_eq!(get(&point.payload, "text"), None);
    assert_eq!(point.payload.len(), 1);
    assert_eq!(upsert_outcome(&Ok(true)), (true, 1));
    assert_eq!(usage_counter_key(), "upserted_points");
}

#[test]
fn write_path_flattens_other_members() {
    let prepared = prepare_record(
        &s("ds1"),
        &s("{\"text\":\"hi\",\"n\":3,\"ok\":true,\"tag\":\"x\"}"),
        &config_a(),
    )
    .unwrap();
    assert_eq!(get(&prepared.metadata, "n"), Some(s("3")));
    assert_eq!(get(&prepared.metadata, "ok"), Some(s("true")));
    assert_eq!(get(&prepared.metadata, "tag"), Some(s("x")));
    assert_eq!(get(&prepared.metadata, "page_content"), Some(s("hi")));
}

#[test]
fn point_ids_are_fresh() {
    let prepared = prepare_record(&s("ds1"), &s("{\"text\":\"a\"}"), &config_a()).unwrap();
    let first = make_point(&prepared, vec![1, 2, 3, 4]).unwrap();
    let second = make_point(&prepared, vec![1, 2, 3, 4]).unwrap();
    assert_ne!(first.id, second.id);
}

#[test]
fn write_path_errors() {
    let r = prepare_record(&s("ds1"), &s("not json"), &config_a());
    assert!(matches!(r, Err(WriteError::InvalidRecord)));
    let r = prepare_record(&s("ds1"), &s("[1,2]"), &config_a());
    assert!(matches!(r, Err(WriteError::InvalidRecord)));
    let no_model = DatasourceConfig { model: None, text_field: Some(s("text")) };
    let r = prepare_record(&s("ds1"), &s("{\"text\":\"a\"}"), &no_model);
    assert!(matches!(r, Err(WriteError::Lookup)));
    let no_field = DatasourceConfig { text_field: None, ..config_a() };
    let r = prepare_record(&s("ds1"), &s("{\"text\":\"a\"}"), &no_field);
    assert!(matches!(r, Err(WriteError::Lookup)));
    let r = prepare_record(&s("ds1"), &s("{\"body\":\"a\"}"), &config_a());
    assert!(matches!(r, Err(WriteError::MissingTextField)));
    let prepared = prepare_from_fields(&s("ds1"), Some(vec![(s("text"), s("a"))]), &config_a()).unwrap();
    let r = make_point(&prepared, vec![1, 2, 3]);
    assert!(matches!(r, Err(WriteError::DimensionMismatch)));
    let r = build_point(s("id"), vec![1], Metadata::new(), 2);
    assert!(matches!(r, Err(WriteError::DimensionMismatch)));
    assert_eq!(upsert_outcome(&Ok(false)), (false, 0));
    assert_eq!(upsert_outcome(&Err(s("dimension mismatch"))), (false, 0));
}

#[test]
fn chunk_points_carry_text_under_page_content() {
    let mut m = Metadata::new();
    m.insert(s("Helvetica"), s("Unknown"));
    let doc = Document::new(s("chunk one"), Some(m), None);
    let p = make_chunk_point(&doc, vec![7, 8], 2).unwrap();
    assert_eq!(get(&p.payload, "page_content"), Some(s("chunk one")));
    assert_eq!(get(&p.payload, "Helvetica"), Some(s("Unknown")));
    assert!(make_chunk_point(&doc, vec![7], 2).is_err());
}

#[test]
fn stream_header_prefix() {
    assert_eq!(datasource_id_of(&s("ds1_abc")), "ds1");
    assert_eq!(datasource_id_of(&s("ds1_abc_def")), "ds1");
    assert_eq!(datasource_id_of(&s("plain")), "plain");
    assert_eq!(datasource_id_of(&s("_x")), "");
}

#[test]
fn end_to_end_inline_record() {
    let headers = MessageHeaders { stream: Some(s("ds1_abc")), has_type: false };
    let route = classify_message(&headers, &b"{\"text\":\"hello world\"}".to_vec());
    assert!(acknowledges(&route));
    assert!(!fetches_object(&route));
    let (ds, text) = match route {
        MessageRoute::Record { datasource_id, text } => (datasource_id, text),
        _ => panic!("expected an inline record"),
    };
    assert_eq!(ds, "ds1");
    let prepared = prepare_record(&ds, &text, &config_a()).unwrap();
    let point = make_point(&prepared, vec![0, 0, 0, 0]).unwrap();
    assert_eq!(point.vector.len(), 4);
    assert_eq!(get(&point.payload, "page_content"), Some(s("hello world")));
    assert_eq!(upsert_outcome(&Ok(true)), (true, 1));
}

#[test]
fn messages_without_stream_or_utf8_are_skipped() {
    let headers = MessageHeaders { stream: None, has_type: false };
    let route = classify_message(&headers, &b"{}".to_vec());
    assert!(matches!(route, MessageRoute::Skip));
    assert!(!acknowledges(&route));
    let headers = MessageHeaders { stream: Some(s("ds1_x")), has_type: false };
    let route = classify_message(&headers, &vec![0xc3, 0x28]);
    assert!(matches!(route, MessageRoute::Skip));
}

#[test]
fn file_upload_messages_carry_the_pointer() {
    let headers = MessageHeaders { stream: Some(s("ds2_up")), has_type: true };
    let body = b"{\"bucket\":\"docs\",\"object\":\"reports/q1.PDF.pdf\"}".to_vec();
    let route = classify_message(&headers, &body);
    assert!(acknowledges(&route));
    assert!(fetches_object(&route));
    match route {
        MessageRoute::FileUpload { datasource_id, pointer: Some(p), .. } => {
            assert_eq!(datasource_id, "ds2");
            assert_eq!(p.bucket, "docs");
            assert_eq!(p.object, "reports/q1.PDF.pdf");
            assert_eq!(file_type_of_object(&p.object), FileType::PDF);
        }
        _ => panic!("expected a file upload with a pointer"),
    }
    assert!(object_pointer(&s("{\"bucket\":\"docs\"}")).is_none());
}

#[test]
fn object_extensions() {
    assert_eq!(extension_of(&s("a.b.docx")), Some(s("docx")));
    assert_eq!(extension_of(&s("noext")), None);
    assert_eq!(extension_of(&s("trailing.")), Some(s("")));
    assert_eq!(file_type_of_object(&s("notes.txt")), FileType::TXT);
    assert_eq!(file_type_of_object(&s("sheet.ods")), FileType::DOCX);
    assert_eq!(file_type_of_object(&s("noext")), FileType::UNKNOWN);
}

#[test]
fn extraction_dispatches_on_file_type() {
    let chunker = TextChunker::default();
    let (t, m) = chunker.extract_text(FileType::PDF, Metadata::new(), Ok(s("abc"))).unwrap();
    assert_eq!(t, "abc");
    assert_eq!(get(&m, "character count"), Some(s("3")));
    let (t, m) = chunker.extract_text(FileType::DOCX, Metadata::new(), Ok(s("doc"))).unwrap();
    assert_eq!((t.as_str(), m.len()), ("doc", 0));
    let (t, _) = chunker.extract_text(FileType::TXT, Metadata::new(), Ok(s("txt"))).unwrap();
    assert_eq!(t, "txt");
    let r = chunker.extract_text(FileType::UNKNOWN, Metadata::new(), Ok(s("x")));
    assert!(matches!(r, Err(ExtractionError::Unsupported)));
    let r = chunker.extract_text(FileType::PDF, Metadata::new(), Ok(String::new()));
    assert!(matches!(r, Err(ExtractionError::EmptyText)));
}
