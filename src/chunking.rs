use vstd::prelude::*;

use crate::metadata::{insert_all, insert_entry, opt_view, EntrySeq, Metadata};
use crate::models::{Document, FileType};
use crate::pdf::{decimal_of, decimal_text};

verus! {

/// Why a document yielded no text.
#[derive(Debug, Clone, PartialEq, Eq)]
pub enum ExtractionError {
    /// The source was read but holds no text.
    EmptyText,
    /// The source could not be read or decoded; the reader's message.
    Failed(String),
    /// The file type has no extractor.
    Unsupported,
}

/// Why text yielded no chunks.
#[derive(Debug, Clone, Copy, PartialEq, Eq, Structural)]
pub enum ChunkingError {
    NoChunks,
}

/// How text is split into chunks.
///
/// `SEMANTIC_CHUNKING` ends a chunk right after each boundary character (the
/// first character of the chunking token, `.` by default) and at the size
/// limit. `CHARACTER_CHUNKING` cuts fixed windows at the size limit, or, when
/// a chunking token is given, also after each of its first character.
#[allow(non_camel_case_types)]
#[derive(Debug, Clone, Copy, PartialEq, Eq, Structural)]
pub enum ChunkingStrategy {
    SEMANTIC_CHUNKING,
    CHARACTER_CHUNKING,
}

/// The model that the chunks are embedded with.
#[derive(Debug, Clone)]
pub struct EmbeddingModel {
    pub name: String,
    /// Length of the vectors the model returns.
    pub embedding_length: usize,
    /// Largest chunk, in characters, that the model takes (0 counts as 1).
    pub max_chunk_chars: usize,
}

/// A font found in a page's resources.
#[derive(Debug, Clone)]
pub struct FontInfo {
    pub base_font: String,
    pub encoding: Option<String>,
}

/// The size limit used for chunks.
pub open spec fn effective_max(m: usize) -> int {
    if m == 0 { 1 } else { m as int }
}

/// The boundary character that a strategy and an optional token select.
pub open spec fn boundary_of(strategy: ChunkingStrategy, token: Option<Seq<char>>) -> Option<char> {
    match token {
        Some(t) if t.len() > 0 => Some(t[0]),
        _ => match strategy {
            ChunkingStrategy::SEMANTIC_CHUNKING => Some('.'),
            ChunkingStrategy::CHARACTER_CHUNKING => None,
        },
    }
}

pub open spec fn token_view(t: Option<String>) -> Option<Seq<char>> {
    match t {
        Some(s) => Some(s@),
        None => None,
    }
}

/// Length of the chunk that starts at `i`: up to and including the first
/// boundary character before `limit`, else `limit`.
pub open spec fn scan_len(t: Seq<char>, b: Option<char>, i: int, limit: int) -> int
    decreases limit - i,
{
    if i >= limit {
        limit
    } else if b == Some(t[i]) {
        i + 1
    } else {
        scan_len(t, b, i + 1, limit)
    }
}

pub open spec fn first_chunk_len(t: Seq<char>, b: Option<char>, max: int) -> int {
    scan_len(t, b, 0, if t.len() < max { t.len() as int } else { max })
}

proof fn lemma_scan_len_bounds(t: Seq<char>, b: Option<char>, i: int, limit: int)
    requires
        0 <= i < limit,
    ensures
        i < scan_len(t, b, i, limit) <= limit,
    decreases limit - i,
{
    if b != Some(t[i]) {
        if i + 1 < limit {
            lemma_scan_len_bounds(t, b, i + 1, limit);
        } else {
            assert(scan_len(t, b, i + 1, limit) == limit);
        }
    }
}

/// The chunks of `t`, in order.
pub open spec fn split_text(t: Seq<char>, b: Option<char>, max: int) -> Seq<Seq<char>>
    decreases t.len(),
{
    if t.len() == 0 || max < 1 {
        Seq::empty()
    } else {
        let l = first_chunk_len(t, b, max);
        if 0 < l <= t.len() {
            seq![t.take(l)] + split_text(t.skip(l), b, max)
        } else {
            Seq::empty()
        }
    }
}

/// Joining chunks by plain concatenation.
pub open spec fn concat_all(c: Seq<Seq<char>>) -> Seq<char>
    decreases c.len(),
{
    if c.len() == 0 {
        Seq::empty()
    } else {
        c[0] + concat_all(c.skip(1))
    }
}

/// Splitting never loses, reorders or repeats text: the chunks of a
/// non-empty text form a non-empty sequence of non-empty pieces of at most
/// the size limit, whose concatenation is the text.
pub proof fn lemma_chunks_reassemble(t: Seq<char>, b: Option<char>, max: int)
    requires
        max >= 1,
    ensures
        t.len() > 0 ==> split_text(t, b, max).len() > 0,
        t.len() == 0 ==> split_text(t, b, max).len() == 0,
        concat_all(split_text(t, b, max)) == t,
        forall|i: int|
            0 <= i < split_text(t, b, max).len() ==> 0 < #[trigger] split_text(t, b, max)[i].len()
                <= max,
    decreases t.len(),
{
    if t.len() > 0 {
        let l = first_chunk_len(t, b, max);
        let lim = if t.len() < max { t.len() as int } else { max };
        lemma_scan_len_bounds(t, b, 0, lim);
        let rest = split_text(t.skip(l), b, max);
        lemma_chunks_reassemble(t.skip(l), b, max);
        let c = seq![t.take(l)] + rest;
        assert(c.skip(1) =~= rest);
        assert(t.take(l) + t.skip(l) =~= t);
        assert forall|i: int| 0 <= i < c.len() implies 0 < #[trigger] c[i].len() <= max by {
            if i > 0 {
                assert(c[i] == rest[i - 1]);
            }
        }
    } else {
        assert(concat_all(Seq::<Seq<char>>::empty()) =~= t);
    }
}

/// The metadata pairs of one page's fonts.
pub open spec fn page_font_pairs(fonts: Seq<FontInfo>) -> EntrySeq {
    fonts.map_values(|f: FontInfo| (f.base_font@, font_encoding(f)))
}

pub open spec fn font_encoding(f: FontInfo) -> Seq<char> {
    match f.encoding {
        Some(e) => e@,
        None => "Unknown"@,
    }
}

/// The font pairs of the first `n` pages; a page without resources adds none.
pub open spec fn font_pairs(pages: Seq<Option<Vec<FontInfo>>>, n: int) -> EntrySeq
    decreases n,
{
    if n <= 0 {
        Seq::empty()
    } else {
        font_pairs(pages, n - 1) + match pages[n - 1] {
            Some(fs) => page_font_pairs(fs@),
            None => Seq::empty(),
        }
    }
}

/// What extracting a PDF yields, given its font map and the text pass.
pub open spec fn pdf_result(fonts: EntrySeq, text: Result<String, String>) -> Result<
    (Seq<char>, EntrySeq),
    ExtractionError,
> {
    match text {
        Err(e) => Err(ExtractionError::Failed(e)),
        Ok(t) => if t@.len() == 0 {
            Err(ExtractionError::EmptyText)
        } else {
            Ok(
                (
                    t@,
                    insert_entry(
                        fonts,
                        "character count"@,
                        decimal_of((vstd::utf8::encode_utf8(t@).len() as usize) as int),
                    ),
                ),
            )
        },
    }
}

pub open spec fn result_view(r: Result<(String, Metadata), ExtractionError>) -> Result<
    (Seq<char>, EntrySeq),
    ExtractionError,
> {
    match r {
        Ok((t, m)) => Ok((t@, m@)),
        Err(e) => Err(e),
    }
}

/// What reading a plain source yields: its text and an empty map.
pub open spec fn plain_result(read: Result<String, String>) -> Result<
    (Seq<char>, EntrySeq),
    ExtractionError,
> {
    match read {
        Ok(t) => Ok((t@, Seq::empty())),
        Err(e) => Err(ExtractionError::Failed(e)),
    }
}

/// Extraction and chunking of source documents.
pub struct TextChunker;

impl TextChunker {
    pub fn default() -> (r: TextChunker) {
        TextChunker
    }

    /// The map from each font's name to its encoding (`Unknown` where none is
    /// given), over every page; a page without resources adds nothing.
    pub fn detect_pdf_fonts(&self, pages: &Vec<Option<Vec<FontInfo>>>) -> (r: Metadata)
        ensures
            r.wf(),
            r@ == insert_all(Seq::empty(), font_pairs(pages@, pages@.len() as int)),
    {
        let mut m = Metadata::new();
        let ghost mut acc: EntrySeq = Seq::empty();
        let mut i: usize = 0;
        while i < pages.len()
            invariant
                i <= pages@.len(),
                m.wf(),
                acc == font_pairs(pages@, i as int),
                m@ == insert_all(Seq::empty(), acc),
            decreases pages@.len() - i,
        {
            match &pages[i] {
                Some(fonts) => {
                    let mut j: usize = 0;
                    let ghost start = acc;
                    while j < fonts.len()
                        invariant
                            j <= fonts@.len(),
                            m.wf(),
                            acc == start + page_font_pairs(fonts@).subrange(0, j as int),
                            m@ == insert_all(Seq::empty(), acc),
                        decreases fonts@.len() - j,
                    {
                        let f = &fonts[j];
                        let enc = match &f.encoding {
                            Some(e) => e.clone(),
                            None => String::from_str("Unknown"),
                        };
                        let k = f.base_font.clone();
                        proof {
                            let p = (k@, enc@);
                            assert((acc.push(p)).drop_last() =~= acc);
                            acc = acc.push(p);
                            assert(acc =~= start + page_font_pairs(fonts@).subrange(0, j + 1));
                        }
                        m.insert(k, enc);
                        j = j + 1;
                    }
                    assert(page_font_pairs(fonts@).subrange(0, j as int) =~= page_font_pairs(
                        fonts@,
                    ));
                },
                None => {
                    assert(acc =~= acc + Seq::<(Seq<char>, Seq<char>)>::empty());
                },
            }
            i = i + 1;
        }
        m
    }

    /// The text of a PDF and its metadata: the font map with the text's
    /// length in bytes under `character count`. Fails when the text pass
    /// failed or found no text.
    pub fn extract_text_from_pdf(&self, fonts: Metadata, text: Result<String, String>) -> (r:
        Result<(String, Metadata), ExtractionError>)
        requires
            fonts.wf(),
        ensures
            result_view(r) == pdf_result(fonts@, text),
            r matches Ok((_, m)) ==> m.wf(),
    {
        match text {
            Err(e) => Err(ExtractionError::Failed(e)),
            Ok(t) => {
                if t.as_str().unicode_len() == 0 {
                    Err(ExtractionError::EmptyText)
                } else {
                    let mut m = fonts;
                    let n = t.as_str().len();
                    m.insert(String::from_str("character count"), decimal_text(n as i128));
                    Ok((t, m))
                }
            },
        }
    }

    /// The text of a word-processor, spreadsheet or presentation file, as
    /// flattened by the reader, with an empty map.
    pub fn extract_text_from_docx(&self, read: Result<String, String>) -> (r: Result<
        (String, Metadata),
        ExtractionError,
    >)
        ensures
            result_view(r) == plain_result(read),
            r matches Ok((_, m)) ==> m.wf(),
    {
        match read {
            Ok(t) => Ok((t, Metadata::new())),
            Err(e) => Err(ExtractionError::Failed(e)),
        }
    }

    /// The text of a plain-text file with an empty map; a read failure is
    /// passed on as it came.
    pub fn extract_text_from_txt(&self, read: Result<String, String>) -> (r: Result<
        (String, Metadata),
        ExtractionError,
    >)
        ensures
            result_view(r) == plain_result(read),
            r matches Ok((_, m)) ==> m.wf(),
    {
        match read {
            Ok(t) => Ok((t, Metadata::new())),
            Err(e) => Err(ExtractionError::Failed(e)),
        }
    }

    /// Extraction dispatched on the file type: `read` is what the reader of
    /// that type produced, and `fonts` the font map of a PDF (unused for
    /// other types).
    pub fn extract_text(&self, file_type: FileType, fonts: Metadata, read: Result<String, String>) -> (r:
        Result<(String, Metadata), ExtractionError>)
        requires
            fonts.wf(),
        ensures
            result_view(r) == match file_type {
                FileType::PDF => pdf_result(fonts@, read),
                FileType::TXT | FileType::DOCX => plain_result(read),
                FileType::UNKNOWN => Err(ExtractionError::Unsupported),
            },
            r matches Ok((_, m)) ==> m.wf(),
    {
        match file_type {
            FileType::PDF => self.extract_text_from_pdf(fonts, read),
            FileType::TXT => self.extract_text_from_txt(read),
            FileType::DOCX => self.extract_text_from_docx(read),
            FileType::UNKNOWN => Err(ExtractionError::Unsupported),
        }
    }

    /// Splits `data` into documents that carry copies of `metadata`, one per
    /// chunk of `split_text`, under the boundary that `strategy` and
    /// `chunking_character` select and the model's size limit. Text with no
    /// characters yields no chunks, which is an error.
    pub fn chunk(
        &self,
        data: String,
        metadata: Option<Metadata>,
        strategy: ChunkingStrategy,
        chunking_character: Option<String>,
        embedding_model: EmbeddingModel,
    ) -> (r: Result<Vec<Document>, ChunkingError>)
        ensures
            r is Err <==> data@.len() == 0,
            r matches Ok(docs) ==> {
                let c = split_text(
                    data@,
                    boundary_of(strategy, token_view(chunking_character)),
                    effective_max(embedding_model.max_chunk_chars),
                );
                &&& docs@.len() == c.len()
                &&& forall|k: int|
                    0 <= k < c.len() ==> {
                        &&& (#[trigger] docs@[k]).page_content@ == c[k]
                        &&& opt_view(docs@[k].metadata) == opt_view(metadata)
                        &&& docs@[k].embedding_vector is None
                    }
            },
    {
        let max: usize = if embedding_model.max_chunk_chars == 0 {
            1
        } else {
            embedding_model.max_chunk_chars
        };
        let b: Option<char> = match &chunking_character {
            Some(t) if t.as_str().unicode_len() > 0 => Some(t.as_str().get_char(0)),
            _ => match strategy {
                ChunkingStrategy::SEMANTIC_CHUNKING => Some('.'),
                ChunkingStrategy::CHARACTER_CHUNKING => None,
            },
        };
        let ghost t = data@;
        let ghost whole = split_text(t, b, max as int);
        let n = data.as_str().unicode_len();
        let mut docs: Vec<Document> = Vec::new();
        let ghost mut done: Seq<Seq<char>> = Seq::empty();
        let mut start: usize = 0;
        assert(t.skip(0) =~= t);
        while start < n
            invariant
                t == data@,
                n == t.len(),
                b == boundary_of(strategy, token_view(chunking_character)),
                max as int == effective_max(embedding_model.max_chunk_chars),
                whole == split_text(t, b, max as int),
                start <= n,
                done + split_text(t.skip(start as int), b, max as int) == whole,
                docs@.len() == done.len(),
                forall|k: int|
                    0 <= k < done.len() ==> {
                        &&& (#[trigger] docs@[k]).page_content@ == done[k]
                        &&& opt_view(docs@[k].metadata) == opt_view(metadata)
                        &&& docs@[k].embedding_vector is None
                    },
                start < n ==> done.len() >= 0,
                start == 0 ==> done.len() == 0,
                start > 0 ==> done.len() > 0,
            decreases n - start,
        {
            let ghost rest = t.skip(start as int);
            let limit: usize = if n - start < max { n - start } else { max };
            let mut i: usize = 0;
            let mut found = false;
            while i < limit && !found
                invariant
                    t == data@,
                    rest == t.skip(start as int),
                    start < n == t.len(),
                    limit <= n - start,
                    limit as int == (if rest.len() < max { rest.len() as int } else { max as int }),
                    0 <= i <= limit,
                    found ==> i > 0,
                    scan_len(rest, b, 0, limit as int) == (if found { i as int } else { scan_len(rest, b, i as int, limit as int) }),
                decreases limit - i + (if found { 0int } else { 1int }),
            {
                let c = data.as_str().get_char(start + i);
                assert(rest[i as int] == c);
                let hit = match b {
                    Some(bc) => bc == c,
                    None => false,
                };
                i = i + 1;
                if hit {
                    found = true;
                }
            }
            proof {
                if !found {
                    assert(scan_len(rest, b, i as int, limit as int) == limit);
                }
                lemma_scan_len_bounds(rest, b, 0, limit as int);
            }
            let l = i;
            let piece = data.as_str().substring_char(start, start + l).to_owned();
            let md = match &metadata {
                Some(m) => Some(m.duplicate()),
                None => None,
            };
            docs.push(Document { page_content: piece, metadata: md, embedding_vector: None });
            proof {
                assert(rest.take(l as int) =~= t.subrange(start as int, start + l));
                assert(rest.skip(l as int) =~= t.skip(start + l));
                assert(split_text(rest, b, max as int) == seq![rest.take(l as int)] + split_text(
                    rest.skip(l as int),
                    b,
                    max as int,
                ));
                assert(done.push(rest.take(l as int)) + split_text(t.skip(start + l), b, max as int)
                    =~= done + split_text(rest, b, max as int));
                done = done.push(rest.take(l as int));
            }
            start = start + l;
        }
        proof {
            assert(t.skip(start as int) =~= Seq::<char>::empty());
            assert(done + Seq::<Seq<char>>::empty() =~= done);
            lemma_chunks_reassemble(t, b, max as int);
        }
        if docs.len() == 0 {
            Err(ChunkingError::NoChunks)
        } else {
            Ok(docs)
        }
    }
}

} // verus!
