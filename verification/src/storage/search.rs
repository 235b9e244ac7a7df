//! Search index: full-text matching across notebook titles, section titles,
//! tags, text annotations and OCR text.

use vstd::prelude::*;
use vstd::string::*;
use vstd::utf8::*;
use crate::ink::{min_int, utf8_of};
use crate::text::{
    chars_of, contains_text, find_bytes, first_from, has_prefix, occurs_from, same_text,
    starts_with_text, text_of_range,
};

verus! {

/// What kind of content an index entry holds.
#[derive(Debug, Clone, Copy, PartialEq, Eq, Structural)]
pub enum MatchType {
    /// Notebook title.
    NotebookTitle,
    /// Section title.
    SectionTitle,
    /// Page tag.
    Tag,
    /// Text annotation.
    TextAnnotation,
    /// OCR-recognized text.
    OcrText,
}

/// Search query options. Notebook identifiers are the 128-bit values of the
/// notebooks' UUIDs.
pub struct SearchQuery {
    pub text: String,
    pub case_sensitive: bool,
    pub search_titles: bool,
    pub search_tags: bool,
    pub search_text_annotations: bool,
    pub search_ocr: bool,
    pub max_results: usize,
    pub notebook_filter: Option<u128>,
}

impl SearchQuery {
    /// A case-insensitive query over every kind of content, at most 50
    /// results, in every notebook.
    pub fn new(text: &str) -> (res: Self)
        ensures
            res.text@ == text@,
            !res.case_sensitive,
            res.search_titles,
            res.search_tags,
            res.search_text_annotations,
            res.search_ocr,
            res.max_results == 50,
            res.notebook_filter is None,
    {
        SearchQuery {
            text: text.to_string(),
            case_sensitive: false,
            search_titles: true,
            search_tags: true,
            search_text_annotations: true,
            search_ocr: true,
            max_results: 50,
            notebook_filter: None,
        }
    }
}

/// An indexed piece of content.
pub struct IndexEntry {
    pub notebook_id: u128,
    pub notebook_name: String,
    pub section_name: String,
    pub page_index: usize,
    pub content_type: MatchType,
    pub content: String,
}

/// The lower-case form of a text, as `str::to_lowercase` gives it (full
/// Unicode case mapping).
pub uninterp spec fn lowercase_of(s: Seq<char>) -> Seq<char>;

/// `str::to_lowercase`. The result is a function of the text alone; the
/// Unicode case tables are left to the name.
#[verifier::external_body]
fn lowercase(s: &str) -> (res: String)
    ensures
        res@ == lowercase_of(s@),
{
    s.to_lowercase()
}

/// The text compared by a query: itself when case matters, its lower-case
/// form otherwise.
pub open spec fn folded(s: Seq<char>, case_sensitive: bool) -> Seq<char> {
    if case_sensitive {
        s
    } else {
        lowercase_of(s)
    }
}

/// Whether a query searches content of kind `t`.
pub open spec fn kind_searched(q: SearchQuery, t: MatchType) -> bool {
    match t {
        MatchType::NotebookTitle | MatchType::SectionTitle => q.search_titles,
        MatchType::Tag => q.search_tags,
        MatchType::TextAnnotation => q.search_text_annotations,
        MatchType::OcrText => q.search_ocr,
    }
}

/// Whether an entry matches a query: it is in the filtered notebook (if any),
/// its kind is searched, and its content contains the query text (both
/// lower-cased unless the query is case-sensitive).
pub open spec fn entry_matches(e: IndexEntry, q: SearchQuery) -> bool {
    &&& (q.notebook_filter matches Some(id) ==> e.notebook_id == id)
    &&& kind_searched(q, e.content_type)
    &&& occurs_from(folded(e.content@, q.case_sensitive), folded(q.text@, q.case_sensitive), 0)
}

/// The positions of the entries below `n` that match `q`, in order.
pub open spec fn matching_upto(entries: Seq<IndexEntry>, q: SearchQuery, n: int) -> Seq<usize>
    decreases n,
{
    if n <= 0 {
        Seq::empty()
    } else {
        let rest = matching_upto(entries, q, n - 1);
        if entry_matches(entries[n - 1], q) {
            rest.push((n - 1) as usize)
        } else {
            rest
        }
    }
}

/// The bytes of the ellipsis that marks where a snippet was cut.
pub open spec fn ellipsis_bytes() -> Seq<u8> {
    utf8_of(seq!['\u{2026}'])
}

/// Where a snippet around a match at byte `pos` starts: a quarter of the
/// snippet length before the match, or at the start of the content.
pub open spec fn snippet_start(pos: int, max_len: int) -> int {
    if pos >= max_len / 4 {
        pos - max_len / 4
    } else {
        0
    }
}

/// Where it ends: three quarters of the snippet length past the query's
/// length after the match, or at the end of the content.
pub open spec fn snippet_end(pos: int, query_len: int, content_len: int, max_len: int) -> int {
    min_int(pos + query_len + max_len * 3 / 4, content_len)
}

/// The snippet cut from `content` between `start` and `end` (byte
/// positions), with an ellipsis on each side that was cut.
pub open spec fn snippet_bytes(content: Seq<u8>, start: int, end: int) -> Seq<u8> {
    (if start > 0 {
        ellipsis_bytes()
    } else {
        Seq::empty()
    }) + content.subrange(start, end) + (if end < content.len() {
        ellipsis_bytes()
    } else {
        Seq::empty()
    })
}

/// A snippet around a match at `pos` can be cut: the arithmetic fits in a
/// `usize` and both ends fall on character boundaries of the content.
pub open spec fn snippet_fits(content: Seq<u8>, query_len: int, pos: int, max_len: int) -> bool {
    let start = snippet_start(pos, max_len);
    let end = snippet_end(pos, query_len, content.len() as int, max_len);
    &&& max_len * 3 <= usize::MAX
    &&& pos + query_len + max_len * 3 / 4 <= usize::MAX
    &&& start <= end
    &&& is_char_boundary(content, start)
    &&& is_char_boundary(content, end)
}

/// `pos` is where a snippet is centred: the first byte position at which the
/// lower-cased query occurs in the lower-cased content.
pub open spec fn snippet_match(content: Seq<char>, query: Seq<char>, pos: int) -> bool {
    first_from(utf8_of(lowercase_of(content)), utf8_of(lowercase_of(query)), 0, pos)
}

/// A snippet of `content` for `query` can be cut wherever the match is.
pub open spec fn snippet_cuttable(content: Seq<char>, query: Seq<char>, max_len: int) -> bool {
    forall|pos: int|
        #![trigger snippet_match(content, query, pos)]
        snippet_match(content, query, pos) ==> snippet_fits(
            utf8_of(content),
            utf8_of(query).len() as int,
            pos,
            max_len,
        )
}

/// A prefix that ends on a character boundary keeps the boundaries before it.
proof fn lemma_boundary_in_prefix(b: Seq<u8>, i: int, e: int)
    requires
        valid_utf8(b),
        0 <= i <= e <= b.len(),
        is_char_boundary(b, i),
        is_char_boundary(b, e),
    ensures
        is_char_boundary(b.subrange(0, e), i),
{
    broadcast use is_char_boundary_start_end_of_seq;

    let t = b.subrange(0, e);
    valid_utf8_split(b, e);
    assert(t =~= b.take(e));
    if 0 < i < e {
        assert(t[i] == b[i]);
        is_char_boundary_iff_not_is_continuation_byte(b, i);
        is_char_boundary_iff_not_is_continuation_byte(t, i);
    }
}

/// The snippet of `content` around a match at byte `pos` of a query
/// `query_len` bytes long, about `max_len` bytes of context.
pub fn snippet_around(content: &str, query_len: usize, pos: usize, max_len: usize) -> (res: String)
    requires
        snippet_fits(utf8_of(content@), query_len as int, pos as int, max_len as int),
    ensures
        utf8_of(res@) == snippet_bytes(
            utf8_of(content@),
            snippet_start(pos as int, max_len as int),
            snippet_end(pos as int, query_len as int, utf8_of(content@).len() as int, max_len as int),
        ),
{
    broadcast use encode_utf8_valid_utf8;

    let ghost cb = utf8_of(content@);
    let start = pos.saturating_sub(max_len / 4);
    let len = content.as_bytes().len();
    let mut end = pos + query_len + max_len * 3 / 4;
    if end > len {
        end = len;
    }
    let (head, _) = content.split_at(end);
    proof {
        lemma_boundary_in_prefix(cb, start as int, end as int);
    }
    let (_, mid) = head.split_at(start);
    assert(mid.spec_bytes() =~= cb.subrange(start as int, end as int));
    proof {
        reveal_strlit("\u{2026}");
    }
    assert("\u{2026}"@ =~= seq!['\u{2026}']);
    let mut snippet = String::new();
    if start > 0 {
        snippet.push_str("\u{2026}");
    }
    let ghost lead = utf8_of(snippet@);
    assert(lead =~= (if start > 0 { ellipsis_bytes() } else { Seq::<u8>::empty() }));
    snippet.push_str(mid);
    let ghost body = utf8_of(snippet@);
    assert(body =~= lead + cb.subrange(start as int, end as int));
    if end < len {
        snippet.push_str("\u{2026}");
    }
    assert(utf8_of(snippet@) =~= body + (if end < len { ellipsis_bytes() } else { Seq::<u8>::empty() }));
    assert(utf8_of(snippet@) =~= snippet_bytes(cb, start as int, end as int));
    snippet
}

/// A snippet of `content` around the first match of `query` (ignoring case),
/// with about `max_len` bytes of context; without a match, the first
/// `max_len` characters.
pub fn make_snippet(content: &str, query: &str, max_len: usize) -> (res: String)
    requires
        snippet_cuttable(content@, query@, max_len as int),
    ensures
        forall|pos: int|
            #![trigger snippet_match(content@, query@, pos)]
            snippet_match(content@, query@, pos) ==> utf8_of(res@) == snippet_bytes(
                utf8_of(content@),
                snippet_start(pos, max_len as int),
                snippet_end(pos, utf8_of(query@).len() as int, utf8_of(content@).len() as int, max_len as int),
            ),
        !occurs_from(utf8_of(lowercase_of(content@)), utf8_of(lowercase_of(query@)), 0) ==> res@
            == content@.take(min_int(max_len as int, content@.len() as int)),
{
    let lower = lowercase(content);
    let query_lower = lowercase(query);
    match find_bytes(lower.as_str().as_bytes(), query_lower.as_str().as_bytes()) {
        Some(pos) => {
            assert(snippet_match(content@, query@, pos as int));
            let res = snippet_around(content, query.as_bytes().len(), pos, max_len);
            assert forall|p: int|
                #![trigger snippet_match(content@, query@, p)]
                snippet_match(content@, query@, p) implies p == pos by {
                if p < pos {
                    assert(!crate::text::occurs_at(utf8_of(lowercase_of(content@)), utf8_of(lowercase_of(query@)), p));
                } else if p > pos {
                    assert(!crate::text::occurs_at(utf8_of(lowercase_of(content@)), utf8_of(lowercase_of(query@)), pos as int));
                }
            }
            res
        },
        None => {
            let cs = chars_of(content);
            let k = if max_len < cs.len() {
                max_len
            } else {
                cs.len()
            };
            let res = text_of_range(&cs, 0, k);
            assert(res@ =~= content@.take(k as int));
            res
        },
    }
}

/// `make_snippet` where the snippet can be cut; `None` where the cut would
/// split a character or overflow.
pub fn try_make_snippet(content: &str, query: &str, max_len: usize) -> (res: Option<String>)
    ensures
        res is Some <==> snippet_cuttable(content@, query@, max_len as int),
        res matches Some(s) ==> {
            &&& forall|pos: int|
                #![trigger snippet_match(content@, query@, pos)]
                snippet_match(content@, query@, pos) ==> utf8_of(s@) == snippet_bytes(
                    utf8_of(content@),
                    snippet_start(pos, max_len as int),
                    snippet_end(pos, utf8_of(query@).len() as int, utf8_of(content@).len() as int, max_len as int),
                )
            &&& !occurs_from(utf8_of(lowercase_of(content@)), utf8_of(lowercase_of(query@)), 0) ==> s@
                == content@.take(min_int(max_len as int, content@.len() as int))
        },
{
    let lower = lowercase(content);
    let query_lower = lowercase(query);
    if let Some(pos) = find_bytes(lower.as_str().as_bytes(), query_lower.as_str().as_bytes()) {
        assert(snippet_match(content@, query@, pos as int));
        let qlen = query.as_bytes().len();
        let len = content.as_bytes().len();
        let fits = match max_len.checked_mul(3) {
            None => false,
            Some(m3) => match pos.checked_add(qlen) {
                None => false,
                Some(a) => match a.checked_add(m3 / 4) {
                    None => false,
                    Some(e0) => {
                        let start = pos.saturating_sub(max_len / 4);
                        let end = if e0 > len {
                            len
                        } else {
                            e0
                        };
                        start <= end && content.is_char_boundary(start) && content.is_char_boundary(end)
                    },
                },
            },
        };
        if !fits {
            assert(!snippet_fits(utf8_of(content@), qlen as int, pos as int, max_len as int));
            return None;
        }
        assert forall|p: int|
            #![trigger snippet_match(content@, query@, p)]
            snippet_match(content@, query@, p) implies snippet_fits(
                utf8_of(content@),
                utf8_of(query@).len() as int,
                p,
                max_len as int,
            ) by {
            if p < pos {
                assert(!crate::text::occurs_at(utf8_of(lowercase_of(content@)), utf8_of(lowercase_of(query@)), p));
            } else if p > pos {
                assert(!crate::text::occurs_at(utf8_of(lowercase_of(content@)), utf8_of(lowercase_of(query@)), pos as int));
            }
        }
    }
    Some(make_snippet(content, query, max_len))
}

/// The match bonus of a relevance score: 100 for an exact match plus 50 when
/// the content starts with the query.
pub open spec fn match_bonus(content: Seq<char>, query: Seq<char>) -> int {
    (if content == query {
        100int
    } else {
        0int
    }) + (if has_prefix(content, query) {
        50int
    } else {
        0int
    })
}

/// The bonus of a relevance score for the kind of content: notebook title
/// 20, section title 15, tag 10, text annotation 5, OCR text 1.
pub open spec fn kind_bonus(t: MatchType) -> int {
    match t {
        MatchType::NotebookTitle => 20,
        MatchType::SectionTitle => 15,
        MatchType::Tag => 10,
        MatchType::TextAnnotation => 5,
        MatchType::OcrText => 1,
    }
}

/// The whole-number parts of the relevance score of `content` (already
/// folded as the query is) for `query`: the match bonus and the kind bonus.
/// The score is the match bonus, plus thirty times the ratio of the query's
/// length to the content's, plus the kind bonus.
pub fn score_parts(content: &str, query: &str, t: MatchType) -> (res: (u32, u32))
    ensures
        res.0 == match_bonus(content@, query@),
        res.1 == kind_bonus(t),
{
    let exact: u32 = if same_text(content, query) {
        100
    } else {
        0
    };
    let starts: u32 = if starts_with_text(content, query) {
        50
    } else {
        0
    };
    let kind: u32 = match t {
        MatchType::NotebookTitle => 20,
        MatchType::SectionTitle => 15,
        MatchType::Tag => 10,
        MatchType::TextAnnotation => 5,
        MatchType::OcrText => 1,
    };
    (exact + starts, kind)
}

/// The search finds exactly the matching entries: every position it lists
/// is an entry that matches the query, listed once and in index order, and
/// every matching entry is listed.
pub proof fn lemma_matching_exactly(entries: Seq<IndexEntry>, q: SearchQuery, n: int)
    requires
        0 <= n <= entries.len(),
        entries.len() <= usize::MAX,
    ensures
        forall|k: int|
            0 <= k < matching_upto(entries, q, n).len() ==> {
                let i = #[trigger] matching_upto(entries, q, n)[k] as int;
                &&& 0 <= i < n
                &&& entry_matches(entries[i], q)
            },
        forall|a: int, b: int|
            0 <= a < b < matching_upto(entries, q, n).len() ==> #[trigger] matching_upto(entries, q, n)[a]
                < #[trigger] matching_upto(entries, q, n)[b],
        forall|i: int|
            0 <= i < n && entry_matches(entries[i], q) ==> #[trigger] matching_upto(entries, q, n).contains(
                i as usize,
            ),
    decreases n,
{
    if n > 0 {
        lemma_matching_exactly(entries, q, n - 1);
        let rest = matching_upto(entries, q, n - 1);
        if entry_matches(entries[n - 1], q) {
            let m = rest.push((n - 1) as usize);
            assert(m[rest.len() as int] == (n - 1) as usize);
            assert forall|i: int| 0 <= i < n && entry_matches(entries[i], q) implies #[trigger] m.contains(
                i as usize,
            ) by {
                if i < n - 1 {
                    assert(rest.contains(i as usize));
                    let w = choose|w: int| 0 <= w < rest.len() && rest[w] == i as usize;
                    assert(m[w] == i as usize);
                } else {
                    assert(m[rest.len() as int] == i as usize);
                }
            }
        }
    }
}

/// Searchable index of a library's content.
pub struct SearchIndex {
    pub entries: Vec<IndexEntry>,
}

/// An entry with the given fields.
fn entry(
    notebook_id: u128,
    notebook_name: &str,
    section_name: &str,
    page_index: usize,
    content_type: MatchType,
    content: &str,
) -> (res: IndexEntry)
    ensures
        res.notebook_id == notebook_id,
        res.notebook_name@ == notebook_name@,
        res.section_name@ == section_name@,
        res.page_index == page_index,
        res.content_type == content_type,
        res.content@ == content@,
{
    IndexEntry {
        notebook_id,
        notebook_name: notebook_name.to_string(),
        section_name: section_name.to_string(),
        page_index,
        content_type,
        content: content.to_string(),
    }
}

impl SearchIndex {
    /// An empty index.
    pub fn new() -> (res: Self)
        ensures
            res.entries@.len() == 0,
    {
        SearchIndex { entries: Vec::new() }
    }

    /// Add an entry to the index.
    pub fn add_entry(&mut self, entry: IndexEntry)
        ensures
            final(self).entries@ == old(self).entries@.push(entry),
    {
        self.entries.push(entry);
    }

    /// Index a notebook title.
    pub fn index_notebook(&mut self, id: u128, name: &str)
        ensures
            final(self).entries@.len() == old(self).entries@.len() + 1,
            final(self).entries@.drop_last() == old(self).entries@,
            ({
                let e = final(self).entries@.last();
                &&& e.notebook_id == id
                &&& e.notebook_name@ == name@
                &&& e.section_name@.len() == 0
                &&& e.page_index == 0
                &&& e.content_type == MatchType::NotebookTitle
                &&& e.content@ == name@
            }),
    {
        proof {
            reveal_strlit("");
        }
        self.entries.push(entry(id, name, "", 0, MatchType::NotebookTitle, name));
        assert(self.entries@.drop_last() =~= old(self).entries@);
    }

    /// Index a section title.
    pub fn index_section(&mut self, notebook_id: u128, notebook_name: &str, section_name: &str)
        ensures
            final(self).entries@.len() == old(self).entries@.len() + 1,
            final(self).entries@.drop_last() == old(self).entries@,
            ({
                let e = final(self).entries@.last();
                &&& e.notebook_id == notebook_id
                &&& e.notebook_name@ == notebook_name@
                &&& e.section_name@ == section_name@
                &&& e.page_index == 0
                &&& e.content_type == MatchType::SectionTitle
                &&& e.content@ == section_name@
            }),
    {
        self.entries.push(
            entry(notebook_id, notebook_name, section_name, 0, MatchType::SectionTitle, section_name),
        );
        assert(self.entries@.drop_last() =~= old(self).entries@);
    }

    /// Index a text annotation of a page.
    pub fn index_text(
        &mut self,
        notebook_id: u128,
        notebook_name: &str,
        section_name: &str,
        page_index: usize,
        text: &str,
    )
        ensures
            final(self).entries@.len() == old(self).entries@.len() + 1,
            final(self).entries@.drop_last() == old(self).entries@,
            ({
                let e = final(self).entries@.last();
                &&& e.notebook_id == notebook_id
                &&& e.notebook_name@ == notebook_name@
                &&& e.section_name@ == section_name@
                &&& e.page_index == page_index
                &&& e.content_type == MatchType::TextAnnotation
                &&& e.content@ == text@
            }),
    {
        self.entries.push(
            entry(notebook_id, notebook_name, section_name, page_index, MatchType::TextAnnotation, text),
        );
        assert(self.entries@.drop_last() =~= old(self).entries@);
    }

    /// Index the OCR text of a page.
    pub fn index_ocr(
        &mut self,
        notebook_id: u128,
        notebook_name: &str,
        section_name: &str,
        page_index: usize,
        ocr_text: &str,
    )
        ensures
            final(self).entries@.len() == old(self).entries@.len() + 1,
            final(self).entries@.drop_last() == old(self).entries@,
            ({
                let e = final(self).entries@.last();
                &&& e.notebook_id == notebook_id
                &&& e.notebook_name@ == notebook_name@
                &&& e.section_name@ == section_name@
                &&& e.page_index == page_index
                &&& e.content_type == MatchType::OcrText
                &&& e.content@ == ocr_text@
            }),
    {
        self.entries.push(
            entry(notebook_id, notebook_name, section_name, page_index, MatchType::OcrText, ocr_text),
        );
        assert(self.entries@.drop_last() =~= old(self).entries@);
    }

    /// The positions of the entries that match `query`, in index order.
    pub fn matching_entries(&self, query: &SearchQuery) -> (res: Vec<usize>)
        ensures
            res@ == matching_upto(self.entries@, *query, self.entries@.len() as int),
    {
        let needle = if query.case_sensitive {
            query.text.clone()
        } else {
            lowercase(query.text.as_str())
        };
        let mut out: Vec<usize> = Vec::new();
        let mut i: usize = 0;
        while i < self.entries.len()
            invariant
                i <= self.entries@.len(),
                needle@ == folded(query.text@, query.case_sensitive),
                out@ == matching_upto(self.entries@, *query, i as int),
            decreases self.entries@.len() - i,
        {
            let e = &self.entries[i];
            let in_notebook = match query.notebook_filter {
                Some(id) => e.notebook_id == id,
                None => true,
            };
            let kind = match e.content_type {
                MatchType::NotebookTitle | MatchType::SectionTitle => query.search_titles,
                MatchType::Tag => query.search_tags,
                MatchType::TextAnnotation => query.search_text_annotations,
                MatchType::OcrText => query.search_ocr,
            };
            if in_notebook && kind {
                let found = if query.case_sensitive {
                    contains_text(e.content.as_str(), needle.as_str())
                } else {
                    let content = lowercase(e.content.as_str());
                    contains_text(content.as_str(), needle.as_str())
                };
                if found {
                    out.push(i);
                }
            }
            i = i + 1;
        }
        out
    }

    /// Remove every entry.
    pub fn clear(&mut self)
        ensures
            final(self).entries@.len() == 0,
    {
        self.entries.clear();
    }

    /// The number of indexed entries.
    pub fn len(&self) -> (res: usize)
        ensures
            res == self.entries@.len(),
    {
        self.entries.len()
    }

    /// Whether the index is empty.
    pub fn is_empty(&self) -> (res: bool)
        ensures
            res == (self.entries@.len() == 0),
    {
        self.entries.is_empty()
    }
}

impl Default for SearchIndex {
    fn default() -> (res: Self)
        ensures
            res.entries@.len() == 0,
    {
        Self::new()
    }
}

} // verus!
