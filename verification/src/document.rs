//! The document model: parsing a note file into a structured record.
//!
//! A note begins with a metadata header delimited by a marker line (`---`)
//! at the very start and a second marker line below it; everything after the
//! closing marker is body text, kept verbatim line for line. Header lines are
//! `key: value` pairs; a bracketed value `[a, b, c]` is a list. The keys
//! `title`, `tags`, `created` and `modified` fill the document's own fields;
//! unknown keys are preserved so that later term mappings can use them.

use vstd::prelude::*;
use crate::text::{
    chars_of, string_from_chars, chars_eq, append_chars, subvec, lemma_dv_chars, lemma_dv_lines,
};

verus! {

/// Why a note file was rejected.
#[derive(Debug, Clone, Copy, PartialEq, Eq, Structural)]
pub enum ParseError {
    /// The file does not start with the header marker line.
    MissingHeader,
    /// No closing header marker line was found.
    UnterminatedHeader,
    /// A header line is not a `key: value` pair.
    MalformedEntry,
}

/// A metadata value: a single string or a list of strings.
#[derive(Debug)]
pub enum MetaValue {
    Scalar(String),
    List(Vec<String>),
}

/// Ghost model of a metadata value.
pub ghost enum MetaValueV {
    Scalar(Seq<char>),
    List(Seq<Seq<char>>),
}

impl View for MetaValue {
    type V = MetaValueV;

    open spec fn view(&self) -> MetaValueV {
        match self {
            MetaValue::Scalar(s) => MetaValueV::Scalar(s@),
            MetaValue::List(l) => MetaValueV::List(l.deep_view()),
        }
    }
}

impl DeepView for MetaValue {
    type V = MetaValueV;

    open spec fn deep_view(&self) -> MetaValueV {
        self.view()
    }
}

/// One `key: value` pair of the metadata header.
#[derive(Debug)]
pub struct HeaderEntry {
    pub key: String,
    pub value: MetaValue,
}

impl View for HeaderEntry {
    type V = (Seq<char>, MetaValueV);

    open spec fn view(&self) -> (Seq<char>, MetaValueV) {
        (self.key@, self.value@)
    }
}

impl DeepView for HeaderEntry {
    type V = (Seq<char>, MetaValueV);

    open spec fn deep_view(&self) -> (Seq<char>, MetaValueV) {
        self.view()
    }
}

/// A parsed note. The source file path is the document's stable key:
/// re-indexing the same file replaces its terms rather than adding new ones.
#[derive(Debug)]
pub struct Document {
    /// Source file path; the unique key of the document.
    pub path: String,
    /// Title from the metadata header, if any.
    pub title: Option<String>,
    /// Tag values, in header order.
    pub tags: Vec<String>,
    /// Creation timestamp, verbatim, if any.
    pub created: Option<String>,
    /// Modification timestamp, verbatim, if any.
    pub modified: Option<String>,
    /// All remaining metadata pairs, preserved in header order.
    pub extra: Vec<HeaderEntry>,
    /// The body text after the closing header marker.
    pub body: String,
}

/// Ghost model of a document.
pub ghost struct DocumentV {
    pub path: Seq<char>,
    pub title: Option<Seq<char>>,
    pub tags: Seq<Seq<char>>,
    pub created: Option<Seq<char>>,
    pub modified: Option<Seq<char>>,
    pub extra: Seq<(Seq<char>, MetaValueV)>,
    pub body: Seq<char>,
}

impl View for Document {
    type V = DocumentV;

    open spec fn view(&self) -> DocumentV {
        DocumentV {
            path: self.path@,
            title: match self.title {
                Option::Some(t) => Option::Some(t@),
                Option::None => Option::None,
            },
            tags: self.tags.deep_view(),
            created: match self.created {
                Option::Some(t) => Option::Some(t@),
                Option::None => Option::None,
            },
            modified: match self.modified {
                Option::Some(t) => Option::Some(t@),
                Option::None => Option::None,
            },
            extra: self.extra.deep_view(),
            body: self.body@,
        }
    }
}

/// A blank character inside a header line.
pub open spec fn is_blank(c: char) -> bool {
    c == ' ' || c == '\t' || c == '\r'
}

fn is_blank_x(c: char) -> (r: bool)
    ensures
        r == is_blank(c),
{
    c == ' ' || c == '\t' || c == '\r'
}

pub open spec fn trim_front(s: Seq<char>) -> Seq<char>
    decreases s.len(),
{
    if s.len() > 0 && is_blank(s[0]) {
        trim_front(s.drop_first())
    } else {
        s
    }
}

pub open spec fn trim_back(s: Seq<char>) -> Seq<char>
    decreases s.len(),
{
    if s.len() > 0 && is_blank(s[s.len() - 1]) {
        trim_back(s.drop_last())
    } else {
        s
    }
}

/// A header line with surrounding blanks removed.
pub open spec fn spec_trim(s: Seq<char>) -> Seq<char> {
    trim_back(trim_front(s))
}

/// The characters of `v` with surrounding blanks removed.
pub fn trim_chars(v: &Vec<char>) -> (r: Vec<char>)
    ensures
        r@ == spec_trim(v@),
{
    let mut start: usize = 0;
    proof {
        assert(v@.skip(0) =~= v@);
    }
    while start < v.len() && is_blank_x(v[start])
        invariant
            start <= v@.len(),
            trim_front(v@) == trim_front(v@.skip(start as int)),
        decreases v@.len() - start,
    {
        proof {
            assert(v@.skip(start as int).drop_first() =~= v@.skip(start as int + 1));
        }
        start = start + 1;
    }
    let ghost t = v@.skip(start as int);
    proof {
        assert(trim_front(v@) == t);
        assert(t.take(t.len() as int) =~= t);
    }
    let mut end: usize = v.len();
    while end > start && is_blank_x(v[end - 1])
        invariant
            start <= end <= v@.len(),
            t == v@.skip(start as int),
            trim_front(v@) == t,
            trim_back(t) == trim_back(t.take(end - start as int)),
        decreases end,
    {
        proof {
            assert(t.take(end - start as int).drop_last() =~= t.take(end - 1 - start as int));
        }
        end = end - 1;
    }
    proof {
        assert(spec_trim(v@) == t.take(end - start as int));
    }
    let r = subvec(v, start, end);
    proof {
        assert(r@ =~= t.take(end - start as int));
    }
    r
}

pub open spec fn spec_split_from(s: Seq<char>, i: int, cur: Seq<char>, sep: char) -> Seq<Seq<char>>
    decreases s.len() - i,
{
    if i < 0 || i >= s.len() {
        seq![cur]
    } else if s[i] == sep {
        seq![cur] + spec_split_from(s, i + 1, seq![], sep)
    } else {
        spec_split_from(s, i + 1, cur.push(s[i]), sep)
    }
}

/// The pieces of `s` split on the separator; a separator at the end yields a
/// final empty piece, and the result always has at least one piece.
pub open spec fn spec_split(s: Seq<char>, sep: char) -> Seq<Seq<char>> {
    spec_split_from(s, 0, seq![], sep)
}

/// The lines of a text, split on newline characters.
pub open spec fn spec_lines(s: Seq<char>) -> Seq<Seq<char>> {
    spec_split(s, '\n')
}

/// Splits the characters on the separator, per `spec_split`.
pub fn split_on(v: &Vec<char>, sep: char) -> (r: Vec<Vec<char>>)
    ensures
        r.deep_view() == spec_split(v@, sep),
        r@.len() >= 1,
{
    let mut out: Vec<Vec<char>> = Vec::new();
    let mut cur: Vec<char> = Vec::new();
    let mut i: usize = 0;
    proof {
        assert(out.deep_view() =~= Seq::<Seq<char>>::empty());
        assert(Seq::<Seq<char>>::empty() + spec_split_from(v@, 0, cur@, sep) =~= spec_split_from(
            v@,
            0,
            cur@,
            sep,
        ));
    }
    while i < v.len()
        invariant
            i <= v@.len(),
            spec_split(v@, sep) == out.deep_view() + spec_split_from(v@, i as int, cur@, sep),
        decreases v@.len() - i,
    {
        let c = v[i];
        if c == sep {
            let ghost old_out = out.deep_view();
            let ghost cv = cur@;
            out.push(cur);
            cur = Vec::new();
            proof {
                lemma_dv_chars(out@[out@.len() - 1]);
                assert(out.deep_view() =~= old_out + seq![cv]);
                assert(old_out + (seq![cv] + spec_split_from(v@, i + 1, cur@, sep)) =~= (old_out
                    + seq![cv]) + spec_split_from(v@, i + 1, cur@, sep));
            }
        } else {
            cur.push(c);
        }
        i = i + 1;
    }
    let ghost old_out = out.deep_view();
    let ghost cv = cur@;
    out.push(cur);
    proof {
        lemma_dv_chars(out@[out@.len() - 1]);
        assert(out.deep_view() =~= old_out + seq![cv]);
        assert(out.deep_view() =~= spec_split(v@, sep));
    }
    out
}

/// The header marker line.
pub open spec fn marker() -> Seq<char> {
    seq!['-', '-', '-']
}

fn marker_chars() -> (r: Vec<char>)
    ensures
        r@ == marker(),
{
    let mut m: Vec<char> = Vec::new();
    m.push('-');
    m.push('-');
    m.push('-');
    proof {
        assert(m@ =~= marker());
    }
    m
}

/// Whether a line, after trimming, is the header marker.
fn is_marker_line(v: &Vec<char>) -> (r: bool)
    ensures
        r == (spec_trim(v@) == marker()),
{
    let t = trim_chars(v);
    let m = marker_chars();
    chars_eq(&t, &m)
}

/// The position of the first colon in the line, or the line's length.
pub open spec fn find_colon_from(s: Seq<char>, i: int) -> int
    decreases s.len() - i,
{
    if i < 0 || i >= s.len() {
        s.len() as int
    } else if s[i] == ':' {
        i
    } else {
        find_colon_from(s, i + 1)
    }
}

pub fn find_colon(v: &Vec<char>) -> (r: usize)
    ensures
        r as int == find_colon_from(v@, 0),
        r <= v@.len(),
{
    let mut i: usize = 0;
    while i < v.len()
        invariant
            i <= v@.len(),
            find_colon_from(v@, 0) == find_colon_from(v@, i as int),
        decreases v@.len() - i,
    {
        if v[i] == ':' {
            return i;
        }
        i = i + 1;
    }
    i
}

/// Trim each comma-separated piece and drop the empty ones.
pub open spec fn spec_list_items(parts: Seq<Seq<char>>) -> Seq<Seq<char>>
    decreases parts.len(),
{
    if parts.len() == 0 {
        seq![]
    } else {
        let h = spec_trim(parts[0]);
        (if h.len() > 0 {
            seq![h]
        } else {
            Seq::<Seq<char>>::empty()
        }) + spec_list_items(parts.drop_first())
    }
}

/// A trimmed header value: a bracketed `[a, b, c]` is a list, anything else
/// a scalar.
pub open spec fn spec_parse_value(v: Seq<char>) -> MetaValueV {
    if v.len() >= 2 && v[0] == '[' && v[v.len() - 1] == ']' {
        MetaValueV::List(spec_list_items(spec_split(v.subrange(1, v.len() - 1), ',')))
    } else {
        MetaValueV::Scalar(v)
    }
}

fn parse_value(v: &Vec<char>) -> (r: MetaValue)
    ensures
        r@ == spec_parse_value(v@),
{
    if v.len() >= 2 && v[0] == '[' && v[v.len() - 1] == ']' {
        let inner = subvec(v, 1, v.len() - 1);
        let parts = split_on(&inner, ',');
        let ghost pv = parts.deep_view();
        let mut items: Vec<String> = Vec::new();
        let mut i: usize = 0;
        proof {
            lemma_dv_lines(parts);
            assert(pv.skip(0) =~= pv);
            assert(items.deep_view() =~= Seq::<Seq<char>>::empty());
            assert(Seq::<Seq<char>>::empty() + spec_list_items(pv) =~= spec_list_items(pv));
        }
        while i < parts.len()
            invariant
                i <= parts@.len(),
                pv == parts.deep_view(),
                pv.len() == parts@.len(),
                forall|k: int| 0 <= k < parts@.len() ==> pv[k] == #[trigger] parts@[k]@,
                spec_list_items(pv) == items.deep_view() + spec_list_items(pv.skip(i as int)),
            decreases parts@.len() - i,
        {
            proof {
                assert(pv.skip(i as int).drop_first() =~= pv.skip(i + 1));
                assert(pv.skip(i as int)[0] == pv[i as int]);
            }
            let t = trim_chars(&parts[i]);
            if t.len() > 0 {
                let ghost old_items = items.deep_view();
                items.push(string_from_chars(&t));
                proof {
                    assert(items.deep_view() =~= old_items + seq![t@]);
                    assert(old_items + (seq![t@] + spec_list_items(pv.skip(i + 1)))
                        =~= items.deep_view() + spec_list_items(pv.skip(i + 1)));
                }
            } else {
                proof {
                    assert(items.deep_view() + (Seq::<Seq<char>>::empty() + spec_list_items(
                        pv.skip(i + 1),
                    )) =~= items.deep_view() + spec_list_items(pv.skip(i + 1)));
                }
            }
            i = i + 1;
        }
        proof {
            assert(pv.skip(pv.len() as int) =~= Seq::<Seq<char>>::empty());
            assert(items.deep_view() + spec_list_items(pv.skip(pv.len() as int))
                =~= items.deep_view());
        }
        MetaValue::List(items)
    } else {
        MetaValue::Scalar(string_from_chars(v))
    }
}

/// A header line as a `key: value` pair; `None` if it has no colon or an
/// empty key.
pub open spec fn spec_parse_header_line(line: Seq<char>) -> Option<(Seq<char>, MetaValueV)> {
    let p = find_colon_from(line, 0);
    if p >= line.len() {
        Option::None
    } else {
        let k = spec_trim(line.subrange(0, p));
        if k.len() == 0 {
            Option::None
        } else {
            Option::Some((k, spec_parse_value(spec_trim(line.subrange(p + 1, line.len() as int)))))
        }
    }
}

fn parse_header_line(line: &Vec<char>) -> (r: Option<HeaderEntry>)
    ensures
        match r {
            Option::Some(e) => spec_parse_header_line(line@) == Option::Some(e@),
            Option::None => spec_parse_header_line(line@) is None,
        },
{
    let p = find_colon(line);
    if p >= line.len() {
        return Option::None;
    }
    let raw_key = subvec(line, 0, p);
    let k = trim_chars(&raw_key);
    if k.len() == 0 {
        return Option::None;
    }
    let raw_val = subvec(line, p + 1, line.len());
    let tv = trim_chars(&raw_val);
    let value = parse_value(&tv);
    Option::Some(HeaderEntry { key: string_from_chars(&k), value })
}

/// The header entries of the lines strictly between the markers, in order;
/// blank lines are skipped; a line that is no `key: value` pair is an error.
pub open spec fn spec_parse_entries(lines: Seq<Seq<char>>, i: int, close: int) -> Result<
    Seq<(Seq<char>, MetaValueV)>,
    ParseError,
>
    decreases close - i,
{
    if i < 0 || i >= close {
        Result::Ok(seq![])
    } else if spec_trim(lines[i]).len() == 0 {
        spec_parse_entries(lines, i + 1, close)
    } else {
        match spec_parse_header_line(lines[i]) {
            Option::None => Result::Err(ParseError::MalformedEntry),
            Option::Some(e) => match spec_parse_entries(lines, i + 1, close) {
                Result::Ok(rest) => Result::Ok(seq![e] + rest),
                Result::Err(err) => Result::Err(err),
            },
        }
    }
}

/// The body text: the lines from position `i` on, joined by newlines.
pub open spec fn spec_join_lines(lines: Seq<Seq<char>>, i: int) -> Seq<char>
    decreases lines.len() - i,
{
    if i < 0 || i >= lines.len() {
        seq![]
    } else if i == lines.len() - 1 {
        lines[i]
    } else {
        lines[i] + seq!['\n'] + spec_join_lines(lines, i + 1)
    }
}

fn join_lines(lines: &Vec<Vec<char>>, from: usize) -> (r: Vec<char>)
    requires
        from <= lines@.len(),
    ensures
        r@ == spec_join_lines(lines.deep_view(), from as int),
{
    let ghost lv = lines.deep_view();
    let mut out: Vec<char> = Vec::new();
    let mut i: usize = from;
    proof {
        lemma_dv_lines(*lines);
        assert(Seq::<char>::empty() + spec_join_lines(lv, from as int) =~= spec_join_lines(
            lv,
            from as int,
        ));
    }
    while i < lines.len()
        invariant
            from <= i <= lines@.len(),
            lv == lines.deep_view(),
            lv.len() == lines@.len(),
            forall|k: int| 0 <= k < lines@.len() ==> lv[k] == #[trigger] lines@[k]@,
            spec_join_lines(lv, from as int) == out@ + spec_join_lines(lv, i as int),
        decreases lines@.len() - i,
    {
        let ghost old_out = out@;
        append_chars(&mut out, &lines[i]);
        if i + 1 < lines.len() {
            out.push('\n');
            proof {
                assert(old_out + (lv[i as int] + seq!['\n'] + spec_join_lines(lv, i + 1)) =~= out@
                    + spec_join_lines(lv, i + 1));
            }
        } else {
            proof {
                assert(spec_join_lines(lv, i as int) == lv[i as int]);
                assert(old_out + lv[i as int] + spec_join_lines(lv, i + 1) =~= out@);
            }
        }
        i = i + 1;
    }
    proof {
        assert(out@ + spec_join_lines(lv, i as int) =~= out@);
    }
    out
}

pub open spec fn key_title() -> Seq<char> {
    seq!['t', 'i', 't', 'l', 'e']
}

pub open spec fn key_tags() -> Seq<char> {
    seq!['t', 'a', 'g', 's']
}

pub open spec fn key_created() -> Seq<char> {
    seq!['c', 'r', 'e', 'a', 't', 'e', 'd']
}

pub open spec fn key_modified() -> Seq<char> {
    seq!['m', 'o', 'd', 'i', 'f', 'i', 'e', 'd']
}

/// Fold one header entry into the document; later entries win for the
/// recognized keys, unknown keys are appended to `extra`.
pub open spec fn spec_apply_entry(d: DocumentV, e: (Seq<char>, MetaValueV)) -> DocumentV {
    let k = e.0;
    if k == key_title() {
        match e.1 {
            MetaValueV::Scalar(s) => DocumentV { title: Option::Some(s), ..d },
            MetaValueV::List(_) => DocumentV { extra: d.extra.push(e), ..d },
        }
    } else if k == key_tags() {
        match e.1 {
            MetaValueV::Scalar(s) => DocumentV { tags: seq![s], ..d },
            MetaValueV::List(l) => DocumentV { tags: l, ..d },
        }
    } else if k == key_created() {
        match e.1 {
            MetaValueV::Scalar(s) => DocumentV { created: Option::Some(s), ..d },
            MetaValueV::List(_) => DocumentV { extra: d.extra.push(e), ..d },
        }
    } else if k == key_modified() {
        match e.1 {
            MetaValueV::Scalar(s) => DocumentV { modified: Option::Some(s), ..d },
            MetaValueV::List(_) => DocumentV { extra: d.extra.push(e), ..d },
        }
    } else {
        DocumentV { extra: d.extra.push(e), ..d }
    }
}

pub open spec fn spec_apply_entries(d: DocumentV, es: Seq<(Seq<char>, MetaValueV)>) -> DocumentV
    decreases es.len(),
{
    if es.len() == 0 {
        d
    } else {
        spec_apply_entries(spec_apply_entry(d, es[0]), es.drop_first())
    }
}

/// An empty document for the given path and body.
pub open spec fn spec_empty_doc(path: Seq<char>, body: Seq<char>) -> DocumentV {
    DocumentV {
        path: path,
        title: Option::None,
        tags: seq![],
        created: Option::None,
        modified: Option::None,
        extra: seq![],
        body: body,
    }
}

/// The document a note file parses to, or the error that rejects it.
pub open spec fn spec_parse_note(path: Seq<char>, content: Seq<char>) -> Result<
    DocumentV,
    ParseError,
> {
    let lines = spec_lines(content);
    if spec_trim(lines[0]) != marker() {
        Result::Err(ParseError::MissingHeader)
    } else {
        let close = find_marker_from(lines, 1);
        if close >= lines.len() {
            Result::Err(ParseError::UnterminatedHeader)
        } else {
            match spec_parse_entries(lines, 1, close) {
                Result::Err(err) => Result::Err(err),
                Result::Ok(es) => Result::Ok(
                    spec_apply_entries(spec_empty_doc(path, spec_join_lines(lines, close + 1)), es),
                ),
            }
        }
    }
}

/// The position of the first marker line at or after `i`, or the number of
/// lines.
pub open spec fn find_marker_from(lines: Seq<Seq<char>>, i: int) -> int
    decreases lines.len() - i,
{
    if i < 0 || i >= lines.len() {
        lines.len() as int
    } else if spec_trim(lines[i]) == marker() {
        i
    } else {
        find_marker_from(lines, i + 1)
    }
}

/// Parses one note file into a document, or rejects it: with `MissingHeader`
/// if the first line is no marker, `UnterminatedHeader` if no closing marker
/// follows, and `MalformedEntry` if a header line is no `key: value` pair.
#[verifier::loop_isolation(false)]
pub fn parse_note(path: &str, content: &str) -> (r: Result<Document, ParseError>)
    ensures
        match r {
            Result::Ok(d) => spec_parse_note(path@, content@) == Result::<
                DocumentV,
                ParseError,
            >::Ok(d@),
            Result::Err(e) => spec_parse_note(path@, content@) == Result::<
                DocumentV,
                ParseError,
            >::Err(e),
        },
{
    let cs = chars_of(content);
    let lines = split_on(&cs, '\n');
    let ghost lv = lines.deep_view();
    proof {
        lemma_dv_lines(lines);
    }
    if !is_marker_line(&lines[0]) {
        return Result::Err(ParseError::MissingHeader);
    }
    // find the closing marker
    let mut close: usize = 1;
    while close < lines.len() && !is_marker_line(&lines[close])
        invariant
            1 <= close <= lines@.len(),
            lv == lines.deep_view(),
            lv.len() == lines@.len(),
            forall|k: int| 0 <= k < lines@.len() ==> lv[k] == #[trigger] lines@[k]@,
            find_marker_from(lv, 1) == find_marker_from(lv, close as int),
        decreases lines@.len() - close,
    {
        close = close + 1;
    }
    proof {
        assert(find_marker_from(lv, 1) == close as int);
    }
    if close >= lines.len() {
        return Result::Err(ParseError::UnterminatedHeader);
    }
    // parse header entries
    let mut entries: Vec<HeaderEntry> = Vec::new();
    let mut i: usize = 1;
    while i < close
        invariant
            1 <= i <= close < lines@.len(),
            lv == lines.deep_view(),
            lv.len() == lines@.len(),
            forall|k: int| 0 <= k < lines@.len() ==> lv[k] == #[trigger] lines@[k]@,
            spec_parse_entries(lv, 1, close as int) == (match spec_parse_entries(
                lv,
                i as int,
                close as int,
            ) {
                Result::Ok(rest) => Result::<Seq<(Seq<char>, MetaValueV)>, ParseError>::Ok(
                    entries.deep_view() + rest,
                ),
                Result::Err(err) => Result::<Seq<(Seq<char>, MetaValueV)>, ParseError>::Err(err),
            }),
        decreases close - i,
    {
        let t = trim_chars(&lines[i]);
        if t.len() > 0 {
            match parse_header_line(&lines[i]) {
                Option::None => {
                    return Result::Err(ParseError::MalformedEntry);
                },
                Option::Some(e) => {
                    let ghost old_entries = entries.deep_view();
                    let ghost ev = e@;
                    entries.push(e);
                    proof {
                        assert(entries.deep_view() =~= old_entries + seq![ev]);
                        if spec_parse_entries(lv, i + 1, close as int) is Ok {
                            let rest = spec_parse_entries(lv, i + 1, close as int)->Ok_0;
                            assert(old_entries + (seq![ev] + rest) =~= entries.deep_view() + rest);
                        }
                    }
                },
            }
        }
        i = i + 1;
    }
    let ghost es = entries.deep_view();
    proof {
        assert(spec_parse_entries(lv, close as int, close as int) == Result::<
            Seq<(Seq<char>, MetaValueV)>,
            ParseError,
        >::Ok(seq![]));
        assert(es + Seq::<(Seq<char>, MetaValueV)>::empty() =~= es);
        assert(spec_parse_entries(lv, 1, close as int) == Result::<
            Seq<(Seq<char>, MetaValueV)>,
            ParseError,
        >::Ok(es));
    }
    // assemble the document
    let body_chars = join_lines(&lines, close + 1);
    let mut d = Document {
        path: string_from_chars(&chars_of(path)),
        title: Option::None,
        tags: Vec::new(),
        created: Option::None,
        modified: Option::None,
        extra: Vec::new(),
        body: string_from_chars(&body_chars),
    };
    proof {
        assert(d@.tags =~= Seq::<Seq<char>>::empty());
        assert(d@.extra =~= Seq::<(Seq<char>, MetaValueV)>::empty());
        assert(d@ == spec_empty_doc(path@, spec_join_lines(lv, close + 1)));
    }
    let ghost base = d@;
    let mut rest = entries;
    while rest.len() > 0
        invariant
            spec_apply_entries(base, es) == spec_apply_entries(d@, rest.deep_view()),
        decreases rest@.len(),
    {
        let ghost old_dv = rest.deep_view();
        let e = rest.remove(0);
        proof {
            assert(rest.deep_view() =~= old_dv.drop_first());
            assert(e@ == old_dv[0]);
        }
        d = apply_entry(d, e);
    }
    proof {
        assert(rest.deep_view() =~= Seq::<(Seq<char>, MetaValueV)>::empty());
        assert(spec_apply_entries(base, es) == d@);
    }
    Result::Ok(d)
}

fn key_title_chars() -> (r: Vec<char>)
    ensures
        r@ == key_title(),
{
    let mut m: Vec<char> = Vec::new();
    m.push('t');
    m.push('i');
    m.push('t');
    m.push('l');
    m.push('e');
    proof {
        assert(m@ =~= key_title());
    }
    m
}

fn key_tags_chars() -> (r: Vec<char>)
    ensures
        r@ == key_tags(),
{
    let mut m: Vec<char> = Vec::new();
    m.push('t');
    m.push('a');
    m.push('g');
    m.push('s');
    proof {
        assert(m@ =~= key_tags());
    }
    m
}

fn key_created_chars() -> (r: Vec<char>)
    ensures
        r@ == key_created(),
{
    let mut m: Vec<char> = Vec::new();
    m.push('c');
    m.push('r');
    m.push('e');
    m.push('a');
    m.push('t');
    m.push('e');
    m.push('d');
    proof {
        assert(m@ =~= key_created());
    }
    m
}

fn key_modified_chars() -> (r: Vec<char>)
    ensures
        r@ == key_modified(),
{
    let mut m: Vec<char> = Vec::new();
    m.push('m');
    m.push('o');
    m.push('d');
    m.push('i');
    m.push('f');
    m.push('i');
    m.push('e');
    m.push('d');
    proof {
        assert(m@ =~= key_modified());
    }
    m
}

fn push_extra(d: Document, e: HeaderEntry) -> (r: Document)
    ensures
        r@ == (DocumentV { extra: d@.extra.push(e@), ..d@ }),
{
    let ghost old_extra = d.extra.deep_view();
    let ghost ev = e@;
    let mut d2 = d;
    d2.extra.push(e);
    proof {
        assert(d2.extra.deep_view() =~= old_extra.push(ev));
    }
    d2
}

fn apply_entry(d: Document, e: HeaderEntry) -> (r: Document)
    ensures
        r@ == spec_apply_entry(d@, e@),
{
    let ghost ev = e@;
    let kc = chars_of(e.key.as_str());
    if chars_eq(&kc, &key_title_chars()) {
        let key = e.key;
        match e.value {
            MetaValue::Scalar(s) => Document { title: Option::Some(s), ..d },
            MetaValue::List(l) => push_extra(d, HeaderEntry { key, value: MetaValue::List(l) }),
        }
    } else if chars_eq(&kc, &key_tags_chars()) {
        match e.value {
            MetaValue::Scalar(s) => {
                let mut tags: Vec<String> = Vec::new();
                let ghost sv = s@;
                tags.push(s);
                let r = Document { tags, ..d };
                proof {
                    assert(r@.tags =~= seq![sv]);
                }
                r
            },
            MetaValue::List(l) => Document { tags: l, ..d },
        }
    } else if chars_eq(&kc, &key_created_chars()) {
        let key = e.key;
        match e.value {
            MetaValue::Scalar(s) => Document { created: Option::Some(s), ..d },
            MetaValue::List(l) => push_extra(d, HeaderEntry { key, value: MetaValue::List(l) }),
        }
    } else if chars_eq(&kc, &key_modified_chars()) {
        let key = e.key;
        match e.value {
            MetaValue::Scalar(s) => Document { modified: Option::Some(s), ..d },
            MetaValue::List(l) => push_extra(d, HeaderEntry { key, value: MetaValue::List(l) }),
        }
    } else {
        push_extra(d, e)
    }
}

} // verus!
