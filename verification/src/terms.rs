//! Term mapping: the deterministic rule set that turns a document into its
//! indexable terms.
//!
//! Tags are indexed verbatim (case-folded only) under the `tag` field, so
//! `tag:foo` filters exactly. The title is tokenized and stemmed under the
//! `title` field and folded into the default (body) field as well, so a bare
//! query word matches titles. The body is tokenized and stemmed under the
//! default field.

use vstd::prelude::*;
use crate::document::{Document, DocumentV};
use crate::text::{lower_seq, lower_str, norm_token, normalize_term, spec_tokens, tokenize};

verus! {

/// A named partition of the index. `Body` is the default, unqualified field.
#[derive(Debug)]
pub enum Field {
    Body,
    Tag,
    Title,
    /// A field name that the term mapping never produces; a query may still
    /// name it, and then matches nothing.
    Other(String),
}

/// Ghost model of a field.
pub ghost enum FieldV {
    Body,
    Tag,
    Title,
    Other(Seq<char>),
}

impl View for Field {
    type V = FieldV;

    open spec fn view(&self) -> FieldV {
        match self {
            Field::Body => FieldV::Body,
            Field::Tag => FieldV::Tag,
            Field::Title => FieldV::Title,
            Field::Other(s) => FieldV::Other(s@),
        }
    }
}

impl DeepView for Field {
    type V = FieldV;

    open spec fn deep_view(&self) -> FieldV {
        self.view()
    }
}

/// Whether two fields are the same partition.
pub fn field_eq(a: &Field, b: &Field) -> (r: bool)
    ensures
        r == (a@ == b@),
{
    match a {
        Field::Body => match b {
            Field::Body => true,
            Field::Tag => false,
            Field::Title => false,
            Field::Other(_) => false,
        },
        Field::Tag => match b {
            Field::Body => false,
            Field::Tag => true,
            Field::Title => false,
            Field::Other(_) => false,
        },
        Field::Title => match b {
            Field::Body => false,
            Field::Tag => false,
            Field::Title => true,
            Field::Other(_) => false,
        },
        Field::Other(x) => match b {
            Field::Body => false,
            Field::Tag => false,
            Field::Title => false,
            Field::Other(y) => *x == *y,
        },
    }
}

/// One indexable term: a normalized token scoped to a field.
#[derive(Debug)]
pub struct Term {
    pub field: Field,
    pub text: String,
}

/// Ghost model of a term.
pub type TermV = (FieldV, Seq<char>);

impl View for Term {
    type V = TermV;

    open spec fn view(&self) -> TermV {
        (self.field@, self.text@)
    }
}

impl DeepView for Term {
    type V = TermV;

    open spec fn deep_view(&self) -> TermV {
        self.view()
    }
}

/// The indexable terms of one document, in mapping order. Membership, not
/// order or multiplicity, is what query evaluation reads.
#[derive(Debug)]
pub struct TermSet {
    pub terms: Vec<Term>,
}

impl View for TermSet {
    type V = Seq<TermV>;

    open spec fn view(&self) -> Seq<TermV> {
        self.terms.deep_view()
    }
}

impl TermSet {
    /// Whether the set holds the given term.
    pub fn contains_term(&self, field: &Field, text: &String) -> (r: bool)
        ensures
            r == self@.contains((field@, text@)),
    {
        let mut i: usize = 0;
        while i < self.terms.len()
            invariant
                i <= self.terms@.len(),
                self@.len() == self.terms@.len(),
                forall|j: int| 0 <= j < i ==> self@[j] != (field@, text@),
            decreases self.terms@.len() - i,
        {
            let t = &self.terms[i];
            if field_eq(&t.field, field) && t.text == *text {
                proof {
                    assert(self@[i as int] == (field@, text@));
                }
                return true;
            }
            i = i + 1;
        }
        proof {
            assert(!self@.contains((field@, text@)));
        }
        false
    }
}

/// The tag terms: each tag value case-folded, unstemmed, under the tag field.
pub open spec fn spec_tag_terms(tags: Seq<Seq<char>>) -> Seq<TermV> {
    tags.map_values(|t: Seq<char>| (FieldV::Tag, lower_seq(t)))
}

/// The tokens of a text, normalized, under the given field.
pub open spec fn spec_field_tokens(f: FieldV, text: Seq<char>) -> Seq<TermV> {
    spec_tokens(text).map_values(|w: Seq<char>| (f, norm_token(w)))
}

/// The title terms: tokenized and stemmed under the title field, and folded
/// into the default field as well.
pub open spec fn spec_title_terms(title: Option<Seq<char>>) -> Seq<TermV> {
    match title {
        Option::Some(t) => spec_field_tokens(FieldV::Title, t) + spec_field_tokens(FieldV::Body, t),
        Option::None => seq![],
    }
}

/// The full term mapping of a document: tag terms, then title terms, then
/// body terms. A pure function of the document, so re-indexing an unchanged
/// file reproduces the same term set.
pub open spec fn doc_terms(d: DocumentV) -> Seq<TermV> {
    spec_tag_terms(d.tags) + spec_title_terms(d.title) + spec_field_tokens(FieldV::Body, d.body)
}

fn dup_field(f: &Field) -> (r: Field)
    ensures
        r@ == f@,
{
    match f {
        Field::Body => Field::Body,
        Field::Tag => Field::Tag,
        Field::Title => Field::Title,
        Field::Other(s) => Field::Other(s.clone()),
    }
}

fn push_norm_tokens(out: &mut Vec<Term>, field: Field, toks: &Vec<String>, Ghost(text): Ghost<
    Seq<char>,
>)
    requires
        toks.deep_view() == spec_tokens(text),
    ensures
        final(out).deep_view() == old(out).deep_view() + spec_field_tokens(field@, text),
{
    let ghost base = out.deep_view();
    let ghost seg = spec_field_tokens(field@, text);
    let mut j: usize = 0;
    proof {
        assert(base + seg.take(0) =~= base);
    }
    while j < toks.len()
        invariant
            j <= toks@.len(),
            toks.deep_view() == spec_tokens(text),
            seg == spec_field_tokens(field@, text),
            seg.len() == toks@.len(),
            out.deep_view() == base + seg.take(j as int),
        decreases toks@.len() - j,
    {
        proof {
            assert(toks.deep_view()[j as int] == toks@[j as int]@);
            assert(toks@[j as int]@ == spec_tokens(text)[j as int]);
        }
        let n = normalize_term(toks[j].as_str());
        let f = dup_field(&field);
        let ghost pre = out.deep_view();
        out.push(Term { field: f, text: n });
        proof {
            assert(out.deep_view() =~= pre.push((field@, norm_token(spec_tokens(text)[j as int]))));
            assert(seg.take(j + 1) =~= seg.take(j as int).push(
                (field@, norm_token(spec_tokens(text)[j as int])),
            ));
            assert(out.deep_view() =~= base + seg.take(j + 1));
        }
        j = j + 1;
    }
    proof {
        assert(seg.take(seg.len() as int) =~= seg);
    }
}

/// Maps a document to its indexable term set, per `doc_terms`.
pub fn map_terms(d: &Document) -> (r: TermSet)
    ensures
        r@ == doc_terms(d@),
{
    let mut out: Vec<Term> = Vec::new();
    // tag terms
    let ghost tagsdv = d.tags.deep_view();
    let mut i: usize = 0;
    proof {
        assert(out.deep_view() =~= spec_tag_terms(tagsdv.take(0)));
    }
    while i < d.tags.len()
        invariant
            i <= d.tags@.len(),
            tagsdv == d.tags.deep_view(),
            tagsdv.len() == d.tags@.len(),
            out.deep_view() == spec_tag_terms(tagsdv.take(i as int)),
        decreases d.tags@.len() - i,
    {
        let low = lower_str(d.tags[i].as_str());
        out.push(Term { field: Field::Tag, text: low });
        proof {
            assert(spec_tag_terms(tagsdv.take(i + 1)) =~= spec_tag_terms(tagsdv.take(i as int)).push(
                (FieldV::Tag, lower_seq(tagsdv[i as int])),
            ));
            assert(out.deep_view() =~= spec_tag_terms(tagsdv.take(i + 1)));
        }
        i = i + 1;
    }
    proof {
        assert(tagsdv.take(tagsdv.len() as int) =~= tagsdv);
        assert(out.deep_view() == spec_tag_terms(d@.tags));
    }
    let ghost after_tags = out.deep_view();
    // title terms
    match &d.title {
        Option::Some(t) => {
            let toks = tokenize(t.as_str());
            push_norm_tokens(&mut out, Field::Title, &toks, Ghost(t@));
            push_norm_tokens(&mut out, Field::Body, &toks, Ghost(t@));
            proof {
                assert(out.deep_view() =~= after_tags + spec_title_terms(d@.title));
            }
        },
        Option::None => {
            proof {
                assert(out.deep_view() =~= after_tags + spec_title_terms(d@.title));
            }
        },
    }
    let ghost after_title = out.deep_view();
    // body terms
    let body_toks = tokenize(d.body.as_str());
    push_norm_tokens(&mut out, Field::Body, &body_toks, Ghost(d.body@));
    proof {
        assert(out.deep_view() =~= doc_terms(d@));
    }
    TermSet { terms: out }
}

} // verus!

