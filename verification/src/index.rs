//! The in-memory index: one term set per document key, with replace-on-add
//! semantics, and boolean query evaluation over the whole index.
//!
//! The document key is its source path: adding a document under a key that
//! is already present replaces that document's terms in place, so
//! re-indexing an unchanged file leaves the index as one indexing left it.

use vstd::prelude::*;
use crate::document::{ParseError, spec_parse_note, parse_note};
use crate::query::{QueryExpr, QueryV, spec_matches, eval};
use crate::terms::{TermSet, TermV, doc_terms, map_terms};

verus! {

/// One indexed document: its key and its terms.
#[derive(Debug)]
pub struct IndexEntry {
    pub key: String,
    pub terms: TermSet,
}

impl View for IndexEntry {
    type V = (Seq<char>, Seq<TermV>);

    open spec fn view(&self) -> (Seq<char>, Seq<TermV>) {
        (self.key@, self.terms@)
    }
}

impl DeepView for IndexEntry {
    type V = (Seq<char>, Seq<TermV>);

    open spec fn deep_view(&self) -> (Seq<char>, Seq<TermV>) {
        self.view()
    }
}

/// The index: entries in insertion order, one per document key.
#[derive(Debug)]
pub struct Index {
    pub entries: Vec<IndexEntry>,
}

impl View for Index {
    type V = Seq<(Seq<char>, Seq<TermV>)>;

    open spec fn view(&self) -> Seq<(Seq<char>, Seq<TermV>)> {
        self.entries.deep_view()
    }
}

/// Each key holds at most one entry.
pub open spec fn wf_index(entries: Seq<(Seq<char>, Seq<TermV>)>) -> bool {
    forall|i: int, j: int| 0 <= i < j < entries.len() ==> entries[i].0 != entries[j].0
}

/// Adding a document: the first entry under the same key is replaced in
/// place; a new key is appended.
pub open spec fn spec_add(
    entries: Seq<(Seq<char>, Seq<TermV>)>,
    k: Seq<char>,
    t: Seq<TermV>,
) -> Seq<(Seq<char>, Seq<TermV>)>
    decreases entries.len(),
{
    if entries.len() == 0 {
        seq![(k, t)]
    } else if entries[0].0 == k {
        seq![(k, t)] + entries.drop_first()
    } else {
        seq![entries[0]] + spec_add(entries.drop_first(), k, t)
    }
}

/// The keys of the matching entries, in index order.
pub open spec fn spec_search(
    entries: Seq<(Seq<char>, Seq<TermV>)>,
    q: QueryV,
) -> Seq<Seq<char>>
    decreases entries.len(),
{
    if entries.len() == 0 {
        seq![]
    } else {
        (if spec_matches(q, entries[0].1) {
            seq![entries[0].0]
        } else {
            Seq::<Seq<char>>::empty()
        }) + spec_search(entries.drop_first(), q)
    }
}

/// Updating a batch: each file that parses is indexed under its path; a file
/// that is rejected leaves the index unchanged.
pub open spec fn spec_update_batch(
    entries: Seq<(Seq<char>, Seq<TermV>)>,
    files: Seq<(Seq<char>, Seq<char>)>,
) -> Seq<(Seq<char>, Seq<TermV>)>
    decreases files.len(),
{
    if files.len() == 0 {
        entries
    } else {
        let next = match spec_parse_note(files[0].0, files[0].1) {
            Result::Ok(d) => spec_add(entries, files[0].0, doc_terms(d)),
            Result::Err(_) => entries,
        };
        spec_update_batch(next, files.drop_first())
    }
}

/// What `update_batch` reports of one file.
pub open spec fn spec_file_report(path: Seq<char>, content: Seq<char>) -> Option<ParseError> {
    match spec_parse_note(path, content) {
        Result::Ok(_) => Option::None,
        Result::Err(e) => Option::Some(e),
    }
}

/// One note file handed to the indexer: its path and its raw content.
#[derive(Debug)]
pub struct NoteFile {
    pub path: String,
    pub content: String,
}

impl View for NoteFile {
    type V = (Seq<char>, Seq<char>);

    open spec fn view(&self) -> (Seq<char>, Seq<char>) {
        (self.path@, self.content@)
    }
}

impl DeepView for NoteFile {
    type V = (Seq<char>, Seq<char>);

    open spec fn deep_view(&self) -> (Seq<char>, Seq<char>) {
        self.view()
    }
}

impl Index {
    /// An empty index.
    pub fn new() -> (r: Index)
        ensures
            r@ == Seq::<(Seq<char>, Seq<TermV>)>::empty(),
            wf_index(r@),
    {
        let r = Index { entries: Vec::new() };
        proof {
            assert(r@ =~= Seq::<(Seq<char>, Seq<TermV>)>::empty());
        }
        r
    }

    /// Adds or replaces one document's terms under its key, per `spec_add`.
    #[verifier::loop_isolation(false)]
    pub fn add_document(&mut self, key: String, terms: TermSet)
        ensures
            final(self)@ == spec_add(old(self)@, key@, terms@),
    {
        let ghost full = self.entries.deep_view();
        let ghost kv = key@;
        let ghost tv = terms@;
        let mut i: usize = 0;
        proof {
            assert(full.skip(0) =~= full);
            assert(full.take(0) + spec_add(full.skip(0), kv, tv) =~= spec_add(full, kv, tv));
        }
        while i < self.entries.len()
            invariant
                i <= self.entries@.len(),
                self.entries.deep_view() == full,
                full.len() == self.entries@.len(),
                spec_add(full, kv, tv) == full.take(i as int) + spec_add(
                    full.skip(i as int),
                    kv,
                    tv,
                ),
            decreases self.entries@.len() - i,
        {
            proof {
                assert(full.skip(i as int).drop_first() =~= full.skip(i + 1));
                assert(full.skip(i as int)[0] == full[i as int]);
            }
            let hit: bool = self.entries[i].key == key;
            if hit {
                let ghost pre = self.entries.deep_view();
                self.entries.set(i, IndexEntry { key, terms });
                proof {
                    assert(self.entries.deep_view() =~= pre.update(i as int, (kv, tv)));
                    assert(full.take(i as int) + (seq![(kv, tv)] + full.skip(i + 1))
                        =~= pre.update(i as int, (kv, tv)));
                }
                return ;
            }
            proof {
                assert(full.take(i + 1) =~= full.take(i as int) + seq![full[i as int]]);
                assert((full.take(i as int) + seq![full[i as int]]) + spec_add(
                    full.skip(i + 1),
                    kv,
                    tv,
                ) =~= full.take(i as int) + (seq![full[i as int]] + spec_add(
                    full.skip(i + 1),
                    kv,
                    tv,
                )));
            }
            i = i + 1;
        }
        let ghost pre = self.entries.deep_view();
        self.entries.push(IndexEntry { key, terms });
        proof {
            assert(full.skip(full.len() as int) =~= Seq::<(Seq<char>, Seq<TermV>)>::empty());
            assert(self.entries.deep_view() =~= pre + seq![(kv, tv)]);
            assert(full.take(full.len() as int) =~= full);
            assert(spec_add(full, kv, tv) == self.entries.deep_view());
        }
    }

    /// Evaluates a query against every indexed document and returns the keys
    /// of the matching ones, in index order, per `spec_search`.
    #[verifier::loop_isolation(false)]
    pub fn search(&self, q: &QueryExpr) -> (r: Vec<String>)
        ensures
            r.deep_view() == spec_search(self@, q@),
    {
        let ghost full = self.entries.deep_view();
        let mut out: Vec<String> = Vec::new();
        let mut i: usize = 0;
        proof {
            assert(full.skip(0) =~= full);
            assert(out.deep_view() =~= Seq::<Seq<char>>::empty());
            assert(Seq::<Seq<char>>::empty() + spec_search(full, q@) =~= spec_search(full, q@));
        }
        while i < self.entries.len()
            invariant
                i <= self.entries@.len(),
                self.entries.deep_view() == full,
                full.len() == self.entries@.len(),
                spec_search(full, q@) == out.deep_view() + spec_search(full.skip(i as int), q@),
            decreases self.entries@.len() - i,
        {
            proof {
                assert(full.skip(i as int).drop_first() =~= full.skip(i + 1));
                assert(full.skip(i as int)[0] == full[i as int]);
            }
            let e = &self.entries[i];
            if eval(q, &e.terms) {
                let ghost pre = out.deep_view();
                out.push(e.key.clone());
                proof {
                    assert(out.deep_view() =~= pre + seq![full[i as int].0]);
                    assert(pre + (seq![full[i as int].0] + spec_search(full.skip(i + 1), q@))
                        =~= out.deep_view() + spec_search(full.skip(i + 1), q@));
                }
            } else {
                proof {
                    assert(out.deep_view() + (Seq::<Seq<char>>::empty() + spec_search(
                        full.skip(i + 1),
                        q@,
                    )) =~= out.deep_view() + spec_search(full.skip(i + 1), q@));
                }
            }
            i = i + 1;
        }
        proof {
            assert(full.skip(full.len() as int) =~= Seq::<(Seq<char>, Seq<TermV>)>::empty());
            assert(out.deep_view() + spec_search(full.skip(full.len() as int), q@)
                =~= out.deep_view());
        }
        out
    }

    /// Parses and indexes a batch of note files, per `spec_update_batch`;
    /// returns, for each file in order, `None` on success or the parse error
    /// that made the indexer skip it, per `spec_file_report`.
    #[verifier::loop_isolation(false)]
    pub fn update_batch(&mut self, files: &Vec<NoteFile>) -> (report: Vec<Option<ParseError>>)
        ensures
            final(self)@ == spec_update_batch(old(self)@, files.deep_view()),
            report@.len() == files@.len(),
            forall|j: int|
                0 <= j < files@.len() ==> report@[j] == spec_file_report(
                    files.deep_view()[j].0,
                    files.deep_view()[j].1,
                ),
    {
        let ghost fdv = files.deep_view();
        let ghost base = self@;
        let mut report: Vec<Option<ParseError>> = Vec::new();
        let mut i: usize = 0;
        proof {
            assert(fdv.skip(0) =~= fdv);
        }
        while i < files.len()
            invariant
                i <= files@.len(),
                fdv == files.deep_view(),
                fdv.len() == files@.len(),
                report@.len() == i,
                forall|j: int| 0 <= j < i ==> report@[j] == spec_file_report(fdv[j].0, fdv[j].1),
                spec_update_batch(base, fdv) == spec_update_batch(self@, fdv.skip(i as int)),
            decreases files@.len() - i,
        {
            proof {
                assert(fdv.skip(i as int).drop_first() =~= fdv.skip(i + 1));
                assert(fdv.skip(i as int)[0] == fdv[i as int]);
            }
            let f = &files[i];
            match parse_note(f.path.as_str(), f.content.as_str()) {
                Result::Ok(d) => {
                    let terms = map_terms(&d);
                    let path = f.path.clone();
                    self.add_document(path, terms);
                    report.push(Option::None);
                },
                Result::Err(e) => {
                    report.push(Option::Some(e));
                },
            }
            i = i + 1;
        }
        proof {
            assert(fdv.skip(fdv.len() as int) =~= Seq::<(Seq<char>, Seq<char>)>::empty());
        }
        report
    }
}

/// Re-indexing an unchanged document is idempotent: because the term mapping
/// is a pure function of the document and adding replaces the terms stored
/// under the same key, adding the same key and terms twice leaves the index
/// exactly as adding them once leaves it.
pub proof fn lemma_reindex_idempotent(
    entries: Seq<(Seq<char>, Seq<TermV>)>,
    k: Seq<char>,
    t: Seq<TermV>,
)
    ensures
        spec_add(spec_add(entries, k, t), k, t) == spec_add(entries, k, t),
    decreases entries.len(),
{
    if entries.len() == 0 {
        assert(spec_add(spec_add(entries, k, t), k, t) =~= spec_add(entries, k, t));
    } else if entries[0].0 == k {
        let once = spec_add(entries, k, t);
        assert(once == seq![(k, t)] + entries.drop_first());
        assert(once[0].0 == k);
        assert(once.drop_first() =~= entries.drop_first());
        assert(spec_add(once, k, t) =~= once);
    } else {
        let once = spec_add(entries, k, t);
        assert(once == seq![entries[0]] + spec_add(entries.drop_first(), k, t));
        assert(once[0] == entries[0]);
        lemma_reindex_idempotent(entries.drop_first(), k, t);
        assert(once.drop_first() =~= spec_add(entries.drop_first(), k, t));
        assert(spec_add(once, k, t) =~= once);
    }
}

/// Idempotence of re-indexing, stated over the whole pipeline: updating
/// with the same unmodified file twice leaves the index exactly as one
/// update leaves it, because parsing and term mapping are pure functions of
/// the file and adding replaces the terms stored under its path.
pub proof fn lemma_update_same_file_twice(
    entries: Seq<(Seq<char>, Seq<TermV>)>,
    path: Seq<char>,
    content: Seq<char>,
)
    ensures
        spec_update_batch(entries, seq![(path, content), (path, content)]) == spec_update_batch(
            entries,
            seq![(path, content)],
        ),
{
    let twice = seq![(path, content), (path, content)];
    let once = seq![(path, content)];
    assert(twice.drop_first() =~= once);
    assert(once.drop_first() =~= Seq::<(Seq<char>, Seq<char>)>::empty());
    let next = match spec_parse_note(path, content) {
        Result::Ok(d) => spec_add(entries, path, doc_terms(d)),
        Result::Err(_) => entries,
    };
    assert(spec_update_batch(entries, twice) == spec_update_batch(next, once));
    assert(spec_update_batch(entries, once) == spec_update_batch(
        next,
        Seq::<(Seq<char>, Seq<char>)>::empty(),
    ));
    match spec_parse_note(path, content) {
        Result::Ok(d) => {
            lemma_reindex_idempotent(entries, path, doc_terms(d));
            assert(spec_update_batch(next, once) == spec_update_batch(
                spec_add(next, path, doc_terms(d)),
                Seq::<(Seq<char>, Seq<char>)>::empty(),
            ));
        },
        Result::Err(_) => {
            assert(spec_update_batch(next, once) == spec_update_batch(
                next,
                Seq::<(Seq<char>, Seq<char>)>::empty(),
            ));
        },
    }
}

/// Every key that a search returns is the key of some entry.
pub proof fn lemma_search_member(entries: Seq<(Seq<char>, Seq<TermV>)>, q: QueryV)
    ensures
        forall|j: int|
            0 <= j < spec_search(entries, q).len() ==> exists|i: int|
                0 <= i < entries.len() && entries[i].0 == #[trigger] spec_search(entries, q)[j],
    decreases entries.len(),
{
    if entries.len() == 0 {
    } else {
        lemma_search_member(entries.drop_first(), q);
        let s = spec_search(entries, q);
        let tail = spec_search(entries.drop_first(), q);
        let headlen: int = if spec_matches(q, entries[0].1) {
            1
        } else {
            0
        };
        assert forall|j: int| 0 <= j < s.len() implies exists|i: int|
            0 <= i < entries.len() && entries[i].0 == #[trigger] s[j] by {
            if j < headlen {
                assert(entries[0].0 == s[j]);
            } else {
                assert(s[j] == tail[j - headlen]);
                let i2 = choose|i2: int|
                    0 <= i2 < entries.drop_first().len() && entries.drop_first()[i2].0 == tail[j
                        - headlen];
                assert(entries[i2 + 1].0 == s[j]);
            }
        }
    }
}

/// No duplicate hits: on a well-formed index (one entry per key) a search
/// never returns the same key twice, so re-indexed documents appear once.
pub proof fn lemma_search_no_duplicates(entries: Seq<(Seq<char>, Seq<TermV>)>, q: QueryV)
    requires
        wf_index(entries),
    ensures
        forall|i: int, j: int|
            0 <= i < j < spec_search(entries, q).len() ==> spec_search(entries, q)[i]
                != spec_search(entries, q)[j],
    decreases entries.len(),
{
    if entries.len() == 0 {
    } else {
        assert forall|i: int, j: int|
            0 <= i < j < entries.drop_first().len() implies entries.drop_first()[i].0
            != entries.drop_first()[j].0 by {
            assert(entries.drop_first()[i] == entries[i + 1]);
            assert(entries.drop_first()[j] == entries[j + 1]);
        }
        lemma_search_no_duplicates(entries.drop_first(), q);
        lemma_search_member(entries.drop_first(), q);
        let s = spec_search(entries, q);
        let tail = spec_search(entries.drop_first(), q);
        let headlen: int = if spec_matches(q, entries[0].1) {
            1
        } else {
            0
        };
        assert forall|i: int, j: int| 0 <= i < j < s.len() implies s[i] != s[j] by {
            if i < headlen {
                assert(s[i] == entries[0].0);
                assert(s[j] == tail[j - headlen]);
                let i2 = choose|i2: int|
                    0 <= i2 < entries.drop_first().len() && entries.drop_first()[i2].0 == tail[j
                        - headlen];
                assert(entries[i2 + 1].0 == s[j]);
                assert(entries[0].0 != entries[i2 + 1].0);
            } else {
                assert(s[i] == tail[i - headlen]);
                assert(s[j] == tail[j - headlen]);
            }
        }
    }
}

/// Adding preserves well-formedness: keys stay unique.
pub proof fn lemma_add_wf(entries: Seq<(Seq<char>, Seq<TermV>)>, k: Seq<char>, t: Seq<TermV>)
    requires
        wf_index(entries),
    ensures
        wf_index(spec_add(entries, k, t)),
    decreases entries.len(),
{
    if entries.len() == 0 {
    } else if entries[0].0 == k {
        let once = spec_add(entries, k, t);
        assert(once =~= seq![(k, t)] + entries.drop_first());
        assert forall|i: int, j: int| 0 <= i < j < once.len() implies once[i].0 != once[j].0 by {
            assert(entries[i].0 == once[i].0 || i == 0);
            assert(once[j].0 == entries[j].0);
        }
    } else {
        lemma_add_wf(entries.drop_first(), k, t);
        let rest = spec_add(entries.drop_first(), k, t);
        let once = spec_add(entries, k, t);
        assert(once =~= seq![entries[0]] + rest);
        lemma_add_keys(entries.drop_first(), k, t);
        assert forall|i: int, j: int| 0 <= i < j < once.len() implies once[i].0 != once[j].0 by {
        }
    }
}

/// The keys after an add are the old keys plus possibly `k`.
pub proof fn lemma_add_keys(entries: Seq<(Seq<char>, Seq<TermV>)>, k: Seq<char>, t: Seq<TermV>)
    ensures
        forall|j: int|
            0 <= j < spec_add(entries, k, t).len() ==> (#[trigger] spec_add(entries, k, t)[j].0
                == k || exists|i: int| 0 <= i < entries.len() && entries[i].0 == spec_add(
                entries,
                k,
                t,
            )[j].0),
    decreases entries.len(),
{
    if entries.len() == 0 {
    } else if entries[0].0 == k {
        assert forall|j: int| 0 <= j < spec_add(entries, k, t).len() implies (
        #[trigger] spec_add(entries, k, t)[j].0 == k || exists|i: int|
            0 <= i < entries.len() && entries[i].0 == spec_add(entries, k, t)[j].0) by {
            if j > 0 {
                assert(spec_add(entries, k, t)[j] == entries[j]);
            }
        }
    } else {
        lemma_add_keys(entries.drop_first(), k, t);
        let rest = spec_add(entries.drop_first(), k, t);
        assert forall|j: int| 0 <= j < spec_add(entries, k, t).len() implies (
        #[trigger] spec_add(entries, k, t)[j].0 == k || exists|i: int|
            0 <= i < entries.len() && entries[i].0 == spec_add(entries, k, t)[j].0) by {
            if j == 0 {
                assert(spec_add(entries, k, t)[0] == entries[0]);
            } else {
                assert(spec_add(entries, k, t)[j] == rest[j - 1]);
                if rest[j - 1].0 != k {
                    let i0 = choose|i: int|
                        0 <= i < entries.drop_first().len() && entries.drop_first()[i].0 == rest[j
                            - 1].0;
                    assert(entries[i0 + 1].0 == rest[j - 1].0);
                }
            }
        }
    }
}

} // verus!
