//! Character-level text processing: tokenization, case folding and stemming.
//!
//! Body and title text is split into tokens on word boundaries; tokens
//! shorter than `MIN_TOKEN_LEN` characters are dropped. A token is normalized
//! by ASCII case folding followed by stemming, and the same normalization is
//! applied to bare query terms, so indexed terms and query terms share one
//! normal form.

use vstd::prelude::*;
use vstd::string::StrSliceExecFns;

verus! {

/// Tokens shorter than this many characters are dropped.
pub const MIN_TOKEN_LEN: usize = 2;

/// A word character: ASCII letters and digits, and every character outside
/// the ASCII range. Everything else (whitespace, punctuation) separates tokens.
pub open spec fn is_word_char(c: char) -> bool {
    let u = c as u32;
    (97 <= u && u <= 122) || (65 <= u && u <= 90) || (48 <= u && u <= 57) || u > 127
}

/// ASCII case folding of one character.
pub open spec fn lower_char(c: char) -> char {
    let u = c as u32;
    if 65 <= u && u <= 90 {
        (((c as u8) + 32) as char)
    } else {
        c
    }
}

/// ASCII case folding of a character sequence.
pub open spec fn lower_seq(s: Seq<char>) -> Seq<char> {
    s.map_values(|c: char| lower_char(c))
}

/// The stem that the fixed English stemmer assigns to a (case-folded) word.
pub uninterp spec fn stem_of(w: Seq<char>) -> Seq<char>;

/// The normal form shared by indexed body/title tokens and bare query terms:
/// case folding followed by stemming.
pub open spec fn norm_token(w: Seq<char>) -> Seq<char> {
    stem_of(lower_seq(w))
}

/// Whether a completed token is kept.
pub open spec fn keep_token(t: Seq<char>) -> bool {
    t.len() >= MIN_TOKEN_LEN
}

pub open spec fn flush_token(t: Seq<char>) -> Seq<Seq<char>> {
    if keep_token(t) {
        seq![t]
    } else {
        seq![]
    }
}

pub open spec fn spec_tokens_from(s: Seq<char>, i: int, cur: Seq<char>) -> Seq<Seq<char>>
    decreases s.len() - i,
{
    if i < 0 || i >= s.len() {
        flush_token(cur)
    } else if is_word_char(s[i]) {
        spec_tokens_from(s, i + 1, cur.push(s[i]))
    } else {
        flush_token(cur) + spec_tokens_from(s, i + 1, seq![])
    }
}

/// The tokens of a character sequence: maximal runs of word characters,
/// in order, with runs shorter than `MIN_TOKEN_LEN` dropped.
pub open spec fn spec_tokens(s: Seq<char>) -> Seq<Seq<char>> {
    spec_tokens_from(s, 0, seq![])
}

/// The characters of a string slice, as a vector.
pub fn chars_of(s: &str) -> (r: Vec<char>)
    ensures
        r@ == s@,
{
    let n = s.unicode_len();
    let mut v: Vec<char> = Vec::new();
    let mut i: usize = 0;
    while i < n
        invariant
            n == s@.len(),
            i <= n,
            v@ == s@.take(i as int),
        decreases n - i,
    {
        let c = s.get_char(i);
        v.push(c);
        proof {
            assert(v@ =~= s@.take(i + 1));
        }
        i = i + 1;
    }
    proof {
        assert(v@ =~= s@);
    }
    v
}

/// Relies on `String::push`: appends the given character to the end of the string.
#[verifier::external_body]
fn push_char(s: &mut String, c: char)
    ensures
        final(s)@ == old(s)@.push(c),
{
    s.push(c)
}

/// A string holding exactly the given characters.
pub fn string_from_chars(v: &Vec<char>) -> (r: String)
    ensures
        r@ == v@,
{
    let mut s = String::new();
    let mut i: usize = 0;
    while i < v.len()
        invariant
            i <= v@.len(),
            s@ == v@.take(i as int),
        decreases v@.len() - i,
    {
        push_char(&mut s, v[i]);
        proof {
            assert(s@ =~= v@.take(i + 1));
        }
        i = i + 1;
    }
    proof {
        assert(s@ =~= v@);
    }
    s
}

/// ASCII case folding of one character.
pub fn lower_char_x(c: char) -> (r: char)
    ensures
        r == lower_char(c),
{
    let u = c as u32;
    if 65 <= u && u <= 90 {
        let b = (u + 32) as u8;
        b as char
    } else {
        c
    }
}

/// ASCII case folding of a character vector.
pub fn lower_chars(v: &Vec<char>) -> (r: Vec<char>)
    ensures
        r@ == lower_seq(v@),
{
    let mut out: Vec<char> = Vec::new();
    let mut i: usize = 0;
    while i < v.len()
        invariant
            i <= v@.len(),
            out@ == lower_seq(v@.take(i as int)),
        decreases v@.len() - i,
    {
        out.push(lower_char_x(v[i]));
        proof {
            assert(out@ =~= lower_seq(v@.take(i + 1)));
        }
        i = i + 1;
    }
    proof {
        assert(v@.take(v@.len() as int) =~= v@);
    }
    out
}

/// ASCII case folding of a string.
pub fn lower_str(s: &str) -> (r: String)
    ensures
        r@ == lower_seq(s@),
{
    let v = chars_of(s);
    let low = lower_chars(&v);
    string_from_chars(&low)
}

fn is_word_char_x(c: char) -> (r: bool)
    ensures
        r == is_word_char(c),
{
    let u = c as u32;
    (97 <= u && u <= 122) || (65 <= u && u <= 90) || (48 <= u && u <= 57) || u > 127
}

/// The tokens of a character vector, per `spec_tokens`.
pub fn tokenize_chars(v: &Vec<char>) -> (r: Vec<String>)
    ensures
        r.deep_view() == spec_tokens(v@),
{
    let mut out: Vec<String> = Vec::new();
    let mut cur: Vec<char> = Vec::new();
    let mut i: usize = 0;
    while i < v.len()
        invariant
            i <= v@.len(),
            spec_tokens(v@) == out.deep_view() + spec_tokens_from(v@, i as int, cur@),
        decreases v@.len() - i,
    {
        let c = v[i];
        if is_word_char_x(c) {
            cur.push(c);
        } else {
            if cur.len() >= MIN_TOKEN_LEN {
                let ghost old_out = out.deep_view();
                let t = string_from_chars(&cur);
                out.push(t);
                proof {
                    assert(out.deep_view() =~= old_out + flush_token(cur@));
                }
            } else {
                proof {
                    assert(out.deep_view() + flush_token(cur@) =~= out.deep_view());
                }
            }
            cur = Vec::new();
        }
        i = i + 1;
    }
    if cur.len() >= MIN_TOKEN_LEN {
        let ghost old_out = out.deep_view();
        let t = string_from_chars(&cur);
        out.push(t);
        proof {
            assert(out.deep_view() =~= old_out + flush_token(cur@));
        }
    } else {
        proof {
            assert(out.deep_view() + flush_token(cur@) =~= out.deep_view());
        }
    }
    out
}

/// The tokens of a string, per `spec_tokens`.
pub fn tokenize(s: &str) -> (r: Vec<String>)
    ensures
        r.deep_view() == spec_tokens(s@),
{
    let v = chars_of(s);
    tokenize_chars(&v)
}

/// The deep view of a character vector is its view.
pub proof fn lemma_dv_chars(v: Vec<char>)
    ensures
        v.deep_view() == v@,
{
    assert(v.deep_view() =~= v@);
}

/// The deep view of a vector of character vectors, elementwise.
pub proof fn lemma_dv_lines(v: Vec<Vec<char>>)
    ensures
        v.deep_view().len() == v@.len(),
        forall|i: int| 0 <= i < v@.len() ==> #[trigger] v.deep_view()[i] == v@[i]@,
{
    assert forall|i: int| 0 <= i < v@.len() implies #[trigger] v.deep_view()[i] == v@[i]@ by {
        lemma_dv_chars(v@[i]);
    }
}

/// Whether two character vectors hold the same characters.
pub fn chars_eq(a: &Vec<char>, b: &Vec<char>) -> (r: bool)
    ensures
        r == (a@ == b@),
{
    if a.len() != b.len() {
        return false;
    }
    let mut i: usize = 0;
    while i < a.len()
        invariant
            a@.len() == b@.len(),
            i <= a@.len(),
            forall|j: int| 0 <= j < i ==> a@[j] == b@[j],
        decreases a@.len() - i,
    {
        if a[i] != b[i] {
            return false;
        }
        i = i + 1;
    }
    proof {
        assert(a@ =~= b@);
    }
    true
}

/// Appends the characters of `src` to `dst`.
pub fn append_chars(dst: &mut Vec<char>, src: &Vec<char>)
    ensures
        final(dst)@ == old(dst)@ + src@,
{
    let mut i: usize = 0;
    while i < src.len()
        invariant
            i <= src@.len(),
            dst@ == old(dst)@ + src@.take(i as int),
        decreases src@.len() - i,
    {
        dst.push(src[i]);
        proof {
            assert(old(dst)@ + src@.take(i as int) + seq![src@[i as int]] =~= old(dst)@
                + src@.take(i + 1));
        }
        i = i + 1;
    }
    proof {
        assert(old(dst)@ + src@.take(src@.len() as int) =~= old(dst)@ + src@);
    }
}

/// The characters of `v` from position `a` (inclusive) to `b` (exclusive).
pub fn subvec(v: &Vec<char>, a: usize, b: usize) -> (r: Vec<char>)
    requires
        a <= b <= v@.len(),
    ensures
        r@ == v@.subrange(a as int, b as int),
{
    let mut out: Vec<char> = Vec::new();
    let mut i: usize = a;
    while i < b
        invariant
            a <= i <= b <= v@.len(),
            out@ == v@.subrange(a as int, i as int),
        decreases b - i,
    {
        out.push(v[i]);
        proof {
            assert(out@ =~= v@.subrange(a as int, i + 1));
        }
        i = i + 1;
    }
    out
}

/// Relies on `rust_stemmers` (Snowball English): the stem of a word depends
/// on its characters alone, so two calls on equal strings agree.
#[verifier::external_body]
fn stem_word(w: &str) -> (r: String)
    ensures
        r@ == stem_of(w@),
{
    rust_stemmers::Stemmer::create(rust_stemmers::Algorithm::English).stem(w).into_owned()
}

/// The shared normal form of a token or bare query term: case folding
/// followed by stemming.
pub fn normalize_term(t: &str) -> (r: String)
    ensures
        r@ == norm_token(t@),
{
    let low = lower_str(t);
    stem_word(low.as_str())
}

} // verus!
