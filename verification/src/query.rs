//! The query language: grammar, parser and evaluation semantics.
//!
//! Grammar, loosest binding last: `NOT` binds tightest, then `AND` (written
//! or implied by juxtaposition), then `OR`; parentheses group; an atom is a
//! bare term, a `field:value` filter, or a parenthesized expression. Parsing
//! fails on an empty input, a dangling operator, or unbalanced parentheses.
//! The parser applies no stemming: the tree describes the request verbatim,
//! and evaluation normalizes bare terms exactly as body tokens are
//! normalized at indexing time.

use vstd::prelude::*;
use crate::document::find_colon_from;
use crate::document::DocumentV;
use crate::terms::{
    Field, FieldV, TermSet, TermV, doc_terms, spec_field_tokens, spec_tag_terms, spec_title_terms,
};
use crate::text::{
    chars_of, lower_seq, lower_str, norm_token, normalize_term, spec_tokens, string_from_chars,
    subvec, chars_eq,
};

verus! {

/// Why a query string was rejected.
#[derive(Debug, Clone, Copy, PartialEq, Eq, Structural)]
pub enum QuerySyntaxError {
    /// The input is empty after trimming whitespace.
    EmptyQuery,
    /// A parenthesis has no partner, or a group is closed that never opened.
    UnbalancedParens,
    /// An operator misses its operand.
    DanglingOperator,
}

/// One token of the query language.
#[derive(Debug)]
pub enum QueryTok {
    LParen,
    RParen,
    OrOp,
    AndOp,
    NotOp,
    Word(String),
    FieldTok(String, String),
}

/// Ghost model of a query token.
pub ghost enum QueryTokV {
    LParen,
    RParen,
    OrOp,
    AndOp,
    NotOp,
    Word(Seq<char>),
    FieldTok(Seq<char>, Seq<char>),
}

impl View for QueryTok {
    type V = QueryTokV;

    open spec fn view(&self) -> QueryTokV {
        match self {
            QueryTok::LParen => QueryTokV::LParen,
            QueryTok::RParen => QueryTokV::RParen,
            QueryTok::OrOp => QueryTokV::OrOp,
            QueryTok::AndOp => QueryTokV::AndOp,
            QueryTok::NotOp => QueryTokV::NotOp,
            QueryTok::Word(w) => QueryTokV::Word(w@),
            QueryTok::FieldTok(f, v) => QueryTokV::FieldTok(f@, v@),
        }
    }
}

impl DeepView for QueryTok {
    type V = QueryTokV;

    open spec fn deep_view(&self) -> QueryTokV {
        self.view()
    }
}

/// A query expression tree: a pure description of the request, owning no
/// reference to index state.
#[derive(Debug)]
pub enum QueryExpr {
    /// A bare term, matched against the default field after normalization.
    Term(String),
    /// A `field:value` filter, matched verbatim (case-folded) in that field.
    FieldFilter(Field, String),
    And(Box<QueryExpr>, Box<QueryExpr>),
    Or(Box<QueryExpr>, Box<QueryExpr>),
    Not(Box<QueryExpr>),
}

/// Ghost model of a query expression.
pub ghost enum QueryV {
    Term(Seq<char>),
    FieldFilter(FieldV, Seq<char>),
    And(Box<QueryV>, Box<QueryV>),
    Or(Box<QueryV>, Box<QueryV>),
    Not(Box<QueryV>),
}

pub open spec fn qview(q: QueryExpr) -> QueryV
    decreases q,
{
    match q {
        QueryExpr::Term(w) => QueryV::Term(w@),
        QueryExpr::FieldFilter(f, v) => QueryV::FieldFilter(f@, v@),
        QueryExpr::And(a, b) => QueryV::And(Box::new(qview(*a)), Box::new(qview(*b))),
        QueryExpr::Or(a, b) => QueryV::Or(Box::new(qview(*a)), Box::new(qview(*b))),
        QueryExpr::Not(a) => QueryV::Not(Box::new(qview(*a))),
    }
}

impl View for QueryExpr {
    type V = QueryV;

    open spec fn view(&self) -> QueryV {
        qview(*self)
    }
}

/// Whitespace between query tokens.
pub open spec fn is_qspace(c: char) -> bool {
    c == ' ' || c == '\t' || c == '\n' || c == '\r'
}

fn is_qspace_x(c: char) -> (r: bool)
    ensures
        r == is_qspace(c),
{
    c == ' ' || c == '\t' || c == '\n' || c == '\r'
}

pub open spec fn and_kw() -> Seq<char> {
    seq!['A', 'N', 'D']
}

pub open spec fn or_kw() -> Seq<char> {
    seq!['O', 'R']
}

pub open spec fn not_kw() -> Seq<char> {
    seq!['N', 'O', 'T']
}

pub open spec fn tag_name() -> Seq<char> {
    seq!['t', 'a', 'g']
}

pub open spec fn title_name() -> Seq<char> {
    seq!['t', 'i', 't', 'l', 'e']
}

/// The field a filter name denotes; an unrecognized name is carried through
/// and matches only what was indexed under it (that is, nothing today).
pub open spec fn field_of(name: Seq<char>) -> FieldV {
    if name == tag_name() {
        FieldV::Tag
    } else if name == title_name() {
        FieldV::Title
    } else {
        FieldV::Other(name)
    }
}

/// What a completed word between separators means: a keyword, a
/// `field:value` filter (both sides nonempty), or a bare term.
pub open spec fn classify_word(w: Seq<char>) -> QueryTokV {
    if w == and_kw() {
        QueryTokV::AndOp
    } else if w == or_kw() {
        QueryTokV::OrOp
    } else if w == not_kw() {
        QueryTokV::NotOp
    } else {
        let p = find_colon_from(w, 0);
        if 1 <= p < w.len() - 1 {
            QueryTokV::FieldTok(w.take(p), w.skip(p + 1))
        } else {
            QueryTokV::Word(w)
        }
    }
}

pub open spec fn flush_word(w: Seq<char>) -> Seq<QueryTokV> {
    if w.len() > 0 {
        seq![classify_word(w)]
    } else {
        seq![]
    }
}

pub open spec fn lex_from(s: Seq<char>, i: int, cur: Seq<char>) -> Seq<QueryTokV>
    decreases s.len() - i,
{
    if i < 0 || i >= s.len() {
        flush_word(cur)
    } else if is_qspace(s[i]) {
        flush_word(cur) + lex_from(s, i + 1, seq![])
    } else if s[i] == '(' {
        flush_word(cur) + seq![QueryTokV::LParen] + lex_from(s, i + 1, seq![])
    } else if s[i] == ')' {
        flush_word(cur) + seq![QueryTokV::RParen] + lex_from(s, i + 1, seq![])
    } else {
        lex_from(s, i + 1, cur.push(s[i]))
    }
}

/// The tokens of a query string.
pub open spec fn spec_lex(s: Seq<char>) -> Seq<QueryTokV> {
    lex_from(s, 0, seq![])
}

fn and_kw_chars() -> (r: Vec<char>)
    ensures
        r@ == and_kw(),
{
    let mut m: Vec<char> = Vec::new();
    m.push('A');
    m.push('N');
    m.push('D');
    proof {
        assert(m@ =~= and_kw());
    }
    m
}

fn or_kw_chars() -> (r: Vec<char>)
    ensures
        r@ == or_kw(),
{
    let mut m: Vec<char> = Vec::new();
    m.push('O');
    m.push('R');
    proof {
        assert(m@ =~= or_kw());
    }
    m
}

fn not_kw_chars() -> (r: Vec<char>)
    ensures
        r@ == not_kw(),
{
    let mut m: Vec<char> = Vec::new();
    m.push('N');
    m.push('O');
    m.push('T');
    proof {
        assert(m@ =~= not_kw());
    }
    m
}

fn tag_name_chars() -> (r: Vec<char>)
    ensures
        r@ == tag_name(),
{
    let mut m: Vec<char> = Vec::new();
    m.push('t');
    m.push('a');
    m.push('g');
    proof {
        assert(m@ =~= tag_name());
    }
    m
}

fn title_name_chars() -> (r: Vec<char>)
    ensures
        r@ == title_name(),
{
    let mut m: Vec<char> = Vec::new();
    m.push('t');
    m.push('i');
    m.push('t');
    m.push('l');
    m.push('e');
    proof {
        assert(m@ =~= title_name());
    }
    m
}

/// The field a filter name denotes, per `field_of`.
pub fn field_from_name(name: &Vec<char>) -> (r: Field)
    ensures
        r@ == field_of(name@),
{
    if chars_eq(name, &tag_name_chars()) {
        Field::Tag
    } else if chars_eq(name, &title_name_chars()) {
        Field::Title
    } else {
        Field::Other(string_from_chars(name))
    }
}

fn classify_word_x(w: &Vec<char>) -> (r: QueryTok)
    ensures
        r@ == classify_word(w@),
{
    if chars_eq(w, &and_kw_chars()) {
        return QueryTok::AndOp;
    }
    if chars_eq(w, &or_kw_chars()) {
        return QueryTok::OrOp;
    }
    if chars_eq(w, &not_kw_chars()) {
        return QueryTok::NotOp;
    }
    let p = crate::document::find_colon(w);
    if 1 <= p && p < w.len() - 1 {
        let f = subvec(w, 0, p);
        let v = subvec(w, p + 1, w.len());
        proof {
            assert(v@ =~= w@.skip(p + 1));
        }
        QueryTok::FieldTok(string_from_chars(&f), string_from_chars(&v))
    } else {
        QueryTok::Word(string_from_chars(w))
    }
}

fn flush_cur(out: &mut Vec<QueryTok>, cur: Vec<char>) -> (r: Vec<char>)
    ensures
        final(out).deep_view() == old(out).deep_view() + flush_word(cur@),
        r@ == Seq::<char>::empty(),
{
    if cur.len() > 0 {
        let t = classify_word_x(&cur);
        let ghost pre = out.deep_view();
        out.push(t);
        proof {
            assert(out.deep_view() =~= pre + flush_word(cur@));
        }
    } else {
        proof {
            assert(out.deep_view() + flush_word(cur@) =~= out.deep_view());
        }
    }
    Vec::new()
}

/// Lexes a query string into tokens, per `spec_lex`. Lexing never fails;
/// only the parser rejects.
#[verifier::loop_isolation(false)]
pub fn lex(s: &str) -> (r: Vec<QueryTok>)
    ensures
        r.deep_view() == spec_lex(s@),
{
    let v = chars_of(s);
    let mut out: Vec<QueryTok> = Vec::new();
    let mut cur: Vec<char> = Vec::new();
    let mut i: usize = 0;
    proof {
        assert(out.deep_view() =~= Seq::<QueryTokV>::empty());
        assert(Seq::<QueryTokV>::empty() + lex_from(v@, 0, cur@) =~= lex_from(v@, 0, cur@));
    }
    while i < v.len()
        invariant
            i <= v@.len(),
            spec_lex(s@) == out.deep_view() + lex_from(v@, i as int, cur@),
        decreases v@.len() - i,
    {
        let c = v[i];
        if is_qspace_x(c) {
            let ghost old_dv = out.deep_view();
            let ghost old_cur = cur@;
            cur = flush_cur(&mut out, cur);
            proof {
                assert(old_dv + (flush_word(old_cur) + lex_from(v@, i + 1, cur@)) =~= out.deep_view()
                    + lex_from(v@, i + 1, cur@));
            }
        } else if c == '(' {
            let ghost old_dv = out.deep_view();
            let ghost old_cur = cur@;
            cur = flush_cur(&mut out, cur);
            let ghost mid = out.deep_view();
            out.push(QueryTok::LParen);
            proof {
                assert(out.deep_view() =~= mid + seq![QueryTokV::LParen]);
                assert(old_dv + (flush_word(old_cur) + seq![QueryTokV::LParen] + lex_from(
                    v@,
                    i + 1,
                    cur@,
                )) =~= out.deep_view() + lex_from(v@, i + 1, cur@));
            }
        } else if c == ')' {
            let ghost old_dv = out.deep_view();
            let ghost old_cur = cur@;
            cur = flush_cur(&mut out, cur);
            let ghost mid = out.deep_view();
            out.push(QueryTok::RParen);
            proof {
                assert(out.deep_view() =~= mid + seq![QueryTokV::RParen]);
                assert(old_dv + (flush_word(old_cur) + seq![QueryTokV::RParen] + lex_from(
                    v@,
                    i + 1,
                    cur@,
                )) =~= out.deep_view() + lex_from(v@, i + 1, cur@));
            }
        } else {
            cur.push(c);
        }
        i = i + 1;
    }
    let _emptied = flush_cur(&mut out, cur);
    proof {
        assert(out.deep_view() =~= spec_lex(s@));
    }
    out
}

/// Whether a token can begin an atom; two adjacent such positions are
/// joined by an implicit `AND`.
pub open spec fn starts_atom(t: QueryTokV) -> bool {
    match t {
        QueryTokV::Word(_) => true,
        QueryTokV::FieldTok(_, _) => true,
        QueryTokV::NotOp => true,
        QueryTokV::LParen => true,
        QueryTokV::RParen => false,
        QueryTokV::AndOp => false,
        QueryTokV::OrOp => false,
    }
}

fn starts_atom_x(t: &QueryTok) -> (r: bool)
    ensures
        r == starts_atom(t@),
{
    match t {
        QueryTok::Word(_) => true,
        QueryTok::FieldTok(_, _) => true,
        QueryTok::NotOp => true,
        QueryTok::LParen => true,
        QueryTok::RParen => false,
        QueryTok::AndOp => false,
        QueryTok::OrOp => false,
    }
}

/// An atom: a bare term, a field filter, or a parenthesized expression.
pub open spec fn p_atom(toks: Seq<QueryTokV>, i: int, fuel: nat) -> Result<
    (QueryV, int),
    QuerySyntaxError,
>
    decreases fuel,
{
    if fuel == 0 {
        Result::Err(QuerySyntaxError::UnbalancedParens)
    } else if i < 0 || i >= toks.len() {
        Result::Err(QuerySyntaxError::DanglingOperator)
    } else {
        match toks[i] {
            QueryTokV::Word(w) => Result::Ok((QueryV::Term(w), i + 1)),
            QueryTokV::FieldTok(f, v) => Result::Ok(
                (QueryV::FieldFilter(field_of(f), v), i + 1),
            ),
            QueryTokV::AndOp => Result::Err(QuerySyntaxError::DanglingOperator),
            QueryTokV::OrOp => Result::Err(QuerySyntaxError::DanglingOperator),
            QueryTokV::NotOp => Result::Err(QuerySyntaxError::DanglingOperator),
            QueryTokV::RParen => Result::Err(QuerySyntaxError::UnbalancedParens),
            QueryTokV::LParen => match p_or(toks, i + 1, (fuel - 1) as nat) {
                Result::Err(e) => Result::Err(e),
                Result::Ok(pair) => {
                    if pair.1 < toks.len() && toks[pair.1] is RParen {
                        Result::Ok((pair.0, pair.1 + 1))
                    } else {
                        Result::Err(QuerySyntaxError::UnbalancedParens)
                    }
                },
            },
        }
    }
}

/// A unary expression: any number of `NOT`s applied to an atom.
pub open spec fn p_unary(toks: Seq<QueryTokV>, i: int, fuel: nat) -> Result<
    (QueryV, int),
    QuerySyntaxError,
>
    decreases fuel,
{
    if fuel == 0 {
        Result::Err(QuerySyntaxError::UnbalancedParens)
    } else if 0 <= i < toks.len() && toks[i] is NotOp {
        match p_unary(toks, i + 1, (fuel - 1) as nat) {
            Result::Err(e) => Result::Err(e),
            Result::Ok(pair) => Result::Ok((QueryV::Not(Box::new(pair.0)), pair.1)),
        }
    } else {
        p_atom(toks, i, (fuel - 1) as nat)
    }
}

/// The rest of an `AND` chain after its first operand, folding left.
pub open spec fn p_and_rest(toks: Seq<QueryTokV>, i: int, acc: QueryV, fuel: nat) -> Result<
    (QueryV, int),
    QuerySyntaxError,
>
    decreases fuel,
{
    if fuel == 0 {
        Result::Err(QuerySyntaxError::UnbalancedParens)
    } else if 0 <= i < toks.len() && toks[i] is AndOp {
        match p_unary(toks, i + 1, (fuel - 1) as nat) {
            Result::Err(e) => Result::Err(e),
            Result::Ok(pair) => p_and_rest(
                toks,
                pair.1,
                QueryV::And(Box::new(acc), Box::new(pair.0)),
                (fuel - 1) as nat,
            ),
        }
    } else if 0 <= i < toks.len() && starts_atom(toks[i]) {
        match p_unary(toks, i, (fuel - 1) as nat) {
            Result::Err(e) => Result::Err(e),
            Result::Ok(pair) => p_and_rest(
                toks,
                pair.1,
                QueryV::And(Box::new(acc), Box::new(pair.0)),
                (fuel - 1) as nat,
            ),
        }
    } else {
        Result::Ok((acc, i))
    }
}

/// An `AND` chain, explicit or by juxtaposition.
pub open spec fn p_and(toks: Seq<QueryTokV>, i: int, fuel: nat) -> Result<
    (QueryV, int),
    QuerySyntaxError,
>
    decreases fuel,
{
    if fuel == 0 {
        Result::Err(QuerySyntaxError::UnbalancedParens)
    } else {
        match p_unary(toks, i, (fuel - 1) as nat) {
            Result::Err(e) => Result::Err(e),
            Result::Ok(pair) => p_and_rest(toks, pair.1, pair.0, (fuel - 1) as nat),
        }
    }
}

/// The rest of an `OR` chain after its first operand, folding left.
pub open spec fn p_or_rest(toks: Seq<QueryTokV>, i: int, acc: QueryV, fuel: nat) -> Result<
    (QueryV, int),
    QuerySyntaxError,
>
    decreases fuel,
{
    if fuel == 0 {
        Result::Err(QuerySyntaxError::UnbalancedParens)
    } else if 0 <= i < toks.len() && toks[i] is OrOp {
        match p_and(toks, i + 1, (fuel - 1) as nat) {
            Result::Err(e) => Result::Err(e),
            Result::Ok(pair) => p_or_rest(
                toks,
                pair.1,
                QueryV::Or(Box::new(acc), Box::new(pair.0)),
                (fuel - 1) as nat,
            ),
        }
    } else {
        Result::Ok((acc, i))
    }
}

/// An `OR` chain: the whole expression grammar.
pub open spec fn p_or(toks: Seq<QueryTokV>, i: int, fuel: nat) -> Result<
    (QueryV, int),
    QuerySyntaxError,
>
    decreases fuel,
{
    if fuel == 0 {
        Result::Err(QuerySyntaxError::UnbalancedParens)
    } else {
        match p_and(toks, i, (fuel - 1) as nat) {
            Result::Err(e) => Result::Err(e),
            Result::Ok(pair) => p_or_rest(toks, pair.1, pair.0, (fuel - 1) as nat),
        }
    }
}

/// Fuel ample for any parse of `n` tokens: each step down the four grammar
/// levels or along the input spends one unit.
pub open spec fn parse_fuel(n: nat) -> nat {
    4 * n + 8
}

/// The tree a query string parses to, or the error that rejects it:
/// `EmptyQuery` if no token remains, `DanglingOperator` or
/// `UnbalancedParens` as the grammar finds them, and `UnbalancedParens` for
/// input left over after a full expression.
pub open spec fn parse_tokens(toks: Seq<QueryTokV>) -> Result<QueryV, QuerySyntaxError> {
    if toks.len() == 0 {
        Result::Err(QuerySyntaxError::EmptyQuery)
    } else {
        match p_or(toks, 0, parse_fuel(toks.len())) {
            Result::Err(e) => Result::Err(e),
            Result::Ok(pair) => {
                if pair.1 == toks.len() {
                    Result::Ok(pair.0)
                } else {
                    Result::Err(QuerySyntaxError::UnbalancedParens)
                }
            },
        }
    }
}

pub open spec fn spec_parse_query(s: Seq<char>) -> Result<QueryV, QuerySyntaxError> {
    parse_tokens(spec_lex(s))
}

/// How an executable parse step corresponds to its specification.
pub open spec fn step_matches(
    s: Result<(QueryV, int), QuerySyntaxError>,
    r: Result<(QueryExpr, usize), QuerySyntaxError>,
    n: int,
) -> bool {
    match r {
        Result::Ok(pair) => s == Result::<(QueryV, int), QuerySyntaxError>::Ok(
            (pair.0@, pair.1 as int),
        ) && pair.1 <= n,
        Result::Err(e) => s == Result::<(QueryV, int), QuerySyntaxError>::Err(e),
    }
}

fn p_atom_x(toks: &Vec<QueryTok>, i: usize, fuel: u128) -> (r: Result<
    (QueryExpr, usize),
    QuerySyntaxError,
>)
    requires
        i <= toks@.len(),
    ensures
        step_matches(p_atom(toks.deep_view(), i as int, fuel as nat), r, toks@.len() as int),
    decreases fuel,
{
    if fuel == 0 {
        return Result::Err(QuerySyntaxError::UnbalancedParens);
    }
    if i >= toks.len() {
        return Result::Err(QuerySyntaxError::DanglingOperator);
    }
    match &toks[i] {
        QueryTok::Word(w) => Result::Ok((QueryExpr::Term(w.clone()), i + 1)),
        QueryTok::FieldTok(f, v) => {
            let fc = chars_of(f.as_str());
            let fld = field_from_name(&fc);
            Result::Ok((QueryExpr::FieldFilter(fld, v.clone()), i + 1))
        },
        QueryTok::AndOp => Result::Err(QuerySyntaxError::DanglingOperator),
        QueryTok::OrOp => Result::Err(QuerySyntaxError::DanglingOperator),
        QueryTok::NotOp => Result::Err(QuerySyntaxError::DanglingOperator),
        QueryTok::RParen => Result::Err(QuerySyntaxError::UnbalancedParens),
        QueryTok::LParen => match p_or_x(toks, i + 1, fuel - 1) {
            Result::Err(e) => Result::Err(e),
            Result::Ok((e1, j)) => {
                if j < toks.len() {
                    match &toks[j] {
                        QueryTok::RParen => Result::Ok((e1, j + 1)),
                        _ => Result::Err(QuerySyntaxError::UnbalancedParens),
                    }
                } else {
                    Result::Err(QuerySyntaxError::UnbalancedParens)
                }
            },
        },
    }
}

fn p_unary_x(toks: &Vec<QueryTok>, i: usize, fuel: u128) -> (r: Result<
    (QueryExpr, usize),
    QuerySyntaxError,
>)
    requires
        i <= toks@.len(),
    ensures
        step_matches(p_unary(toks.deep_view(), i as int, fuel as nat), r, toks@.len() as int),
    decreases fuel,
{
    if fuel == 0 {
        return Result::Err(QuerySyntaxError::UnbalancedParens);
    }
    let mut is_not: bool = false;
    if i < toks.len() {
        match &toks[i] {
            QueryTok::NotOp => {
                is_not = true;
            },
            _ => {},
        }
    }
    if is_not {
        match p_unary_x(toks, i + 1, fuel - 1) {
            Result::Err(e) => Result::Err(e),
            Result::Ok((e1, j)) => Result::Ok((QueryExpr::Not(Box::new(e1)), j)),
        }
    } else {
        p_atom_x(toks, i, fuel - 1)
    }
}

fn p_and_rest_x(toks: &Vec<QueryTok>, i: usize, acc: QueryExpr, fuel: u128) -> (r: Result<
    (QueryExpr, usize),
    QuerySyntaxError,
>)
    requires
        i <= toks@.len(),
    ensures
        step_matches(
            p_and_rest(toks.deep_view(), i as int, acc@, fuel as nat),
            r,
            toks@.len() as int,
        ),
    decreases fuel,
{
    if fuel == 0 {
        return Result::Err(QuerySyntaxError::UnbalancedParens);
    }
    if i < toks.len() {
        let is_and: bool = match &toks[i] {
            QueryTok::AndOp => true,
            _ => false,
        };
        if is_and {
            return match p_unary_x(toks, i + 1, fuel - 1) {
                Result::Err(e) => Result::Err(e),
                Result::Ok((e1, j)) => p_and_rest_x(
                    toks,
                    j,
                    QueryExpr::And(Box::new(acc), Box::new(e1)),
                    fuel - 1,
                ),
            };
        }
        if starts_atom_x(&toks[i]) {
            return match p_unary_x(toks, i, fuel - 1) {
                Result::Err(e) => Result::Err(e),
                Result::Ok((e1, j)) => p_and_rest_x(
                    toks,
                    j,
                    QueryExpr::And(Box::new(acc), Box::new(e1)),
                    fuel - 1,
                ),
            };
        }
    }
    Result::Ok((acc, i))
}

fn p_and_x(toks: &Vec<QueryTok>, i: usize, fuel: u128) -> (r: Result<
    (QueryExpr, usize),
    QuerySyntaxError,
>)
    requires
        i <= toks@.len(),
    ensures
        step_matches(p_and(toks.deep_view(), i as int, fuel as nat), r, toks@.len() as int),
    decreases fuel,
{
    if fuel == 0 {
        return Result::Err(QuerySyntaxError::UnbalancedParens);
    }
    match p_unary_x(toks, i, fuel - 1) {
        Result::Err(e) => Result::Err(e),
        Result::Ok((e1, j)) => p_and_rest_x(toks, j, e1, fuel - 1),
    }
}

fn p_or_rest_x(toks: &Vec<QueryTok>, i: usize, acc: QueryExpr, fuel: u128) -> (r: Result<
    (QueryExpr, usize),
    QuerySyntaxError,
>)
    requires
        i <= toks@.len(),
    ensures
        step_matches(
            p_or_rest(toks.deep_view(), i as int, acc@, fuel as nat),
            r,
            toks@.len() as int,
        ),
    decreases fuel,
{
    if fuel == 0 {
        return Result::Err(QuerySyntaxError::UnbalancedParens);
    }
    if i < toks.len() {
        let is_or: bool = match &toks[i] {
            QueryTok::OrOp => true,
            _ => false,
        };
        if is_or {
            return match p_and_x(toks, i + 1, fuel - 1) {
                Result::Err(e) => Result::Err(e),
                Result::Ok((e1, j)) => p_or_rest_x(
                    toks,
                    j,
                    QueryExpr::Or(Box::new(acc), Box::new(e1)),
                    fuel - 1,
                ),
            };
        }
    }
    Result::Ok((acc, i))
}

fn p_or_x(toks: &Vec<QueryTok>, i: usize, fuel: u128) -> (r: Result<
    (QueryExpr, usize),
    QuerySyntaxError,
>)
    requires
        i <= toks@.len(),
    ensures
        step_matches(p_or(toks.deep_view(), i as int, fuel as nat), r, toks@.len() as int),
    decreases fuel,
{
    if fuel == 0 {
        return Result::Err(QuerySyntaxError::UnbalancedParens);
    }
    match p_and_x(toks, i, fuel - 1) {
        Result::Err(e) => Result::Err(e),
        Result::Ok((e1, j)) => p_or_rest_x(toks, j, e1, fuel - 1),
    }
}

/// Parses a query string into its expression tree, per `spec_parse_query`;
/// the parse succeeds exactly when the grammar accepts the whole input.
pub fn parse_query(s: &str) -> (r: Result<QueryExpr, QuerySyntaxError>)
    ensures
        match r {
            Result::Ok(e) => spec_parse_query(s@) == Result::<QueryV, QuerySyntaxError>::Ok(e@),
            Result::Err(e) => spec_parse_query(s@) == Result::<QueryV, QuerySyntaxError>::Err(e),
        },
{
    let toks = lex(s);
    proof {
        assert(toks.deep_view().len() == toks@.len());
    }
    if toks.len() == 0 {
        return Result::Err(QuerySyntaxError::EmptyQuery);
    }
    let fuel: u128 = 4 * (toks.len() as u128) + 8;
    match p_or_x(&toks, 0, fuel) {
        Result::Err(e) => Result::Err(e),
        Result::Ok((e1, j)) => {
            if j == toks.len() {
                Result::Ok(e1)
            } else {
                Result::Err(QuerySyntaxError::UnbalancedParens)
            }
        },
    }
}

/// Whether a query matches a document's term set: a bare term is normalized
/// and looked up in the default field, a field filter is case-folded and
/// looked up verbatim in its field, and the connectives are boolean.
pub open spec fn spec_matches(q: QueryV, ts: Seq<TermV>) -> bool
    decreases q,
{
    match q {
        QueryV::Term(w) => ts.contains((FieldV::Body, norm_token(w))),
        QueryV::FieldFilter(f, v) => ts.contains((f, lower_seq(v))),
        QueryV::And(a, b) => spec_matches(*a, ts) && spec_matches(*b, ts),
        QueryV::Or(a, b) => spec_matches(*a, ts) || spec_matches(*b, ts),
        QueryV::Not(a) => !spec_matches(*a, ts),
    }
}

/// Evaluates a query against one document's term set, per `spec_matches`.
pub fn eval(q: &QueryExpr, ts: &TermSet) -> (r: bool)
    ensures
        r == spec_matches(q@, ts@),
    decreases *q,
{
    match q {
        QueryExpr::Term(w) => {
            let n = normalize_term(w.as_str());
            ts.contains_term(&Field::Body, &n)
        },
        QueryExpr::FieldFilter(f, v) => {
            let lv = lower_str(v.as_str());
            ts.contains_term(f, &lv)
        },
        QueryExpr::And(a, b) => {
            let ra = eval(&**a, ts);
            let rb = eval(&**b, ts);
            ra && rb
        },
        QueryExpr::Or(a, b) => {
            let ra = eval(&**a, ts);
            let rb = eval(&**b, ts);
            ra || rb
        },
        QueryExpr::Not(a) => !eval(&**a, ts),
    }
}

/// Boolean precedence, first half: `AND` binds tighter than `OR`, so for
/// any three bare terms the tokens of `A OR B AND C` parse as
/// `A OR (B AND C)`.
pub proof fn lemma_or_and_precedence(a: Seq<char>, b: Seq<char>, c: Seq<char>)
    ensures
        parse_tokens(
            seq![
                QueryTokV::Word(a),
                QueryTokV::OrOp,
                QueryTokV::Word(b),
                QueryTokV::AndOp,
                QueryTokV::Word(c),
            ],
        ) == Result::<QueryV, QuerySyntaxError>::Ok(
            QueryV::Or(
                Box::new(QueryV::Term(a)),
                Box::new(QueryV::And(Box::new(QueryV::Term(b)), Box::new(QueryV::Term(c)))),
            ),
        ),
{
    let toks = seq![
        QueryTokV::Word(a),
        QueryTokV::OrOp,
        QueryTokV::Word(b),
        QueryTokV::AndOp,
        QueryTokV::Word(c),
    ];
    let ta = QueryV::Term(a);
    let tb = QueryV::Term(b);
    let tc = QueryV::Term(c);
    let bc = QueryV::And(Box::new(tb), Box::new(tc));
    let abc = QueryV::Or(Box::new(ta), Box::new(bc));
    assert(toks.len() == 5);
    assert(p_atom(toks, 0, 25) == Result::<(QueryV, int), QuerySyntaxError>::Ok((ta, 1)));
    assert(p_unary(toks, 0, 26) == Result::<(QueryV, int), QuerySyntaxError>::Ok((ta, 1)));
    assert(p_and_rest(toks, 1, ta, 26) == Result::<(QueryV, int), QuerySyntaxError>::Ok((ta, 1)));
    assert(p_and(toks, 0, 27) == Result::<(QueryV, int), QuerySyntaxError>::Ok((ta, 1)));
    assert(p_atom(toks, 2, 24) == Result::<(QueryV, int), QuerySyntaxError>::Ok((tb, 3)));
    assert(p_unary(toks, 2, 25) == Result::<(QueryV, int), QuerySyntaxError>::Ok((tb, 3)));
    assert(p_atom(toks, 4, 23) == Result::<(QueryV, int), QuerySyntaxError>::Ok((tc, 5)));
    assert(p_unary(toks, 4, 24) == Result::<(QueryV, int), QuerySyntaxError>::Ok((tc, 5)));
    assert(p_and_rest(toks, 5, bc, 24) == Result::<(QueryV, int), QuerySyntaxError>::Ok((bc, 5)));
    assert(p_and_rest(toks, 3, tb, 25) == Result::<(QueryV, int), QuerySyntaxError>::Ok((bc, 5)));
    assert(p_and(toks, 2, 26) == Result::<(QueryV, int), QuerySyntaxError>::Ok((bc, 5)));
    assert(p_or_rest(toks, 5, abc, 26) == Result::<(QueryV, int), QuerySyntaxError>::Ok((abc, 5)));
    assert(p_or_rest(toks, 1, ta, 27) == Result::<(QueryV, int), QuerySyntaxError>::Ok((abc, 5)));
    assert(p_or(toks, 0, 28) == Result::<(QueryV, int), QuerySyntaxError>::Ok((abc, 5)));
    assert(parse_fuel(5) == 28);
}

/// Boolean precedence, second half: `NOT` binds tighter than `AND`, so for
/// any two bare terms the tokens of `NOT A AND B` parse as `(NOT A) AND B`.
pub proof fn lemma_not_binds_tighter(a: Seq<char>, b: Seq<char>)
    ensures
        parse_tokens(
            seq![QueryTokV::NotOp, QueryTokV::Word(a), QueryTokV::AndOp, QueryTokV::Word(b)],
        ) == Result::<QueryV, QuerySyntaxError>::Ok(
            QueryV::And(
                Box::new(QueryV::Not(Box::new(QueryV::Term(a)))),
                Box::new(QueryV::Term(b)),
            ),
        ),
{
    let toks = seq![QueryTokV::NotOp, QueryTokV::Word(a), QueryTokV::AndOp, QueryTokV::Word(b)];
    let ta = QueryV::Term(a);
    let tb = QueryV::Term(b);
    let na = QueryV::Not(Box::new(ta));
    let nab = QueryV::And(Box::new(na), Box::new(tb));
    assert(toks.len() == 4);
    assert(p_atom(toks, 1, 20) == Result::<(QueryV, int), QuerySyntaxError>::Ok((ta, 2)));
    assert(p_unary(toks, 1, 21) == Result::<(QueryV, int), QuerySyntaxError>::Ok((ta, 2)));
    assert(p_unary(toks, 0, 22) == Result::<(QueryV, int), QuerySyntaxError>::Ok((na, 2)));
    assert(p_atom(toks, 3, 20) == Result::<(QueryV, int), QuerySyntaxError>::Ok((tb, 4)));
    assert(p_unary(toks, 3, 21) == Result::<(QueryV, int), QuerySyntaxError>::Ok((tb, 4)));
    assert(p_and_rest(toks, 4, nab, 21) == Result::<(QueryV, int), QuerySyntaxError>::Ok(
        (nab, 4),
    ));
    assert(p_and_rest(toks, 2, na, 22) == Result::<(QueryV, int), QuerySyntaxError>::Ok((nab, 4)));
    assert(p_and(toks, 0, 23) == Result::<(QueryV, int), QuerySyntaxError>::Ok((nab, 4)));
    assert(p_or_rest(toks, 4, nab, 23) == Result::<(QueryV, int), QuerySyntaxError>::Ok((nab, 4)));
    assert(p_or(toks, 0, 24) == Result::<(QueryV, int), QuerySyntaxError>::Ok((nab, 4)));
    assert(parse_fuel(4) == 24);
}

/// Stemming symmetry: the same normalization (case folding, then the fixed
/// stemmer) is applied to body tokens at indexing time and to bare query
/// terms at evaluation time, so a document whose body holds a token `w` is
/// matched by any bare term `q` that normalizes like `w`.
pub proof fn lemma_stemming_symmetry(d: DocumentV, w: Seq<char>, q: Seq<char>)
    requires
        spec_tokens(d.body).contains(w),
        norm_token(w) == norm_token(q),
    ensures
        spec_matches(QueryV::Term(q), doc_terms(d)),
{
    let toks = spec_tokens(d.body);
    let k = choose|k: int| 0 <= k < toks.len() && toks[k] == w;
    let seg = spec_field_tokens(FieldV::Body, d.body);
    assert(seg[k] == (FieldV::Body, norm_token(w)));
    let pre = spec_tag_terms(d.tags) + spec_title_terms(d.title);
    let idx = pre.len() + k;
    assert(doc_terms(d)[idx] == (FieldV::Body, norm_token(q)));
    assert(doc_terms(d).contains((FieldV::Body, norm_token(q))));
}

/// Tag exactness: a `tag:` filter matches a document exactly when one of
/// the document's tags equals the filter value up to case folding; tags in
/// other fields, titles and bodies never satisfy a `tag:` filter.
pub proof fn lemma_tag_filter(d: DocumentV, v: Seq<char>)
    ensures
        spec_matches(QueryV::FieldFilter(FieldV::Tag, v), doc_terms(d)) <==> (exists|i: int|
            0 <= i < d.tags.len() && lower_seq(#[trigger] d.tags[i]) == lower_seq(v)),
{
    let tagseg = spec_tag_terms(d.tags);
    let titleseg = spec_title_terms(d.title);
    let bodyseg = spec_field_tokens(FieldV::Body, d.body);
    let needle = (FieldV::Tag, lower_seq(v));
    if spec_matches(QueryV::FieldFilter(FieldV::Tag, v), doc_terms(d)) {
        let j = choose|j: int| 0 <= j < doc_terms(d).len() && doc_terms(d)[j] == needle;
        if j < tagseg.len() {
            assert(doc_terms(d)[j] == tagseg[j]);
            assert(lower_seq(d.tags[j]) == lower_seq(v));
        } else if j < tagseg.len() + titleseg.len() {
            let j2 = j - tagseg.len();
            assert(doc_terms(d)[j] == titleseg[j2]);
            match d.title {
                Option::Some(t) => {
                    let ts = spec_field_tokens(FieldV::Title, t);
                    let bs = spec_field_tokens(FieldV::Body, t);
                    if j2 < ts.len() {
                        assert(titleseg[j2] == ts[j2]);
                        assert(titleseg[j2].0 == FieldV::Title);
                    } else {
                        assert(titleseg[j2] == bs[j2 - ts.len()]);
                        assert(titleseg[j2].0 == FieldV::Body);
                    }
                    assert(false);
                },
                Option::None => {
                    assert(false);
                },
            }
        } else {
            let j3 = j - tagseg.len() - titleseg.len();
            assert(doc_terms(d)[j] == bodyseg[j3]);
            assert(bodyseg[j3].0 == FieldV::Body);
            assert(false);
        }
    }
    if exists|i: int| 0 <= i < d.tags.len() && lower_seq(#[trigger] d.tags[i]) == lower_seq(v) {
        let i = choose|i: int| 0 <= i < d.tags.len() && lower_seq(#[trigger] d.tags[i])
            == lower_seq(v);
        assert(tagseg[i] == needle);
        assert(doc_terms(d)[i] == needle);
        assert(doc_terms(d).contains(needle));
    }
}

} // verus!
