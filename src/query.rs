//! A parameterised SQL statement under construction.
//!
//! Statement text is only ever assembled from fixed fragments of this crate;
//! every caller-supplied value travels as a bound argument, and its place in the
//! text is marked by the SQLite placeholder `?`.
use vstd::prelude::*;
use sqlx::{QueryBuilder, Sqlite};

verus! {

/// A value bound to one placeholder of a statement, as contracts speak of it.
pub enum BindValue {
    Int(i64),
    Text(Seq<char>),
}

/// A SQLite statement: its text and, in order, the values bound to its placeholders.
///
/// It holds sqlx's `QueryBuilder`, whose `DB: Database` bound keeps Verus from
/// declaring the type itself, so the struct is opaque to proofs: what it holds is
/// `query_text` and `query_args`, which the wrappers below maintain. No function of
/// this crate takes one back, so the builder is never built before its owner runs it.
#[verifier::external_body]
pub struct SqlQuery {
    pub builder: QueryBuilder<'static, Sqlite>,
}

/// The statement text accumulated so far.
pub uninterp spec fn query_text(q: SqlQuery) -> Seq<char>;

/// The values bound so far, in the order of their placeholders.
pub uninterp spec fn query_args(q: SqlQuery) -> Seq<BindValue>;

/// What SQLite's builder writes into the text for one bound value.
pub open spec fn placeholder() -> Seq<char> {
    seq!['?']
}

/// The parts, with `sep` between each two neighbours and nowhere else.
pub open spec fn joined(parts: Seq<Seq<char>>, sep: Seq<char>) -> Seq<char>
    decreases parts.len(),
{
    if parts.len() == 0 {
        Seq::empty()
    } else if parts.len() == 1 {
        parts[0]
    } else {
        joined(parts.drop_last(), sep) + sep + parts.last()
    }
}

/// `n` copies of `part`.
pub open spec fn repeated(part: Seq<char>, n: nat) -> Seq<Seq<char>> {
    Seq::new(n, |i: int| part)
}

/// The one-element sequence `[x]` when `present`, else nothing.
pub open spec fn optional<A>(present: bool, x: A) -> Seq<A> {
    if present {
        seq![x]
    } else {
        Seq::empty()
    }
}

/// The bound integer of an optional field, if any.
pub open spec fn int_arg(o: Option<i64>) -> Seq<BindValue> {
    match o {
        Some(v) => seq![BindValue::Int(v)],
        None => Seq::empty(),
    }
}

/// The bound text of an optional field, if any.
pub open spec fn text_arg(o: Option<String>) -> Seq<BindValue> {
    match o {
        Some(s) => seq![BindValue::Text(s@)],
        None => Seq::empty(),
    }
}

/// Appending one more part to a non-empty list adds the separator and that part.
pub proof fn lemma_joined_push(parts: Seq<Seq<char>>, sep: Seq<char>, p: Seq<char>)
    ensures
        joined(parts.push(p), sep) == if parts.len() == 0 {
            p
        } else {
            joined(parts, sep) + sep + p
        },
{
    assert(parts.push(p).drop_last() =~= parts);
}

/// Concatenation groups either way.
pub proof fn lemma_concat_assoc<A>(a: Seq<A>, b: Seq<A>, c: Seq<A>)
    ensures
        a + b + c == a + (b + c),
{
    assert(a + b + c =~= a + (b + c));
}

/// A list of repeated parts grows by one part at a time.
pub proof fn lemma_repeated_push(part: Seq<char>, n: nat)
    ensures
        repeated(part, n + 1) == repeated(part, n).push(part),
{
    assert(repeated(part, n + 1) =~= repeated(part, n).push(part));
}

/// The condition `lead ?` when its value is present, else nothing.
pub open spec fn predicate(present: bool, lead: Seq<char>) -> Seq<char> {
    if present {
        lead + placeholder()
    } else {
        Seq::empty()
    }
}

/// Relies on sqlx's `QueryBuilder::new`: the text starts as `init`, with no bound values.
#[verifier::external_body]
pub(crate) fn query_new(init: &str) -> (r: SqlQuery)
    ensures
        query_text(r) == init@,
        query_args(r) == Seq::<BindValue>::empty(),
{
    SqlQuery { builder: QueryBuilder::new(init) }
}

/// Relies on sqlx's `QueryBuilder::push`: `s` is written at the end of the text.
#[verifier::external_body]
pub(crate) fn push_text(q: &mut SqlQuery, s: &str)
    ensures
        query_text(*final(q)) == query_text(*old(q)) + s@,
        query_args(*final(q)) == query_args(*old(q)),
{
    q.builder.push(s);
}

/// Relies on sqlx's `QueryBuilder::push_bind` for an `i64` on SQLite: the value is
/// added as the last argument and `?` is written at the end of the text.
#[verifier::external_body]
pub(crate) fn push_int(q: &mut SqlQuery, v: i64)
    ensures
        query_text(*final(q)) == query_text(*old(q)) + placeholder(),
        query_args(*final(q)) == query_args(*old(q)).push(BindValue::Int(v)),
{
    q.builder.push_bind(v);
}

/// Relies on sqlx's `QueryBuilder::push_bind` for a `String` on SQLite: the text is
/// added as the last argument and `?` is written at the end of the statement text.
#[verifier::external_body]
pub(crate) fn push_string(q: &mut SqlQuery, s: String)
    ensures
        query_text(*final(q)) == query_text(*old(q)) + placeholder(),
        query_args(*final(q)) == query_args(*old(q)).push(BindValue::Text(s@)),
{
    q.builder.push_bind(s);
}

/// Appends `lead ?` with its value when one is present.
pub(crate) fn push_predicate(q: &mut SqlQuery, lead: &str, value: Option<i64>)
    ensures
        query_text(*final(q)) == query_text(*old(q)) + predicate(value is Some, lead@),
        query_args(*final(q)) == query_args(*old(q)) + int_arg(value),
{
    match value {
        Some(v) => {
            push_text(q, lead);
            push_int(q, v);
            assert(query_text(*q) =~= query_text(*old(q)) + predicate(value is Some, lead@));
            assert(query_args(*q) =~= query_args(*old(q)) + int_arg(value));
        },
        None => {
            assert(query_text(*q) =~= query_text(*old(q)) + predicate(value is Some, lead@));
            assert(query_args(*q) =~= query_args(*old(q)) + int_arg(value));
        },
    }
}

} // verus!
