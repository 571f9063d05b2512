//! Statements over the `booking` table.
use vstd::prelude::*;
use crate::records::{Booking, FinishError, finish_time};
use crate::query::{
    BindValue, SqlQuery, query_text, query_args, placeholder, joined, repeated, optional, int_arg,
    text_arg, predicate, push_predicate, lemma_concat_assoc, lemma_joined_push, lemma_repeated_push,
    query_new, push_text, push_int, push_string,
};

verus! {

/// Filters for reading bookings; each one that is absent is left out entirely.
pub struct BookingGetQueryParams {
    pub id: Option<i64>,
    pub startdate_min: Option<i64>,
    pub startdate_max: Option<i64>,
    pub enddate_min: Option<i64>,
    pub enddate_max: Option<i64>,
    /// Names of tags of which a booking must carry at least one.
    pub tag: Option<Vec<String>>,
    pub description_contains: Option<String>,
}

/// The tag names a filter asks for; an absent list asks for none.
pub open spec fn filter_tags(p: BookingGetQueryParams) -> Seq<String> {
    match p.tag {
        Some(t) => t@,
        None => Seq::empty(),
    }
}

/// Only a non-empty list of tag names brings the tag tables into a read.
pub open spec fn joins_tags(p: BookingGetQueryParams) -> bool {
    filter_tags(p).len() > 0
}

/// The projection of the booking table, through the tag tables when `joined`.
pub open spec fn select_head(joined: bool) -> Seq<char> {
    if joined {
        "SELECT b.id, b.startdate, b.enddate, b.des FROM booking b INNER JOIN tagassignment tg ON b.id = tg.bid INNER JOIN tag t ON t.id = tg.tgid"@
    } else {
        "SELECT id, startdate, enddate, des FROM booking"@
    }
}

/// `WHERE TRUE`, then one `AND` condition per present filter but the tags, in a
/// fixed order. The id is qualified by the booking alias when the tag tables are
/// joined. The `enddate_max` bound compares with `>`, as `enddate_min` does.
pub open spec fn select_conditions(p: BookingGetQueryParams) -> Seq<char> {
    " WHERE TRUE"@ + predicate(p.id is Some, if joins_tags(p) { " AND b.id = "@ } else { " AND id = "@ })
        + predicate(p.startdate_min is Some, " AND startdate > "@)
        + predicate(p.startdate_max is Some, " AND startdate < "@)
        + predicate(p.enddate_min is Some, " AND enddate > "@)
        + predicate(p.enddate_max is Some, " AND enddate > "@)
        + like_condition(p.description_contains is Some)
}

/// The substring condition on the description, its text bound as a value.
pub open spec fn like_condition(present: bool) -> Seq<char> {
    if present {
        " AND des LIKE CONCAT('%', "@ + placeholder() + ", '%')"@
    } else {
        Seq::empty()
    }
}

/// Appends the substring condition when a text is present.
fn push_like(q: &mut SqlQuery, d: &Option<String>)
    ensures
        query_text(*final(q)) == query_text(*old(q)) + like_condition(d is Some),
        query_args(*final(q)) == query_args(*old(q)) + text_arg(*d),
{
    match d {
        Some(s) => {
            push_text(q, " AND des LIKE CONCAT('%', ");
            push_string(q, s.clone());
            push_text(q, ", '%')");
            assert(query_text(*q) =~= query_text(*old(q)) + like_condition(d is Some));
        },
        None => {
            assert(query_text(*q) =~= query_text(*old(q)) + like_condition(d is Some));
        },
    }
    assert(query_args(*q) =~= query_args(*old(q)) + text_arg(*d));
}

/// The membership condition on tag names: one placeholder per name, commas
/// between them; nothing when no name is given.
pub open spec fn tag_condition(p: BookingGetQueryParams) -> Seq<char> {
    if joins_tags(p) {
        " AND t.name IN ("@ + joined(repeated(placeholder(), filter_tags(p).len()), ","@) + ")"@
    } else {
        Seq::empty()
    }
}

/// The text of the read that a filter describes.
pub open spec fn booking_select_text(p: BookingGetQueryParams) -> Seq<char> {
    select_head(joins_tags(p)) + select_conditions(p) + tag_condition(p)
}

/// Tag names as bound values, in order.
pub open spec fn tag_args(names: Seq<String>) -> Seq<BindValue> {
    names.map_values(|s: String| BindValue::Text(s@))
}

/// The values bound by the read that a filter describes, in the order of its conditions.
pub open spec fn booking_select_args(p: BookingGetQueryParams) -> Seq<BindValue> {
    int_arg(p.id) + int_arg(p.startdate_min) + int_arg(p.startdate_max) + int_arg(p.enddate_min)
        + int_arg(p.enddate_max) + text_arg(p.description_contains) + tag_args(filter_tags(p))
}

/// Appends the conditions of a filter but the tags.
fn push_conditions(q: &mut SqlQuery, p: &BookingGetQueryParams, joins: bool)
    requires
        joins == joins_tags(*p),
    ensures
        query_text(*final(q)) == query_text(*old(q)) + select_conditions(*p),
        query_args(*final(q)) == query_args(*old(q)) + int_arg(p.id) + int_arg(p.startdate_min)
            + int_arg(p.startdate_max) + int_arg(p.enddate_min) + int_arg(p.enddate_max)
            + text_arg(p.description_contains),
{
    let ghost t0 = query_text(*q);
    let ghost a0 = query_args(*q);
    push_text(q, " WHERE TRUE");
    let ghost t1 = " WHERE TRUE"@;
    let ghost lead = if joins { " AND b.id = "@ } else { " AND id = "@ };
    if joins {
        push_predicate(q, " AND b.id = ", p.id);
    } else {
        push_predicate(q, " AND id = ", p.id);
    }
    let ghost t2 = t1 + predicate(p.id is Some, lead);
    let ghost a2 = int_arg(p.id);
    proof {
        lemma_concat_assoc(t0, t1, predicate(p.id is Some, lead));
    }
    push_predicate(q, " AND startdate > ", p.startdate_min);
    let ghost t3 = t2 + predicate(p.startdate_min is Some, " AND startdate > "@);
    let ghost a3 = a2 + int_arg(p.startdate_min);
    proof {
        lemma_concat_assoc(t0, t2, predicate(p.startdate_min is Some, " AND startdate > "@));
        lemma_concat_assoc(a0, a2, int_arg(p.startdate_min));
    }
    push_predicate(q, " AND startdate < ", p.startdate_max);
    let ghost t4 = t3 + predicate(p.startdate_max is Some, " AND startdate < "@);
    let ghost a4 = a3 + int_arg(p.startdate_max);
    proof {
        lemma_concat_assoc(t0, t3, predicate(p.startdate_max is Some, " AND startdate < "@));
        lemma_concat_assoc(a0, a3, int_arg(p.startdate_max));
    }
    push_predicate(q, " AND enddate > ", p.enddate_min);
    let ghost t5 = t4 + predicate(p.enddate_min is Some, " AND enddate > "@);
    let ghost a5 = a4 + int_arg(p.enddate_min);
    proof {
        lemma_concat_assoc(t0, t4, predicate(p.enddate_min is Some, " AND enddate > "@));
        lemma_concat_assoc(a0, a4, int_arg(p.enddate_min));
    }
    push_predicate(q, " AND enddate > ", p.enddate_max);
    let ghost t6 = t5 + predicate(p.enddate_max is Some, " AND enddate > "@);
    let ghost a6 = a5 + int_arg(p.enddate_max);
    proof {
        lemma_concat_assoc(t0, t5, predicate(p.enddate_max is Some, " AND enddate > "@));
        lemma_concat_assoc(a0, a5, int_arg(p.enddate_max));
    }
    push_like(q, &p.description_contains);
    proof {
        lemma_concat_assoc(t0, t6, like_condition(p.description_contains is Some));
        lemma_concat_assoc(a0, a6, text_arg(p.description_contains));
    }
}

/// Appends the membership condition on tag names, when the list is not empty.
fn push_tag_condition(q: &mut SqlQuery, p: &BookingGetQueryParams, joins: bool)
    requires
        joins == joins_tags(*p),
    ensures
        query_text(*final(q)) == query_text(*old(q)) + tag_condition(*p),
        query_args(*final(q)) == query_args(*old(q)) + tag_args(filter_tags(*p)),
{
    let ghost text_before = query_text(*q);
    let ghost args_before = query_args(*q);
    if joins {
        let tags = p.tag.as_ref().unwrap();
        push_text(q, " AND t.name IN (");
        let ghost list_start = query_text(*q);
        let mut i: usize = 0;
        while i < tags.len()
            invariant
                i <= tags.len(),
                query_text(*q) == list_start + joined(repeated(placeholder(), i as nat), ","@),
                query_args(*q) == args_before + tag_args(tags@.subrange(0, i as int)),
            decreases tags.len() - i,
        {
            if i > 0 {
                push_text(q, ",");
            }
            push_string(q, tags[i].clone());
            proof {
                lemma_repeated_push(placeholder(), i as nat);
                lemma_joined_push(repeated(placeholder(), i as nat), ","@, placeholder());
                assert(query_text(*q) =~= list_start + joined(repeated(placeholder(), (i + 1) as nat), ","@));
                assert(tags@.subrange(0, i + 1) =~= tags@.subrange(0, i as int).push(tags@[i as int]));
                assert(tag_args(tags@.subrange(0, i + 1)) =~= tag_args(tags@.subrange(0, i as int)).push(BindValue::Text(tags@[i as int]@)));
            }
            i += 1;
        }
        push_text(q, ")");
        assert(tags@.subrange(0, tags@.len() as int) =~= tags@);
    }
    assert(query_text(*q) =~= text_before + tag_condition(*p));
    assert(query_args(*q) =~= args_before + tag_args(filter_tags(*p)));
}

/// Composes the read of the bookings that match every present filter.
pub fn booking_select(p: &BookingGetQueryParams) -> (r: SqlQuery)
    ensures
        query_text(r) == booking_select_text(*p),
        query_args(r) == booking_select_args(*p),
{
    let joins = match &p.tag {
        Some(t) => t.len() > 0,
        None => false,
    };
    let mut q = if joins {
        query_new(
            "SELECT b.id, b.startdate, b.enddate, b.des FROM booking b INNER JOIN tagassignment tg ON b.id = tg.bid INNER JOIN tag t ON t.id = tg.tgid",
        )
    } else {
        query_new("SELECT id, startdate, enddate, des FROM booking")
    };
    push_conditions(&mut q, p, joins);
    push_tag_condition(&mut q, p, joins);
    assert(query_args(q) =~= booking_select_args(*p));
    q
}

/// The fields of one booking to overwrite; absent fields are left untouched.
pub struct BookingPatchQueryParams {
    pub id: i64,
    pub startdate: Option<i64>,
    pub enddate: Option<i64>,
    pub description: Option<String>,
}

/// Whether a change names no field at all.
pub open spec fn patch_is_empty(p: BookingPatchQueryParams) -> bool {
    p.startdate is None && p.enddate is None && p.description is None
}

/// The assignments of a change, one per present field, in a fixed order.
pub open spec fn booking_assignments(p: BookingPatchQueryParams) -> Seq<Seq<char>> {
    optional(p.startdate is Some, "startdate = "@ + placeholder()) + optional(
        p.enddate is Some,
        "enddate = "@ + placeholder(),
    ) + optional(p.description is Some, "des = "@ + placeholder())
}

/// The text of the update that a change describes, returning the whole row.
pub open spec fn booking_update_text(p: BookingPatchQueryParams) -> Seq<char> {
    "UPDATE booking SET "@ + joined(booking_assignments(p), ", "@) + " WHERE id = "@
        + placeholder() + " RETURNING id, startdate, enddate, des"@
}

/// The values bound by that update: the new fields in order, then the id.
pub open spec fn booking_update_args(p: BookingPatchQueryParams) -> Seq<BindValue> {
    int_arg(p.startdate) + int_arg(p.enddate) + text_arg(p.description) + seq![
        BindValue::Int(p.id),
    ]
}

/// Appends `column = ?` to a list of assignments, after `, ` unless it is the first.
fn push_assignment(
    q: &mut SqlQuery,
    Ghost(head): Ghost<Seq<char>>,
    Ghost(done): Ghost<Seq<Seq<char>>>,
    any_done: bool,
    column: &str,
    value: Option<i64>,
) -> (now_done: bool)
    requires
        query_text(*old(q)) == head + joined(done, ", "@),
        any_done == (done.len() > 0),
    ensures
        query_text(*final(q)) == head + joined(
            done + optional(value is Some, column@ + placeholder()),
            ", "@,
        ),
        query_args(*final(q)) == query_args(*old(q)) + int_arg(value),
        now_done == ((done + optional(value is Some, column@ + placeholder())).len() > 0),
{
    let ghost clause = column@ + placeholder();
    match value {
        Some(v) => {
            if any_done {
                push_text(q, ", ");
            }
            push_text(q, column);
            push_int(q, v);
            proof {
                lemma_joined_push(done, ", "@, clause);
                assert(done + optional(value is Some, clause) =~= done.push(clause));
            }
            assert(query_text(*q) =~= head + joined(done.push(clause), ", "@));
            assert(query_args(*q) =~= query_args(*old(q)) + int_arg(value));
            true
        },
        None => {
            assert(done + optional(value is Some, clause) =~= done);
            assert(query_args(*q) =~= query_args(*old(q)) + int_arg(value));
            any_done
        },
    }
}

/// Composes the update of one booking, or `None` when the change names no field:
/// storage then has nothing to do and is not asked.
pub fn booking_update(p: &BookingPatchQueryParams) -> (r: Option<SqlQuery>)
    ensures
        r is None <==> patch_is_empty(*p),
        r is Some ==> query_text(r->Some_0) == booking_update_text(*p) && query_args(r->Some_0)
            == booking_update_args(*p),
{
    if p.startdate.is_none() && p.enddate.is_none() && p.description.is_none() {
        return None;
    }
    let mut q = query_new("UPDATE booking SET ");
    let ghost head = query_text(q);
    let ghost args0 = query_args(q);
    let ghost c1 = optional(p.startdate is Some, "startdate = "@ + placeholder());
    let ghost c2 = optional(p.enddate is Some, "enddate = "@ + placeholder());
    let ghost c3 = optional(p.description is Some, "des = "@ + placeholder());
    assert(head =~= head + joined(Seq::<Seq<char>>::empty(), ", "@));
    let any = push_assignment(&mut q, Ghost(head), Ghost(Seq::empty()), false, "startdate = ", p.startdate);
    assert(Seq::<Seq<char>>::empty() + c1 =~= c1);
    let any = push_assignment(&mut q, Ghost(head), Ghost(c1), any, "enddate = ", p.enddate);
    let ghost text_before = query_text(q);
    let ghost args_before = query_args(q);
    match &p.description {
        Some(d) => {
            if any {
                push_text(&mut q, ", ");
            }
            push_text(&mut q, "des = ");
            push_string(&mut q, d.clone());
            proof {
                lemma_joined_push(c1 + c2, ", "@, "des = "@ + placeholder());
                assert(c1 + c2 + c3 =~= (c1 + c2).push("des = "@ + placeholder()));
            }
            assert(query_text(q) =~= head + joined((c1 + c2).push("des = "@ + placeholder()), ", "@));
        },
        None => {
            assert(c1 + c2 + c3 =~= c1 + c2);
        },
    }
    assert(query_args(q) =~= args_before + text_arg(p.description));
    push_text(&mut q, " WHERE id = ");
    push_int(&mut q, p.id);
    push_text(&mut q, " RETURNING id, startdate, enddate, des");
    assert(query_text(q) =~= booking_update_text(*p));
    assert(query_args(q) =~= booking_update_args(*p));
    Some(q)
}

/// The fields of a new booking. Its start defaults to the time of composition;
/// other absent fields take storage defaults.
pub struct BookingPostQueryParams {
    pub startdate: Option<i64>,
    pub enddate: Option<i64>,
    pub description: Option<String>,
}

/// The columns a new booking is written with: always its start, then each present field.
pub open spec fn booking_insert_columns(p: BookingPostQueryParams) -> Seq<Seq<char>> {
    seq!["startdate"@] + optional(p.enddate is Some, "enddate"@) + optional(
        p.description is Some,
        "des"@,
    )
}

/// The text of the insert of a new booking, one placeholder per column, returning
/// the whole stored row.
pub open spec fn booking_insert_text(p: BookingPostQueryParams) -> Seq<char> {
    "INSERT INTO booking ("@ + joined(booking_insert_columns(p), ", "@) + ") VALUES ("@
        + joined(repeated(placeholder(), booking_insert_columns(p).len()), ", "@)
        + ") RETURNING id, startdate, enddate, des"@
}

/// The start of a new booking: the one given, else `now`.
pub open spec fn insert_start(p: BookingPostQueryParams, now: i64) -> i64 {
    match p.startdate {
        Some(s) => s,
        None => now,
    }
}

/// The values of that insert, column by column.
pub open spec fn booking_insert_args(p: BookingPostQueryParams, now: i64) -> Seq<BindValue> {
    seq![BindValue::Int(insert_start(p, now))] + int_arg(p.enddate) + text_arg(p.description)
}

/// Appends `, column` to the column list when `present`.
fn push_column(
    q: &mut SqlQuery,
    Ghost(head): Ghost<Seq<char>>,
    Ghost(done): Ghost<Seq<Seq<char>>>,
    column: &str,
    present: bool,
)
    requires
        query_text(*old(q)) == head + joined(done, ", "@),
        done.len() > 0,
    ensures
        query_text(*final(q)) == head + joined(done + optional(present, column@), ", "@),
        query_args(*final(q)) == query_args(*old(q)),
{
    if present {
        push_text(q, ", ");
        push_text(q, column);
        proof {
            lemma_joined_push(done, ", "@, column@);
            assert(done + optional(present, column@) =~= done.push(column@));
        }
        assert(query_text(*q) =~= head + joined(done.push(column@), ", "@));
    } else {
        assert(done + optional(present, column@) =~= done);
    }
}

/// Appends `, ?` with its value when one is present.
fn push_value(
    q: &mut SqlQuery,
    Ghost(head): Ghost<Seq<char>>,
    Ghost(n): Ghost<nat>,
    value: Option<i64>,
)
    requires
        query_text(*old(q)) == head + joined(repeated(placeholder(), n), ", "@),
        n > 0,
    ensures
        query_text(*final(q)) == head + joined(
            repeated(placeholder(), n + optional(value is Some, 0int).len()),
            ", "@,
        ),
        query_args(*final(q)) == query_args(*old(q)) + int_arg(value),
{
    proof {
        lemma_repeated_push(placeholder(), n);
        lemma_joined_push(repeated(placeholder(), n), ", "@, placeholder());
    }
    match value {
        Some(v) => {
            push_text(q, ", ");
            push_int(q, v);
            assert(query_text(*q) =~= head + joined(repeated(placeholder(), n + 1), ", "@));
        },
        None => {},
    }
    assert(query_args(*q) =~= query_args(*old(q)) + int_arg(value));
}

/// Composes the insert of a new booking, `now` being the current time in epoch
/// milliseconds: it writes the start and each present field, column and value in step.
pub fn booking_insert(p: &BookingPostQueryParams, now: i64) -> (r: SqlQuery)
    ensures
        query_text(r) == booking_insert_text(*p),
        query_args(r) == booking_insert_args(*p, now),
        query_args(r).len() == booking_insert_columns(*p).len(),
{
    let mut q = query_new("INSERT INTO booking (");
    let ghost head = query_text(q);
    push_text(&mut q, "startdate");
    let ghost c0 = seq!["startdate"@];
    let ghost c1 = optional(p.enddate is Some, "enddate"@);
    let ghost c2 = optional(p.description is Some, "des"@);
    assert(query_text(q) =~= head + joined(c0, ", "@));
    push_column(&mut q, Ghost(head), Ghost(c0), "enddate", p.enddate.is_some());
    push_column(&mut q, Ghost(head), Ghost(c0 + c1), "des", p.description.is_some());
    assert(c0 + c1 + c2 =~= booking_insert_columns(*p));
    push_text(&mut q, ") VALUES (");
    let ghost vhead = query_text(q);
    let ghost args0 = query_args(q);
    let startdate = match p.startdate {
        Some(s) => s,
        None => now,
    };
    push_int(&mut q, startdate);
    assert(repeated(placeholder(), 1) =~= seq![placeholder()]);
    assert(query_text(q) =~= vhead + joined(repeated(placeholder(), 1), ", "@));
    push_value(&mut q, Ghost(vhead), Ghost(1), p.enddate);
    let ghost n = 1 + c1.len();
    assert(n == 1 + optional(p.enddate is Some, 0int).len());
    let ghost text_before = query_text(q);
    let ghost args_before = query_args(q);
    proof {
        lemma_repeated_push(placeholder(), n);
        lemma_joined_push(repeated(placeholder(), n), ", "@, placeholder());
    }
    match &p.description {
        Some(d) => {
            push_text(&mut q, ", ");
            push_string(&mut q, d.clone());
            assert(query_text(q) =~= vhead + joined(repeated(placeholder(), n + 1), ", "@));
        },
        None => {},
    }
    assert(query_args(q) =~= args_before + text_arg(p.description));
    push_text(&mut q, ") RETURNING id, startdate, enddate, des");
    assert(query_text(q) =~= booking_insert_text(*p));
    assert(query_args(q) =~= booking_insert_args(*p, now));
    q
}

/// Names the booking to delete.
pub struct BookingDeleteQueryParams {
    pub id: i64,
}

/// Composes the deletion of one booking by id.
pub fn booking_delete(p: &BookingDeleteQueryParams) -> (r: SqlQuery)
    ensures
        query_text(r) == "DELETE FROM booking WHERE id = "@ + placeholder(),
        query_args(r) == seq![BindValue::Int(p.id)],
{
    let mut q = query_new("DELETE FROM booking WHERE id = ");
    push_int(&mut q, p.id);
    assert(query_args(q) =~= seq![BindValue::Int(p.id)]);
    q
}

/// The text of the update that finishes a running booking; it leaves a booking
/// that storage already holds as finished untouched.
pub open spec fn booking_finish_text() -> Seq<char> {
    "UPDATE booking SET enddate = "@ + placeholder() + " WHERE id = "@ + placeholder()
        + " AND enddate IS NULL RETURNING id, startdate, enddate, des"@
}

/// Composes the update that finishes the booking `b` at `now`, or refuses when
/// `b` already has an end.
pub fn booking_finish(b: &Booking, now: i64) -> (r: Result<SqlQuery, FinishError>)
    ensures
        b.enddate is Some <==> r is Err,
        r is Err ==> r->Err_0 == FinishError::AlreadyFinished,
        r is Ok ==> query_text(r->Ok_0) == booking_finish_text() && query_args(r->Ok_0) == seq![
            BindValue::Int(finish_time(b.startdate, now)),
            BindValue::Int(b.id),
        ],
{
    let finished = match b.finish(now) {
        Ok(f) => f,
        Err(e) => return Err(e),
    };
    let end = finished.enddate.unwrap();
    let mut q = query_new("UPDATE booking SET enddate = ");
    push_int(&mut q, end);
    push_text(&mut q, " WHERE id = ");
    push_int(&mut q, finished.id);
    push_text(&mut q, " AND enddate IS NULL RETURNING id, startdate, enddate, des");
    assert(query_args(q) =~= seq![
        BindValue::Int(finish_time(b.startdate, now)),
        BindValue::Int(b.id),
    ]);
    Ok(q)
}

/// Whether two filters ask for the same things: equal bounds and ids, and equal
/// texts for the description and for each tag name.
pub open spec fn same_filter(a: BookingGetQueryParams, b: BookingGetQueryParams) -> bool {
    &&& a.id == b.id
    &&& a.startdate_min == b.startdate_min
    &&& a.startdate_max == b.startdate_max
    &&& a.enddate_min == b.enddate_min
    &&& a.enddate_max == b.enddate_max
    &&& a.description_contains is Some == b.description_contains is Some
    &&& a.description_contains is Some ==> a.description_contains->Some_0@
        == b.description_contains->Some_0@
    &&& filter_tags(a).len() == filter_tags(b).len()
    &&& forall|i: int|
        0 <= i < filter_tags(a).len() ==> #[trigger] filter_tags(a)[i]@ == filter_tags(b)[i]@
}

/// Composing a read is a function of what the filter asks for: two filters that
/// ask for the same things, or one filter composed twice, give the same text and
/// the same bound values, so that against an unchanged store they read the same rows.
pub proof fn law_select_depends_on_filter_only(a: BookingGetQueryParams, b: BookingGetQueryParams)
    requires
        same_filter(a, b),
    ensures
        booking_select_text(a) == booking_select_text(b),
        booking_select_args(a) == booking_select_args(b),
{
    assert(text_arg(a.description_contains) =~= text_arg(b.description_contains));
    assert(tag_args(filter_tags(a)) =~= tag_args(filter_tags(b)));
}

/// A filter with nothing in it reads every row of the booking table, with no join
/// and no bound value.
pub proof fn law_empty_filter_reads_all(p: BookingGetQueryParams)
    requires
        p.id is None,
        p.startdate_min is None,
        p.startdate_max is None,
        p.enddate_min is None,
        p.enddate_max is None,
        p.description_contains is None,
        filter_tags(p).len() == 0,
    ensures
        !joins_tags(p),
        booking_select_text(p) == "SELECT id, startdate, enddate, des FROM booking"@
            + " WHERE TRUE"@,
        booking_select_args(p) == Seq::<BindValue>::empty(),
{
    assert(booking_select_text(p) =~= "SELECT id, startdate, enddate, des FROM booking"@
        + " WHERE TRUE"@);
    assert(booking_select_args(p) =~= Seq::<BindValue>::empty());
}

/// A non-empty list of tag names brings in the join through the assignment table
/// and ends the conditions with `t.name IN (...)`, holding exactly one placeholder
/// per name, whose values are the names in order.
pub proof fn law_tag_filter_joins(p: BookingGetQueryParams)
    requires
        filter_tags(p).len() > 0,
    ensures
        joins_tags(p),
        exists|middle: Seq<char>|
            booking_select_text(p)
                == "SELECT b.id, b.startdate, b.enddate, b.des FROM booking b INNER JOIN tagassignment tg ON b.id = tg.bid INNER JOIN tag t ON t.id = tg.tgid"@
                + middle + " AND t.name IN ("@ + joined(
                repeated(placeholder(), filter_tags(p).len()),
                ","@,
            ) + ")"@,
        repeated(placeholder(), filter_tags(p).len()).len() == filter_tags(p).len(),
        forall|i: int|
            0 <= i < filter_tags(p).len() ==> #[trigger] repeated(placeholder(), filter_tags(p).len())[i]
                == placeholder(),
        exists|front: Seq<BindValue>|
            booking_select_args(p) == front + tag_args(filter_tags(p)),
        tag_args(filter_tags(p)).len() == filter_tags(p).len(),
{
    let list = joined(repeated(placeholder(), filter_tags(p).len()), ","@);
    let head = select_head(true);
    let middle = select_conditions(p);
    assert(booking_select_text(p) =~= head + middle + " AND t.name IN ("@ + list + ")"@);
    let front = int_arg(p.id) + int_arg(p.startdate_min) + int_arg(p.startdate_max) + int_arg(
        p.enddate_min,
    ) + int_arg(p.enddate_max) + text_arg(p.description_contains);
    assert(booking_select_args(p) == front + tag_args(filter_tags(p)));
}

/// An empty list of tag names is taken as no tag filter at all: neither a join nor
/// a condition that matches nothing.
pub proof fn law_empty_tag_list_is_absent(p: BookingGetQueryParams)
    requires
        p.tag is Some,
        p.tag->Some_0@.len() == 0,
    ensures
        !joins_tags(p),
        booking_select_text(p) == booking_select_text(BookingGetQueryParams { tag: None, ..p }),
        booking_select_args(p) == booking_select_args(BookingGetQueryParams { tag: None, ..p }),
{
    let q = BookingGetQueryParams { tag: None, ..p };
    assert(tag_args(filter_tags(p)) =~= tag_args(filter_tags(q)));
}

/// A change of exactly one field gives exactly one assignment, `column = ?`, with
/// no separator before or after it.
pub proof fn law_single_field_update(p: BookingPatchQueryParams)
    requires
        (p.startdate is Some) as int + (p.enddate is Some) as int + (p.description is Some) as int
            == 1,
    ensures
        booking_assignments(p).len() == 1,
        booking_update_text(p) == "UPDATE booking SET "@ + booking_assignments(p)[0]
            + " WHERE id = "@ + placeholder() + " RETURNING id, startdate, enddate, des"@,
        p.startdate is Some ==> booking_assignments(p)[0] == "startdate = "@ + placeholder(),
        p.enddate is Some ==> booking_assignments(p)[0] == "enddate = "@ + placeholder(),
        p.description is Some ==> booking_assignments(p)[0] == "des = "@ + placeholder(),
{
    let a = booking_assignments(p);
    if p.startdate is Some {
        assert(a =~= seq!["startdate = "@ + placeholder()]);
    } else if p.enddate is Some {
        assert(a =~= seq!["enddate = "@ + placeholder()]);
    } else {
        assert(a =~= seq!["des = "@ + placeholder()]);
    }
}

/// A new booking is written column by column: as many values as columns, and
/// as many placeholders.
pub proof fn law_insert_in_step(p: BookingPostQueryParams, now: i64)
    ensures
        booking_insert_args(p, now).len() == booking_insert_columns(p).len(),
        repeated(placeholder(), booking_insert_columns(p).len()).len()
            == booking_insert_columns(p).len(),
{
}

} // verus!
