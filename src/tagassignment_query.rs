//! Statements over the `tagassignment` table, which links bookings to tags.
use vstd::prelude::*;
use crate::query::{
    BindValue, SqlQuery, query_text, query_args, placeholder, joined, repeated, optional, int_arg,
    lemma_joined_push, lemma_repeated_push, query_new, push_text, push_int,
};

verus! {

/// The tags to give one booking, all in one statement.
pub struct TagAssignmentPostQueryParams {
    pub tag_id: Vec<i64>,
    pub booking_id: i64,
}

/// One row of values, `(tgid, bid)`.
pub open spec fn pair_tuple() -> Seq<char> {
    "("@ + placeholder() + ", "@ + placeholder() + ")"@
}

/// The values of one `(tgid, bid)` row per tag, in the order of the tags.
pub open spec fn pair_args(tags: Seq<i64>, bid: i64) -> Seq<BindValue>
    decreases tags.len(),
{
    if tags.len() == 0 {
        Seq::empty()
    } else {
        pair_args(tags.drop_last(), bid) + seq![BindValue::Int(tags.last()), BindValue::Int(bid)]
    }
}

/// The text of the insert of one row per tag, returning the stored rows.
pub open spec fn tagassignment_insert_text(n: nat) -> Seq<char> {
    "INSERT INTO tagassignment (tgid, bid) VALUES "@ + joined(repeated(pair_tuple(), n), ", "@)
        + " RETURNING tgid, bid"@
}

/// Composes the insert that gives the booking every listed tag at once, one row
/// of values per tag. An empty list gives a statement that storage refuses.
pub fn tagassignment_insert(p: &TagAssignmentPostQueryParams) -> (r: SqlQuery)
    ensures
        query_text(r) == tagassignment_insert_text(p.tag_id@.len()),
        query_args(r) == pair_args(p.tag_id@, p.booking_id),
{
    let mut q = query_new("INSERT INTO tagassignment (tgid, bid) VALUES ");
    let ghost head = query_text(q);
    let mut i: usize = 0;
    while i < p.tag_id.len()
        invariant
            i <= p.tag_id.len(),
            query_text(q) == head + joined(repeated(pair_tuple(), i as nat), ", "@),
            query_args(q) == pair_args(p.tag_id@.subrange(0, i as int), p.booking_id),
        decreases p.tag_id.len() - i,
    {
        if i > 0 {
            push_text(&mut q, ", ");
        }
        push_text(&mut q, "(");
        push_int(&mut q, p.tag_id[i]);
        push_text(&mut q, ", ");
        push_int(&mut q, p.booking_id);
        push_text(&mut q, ")");
        proof {
            lemma_repeated_push(pair_tuple(), i as nat);
            lemma_joined_push(repeated(pair_tuple(), i as nat), ", "@, pair_tuple());
            let next = p.tag_id@.subrange(0, i + 1);
            assert(next.drop_last() =~= p.tag_id@.subrange(0, i as int));
        }
        assert(query_text(q) =~= head + joined(repeated(pair_tuple(), (i + 1) as nat), ", "@));
        assert(query_args(q) =~= pair_args(p.tag_id@.subrange(0, i + 1), p.booking_id));
        i += 1;
    }
    assert(p.tag_id@.subrange(0, p.tag_id@.len() as int) =~= p.tag_id@);
    push_text(&mut q, " RETURNING tgid, bid");
    q
}

/// The insert of assignments holds one row of values per tag: `n` rows for `n`
/// tags, the `k`-th pairing the `k`-th tag with the booking.
pub proof fn law_one_row_per_tag(tags: Seq<i64>, bid: i64)
    ensures
        repeated(pair_tuple(), tags.len()).len() == tags.len(),
        pair_args(tags, bid).len() == 2 * tags.len(),
        forall|k: int|
            0 <= k < tags.len() ==> #[trigger] pair_args(tags, bid)[2 * k] == BindValue::Int(tags[k])
                && pair_args(tags, bid)[2 * k + 1] == BindValue::Int(bid),
    decreases tags.len(),
{
    if tags.len() > 0 {
        let front = tags.drop_last();
        law_one_row_per_tag(front, bid);
        assert forall|k: int| 0 <= k < tags.len() implies #[trigger] pair_args(tags, bid)[2 * k]
            == BindValue::Int(tags[k]) && pair_args(tags, bid)[2 * k + 1] == BindValue::Int(bid) by {
            if k < front.len() {
                assert(front[k] == tags[k]);
            }
        }
    }
}

/// Exact-match filters for reading assignments; each absent one is left out.
pub struct TagAssignmentGetQueryParams {
    pub booking_id: Option<i64>,
    pub tag_id: Option<i64>,
}

/// The conditions of a read of assignments, one per present filter.
pub open spec fn tagassignment_conditions(p: TagAssignmentGetQueryParams) -> Seq<Seq<char>> {
    optional(p.tag_id is Some, " tgid = "@ + placeholder()) + optional(
        p.booking_id is Some,
        " bid = "@ + placeholder(),
    )
}

/// The text of that read: a `WHERE` clause only when some filter is present.
pub open spec fn tagassignment_select_text(p: TagAssignmentGetQueryParams) -> Seq<char> {
    let c = tagassignment_conditions(p);
    "SELECT tgid, bid FROM tagassignment"@ + if c.len() > 0 {
        " WHERE"@ + joined(c, " AND"@)
    } else {
        Seq::empty()
    }
}

/// Composes the read of the assignments that match every present filter.
pub fn tagassignment_select(p: &TagAssignmentGetQueryParams) -> (r: SqlQuery)
    ensures
        query_text(r) == tagassignment_select_text(*p),
        query_args(r) == int_arg(p.tag_id) + int_arg(p.booking_id),
{
    let mut q = query_new("SELECT tgid, bid FROM tagassignment");
    let ghost head = query_text(q);
    let ghost c1 = optional(p.tag_id is Some, " tgid = "@ + placeholder());
    let ghost c2 = optional(p.booking_id is Some, " bid = "@ + placeholder());
    if p.booking_id.is_some() || p.tag_id.is_some() {
        push_text(&mut q, " WHERE");
        match p.tag_id {
            Some(t) => {
                push_text(&mut q, " tgid = ");
                push_int(&mut q, t);
            },
            None => {},
        }
        match p.booking_id {
            Some(b) => {
                if p.tag_id.is_some() {
                    push_text(&mut q, " AND");
                }
                push_text(&mut q, " bid = ");
                push_int(&mut q, b);
            },
            None => {},
        }
        proof {
            lemma_joined_push(c1, " AND"@, " bid = "@ + placeholder());
            if p.booking_id is Some {
                assert(c1 + c2 =~= c1.push(" bid = "@ + placeholder()));
            } else {
                assert(c1 + c2 =~= c1);
            }
        }
    }
    assert(query_text(q) =~= tagassignment_select_text(*p));
    assert(query_args(q) =~= int_arg(p.tag_id) + int_arg(p.booking_id));
    q
}

/// Names the assignment to delete: a booking and one of its tags.
pub struct TagAssignmentDeleteQueryParams {
    pub booking_id: i64,
    pub tag_id: i64,
}

/// Composes the deletion of one assignment.
pub fn tagassignment_delete(p: &TagAssignmentDeleteQueryParams) -> (r: SqlQuery)
    ensures
        query_text(r) == "DELETE FROM tagassignment WHERE tgid = "@ + placeholder() + " AND bid = "@
            + placeholder(),
        query_args(r) == seq![BindValue::Int(p.tag_id), BindValue::Int(p.booking_id)],
{
    let mut q = query_new("DELETE FROM tagassignment WHERE tgid = ");
    push_int(&mut q, p.tag_id);
    push_text(&mut q, " AND bid = ");
    push_int(&mut q, p.booking_id);
    assert(query_args(q) =~= seq![BindValue::Int(p.tag_id), BindValue::Int(p.booking_id)]);
    q
}

} // verus!
