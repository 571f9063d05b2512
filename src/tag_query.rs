//! Statements over the `tag` table.
use vstd::prelude::*;
use crate::query::{
    BindValue, SqlQuery, query_text, query_args, placeholder, int_arg, text_arg, predicate,
    push_predicate, query_new, push_text, push_int, push_string,
};

verus! {

/// Exact-match filters for reading tags; each absent one is left out.
pub struct TagGetQueryParams {
    pub id: Option<i64>,
    pub name: Option<String>,
}

/// The text of the read of the tags that match every present filter.
pub open spec fn tag_select_text(p: TagGetQueryParams) -> Seq<char> {
    "SELECT id, name FROM tag WHERE TRUE"@ + predicate(p.id is Some, " AND id = "@) + predicate(
        p.name is Some,
        " AND name = "@,
    )
}

/// Composes the read of the tags that match every present filter.
pub fn tag_select(p: &TagGetQueryParams) -> (r: SqlQuery)
    ensures
        query_text(r) == tag_select_text(*p),
        query_args(r) == int_arg(p.id) + text_arg(p.name),
{
    let mut q = query_new("SELECT id, name FROM tag WHERE TRUE");
    push_predicate(&mut q, " AND id = ", p.id);
    let ghost text_before = query_text(q);
    let ghost args_before = query_args(q);
    match &p.name {
        Some(n) => {
            push_text(&mut q, " AND name = ");
            push_string(&mut q, n.clone());
        },
        None => {},
    }
    assert(query_text(q) =~= text_before + predicate(p.name is Some, " AND name = "@));
    assert(query_args(q) =~= args_before + text_arg(p.name));
    q
}

/// The name of a new tag.
pub struct TagPostQueryParams {
    pub name: String,
}

/// Composes the insert of a new tag, returning the stored row.
pub fn tag_insert(p: &TagPostQueryParams) -> (r: SqlQuery)
    ensures
        query_text(r) == "INSERT INTO tag (name) VALUES ("@ + placeholder()
            + ") RETURNING id, name"@,
        query_args(r) == seq![BindValue::Text(p.name@)],
{
    let mut q = query_new("INSERT INTO tag (name) VALUES (");
    push_string(&mut q, p.name.clone());
    push_text(&mut q, ") RETURNING id, name");
    assert(query_args(q) =~= seq![BindValue::Text(p.name@)]);
    q
}

/// A new name for one tag; without one there is nothing to change.
pub struct TagPatchQueryParams {
    pub id: i64,
    pub name: Option<String>,
}

/// Composes the renaming of one tag, or `None` when no name is given: storage then
/// has nothing to do and is not asked.
pub fn tag_update(p: &TagPatchQueryParams) -> (r: Option<SqlQuery>)
    ensures
        r is None <==> p.name is None,
        r is Some ==> query_text(r->Some_0) == "UPDATE tag SET name = "@ + placeholder()
            + " WHERE id = "@ + placeholder() + " RETURNING id, name"@ && query_args(r->Some_0)
            == seq![BindValue::Text(p.name->Some_0@), BindValue::Int(p.id)],
{
    match &p.name {
        Some(n) => {
            let mut q = query_new("UPDATE tag SET name = ");
            push_string(&mut q, n.clone());
            push_text(&mut q, " WHERE id = ");
            push_int(&mut q, p.id);
            push_text(&mut q, " RETURNING id, name");
            assert(query_args(q) =~= seq![BindValue::Text(p.name->Some_0@), BindValue::Int(p.id)]);
            Some(q)
        },
        None => None,
    }
}

/// Names the tag to delete.
pub struct TagDeleteQueryParams {
    pub id: i64,
}

/// Composes the deletion of one tag by id.
pub fn tag_delete(p: &TagDeleteQueryParams) -> (r: SqlQuery)
    ensures
        query_text(r) == "DELETE FROM tag WHERE id = "@ + placeholder(),
        query_args(r) == seq![BindValue::Int(p.id)],
{
    let mut q = query_new("DELETE FROM tag WHERE id = ");
    push_int(&mut q, p.id);
    assert(query_args(q) =~= seq![BindValue::Int(p.id)]);
    q
}

} // verus!
