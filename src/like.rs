//! Liking: a user toggles a LIKES edge to a public recipe of someone else.
use vstd::prelude::*;
use crate::model::{RelKind, Status, UserId};
use crate::query::{query_with2, GraphQuery, ParamValue, QueryView};

verus! {

/// Fetches the LIKES or OWNS edge between a user and a recipe, if any.
pub const LIKE_EDGE: &'static str =
    "MATCH (r:Recipe)-[c:LIKES|OWNS]-(u:User) WHERE u.id = $u_id AND r.id = $r_id RETURN r, c";

/// Creates a LIKES edge from the user to the recipe, if the recipe is public.
pub const CREATE_LIKE: &'static str =
    "MATCH (u:User), (r:Recipe) WHERE u.id = $u_id AND (r.id = $r_id AND r.public = true) MERGE (u)-[:LIKES]->(r)";

/// Deletes the user's LIKES edge to the recipe.
pub const DELETE_LIKE: &'static str =
    "MATCH (u:User)-[l:LIKES]->(r:Recipe) WHERE u.id = $u_id AND r.id = $r_id DETACH DELETE l";

/// A query on one user and one recipe.
pub open spec fn pair_query(text: Seq<char>, user: Seq<char>, recipe: Seq<char>) -> QueryView {
    (text, seq![("u_id"@, ParamValue::Text(user)), ("r_id"@, ParamValue::Text(recipe))])
}

/// The query that fetches the edge between a user and a recipe.
pub fn like_lookup(user: &UserId, recipe_id: &String) -> (q: GraphQuery)
    ensures
        q@ == pair_query(LIKE_EDGE@, user.0@, recipe_id@),
{
    query_with2(LIKE_EDGE, "u_id", &user.0, "r_id", recipe_id)
}

/// What a toggle does, given the edge found between user and recipe.
pub enum LikeChange {
    /// No edge: like the recipe (which takes hold only on a public recipe).
    Like,
    /// A LIKES edge: remove it.
    Unlike,
    /// An OWNS edge: owners cannot like their own recipe.
    Keep,
}

/// The change a toggle makes, given the edge found.
pub open spec fn like_change(existing: Option<RelKind>) -> LikeChange {
    match existing {
        None => LikeChange::Like,
        Some(RelKind::Likes) => LikeChange::Unlike,
        Some(RelKind::Owns) => LikeChange::Keep,
    }
}

/// The change a toggle makes, given the edge found.
pub fn change_for(existing: Option<RelKind>) -> (c: LikeChange)
    ensures
        c == like_change(existing),
{
    match existing {
        None => LikeChange::Like,
        Some(RelKind::Likes) => LikeChange::Unlike,
        Some(RelKind::Owns) => LikeChange::Keep,
    }
}

/// The edge between user and recipe after a change, on a recipe that is
/// public or not.
pub open spec fn edge_after(existing: Option<RelKind>, public: bool, change: LikeChange) -> Option<
    RelKind,
> {
    match change {
        LikeChange::Like => if existing is None && public {
            Some(RelKind::Likes)
        } else {
            existing
        },
        LikeChange::Unlike => if existing == Some(RelKind::Likes) {
            None
        } else {
            existing
        },
        LikeChange::Keep => existing,
    }
}

/// Toggles a like from the edge that the lookup found: no edge gives
/// `Created` and the query that likes; a LIKES edge gives `Accepted` and the
/// query that unlikes; an OWNS edge gives `NoContent` and no query.
pub fn like_recipe(user: &UserId, recipe_id: &String, existing: Option<RelKind>) -> (r: (
    Status,
    Option<GraphQuery>,
))
    ensures
        like_change(existing) is Like ==> r.0 == Status::Created && r.1 is Some && r.1->0@
            == pair_query(CREATE_LIKE@, user.0@, recipe_id@),
        like_change(existing) is Unlike ==> r.0 == Status::Accepted && r.1 is Some && r.1->0@
            == pair_query(DELETE_LIKE@, user.0@, recipe_id@),
        like_change(existing) is Keep ==> r.0 == Status::NoContent && r.1 is None,
{
    match existing {
        None => (Status::Created, Some(query_with2(CREATE_LIKE, "u_id", &user.0, "r_id", recipe_id))),
        Some(RelKind::Likes) => (
            Status::Accepted,
            Some(query_with2(DELETE_LIKE, "u_id", &user.0, "r_id", recipe_id)),
        ),
        Some(RelKind::Owns) => (Status::NoContent, None),
    }
}

} // verus!
