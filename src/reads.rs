//! The read queries of the recipe service, and the outcome of reading one
//! recipe.
use vstd::prelude::*;
use crate::model::{Recipe, Status, UserId};
use crate::query::{new_query, query_with, query_with2, GraphQuery, ParamValue};

verus! {

/// The recipes of the user's OWNS and LIKES edges, with the edges.
pub const DIRECT_RECIPES: &'static str =
    "MATCH (u:User)-[c:OWNS|LIKES]->(r:Recipe) WHERE u.id = $u_id RETURN r, c";

/// The public recipes that other users own.
pub const PUBLIC_OF_OTHERS: &'static str =
    "MATCH (r:Recipe)-[:OWNS]-(u:User) WHERE r.public = true AND NOT u.id = $u_id RETURN r";

/// The recipes the user owns or likes.
pub const OWNED_OR_LIKED: &'static str =
    "MATCH (r:Recipe)-[:OWNS|:LIKES]-(u:User) WHERE u.id = $id RETURN r";

/// The recipes of the user's CHOSEN edges, with the edges.
pub const CHOSEN_RECIPES: &'static str =
    "MATCH (u:User)-[c:CHOSEN]-(r:Recipe) WHERE u.id = $id RETURN r, c";

/// The user's own recipes that use an ingredient.
pub const OWNED_WITH_INGREDIENT: &'static str =
    "MATCH (u:User)-[:OWNS]->(r:Recipe)-[:USES]->(i:Ingredient) WHERE u.id = $id AND i.name = $ing RETURN r";

/// The public recipes that use an ingredient.
pub const PUBLIC_WITH_INGREDIENT: &'static str =
    "MATCH (r:Recipe)-[:USES]->(i:Ingredient) WHERE r.public = true AND i.name = $ing RETURN r";

/// A recipe that the user owns, or a public one.
pub const VISIBLE_RECIPE: &'static str =
    "MATCH (u:User)-[:OWNS]->(r:Recipe) WHERE (u.id = $u_id AND r.id = $r_id) OR (r.id = $r_id AND r.public = true) RETURN r";

/// A public recipe.
pub const PUBLIC_RECIPE: &'static str =
    "MATCH (r:Recipe) WHERE r.id = $r_id AND r.public = true RETURN r";

/// Any recipe, by identity, as a shared link reaches it.
pub const RECIPE_BY_ID: &'static str = "MATCH (r:Recipe) WHERE r.id = $r_id RETURN r";

/// Every public recipe.
pub const PUBLIC_RECIPES: &'static str = "MATCH (r:Recipe) WHERE r.public = true RETURN r";

/// The two queries whose results make up the recipes a user can see: the
/// direct edges, then the public recipes of others.
pub fn recipe_list_queries(user: &UserId) -> (r: (GraphQuery, GraphQuery))
    ensures
        r.0@ == (DIRECT_RECIPES@, seq![("u_id"@, ParamValue::Text(user.0@))]),
        r.1@ == (PUBLIC_OF_OTHERS@, seq![("u_id"@, ParamValue::Text(user.0@))]),
{
    (query_with(DIRECT_RECIPES, "u_id", &user.0), query_with(PUBLIC_OF_OTHERS, "u_id", &user.0))
}

/// The query for the pool of a weekly sample: the recipes the user owns or likes.
pub fn random_recipes_query(user: &UserId) -> (q: GraphQuery)
    ensures
        q@ == (OWNED_OR_LIKED@, seq![("id"@, ParamValue::Text(user.0@))]),
{
    query_with(OWNED_OR_LIKED, "id", &user.0)
}

/// The query for the recipes of the user's weekly selection.
pub fn chosen_recipes_query(user: &UserId) -> (q: GraphQuery)
    ensures
        q@ == (CHOSEN_RECIPES@, seq![("id"@, ParamValue::Text(user.0@))]),
{
    query_with(CHOSEN_RECIPES, "id", &user.0)
}

/// The two queries for the recipes that use an ingredient: the user's own,
/// then the public ones.
pub fn recipes_by_ingredient_queries(user: &UserId, ingredient: &String) -> (r: (
    GraphQuery,
    GraphQuery,
))
    ensures
        r.0@ == (
            OWNED_WITH_INGREDIENT@,
            seq![("id"@, ParamValue::Text(user.0@)), ("ing"@, ParamValue::Text(ingredient@))],
        ),
        r.1@ == (PUBLIC_WITH_INGREDIENT@, seq![("ing"@, ParamValue::Text(ingredient@))]),
{
    (
        query_with2(OWNED_WITH_INGREDIENT, "id", &user.0, "ing", ingredient),
        query_with(PUBLIC_WITH_INGREDIENT, "ing", ingredient),
    )
}

/// The query for one recipe that the user owns, or that is public.
pub fn get_recipe_query(user: &UserId, recipe_id: &String) -> (q: GraphQuery)
    ensures
        q@ == (
            VISIBLE_RECIPE@,
            seq![("u_id"@, ParamValue::Text(user.0@)), ("r_id"@, ParamValue::Text(recipe_id@))],
        ),
{
    query_with2(VISIBLE_RECIPE, "u_id", &user.0, "r_id", recipe_id)
}

/// The query for one public recipe.
pub fn get_public_recipe_query(recipe_id: &String) -> (q: GraphQuery)
    ensures
        q@ == (PUBLIC_RECIPE@, seq![("r_id"@, ParamValue::Text(recipe_id@))]),
{
    query_with(PUBLIC_RECIPE, "r_id", recipe_id)
}

/// The query for a shared recipe.
pub fn share_recipe(recipe_id: &String) -> (q: GraphQuery)
    ensures
        q@ == (RECIPE_BY_ID@, seq![("r_id"@, ParamValue::Text(recipe_id@))]),
{
    query_with(RECIPE_BY_ID, "r_id", recipe_id)
}

/// The query for every public recipe.
pub fn public_recipes() -> (q: GraphQuery)
    ensures
        q@ == (PUBLIC_RECIPES@, Seq::<(Seq<char>, ParamValue)>::empty()),
{
    new_query(PUBLIC_RECIPES)
}

/// The outcome of reading one recipe the caller may see: the recipe, or
/// `NotFound` when it is absent or not visible to the caller.
pub fn get_recipe(found: Option<Recipe>) -> (r: Result<Recipe, Status>)
    ensures
        found is Some ==> r == Ok::<Recipe, Status>(found->0),
        found is None ==> r == Err::<Recipe, Status>(Status::NotFound),
{
    match found {
        Some(recipe) => Ok(recipe),
        None => Err(Status::NotFound),
    }
}

/// The outcome of reading a public recipe without a session: the recipe, or
/// `NotFound` when no public recipe has that identity.
pub fn get_public_recipe(found: Option<Recipe>) -> (r: Result<Recipe, Status>)
    ensures
        found is Some ==> r == Ok::<Recipe, Status>(found->0),
        found is None ==> r == Err::<Recipe, Status>(Status::NotFound),
{
    match found {
        Some(recipe) => Ok(recipe),
        None => Err(Status::NotFound),
    }
}

} // verus!
