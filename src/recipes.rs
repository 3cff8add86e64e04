//! The writes of the recipe service: storing a new recipe with its
//! ingredients, choosing recipes for the week, removing a recipe and
//! resetting the weekly selection.
use vstd::prelude::*;
use crate::model::{IdsVec, Ingredient, Recipe, UserId};
use crate::query::{bind, new_query, query_with, query_with2, text, GraphQuery, Param, ParamValue, QueryView};
use crate::records::{text_or_empty, uuid_string, uuid_text};
use crate::steps::{numbered_steps, steps_block, texts};
use crate::text::{lower_of, lowercase};

verus! {

/// Stores a recipe owned by a user.
pub const CREATE_RECIPE: &'static str =
    "MATCH (u:User) WHERE u.id = $uid MERGE (u)-[:OWNS]->(:Recipe {id: $id, name: $name, public: $public, tipo: $tipo, steps: $steps, calories: $calories, carbohydrates: $carbohydrates, fat: $fat, protein: $protein, servings: $servings, meal_type: $meal_type, time: $time})";

/// Stores an ingredient unless one with that name and category exists.
pub const MERGE_INGREDIENT: &'static str = "MERGE (:Ingredient {name: $name, tipo: $tipo})";

/// Links a recipe to an ingredient it uses, with the amount.
pub const CREATE_USES: &'static str =
    "MATCH (i:Ingredient {name: $name}), (r:Recipe {id: $id}) CREATE (r)-[:USES {amount: $amount}]->(i)";

/// Adds a recipe to the user's weekly selection, stamped with a time.
pub const CREATE_CHOSEN: &'static str =
    "MATCH (u:User {id: $id}), (r:Recipe {id: $rid}) CREATE (u)-[:CHOSEN {created: $exp}]->(r)";

/// Deletes a recipe, and its edges, if the user owns it.
pub const REMOVE_OWNED: &'static str =
    "MATCH (u:User)-[:OWNS]->(r:Recipe) WHERE u.id = $u_id AND r.id = $r_id DETACH DELETE r";

/// Deletes every CHOSEN edge of the user, whatever its age.
pub const RESET_CHOSEN: &'static str =
    "MATCH (u:User)-[c:CHOSEN]->() WHERE u.id = $u_id DETACH DELETE c";

/// The parameters with which a recipe is stored: absent attributes are
/// stored as their defaults (not public, empty texts, zero nutrition facts),
/// and the steps as one numbered block.
pub open spec fn recipe_params(owner: Seq<char>, id: u128, recipe: Recipe) -> Seq<
    (Seq<char>, ParamValue),
> {
    seq![
        ("uid"@, ParamValue::Text(owner)),
        ("id"@, ParamValue::Text(uuid_text(id))),
        ("name"@, ParamValue::Text(recipe.name@)),
        ("public"@, ParamValue::Flag(recipe.public.unwrap_or(false))),
        ("tipo"@, ParamValue::Text(text_or_empty(recipe.tipo))),
        ("steps"@, ParamValue::Text(
            match recipe.steps {
                Some(s) => numbered_steps(texts(s@)),
                None => seq![],
            },
        )),
        ("calories"@, ParamValue::Int(recipe.calories.unwrap_or(0) as int)),
        ("carbohydrates"@, ParamValue::RealBits(recipe.carbohydrates.unwrap_or(0))),
        ("fat"@, ParamValue::RealBits(recipe.fat.unwrap_or(0))),
        ("protein"@, ParamValue::RealBits(recipe.protein.unwrap_or(0))),
        ("servings"@, ParamValue::Text(text_or_empty(recipe.servings))),
        ("meal_type"@, ParamValue::Text(text_or_empty(recipe.meal_type))),
        ("time"@, ParamValue::Text(text_or_empty(recipe.time))),
    ]
}

/// The query that stores an ingredient, under its lower-case name and category.
pub open spec fn merge_ingredient(i: Ingredient) -> QueryView {
    (
        MERGE_INGREDIENT@,
        seq![
            ("name"@, ParamValue::Text(lower_of(i.name@))),
            ("tipo"@, ParamValue::Text(lower_of(text_or_empty(i.tipo)))),
        ],
    )
}

/// The query that links the recipe with identity `id` to an ingredient.
pub open spec fn uses_ingredient(id: u128, i: Ingredient) -> QueryView {
    (
        CREATE_USES@,
        seq![
            ("name"@, ParamValue::Text(lower_of(i.name@))),
            ("id"@, ParamValue::Text(uuid_text(id))),
            ("amount"@, ParamValue::Text(i.amount@)),
        ],
    )
}

/// Positions `1 + 2k` and `2 + 2k` of `qs` store ingredient `i` and link it
/// to the recipe with identity `id`.
pub open spec fn stores_ingredient(qs: Seq<GraphQuery>, k: int, id: u128, i: Ingredient) -> bool {
    qs[1 + 2 * k]@ == merge_ingredient(i) && qs[2 + 2 * k]@ == uses_ingredient(id, i)
}

/// The ingredients a recipe lists, none if it lists none.
pub open spec fn listed_ingredients(recipe: Recipe) -> Seq<Ingredient> {
    match recipe.ingredients {
        Some(v) => v@,
        None => seq![],
    }
}

/// A text parameter: the text of an optional string, empty when absent.
fn text_or_default(s: &Option<String>) -> (r: Param)
    ensures
        r@ == ParamValue::Text(text_or_empty(*s)),
{
    match s {
        Some(t) => text(t),
        None => Param::Text(String::new()),
    }
}

/// The queries that store a new recipe with identity `recipe_id`, owned by
/// `owner`: first the recipe itself, then, for each ingredient in order, the
/// query that stores the ingredient and the one that links it to the recipe.
pub fn new_recipe(owner: &UserId, recipe_id: u128, recipe: &Recipe) -> (r: Vec<GraphQuery>)
    ensures
        r@.len() == 1 + 2 * listed_ingredients(*recipe).len(),
        r@[0]@ == (CREATE_RECIPE@, recipe_params(owner.0@, recipe_id, *recipe)),
        forall|k: int|
            0 <= k < listed_ingredients(*recipe).len() ==> #[trigger] stores_ingredient(
                r@,
                k,
                recipe_id,
                listed_ingredients(*recipe)[k],
            ),
{
    let id_text = uuid_string(recipe_id);
    let steps = match &recipe.steps {
        Some(s) => steps_block(s),
        None => String::new(),
    };
    let mut q = new_query(CREATE_RECIPE);
    bind(&mut q, "uid", text(&owner.0));
    bind(&mut q, "id", text(&id_text));
    bind(&mut q, "name", text(&recipe.name));
    bind(&mut q, "public", Param::Flag(match recipe.public { Some(b) => b, None => false }));
    bind(&mut q, "tipo", text_or_default(&recipe.tipo));
    bind(&mut q, "steps", text(&steps));
    bind(&mut q, "calories", Param::Int(match recipe.calories { Some(c) => c as i64, None => 0 }));
    bind(&mut q, "carbohydrates", Param::RealBits(match recipe.carbohydrates { Some(c) => c, None => 0 }));
    bind(&mut q, "fat", Param::RealBits(match recipe.fat { Some(c) => c, None => 0 }));
    bind(&mut q, "protein", Param::RealBits(match recipe.protein { Some(c) => c, None => 0 }));
    bind(&mut q, "servings", text_or_default(&recipe.servings));
    bind(&mut q, "meal_type", text_or_default(&recipe.meal_type));
    bind(&mut q, "time", text_or_default(&recipe.time));
    assert(q@.1 =~= recipe_params(owner.0@, recipe_id, *recipe));
    let mut out: Vec<GraphQuery> = Vec::new();
    out.push(q);
    match &recipe.ingredients {
        None => {},
        Some(ingredients) => {
            let mut k: usize = 0;
            while k < ingredients.len()
                invariant
                    k <= ingredients@.len(),
                    ingredients@ == listed_ingredients(*recipe),
                    id_text@ == uuid_text(recipe_id),
                    out@.len() == 1 + 2 * k,
                    out@[0]@ == (CREATE_RECIPE@, recipe_params(owner.0@, recipe_id, *recipe)),
                    forall|j: int|
                        0 <= j < k ==> #[trigger] stores_ingredient(
                            out@,
                            j,
                            recipe_id,
                            ingredients@[j],
                        ),
                decreases ingredients@.len() - k,
            {
                let ingredient = &ingredients[k];
                let name = lowercase(&ingredient.name);
                let empty = String::new();
                let tipo = match &ingredient.tipo {
                    Some(t) => lowercase(t),
                    None => lowercase(&empty),
                };
                let merge = query_with2(MERGE_INGREDIENT, "name", &name, "tipo", &tipo);
                let mut uses = query_with2(CREATE_USES, "name", &name, "id", &id_text);
                bind(&mut uses, "amount", text(&ingredient.amount));
                assert(ingredient.tipo is None ==> empty@ =~= text_or_empty(ingredient.tipo));
                let ghost before = out@;
                out.push(merge);
                out.push(uses);
                proof {
                    assert forall|j: int| 0 <= j < k + 1 implies #[trigger] stores_ingredient(
                        out@,
                        j,
                        recipe_id,
                        ingredients@[j],
                    ) by {
                        if j < k {
                            assert(stores_ingredient(before, j, recipe_id, ingredients@[j]));
                            assert(out@[1 + 2 * j] == before[1 + 2 * j]);
                            assert(out@[2 + 2 * j] == before[2 + 2 * j]);
                        } else {
                            assert(out@[1 + 2 * j] == merge);
                            assert(out@[2 + 2 * j] == uses);
                            assert(merge@ == merge_ingredient(ingredients@[j]));
                            assert(uses@ == uses_ingredient(recipe_id, ingredients@[j]));
                        }
                    }
                }
                k = k + 1;
            }
        },
    }
    out
}

/// The query that adds one recipe to the user's weekly selection at `now`.
pub open spec fn chosen_edge(user: Seq<char>, recipe: Seq<char>, now: i64) -> QueryView {
    (
        CREATE_CHOSEN@,
        seq![
            ("id"@, ParamValue::Text(user)),
            ("rid"@, ParamValue::Text(recipe)),
            ("exp"@, ParamValue::Millis(now as int)),
        ],
    )
}

/// The queries that add the given recipes to the user's weekly selection,
/// one CHOSEN edge per identity submitted, duplicates included, all stamped
/// with `now`.
pub fn choose_recipes(user: &UserId, data: &IdsVec, now: i64) -> (r: Vec<GraphQuery>)
    ensures
        r@.len() == data.ids@.len(),
        forall|k: int|
            0 <= k < r@.len() ==> #[trigger] r@[k]@ == chosen_edge(user.0@, data.ids@[k]@, now),
{
    let mut out: Vec<GraphQuery> = Vec::new();
    let mut k: usize = 0;
    while k < data.ids.len()
        invariant
            k <= data.ids@.len(),
            out@.len() == k,
            forall|j: int|
                0 <= j < k ==> #[trigger] out@[j]@ == chosen_edge(user.0@, data.ids@[j]@, now),
        decreases data.ids@.len() - k,
    {
        let mut q = query_with2(CREATE_CHOSEN, "id", &user.0, "rid", &data.ids[k]);
        bind(&mut q, "exp", Param::Millis(now));
        out.push(q);
        k = k + 1;
    }
    out
}

/// The query that deletes a recipe if, and only if, the user owns it; on a
/// recipe of someone else, or one that does not exist, it changes nothing.
pub fn remove_recipe(user: &UserId, recipe_id: &String) -> (q: GraphQuery)
    ensures
        q@ == (
            REMOVE_OWNED@,
            seq![("u_id"@, ParamValue::Text(user.0@)), ("r_id"@, ParamValue::Text(recipe_id@))],
        ),
{
    query_with2(REMOVE_OWNED, "u_id", &user.0, "r_id", recipe_id)
}

/// The query that deletes the user's whole weekly selection.
pub fn reset_all_chosen(user: &UserId) -> (q: GraphQuery)
    ensures
        q@ == (RESET_CHOSEN@, seq![("u_id"@, ParamValue::Text(user.0@))]),
{
    query_with(RESET_CHOSEN, "u_id", &user.0)
}

} // verus!
