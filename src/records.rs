//! Turning the property maps that the store returns into recipes and
//! ingredients, and attaching a recipe's ingredients to it.
use vstd::prelude::*;
use vstd::string::*;
use crate::model::{Ingredient, Recipe};
use crate::query::{query_with, GraphQuery, ParamValue};
use crate::steps::{lines_of, process_steps, texts};
use crate::text::digit_char;
use vstd::arithmetic::power2::pow2;

verus! {

/// The properties of a recipe node as the store holds them. The nutrition
/// facts other than calories are single-precision bit patterns.
#[derive(Debug)]
pub struct RecipeRecord {
    pub id: Option<String>,
    pub name: Option<String>,
    pub public: Option<bool>,
    pub steps: Option<String>,
    pub tipo: Option<String>,
    pub calories: Option<i64>,
    pub carbohydrates: Option<u32>,
    pub fat: Option<u32>,
    pub protein: Option<u32>,
    pub servings: Option<String>,
    pub meal_type: Option<String>,
    pub time: Option<String>,
}

/// The name a recipe gets when its node has none.
pub const NO_NAME: &'static str = "No name found for node";

/// Fetches the ingredients a recipe uses, with the USES edges' amounts.
pub const RECIPE_INGREDIENTS: &'static str =
    "MATCH (r:Recipe)-[u:USES]->(i:Ingredient) WHERE r.id = $rid RETURN i, u";

/// The 128-bit value of the UUID that a text spells, if it spells one.
pub uninterp spec fn uuid_value(s: Seq<char>) -> Option<u128>;

/// The lower-case hexadecimal digit for `d`, below sixteen.
pub open spec fn hex_digit(d: int) -> char {
    if d < 10 {
        digit_char(d)
    } else if d == 10 {
        'a'
    } else if d == 11 {
        'b'
    } else if d == 12 {
        'c'
    } else if d == 13 {
        'd'
    } else if d == 14 {
        'e'
    } else {
        'f'
    }
}

/// Hexadecimal digit `d` of `v` among its 32, the most significant first.
pub open spec fn uuid_nibble(v: u128, d: int) -> int {
    (v as int / pow2((4 * (31 - d)) as nat) as int) % 16
}

/// The hyphenated lower-case text of a UUID: its 32 hexadecimal digits,
/// most significant first, with a hyphen after the 8th, 12th, 16th and 20th.
pub open spec fn uuid_text(v: u128) -> Seq<char> {
    Seq::new(
        36,
        |i: int|
            if i == 8 || i == 13 || i == 18 || i == 23 {
                '-'
            } else {
                let d = if i < 8 {
                    i
                } else if i < 13 {
                    i - 1
                } else if i < 18 {
                    i - 2
                } else if i < 23 {
                    i - 3
                } else {
                    i - 4
                };
                hex_digit(uuid_nibble(v, d))
            },
    )
}

/// Relies on uuid's `Uuid::parse_str` and `Uuid::as_u128`: the value of the
/// UUID that the text spells, which depends on the text alone.
#[verifier::external_body]
pub(crate) fn parse_uuid(s: &str) -> (r: Option<u128>)
    ensures
        r == uuid_value(s@),
{
    match uuid::Uuid::parse_str(s) {
        Ok(u) => Some(u.as_u128()),
        Err(_) => None,
    }
}

/// Relies on uuid's `Uuid::from_u128` (the value's big-endian bytes) and its
/// `Display`: the hyphenated lower-case form.
#[verifier::external_body]
pub(crate) fn uuid_string(v: u128) -> (r: String)
    ensures
        r@ == uuid_text(v),
{
    uuid::Uuid::from_u128(v).to_string()
}

/// The text of an optional string, empty when absent.
pub open spec fn text_or_empty(s: Option<String>) -> Seq<char> {
    match s {
        Some(t) => t@,
        None => seq![],
    }
}

/// The recipe that a record describes once its identity is known: absent
/// attributes take their defaults (the placeholder name, no steps, zero
/// nutrition facts), and the ingredients are not attached yet.
pub open spec fn recipe_of(record: RecipeRecord, id: u128, r: Recipe) -> bool {
    &&& r.id == Some(id)
    &&& r.name@ == match record.name {
        Some(n) => n@,
        None => NO_NAME@,
    }
    &&& r.public == record.public
    &&& r.steps is Some && texts(r.steps->0@) == lines_of(text_or_empty(record.steps))
    &&& r.tipo == record.tipo
    &&& r.calories == Some(record.calories.unwrap_or(0) as u16)
    &&& r.carbohydrates == Some(record.carbohydrates.unwrap_or(0))
    &&& r.fat == Some(record.fat.unwrap_or(0))
    &&& r.protein == Some(record.protein.unwrap_or(0))
    &&& r.servings == record.servings
    &&& r.meal_type == record.meal_type
    &&& r.ingredients is None
    &&& r.time == record.time
}

/// Builds the recipe of a record whose identity text has been parsed:
/// `None` when the record has no identity or it spells no UUID.
pub fn recipe_from_record(record: RecipeRecord, id: Option<u128>) -> (r: Option<Recipe>)
    ensures
        id is None <==> r is None,
        id is Some ==> recipe_of(record, id->0, r->0),
{
    match id {
        None => None,
        Some(v) => {
            let ghost rec = record;
            let name = match record.name {
                Some(n) => n,
                None => String::from_str(NO_NAME),
            };
            let steps = match record.steps {
                Some(s) => s,
                None => String::new(),
            };
            let calories: i64 = match record.calories {
                Some(c) => c,
                None => 0,
            };
            let carbohydrates: u32 = match record.carbohydrates {
                Some(c) => c,
                None => 0,
            };
            let fat: u32 = match record.fat {
                Some(c) => c,
                None => 0,
            };
            let protein: u32 = match record.protein {
                Some(c) => c,
                None => 0,
            };
            let r = Recipe {
                id: Some(v),
                name,
                public: record.public,
                steps: process_steps(steps),
                tipo: record.tipo,
                calories: Some(calories as u16),
                carbohydrates: Some(carbohydrates),
                fat: Some(fat),
                protein: Some(protein),
                servings: record.servings,
                meal_type: record.meal_type,
                ingredients: None,
                time: record.time,
            };
            assert(recipe_of(rec, v, r));
            Some(r)
        },
    }
}

/// Builds the recipe that a record describes; `None` when the record has no
/// identity or its identity is not a UUID.
pub fn format_recipes(record: RecipeRecord) -> (r: Option<Recipe>)
    ensures
        record.id is None ==> r is None,
        record.id is Some ==> (r is Some <==> uuid_value(record.id->0@) is Some),
        r is Some ==> recipe_of(record, uuid_value(record.id->0@)->0, r->0),
{
    let id = match &record.id {
        Some(text) => parse_uuid(text.as_str()),
        None => None,
    };
    recipe_from_record(record, id)
}

/// Builds an ingredient from an ingredient node's name and category and the
/// amount on the USES edge; an absent category becomes the empty text.
pub fn format_ingredients(name: String, tipo: Option<String>, amount: String) -> (r: Ingredient)
    ensures
        r.name@ == name@,
        r.tipo is Some && r.tipo->0@ == text_or_empty(tipo),
        r.amount@ == amount@,
{
    let tipo = match tipo {
        Some(t) => t,
        None => String::new(),
    };
    Ingredient { name, tipo: Some(tipo), amount }
}

/// The query that fetches the ingredients of the recipe with identity `id`.
pub fn ingredients_query(id: u128) -> (q: GraphQuery)
    ensures
        q@ == (RECIPE_INGREDIENTS@, seq![("rid"@, ParamValue::Text(uuid_text(id)))]),
{
    let text = uuid_string(id);
    query_with(RECIPE_INGREDIENTS, "rid", &text)
}

/// Attaches the ingredients that the store returned to a recipe; a recipe
/// without ingredients gets an empty list.
pub fn get_ingredients_from_db(recipe: &mut Recipe, ingredients: Vec<Ingredient>)
    ensures
        final(recipe).ingredients == Some(ingredients),
        final(recipe).id == old(recipe).id,
        final(recipe).name == old(recipe).name,
        final(recipe).public == old(recipe).public,
        final(recipe).steps == old(recipe).steps,
        final(recipe).tipo == old(recipe).tipo,
        final(recipe).calories == old(recipe).calories,
        final(recipe).carbohydrates == old(recipe).carbohydrates,
        final(recipe).fat == old(recipe).fat,
        final(recipe).protein == old(recipe).protein,
        final(recipe).servings == old(recipe).servings,
        final(recipe).meal_type == old(recipe).meal_type,
        final(recipe).time == old(recipe).time,
{
    recipe.ingredients = Some(ingredients);
}

} // verus!
