use recipe_graph::access::{
    canonical_set, chosen_recipes, pick_recipes, random_recipes, recipe_list,
    recipes_by_ingredient,
};
use recipe_graph::model::{ChosenDeleted, Recipe, RelKind};

fn recipe(id: u128, name: &str) -> Recipe {
    Recipe {
        id: Some(id),
        name: name.to_string(),
        public: Some(true),
        steps: None,
        tipo: None,
        calories: None,
        carbohydrates: None,
        fat: None,
        protein: None,
        servings: None,
        meal_type: None,
        ingredients: None,
        time: None,
    }
}

fn ids(v: &[Recipe]) -> Vec<Option<u128>> {
    v.iter().map(|r| r.id).collect()
}

#[test]
fn recipe_list_sorts_and_dedups_by_identity() {
    let direct = vec![(recipe(30, "mine"), RelKind::Owns), (recipe(10, "liked"), RelKind::Likes)];
    let public = vec![recipe(30, "public copy"), recipe(20, "other"), recipe(10, "again")];
    let r = recipe_list(direct, public);
    assert_eq!(ids(&r.recipes), vec![Some(10), Some(20), Some(30)]);
    assert_eq!(r.recipes[2].name, "mine");
    assert_eq!(r.recipes[0].name, "liked");
    let rels = r.rels.unwrap();
    assert_eq!(rels.owns, vec![30]);
    assert_eq!(rels.likes, vec![10]);
}

#[test]
fn recipe_list_of_nothing_is_empty() {
    let r = recipe_list(Vec::new(), Vec::new());
    assert!(r.recipes.is_empty());
    let rels = r.rels.unwrap();
    assert!(rels.owns.is_empty() && rels.likes.is_empty());
}

#[test]
fn canonical_set_keeps_the_first_of_equal_identities() {
    let r = canonical_set(vec![recipe(5, "first"), recipe(1, "one"), recipe(5, "second")]);
    assert_eq!(ids(&r), vec![Some(1), Some(5)]);
    assert_eq!(r[1].name, "first");
}

#[test]
fn canonical_set_puts_a_missing_identity_first() {
    let mut no_id = recipe(0, "none");
    no_id.id = None;
    let r = canonical_set(vec![recipe(0, "zero"), no_id]);
    assert_eq!(ids(&r), vec![None, Some(0)]);
}

#[test]
fn by_ingredient_keeps_order_and_first_occurrence() {
    let owned = vec![recipe(9, "own nine"), recipe(2, "own two")];
    let public = vec![recipe(2, "public two"), recipe(7, "public seven"), recipe(9, "public nine")];
    let r = recipes_by_ingredient(owned, public);
    assert_eq!(ids(&r), vec![Some(9), Some(2), Some(7)]);
    assert_eq!(r[1].name, "own two");
}

const NOW: i64 = 1_700_000_000_000;
const DAY: i64 = 86_400_000;

#[test]
fn chosen_after_deletion_is_empty() {
    let r = chosen_recipes(ChosenDeleted(true), vec![(recipe(1, "a"), NOW)], NOW);
    assert!(r.recipes.is_empty());
    assert!(r.rels.is_none());
}

#[test]
fn chosen_without_deletion_is_the_selection() {
    let rows = vec![(recipe(1, "a"), NOW - DAY), (recipe(2, "b"), NOW - 7 * DAY)];
    let r = chosen_recipes(ChosenDeleted(false), rows, NOW);
    assert_eq!(ids(&r.recipes), vec![Some(1), Some(2)]);
}

#[test]
fn chosen_never_lists_an_expired_edge() {
    let rows = vec![(recipe(1, "old"), NOW - 9 * DAY), (recipe(2, "new"), NOW - DAY)];
    let r = chosen_recipes(ChosenDeleted(false), rows, NOW);
    assert_eq!(ids(&r.recipes), vec![Some(2)]);
}

#[test]
fn weekly_sample_takes_the_requested_number() {
    let pool: Vec<Recipe> = (0..5).map(|i| recipe(i, "r")).collect();
    let r = random_recipes(pool, Some(2));
    assert_eq!(r.recipes.len(), 2);
    assert_ne!(r.recipes[0].id, r.recipes[1].id);
    assert!(r.recipes.iter().all(|x| x.id.unwrap() < 5));
    assert!(r.rels.is_none());
}

#[test]
fn weekly_sample_defaults_to_seven() {
    let pool: Vec<Recipe> = (0..10).map(|i| recipe(i, "r")).collect();
    let r = random_recipes(pool, None);
    assert_eq!(r.recipes.len(), 7);
    let mut seen = ids(&r.recipes);
    seen.sort();
    seen.dedup();
    assert_eq!(seen.len(), 7);
}

#[test]
fn weekly_sample_never_exceeds_the_pool() {
    let pool: Vec<Recipe> = (0..3).map(|i| recipe(i, "r")).collect();
    let r = random_recipes(pool, Some(10));
    let mut seen = ids(&r.recipes);
    seen.sort();
    assert_eq!(seen, vec![Some(0), Some(1), Some(2)]);
}

#[test]
fn weekly_sample_counts_each_identity_once() {
    let pool = vec![recipe(4, "owned"), recipe(4, "same recipe again"), recipe(5, "other")];
    let r = random_recipes(pool, None);
    let mut seen = ids(&r.recipes);
    seen.sort();
    assert_eq!(seen, vec![Some(4), Some(5)]);
    let one = random_recipes(vec![recipe(9, "a"), recipe(9, "b")], Some(2));
    assert_eq!(ids(&one.recipes), vec![Some(9)]);
}

#[test]
fn weekly_sample_of_nothing_is_empty() {
    assert!(random_recipes(Vec::new(), Some(4)).recipes.is_empty());
}

#[test]
fn pick_recipes_follows_the_positions() {
    let pool = vec![recipe(10, "a"), recipe(11, "b"), recipe(12, "c")];
    let r = pick_recipes(pool, &vec![2, 0]);
    assert_eq!(ids(&r), vec![Some(12), Some(10)]);
}
