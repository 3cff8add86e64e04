use recipe_graph::access::chosen_recipes;
use recipe_graph::expiry::{
    check_chosen, chosen_lookup, chosen_state, is_expired, ChosenState, CHOSEN_EDGES,
    CHOSEN_TTL_MILLIS, DAY_MILLIS, DELETE_CHOSEN,
};
use recipe_graph::model::{ChosenDeleted, Recipe, UserId};
use recipe_graph::query::Param;

fn recipe(id: u128) -> Recipe {
    Recipe {
        id: Some(id),
        name: "chosen".to_string(),
        public: Some(false),
        steps: None,
        tipo: None,
        calories: None,
        carbohydrates: None,
        fat: None,
        protein: None,
        servings: None,
        meal_type: None,
        ingredients: None,
        time: None,
    }
}

const NOW: i64 = 1_700_000_000_000;

#[test]
fn ttl_is_eight_days() {
    assert_eq!(CHOSEN_TTL_MILLIS, 8 * 24 * 60 * 60 * 1000);
}

#[test]
fn nine_day_old_selection_is_deleted_once_and_hidden() {
    let user = UserId("u-1".to_string());
    let (deleted, delete) = check_chosen(&user, &vec![NOW - 9 * DAY_MILLIS], NOW);
    assert_eq!(deleted, ChosenDeleted(true));
    let q = delete.expect("one delete");
    assert_eq!(q.text, DELETE_CHOSEN);
    assert_eq!(q.params.len(), 1);
    assert_eq!(q.params[0].0, "id");
    assert!(matches!(&q.params[0].1, Param::Text(t) if t == "u-1"));
    let listed = chosen_recipes(deleted, vec![(recipe(1), NOW - 9 * DAY_MILLIS), (recipe(2), NOW)], NOW);
    assert!(listed.recipes.is_empty());
}

#[test]
fn seven_day_old_selection_stays() {
    let user = UserId("u-1".to_string());
    let (deleted, delete) = check_chosen(&user, &vec![NOW - 7 * DAY_MILLIS, NOW - DAY_MILLIS], NOW);
    assert_eq!(deleted, ChosenDeleted(false));
    assert!(delete.is_none());
    let listed = chosen_recipes(deleted, vec![(recipe(1), NOW - 7 * DAY_MILLIS), (recipe(2), NOW - 7 * DAY_MILLIS)], NOW);
    assert_eq!(listed.recipes.len(), 2);
}

#[test]
fn no_selection_is_absent_not_an_error() {
    let user = UserId("u-2".to_string());
    assert_eq!(chosen_state(&Vec::new(), NOW), ChosenState::Absent);
    let (deleted, delete) = check_chosen(&user, &Vec::new(), NOW);
    assert_eq!(deleted, ChosenDeleted(false));
    assert!(delete.is_none());
}

#[test]
fn expiry_is_strict_at_exactly_eight_days() {
    assert!(!is_expired(NOW - CHOSEN_TTL_MILLIS, NOW));
    assert!(is_expired(NOW - CHOSEN_TTL_MILLIS - 1, NOW));
    assert_eq!(chosen_state(&vec![NOW - CHOSEN_TTL_MILLIS], NOW), ChosenState::Valid);
    assert_eq!(chosen_state(&vec![NOW - CHOSEN_TTL_MILLIS - 1], NOW), ChosenState::Expired);
}

#[test]
fn any_expired_edge_deletes_the_selection() {
    let user = UserId("u-3".to_string());
    let (deleted, delete) = check_chosen(&user, &vec![NOW - DAY_MILLIS, NOW - 9 * DAY_MILLIS], NOW);
    assert_eq!(deleted, ChosenDeleted(true));
    assert_eq!(delete.expect("one delete").text, DELETE_CHOSEN);
}

#[test]
fn expiry_does_not_overflow_at_the_extremes() {
    assert!(!is_expired(i64::MAX, i64::MAX));
    assert!(is_expired(i64::MIN, i64::MAX));
    assert!(!is_expired(i64::MAX, i64::MIN));
}

#[test]
fn chosen_lookup_binds_the_user() {
    let q = chosen_lookup(&UserId("abc".to_string()));
    assert_eq!(q.text, CHOSEN_EDGES);
    assert!(matches!(&q.params[0].1, Param::Text(t) if t == "abc"));
}
