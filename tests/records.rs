use recipe_graph::model::{Ingredient, Recipe, UserId, IdsVec};
use recipe_graph::query::Param;
use recipe_graph::recipes::{
    choose_recipes, new_recipe, remove_recipe, reset_all_chosen, CREATE_CHOSEN, CREATE_RECIPE,
    CREATE_USES, MERGE_INGREDIENT, REMOVE_OWNED, RESET_CHOSEN,
};
use recipe_graph::records::{
    format_ingredients, format_recipes, get_ingredients_from_db, ingredients_query,
    recipe_from_record, RecipeRecord, NO_NAME, RECIPE_INGREDIENTS,
};

const UUID_TEXT: &str = "67e55044-10b1-426f-9247-bb680e5fe0c8";
const UUID_VALUE: u128 = 0x67e55044_10b1_426f_9247_bb680e5fe0c8;

fn record(id: Option<&str>) -> RecipeRecord {
    RecipeRecord {
        id: id.map(|s| s.to_string()),
        name: None,
        public: Some(true),
        steps: Some("Boil\nServe".to_string()),
        tipo: None,
        calories: Some(70_000),
        carbohydrates: None,
        fat: Some(0x3f80_0000),
        protein: None,
        servings: Some("2".to_string()),
        meal_type: None,
        time: None,
    }
}

fn text_param(p: &Param) -> String {
    match p {
        Param::Text(t) => t.clone(),
        other => panic!("not a text parameter: {:?}", other),
    }
}

#[test]
fn formats_a_recipe_with_defaults() {
    let r = format_recipes(record(Some(UUID_TEXT))).expect("a recipe");
    assert_eq!(r.id, Some(UUID_VALUE));
    assert_eq!(r.name, NO_NAME);
    assert_eq!(r.public, Some(true));
    assert_eq!(r.steps, Some(vec!["Boil".to_string(), "Serve".to_string()]));
    assert_eq!(r.calories, Some(70_000i64 as u16));
    assert_eq!(r.carbohydrates, Some(0));
    assert_eq!(r.fat, Some(0x3f80_0000));
    assert_eq!(r.servings, Some("2".to_string()));
    assert!(r.ingredients.is_none());
}

#[test]
fn a_record_without_identity_gives_no_recipe() {
    assert!(format_recipes(record(None)).is_none());
}

#[test]
fn a_record_with_a_bad_identity_gives_no_recipe() {
    assert!(format_recipes(record(Some("not-a-uuid"))).is_none());
}

#[test]
fn recipe_from_record_uses_the_given_identity() {
    let r = recipe_from_record(record(Some("ignored")), Some(42)).unwrap();
    assert_eq!(r.id, Some(42));
    assert!(recipe_from_record(record(Some(UUID_TEXT)), None).is_none());
}

#[test]
fn formats_an_ingredient() {
    let i = format_ingredients("salt".to_string(), None, "1 tsp".to_string());
    assert_eq!(i.name, "salt");
    assert_eq!(i.tipo, Some(String::new()));
    assert_eq!(i.amount, "1 tsp");
}

#[test]
fn attaches_ingredients_including_none() {
    let mut r = format_recipes(record(Some(UUID_TEXT))).unwrap();
    get_ingredients_from_db(&mut r, Vec::new());
    assert_eq!(r.ingredients.as_ref().map(|v| v.len()), Some(0));
    assert_eq!(r.id, Some(UUID_VALUE));
}

#[test]
fn ingredients_query_spells_the_identity() {
    let q = ingredients_query(UUID_VALUE);
    assert_eq!(q.text, RECIPE_INGREDIENTS);
    assert_eq!(q.params[0].0, "rid");
    assert_eq!(text_param(&q.params[0].1), UUID_TEXT);
}

fn new_form() -> Recipe {
    Recipe {
        id: None,
        name: "Soup".to_string(),
        public: None,
        steps: Some(vec!["Chop".to_string(), "Boil".to_string()]),
        tipo: Some("starter".to_string()),
        calories: Some(120),
        carbohydrates: None,
        fat: None,
        protein: None,
        servings: None,
        meal_type: None,
        ingredients: Some(vec![
            Ingredient { name: "Tomato".to_string(), tipo: Some("VEG".to_string()), amount: "2".to_string() },
            Ingredient { name: "Salt".to_string(), tipo: None, amount: "1 tsp".to_string() },
        ]),
        time: None,
    }
}

#[test]
fn new_recipe_binds_every_field_as_a_parameter() {
    let qs = new_recipe(&UserId("owner".to_string()), UUID_VALUE, &new_form());
    assert_eq!(qs.len(), 5);
    let q = &qs[0];
    assert_eq!(q.text, CREATE_RECIPE);
    let names: Vec<&str> = q.params.iter().map(|p| p.0).collect();
    assert_eq!(
        names,
        vec!["uid", "id", "name", "public", "tipo", "steps", "calories", "carbohydrates", "fat",
            "protein", "servings", "meal_type", "time"]
    );
    assert_eq!(text_param(&q.params[0].1), "owner");
    assert_eq!(text_param(&q.params[1].1), UUID_TEXT);
    assert_eq!(text_param(&q.params[2].1), "Soup");
    assert!(matches!(q.params[3].1, Param::Flag(false)));
    assert_eq!(text_param(&q.params[5].1), "1. Chop\n2. Boil\n");
    assert!(matches!(q.params[6].1, Param::Int(120)));
    assert!(matches!(q.params[7].1, Param::RealBits(0)));
    assert_eq!(text_param(&q.params[12].1), "");
}

#[test]
fn new_recipe_lowercases_ingredients() {
    let qs = new_recipe(&UserId("owner".to_string()), UUID_VALUE, &new_form());
    assert_eq!(qs[1].text, MERGE_INGREDIENT);
    assert_eq!(text_param(&qs[1].params[0].1), "tomato");
    assert_eq!(text_param(&qs[1].params[1].1), "veg");
    assert_eq!(qs[2].text, CREATE_USES);
    assert_eq!(text_param(&qs[2].params[0].1), "tomato");
    assert_eq!(text_param(&qs[2].params[1].1), UUID_TEXT);
    assert_eq!(text_param(&qs[2].params[2].1), "2");
    assert_eq!(text_param(&qs[3].params[0].1), "salt");
    assert_eq!(text_param(&qs[3].params[1].1), "");
}

#[test]
fn new_recipe_without_ingredients_is_one_query() {
    let mut form = new_form();
    form.ingredients = None;
    assert_eq!(new_recipe(&UserId("o".to_string()), 1, &form).len(), 1);
}

#[test]
fn choosing_keeps_duplicate_identities() {
    let ids = IdsVec { ids: vec!["r1".to_string(), "r1".to_string(), "r2".to_string()] };
    let qs = choose_recipes(&UserId("u".to_string()), &ids, 1234);
    assert_eq!(qs.len(), 3);
    assert!(qs.iter().all(|q| q.text == CREATE_CHOSEN));
    assert_eq!(text_param(&qs[1].params[1].1), "r1");
    assert!(matches!(qs[2].params[2].1, Param::Millis(1234)));
}

#[test]
fn remove_and_reset_are_parameterized() {
    let q = remove_recipe(&UserId("u".to_string()), &"r".to_string());
    assert_eq!(q.text, REMOVE_OWNED);
    assert_eq!(text_param(&q.params[1].1), "r");
    let q = reset_all_chosen(&UserId("u".to_string()));
    assert_eq!(q.text, RESET_CHOSEN);
    assert_eq!(text_param(&q.params[0].1), "u");
}
