use recipe_manager::recipe::{Ingredient, Recipe, StoreError};
use recipe_manager::store::{is_named, RecipeStore};

fn recipe(title: &str, link: &str, category: Option<&str>) -> Recipe {
    Recipe {
        id: None,
        title: title.to_string(),
        link: link.to_string(),
        category: category.map(|c| c.to_string()),
        steps: Some("chop\nboil".to_string()),
    }
}

fn names(list: &[&str]) -> Vec<String> {
    list.iter().map(|n| n.to_string()).collect()
}

fn row(id: i64, name: &str, recipe_id: Option<i64>, have: bool) -> Ingredient {
    Ingredient { id, name: name.to_string(), recipe_id, have }
}

fn saved(id: i64, title: &str) -> Recipe {
    Recipe { id: Some(id), ..recipe(title, "http://x", None) }
}

#[test]
fn a_new_store_holds_nothing() {
    let store = RecipeStore::new();
    assert_eq!(store.recipe_count(), 0);
    assert_eq!(store.ingredient_count(), 0);
    assert_eq!(store.get_recipes(None), Vec::<Recipe>::new());
    assert_eq!(store.get_shopping_list(), Vec::<String>::new());
    assert!(!store.has_recipe(1));
}

#[test]
fn recipes_are_numbered_from_one() {
    let mut store = RecipeStore::new();
    assert_eq!(store.add_recipe(&recipe("a", "http://a", None)), Ok(1));
    assert_eq!(store.add_recipe(&recipe("b", "http://b", None)), Ok(2));
    assert_eq!(store.add_recipe(&recipe("c", "http://c", None)), Ok(3));
    assert_eq!(store.recipe_count(), 3);
    assert!(store.has_recipe(2));
    assert!(!store.has_recipe(4));
}

#[test]
fn a_saved_recipe_carries_its_identifier_and_its_fields() {
    let mut store = RecipeStore::new();
    let given = Recipe { id: Some(77), ..recipe("Soup", "http://s", Some("soup")) };
    assert_eq!(store.add_recipe(&given), Ok(1));
    let listed = store.get_recipes(None);
    assert_eq!(listed, vec![Recipe { id: Some(1), ..recipe("Soup", "http://s", Some("soup")) }]);
}

#[test]
fn the_identifier_after_the_last_is_given_again_once_the_last_is_deleted() {
    let mut store = RecipeStore::new();
    store.add_recipe(&recipe("a", "http://a", None)).unwrap();
    store.add_recipe(&recipe("b", "http://b", None)).unwrap();
    store.delete_recipe(1).unwrap();
    assert_eq!(store.add_recipe(&recipe("c", "http://c", None)), Ok(3));
    store.delete_recipe(3).unwrap();
    assert_eq!(store.add_recipe(&recipe("d", "http://d", None)), Ok(3));
}

#[test]
fn a_recipe_without_title_or_link_is_invalid() {
    let mut store = RecipeStore::new();
    assert_eq!(store.add_recipe(&recipe("", "http://a", None)), Err(StoreError::Validation));
    assert_eq!(store.add_recipe(&recipe("a", "", None)), Err(StoreError::Validation));
    assert_eq!(store.check_add_recipe(&recipe("", "", None)), Err(StoreError::Validation));
    assert_eq!(store.recipe_count(), 0);
    assert_eq!(store.check_add_recipe(&recipe("a", "b", None)), Ok(1));
}

#[test]
fn recipes_with_the_same_link_are_both_saved() {
    let mut store = RecipeStore::new();
    assert_eq!(store.add_recipe(&recipe("a", "http://same", None)), Ok(1));
    assert_eq!(store.add_recipe(&recipe("a", "http://same", None)), Ok(2));
    assert_eq!(store.recipe_count(), 2);
}

#[test]
fn the_last_identifier_cannot_be_exceeded() {
    let full = RecipeStore::from_rows(vec![saved(i64::MAX, "last")], vec![]);
    let mut store = full.unwrap();
    assert_eq!(store.add_recipe(&recipe("a", "http://a", None)), Err(StoreError::Persistence));
    assert_eq!(store.recipe_count(), 1);
    let rows = vec![row(i64::MAX - 1, "x", None, false)];
    let mut store = RecipeStore::from_rows(vec![], rows).unwrap();
    assert_eq!(store.add_ingredients(0, &names(&["a", "b"])), Err(StoreError::Persistence));
    assert_eq!(store.ingredient_count(), 1);
    assert_eq!(store.add_ingredients(0, &names(&["a"])), Ok(()));
    assert_eq!(store.add_ingredients(0, &names(&["b"])), Err(StoreError::Persistence));
    assert_eq!(store.add_ingredients(0, &[]), Ok(()));
}

#[test]
fn deleting_a_recipe_that_is_not_stored_is_not_found() {
    let mut store = RecipeStore::new();
    assert_eq!(store.delete_recipe(1), Err(StoreError::NotFound));
    store.add_recipe(&recipe("a", "http://a", None)).unwrap();
    assert_eq!(store.delete_recipe(2), Err(StoreError::NotFound));
    assert_eq!(store.delete_recipe(0), Err(StoreError::NotFound));
    assert_eq!(store.recipe_count(), 1);
    assert_eq!(store.delete_recipe(1), Ok(()));
    assert_eq!(store.delete_recipe(1), Err(StoreError::NotFound));
}

#[test]
fn deleting_a_recipe_deletes_its_ingredients_and_no_others() {
    let mut store = RecipeStore::new();
    store.add_recipe(&recipe("a", "http://a", None)).unwrap();
    store.add_recipe(&recipe("b", "http://b", None)).unwrap();
    store.add_ingredients(1, &names(&["salt", "rice"])).unwrap();
    store.add_ingredients(2, &names(&["salt", "beans"])).unwrap();
    store.add_ingredients(0, &names(&["soap"])).unwrap();
    assert_eq!(store.delete_recipe(1), Ok(()));
    assert_eq!(store.get_recipe_ingredients(1), Vec::<String>::new());
    assert_eq!(store.get_recipe_ingredients(2), names(&["salt", "beans"]));
    assert_eq!(store.get_shopping_list(), names(&["salt", "beans", "soap"]));
    assert_eq!(store.ingredient_count(), 3);
    assert_eq!(store.get_recipes(None).len(), 1);
}

#[test]
fn a_category_is_matched_letter_for_letter() {
    let mut store = RecipeStore::new();
    store.add_recipe(&recipe("one", "http://1", Some("soup"))).unwrap();
    store.add_recipe(&recipe("two", "http://2", Some("Soup"))).unwrap();
    store.add_recipe(&recipe("three", "http://3", None)).unwrap();
    store.add_recipe(&recipe("four", "http://4", Some("soup "))).unwrap();
    store.add_recipe(&recipe("five", "http://5", Some("soup"))).unwrap();
    let found = store.get_recipes(Some("soup"));
    let titles: Vec<&str> = found.iter().map(|r| r.title.as_str()).collect();
    assert_eq!(titles, vec!["one", "five"]);
    assert_eq!(store.get_recipes(Some("sou")).len(), 0);
    assert_eq!(store.get_recipes(Some("")).len(), 0);
    assert_eq!(store.get_recipes(Some("Soup")).len(), 1);
    assert_eq!(store.get_recipes(None).len(), 5);
}

#[test]
fn recipes_are_listed_in_the_order_in_which_they_were_saved() {
    let mut store = RecipeStore::new();
    store.add_recipe(&recipe("z", "http://z", None)).unwrap();
    store.add_recipe(&recipe("a", "http://a", None)).unwrap();
    store.add_recipe(&recipe("m", "http://m", None)).unwrap();
    let first: Vec<String> = store.get_recipes(None).into_iter().map(|r| r.title).collect();
    let second: Vec<String> = store.get_recipes(None).into_iter().map(|r| r.title).collect();
    assert_eq!(first, names(&["z", "a", "m"]));
    assert_eq!(first, second);
}

#[test]
fn the_ingredients_of_a_recipe_without_any_or_not_stored_are_none() {
    let mut store = RecipeStore::new();
    store.add_recipe(&recipe("a", "http://a", None)).unwrap();
    assert_eq!(store.get_recipe_ingredients(1), Vec::<String>::new());
    assert_eq!(store.get_recipe_ingredients(99), Vec::<String>::new());
    store.add_ingredients(0, &names(&["soap"])).unwrap();
    assert_eq!(store.get_recipe_ingredients(0), Vec::<String>::new());
}

#[test]
fn ingredients_need_a_stored_recipe_unless_they_are_made_by_hand() {
    let mut store = RecipeStore::new();
    assert_eq!(store.add_ingredients(5, &names(&["salt"])), Err(StoreError::Persistence));
    assert_eq!(store.check_add_ingredients(5, &names(&["salt"])), Err(StoreError::Persistence));
    assert_eq!(store.ingredient_count(), 0);
    assert_eq!(store.add_ingredients(0, &names(&["salt"])), Ok(()));
    assert_eq!(store.check_add_ingredients(0, &names(&["pepper"])), Ok(2));
    assert_eq!(store.get_shopping_list(), names(&["salt"]));
}

#[test]
fn adding_no_ingredients_changes_nothing_and_is_never_refused() {
    let mut store = RecipeStore::new();
    store.add_recipe(&recipe("a", "http://a", None)).unwrap();
    store.add_ingredients(1, &names(&["salt"])).unwrap();
    assert_eq!(store.add_ingredients(1, &[]), Ok(()));
    assert_eq!(store.add_ingredients(0, &[]), Ok(()));
    assert_eq!(store.add_ingredients(42, &[]), Ok(()));
    assert_eq!(store.ingredient_count(), 1);
    assert_eq!(store.recipe_count(), 1);
    store.mark_and_remove_ingredients(&[]);
    assert_eq!(store.ingredient_count(), 1);
    assert_eq!(store.get_shopping_list(), names(&["salt"]));
}

#[test]
fn empty_and_repeated_names_are_rows_like_any_other() {
    let mut store = RecipeStore::new();
    store.add_ingredients(0, &names(&["", "salt", "salt", " salt", "Salt"])).unwrap();
    assert_eq!(store.get_shopping_list(), names(&["", "salt", "salt", " salt", "Salt"]));
    assert_eq!(store.ingredient_count(), 5);
}

#[test]
fn the_shopping_list_is_the_needed_ingredients() {
    let rows = vec![
        row(1, "salt", None, false),
        row(2, "rice", None, true),
        row(3, "beans", None, false),
        row(4, "rice", None, false),
    ];
    let store = RecipeStore::from_rows(vec![], rows).unwrap();
    assert_eq!(store.get_shopping_list(), names(&["salt", "beans", "rice"]));
}

#[test]
fn marking_reaches_every_ingredient_of_the_name_and_no_other() {
    let mut store = RecipeStore::new();
    store.add_recipe(&recipe("a", "http://a", None)).unwrap();
    store.add_ingredients(1, &names(&["salt", "rice"])).unwrap();
    store.add_ingredients(0, &names(&["salt", "Salt"])).unwrap();
    store.set_have("salt", true);
    assert_eq!(store.get_shopping_list(), names(&["rice", "Salt"]));
    assert_eq!(store.ingredient_count(), 4);
    assert_eq!(store.get_recipe_ingredients(1), names(&["salt", "rice"]));
    store.set_have("nothing of that name", true);
    assert_eq!(store.get_shopping_list(), names(&["rice", "Salt"]));
    store.set_have("salt", false);
    assert_eq!(store.get_shopping_list(), names(&["salt", "rice", "salt", "Salt"]));
}

#[test]
fn removing_by_name_takes_every_row_of_the_names() {
    let mut store = RecipeStore::new();
    store.add_recipe(&recipe("a", "http://a", None)).unwrap();
    store.add_ingredients(1, &names(&["salt", "rice", "beans"])).unwrap();
    store.add_ingredients(0, &names(&["salt", "soap"])).unwrap();
    store.set_have("beans", true);
    store.mark_and_remove_ingredients(&names(&["salt", "beans", "unknown", "salt"]));
    assert_eq!(store.get_shopping_list(), names(&["rice", "soap"]));
    assert_eq!(store.ingredient_count(), 2);
    assert_eq!(store.get_recipe_ingredients(1), names(&["rice"]));
}

#[test]
fn new_ingredients_are_numbered_after_the_last() {
    let mut store = RecipeStore::new();
    store.add_ingredients(0, &names(&["a", "b", "c"])).unwrap();
    store.mark_and_remove_ingredients(&names(&["b"]));
    assert_eq!(store.check_add_ingredients(0, &names(&["d"])), Ok(4));
    store.mark_and_remove_ingredients(&names(&["c"]));
    assert_eq!(store.check_add_ingredients(0, &names(&["d"])), Ok(2));
}

#[test]
fn rows_that_fit_make_a_store() {
    let recipes = vec![saved(2, "a"), saved(5, "b")];
    let rows = vec![row(1, "salt", Some(5), false), row(3, "rice", None, true)];
    let store = RecipeStore::from_rows(recipes, rows).unwrap();
    assert_eq!(store.recipe_count(), 2);
    assert_eq!(store.get_recipe_ingredients(5), names(&["salt"]));
    assert_eq!(store.get_shopping_list(), names(&["salt"]));
    assert_eq!(store.check_add_recipe(&recipe("c", "http://c", None)), Ok(6));
}

#[test]
fn rows_that_break_the_invariant_are_refused() {
    let refused = |recipes: Vec<Recipe>, rows: Vec<Ingredient>| {
        matches!(RecipeStore::from_rows(recipes, rows), Err(StoreError::Persistence))
    };
    assert!(refused(vec![recipe("no identifier", "http://x", None)], vec![]));
    assert!(refused(vec![saved(0, "a")], vec![]));
    assert!(refused(vec![saved(-3, "a")], vec![]));
    assert!(refused(vec![saved(1, "")], vec![]));
    assert!(refused(vec![Recipe { link: String::new(), ..saved(1, "a") }], vec![]));
    assert!(refused(vec![saved(2, "a"), saved(1, "b")], vec![]));
    assert!(refused(vec![saved(1, "a"), saved(1, "b")], vec![]));
    assert!(refused(vec![], vec![row(0, "x", None, false)]));
    assert!(refused(vec![], vec![row(2, "x", None, false), row(2, "y", None, false)]));
    assert!(refused(vec![], vec![row(2, "x", None, false), row(1, "y", None, false)]));
    assert!(refused(vec![saved(1, "a")], vec![row(1, "x", Some(2), false)]));
    assert!(refused(vec![saved(1, "a")], vec![row(1, "x", Some(0), false)]));
    assert!(!refused(vec![saved(1, "a")], vec![row(1, "x", Some(1), false)]));
}

#[test]
fn a_name_is_found_among_names_only_if_it_is_one_of_them() {
    let list = names(&["salt", "rice"]);
    assert!(is_named(&list, &"rice".to_string()));
    assert!(!is_named(&list, &"Rice".to_string()));
    assert!(!is_named(&list, &"".to_string()));
    assert!(!is_named(&[], &"salt".to_string()));
}

#[test]
fn copies_keep_every_field() {
    let first = Recipe { id: Some(4), ..recipe("a", "http://a", Some("c")) };
    assert_eq!(first.duplicate(), first);
    assert_eq!(first.with_id(9), Recipe { id: Some(9), ..first.clone() });
    let ingredient = row(3, "salt", Some(4), true);
    assert_eq!(ingredient.duplicate(), ingredient);
}

#[test]
fn errors_describe_themselves() {
    assert_eq!(StoreError::Validation.message(), "invalid input");
    assert_eq!(StoreError::NotFound.message(), "no such row");
    assert_eq!(StoreError::Persistence.message(), "storage failure");
}
