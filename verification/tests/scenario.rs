use recipe_manager::database::RecipeDatabase;
use recipe_manager::recipe::{Recipe, StoreError};

fn lentil_soup() -> Recipe {
    Recipe {
        id: None,
        title: "Lentil Soup".to_string(),
        link: "http://x/1".to_string(),
        category: Some("soup".to_string()),
        steps: None,
    }
}

#[test]
fn lentil_soup_from_saving_to_deleting() {
    let mut db = RecipeDatabase::open_in_memory().unwrap();
    let id = db.add_recipe(&lentil_soup()).unwrap();
    assert_eq!(id, 1);
    db.add_ingredients(1, &["lentils".to_string(), "onion".to_string()]).unwrap();
    let mut list = db.get_shopping_list().unwrap();
    list.sort();
    assert_eq!(list, vec!["lentils".to_string(), "onion".to_string()]);
    db.mark_and_remove_ingredients(&["lentils".to_string()]).unwrap();
    assert_eq!(db.get_shopping_list().unwrap(), vec!["onion".to_string()]);
    db.delete_recipe(1).unwrap();
    assert_eq!(db.get_recipe_ingredients(1).unwrap(), Vec::<String>::new());
    assert_eq!(db.delete_recipe(1), Err(StoreError::NotFound));
}
