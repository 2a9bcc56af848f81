use recipe_manager::recipe::Recipe;
use recipe_manager::sql::{
    bind_names, bind_text, create_ingredients_table, create_recipes_table, delete_named,
    delete_recipe, enable_foreign_keys, insert_ingredient, insert_ingredients, insert_recipe,
    mark_named, placeholders, plain, remove_named, schema, select_ingredients, select_recipes,
    set_have, SqlValue,
};

fn text(s: &str) -> SqlValue {
    SqlValue::Text(s.to_string())
}

#[test]
fn placeholders_are_separated_by_commas() {
    assert_eq!(placeholders(0), "");
    assert_eq!(placeholders(1), "?");
    assert_eq!(placeholders(2), "?, ?");
    assert_eq!(placeholders(3), "?, ?, ?");
}

#[test]
fn a_plain_statement_binds_nothing() {
    let s = plain("PRAGMA foreign_keys = ON");
    assert_eq!(s.sql, "PRAGMA foreign_keys = ON");
    assert_eq!(s.params, vec![]);
}

#[test]
fn a_recipe_is_inserted_with_its_five_columns() {
    let recipe = Recipe {
        id: None,
        title: "Soup".to_string(),
        link: "http://s".to_string(),
        category: None,
        steps: Some("boil".to_string()),
    };
    let s = insert_recipe(4, &recipe);
    assert_eq!(s.sql, "INSERT INTO recipes (id, title, link, category, steps) VALUES (?, ?, ?, ?, ?)");
    assert_eq!(
        s.params,
        vec![SqlValue::Integer(4), text("Soup"), text("http://s"), SqlValue::Null, text("boil")]
    );
}

#[test]
fn a_recipe_is_deleted_by_its_identifier() {
    let s = delete_recipe(9);
    assert_eq!(s.sql, "DELETE FROM recipes WHERE id = ?");
    assert_eq!(s.params, vec![SqlValue::Integer(9)]);
}

#[test]
fn an_ingredient_is_inserted_as_needed() {
    let s = insert_ingredient(2, &"salt".to_string(), Some(7));
    assert_eq!(s.sql, "INSERT INTO ingredients (id, name, recipe_id, have) VALUES (?, ?, ?, 0)");
    assert_eq!(s.params, vec![SqlValue::Integer(2), text("salt"), SqlValue::Integer(7)]);
    let by_hand = insert_ingredient(3, &"soap".to_string(), None);
    assert_eq!(by_hand.params, vec![SqlValue::Integer(3), text("soap"), SqlValue::Null]);
}

#[test]
fn a_flag_is_bound_as_one_or_zero() {
    let s = set_have("salt", true);
    assert_eq!(s.sql, "UPDATE ingredients SET have = ? WHERE name = ?");
    assert_eq!(s.params, vec![SqlValue::Integer(1), text("salt")]);
    assert_eq!(set_have("salt", false).params, vec![SqlValue::Integer(0), text("salt")]);
}

#[test]
fn names_are_bound_one_per_placeholder() {
    let names = vec!["a'b".to_string(), "c".to_string()];
    let mark = mark_named(&names);
    assert_eq!(mark.sql, "UPDATE ingredients SET have = 1 WHERE name IN (?, ?)");
    assert_eq!(mark.params, vec![text("a'b"), text("c")]);
    let delete = delete_named(&names);
    assert_eq!(delete.sql, "DELETE FROM ingredients WHERE name IN (?, ?)");
    assert_eq!(delete.params, vec![text("a'b"), text("c")]);
    assert_eq!(delete_named(&[]).sql, "DELETE FROM ingredients WHERE name IN ()");
    assert_eq!(bind_names(&names), vec![text("a'b"), text("c")]);
}

#[test]
fn an_absent_text_is_bound_as_null() {
    assert_eq!(bind_text(&None), SqlValue::Null);
    assert_eq!(bind_text(&Some(String::new())), text(""));
    assert_eq!(bind_text(&Some("x".to_string())), text("x"));
}

#[test]
fn the_tables_are_created_only_where_they_are_missing() {
    assert_eq!(enable_foreign_keys().sql, "PRAGMA foreign_keys = ON");
    assert_eq!(
        create_recipes_table().sql,
        "CREATE TABLE IF NOT EXISTS recipes (id INTEGER PRIMARY KEY, title TEXT NOT NULL, link TEXT NOT NULL, category TEXT, steps TEXT)"
    );
    assert_eq!(
        create_ingredients_table().sql,
        "CREATE TABLE IF NOT EXISTS ingredients (id INTEGER PRIMARY KEY, name TEXT NOT NULL, recipe_id INTEGER, have INTEGER DEFAULT 0, FOREIGN KEY(recipe_id) REFERENCES recipes(id) ON DELETE CASCADE)"
    );
    assert_eq!(create_recipes_table().params, vec![]);
    assert_eq!(select_recipes(), "SELECT id, title, link, category, steps FROM recipes ORDER BY id");
    assert_eq!(select_ingredients(), "SELECT id, name, recipe_id, have FROM ingredients ORDER BY id");
}

#[test]
fn the_schema_is_prepared_in_three_statements() {
    let plan = schema();
    assert_eq!(plan, vec![enable_foreign_keys(), create_recipes_table(), create_ingredients_table()]);
}

#[test]
fn ingredients_are_inserted_one_statement_per_name() {
    let names = vec!["salt".to_string(), "rice".to_string()];
    let plan = insert_ingredients(5, &names, Some(2));
    assert_eq!(
        plan,
        vec![
            insert_ingredient(5, &"salt".to_string(), Some(2)),
            insert_ingredient(6, &"rice".to_string(), Some(2)),
        ]
    );
    assert_eq!(plan[1].params, vec![SqlValue::Integer(6), text("rice"), SqlValue::Integer(2)]);
    assert_eq!(insert_ingredients(1, &[], None), vec![]);
    let last = insert_ingredients(i64::MAX, &names[..1], None);
    assert_eq!(last[0].params[0], SqlValue::Integer(i64::MAX));
}

#[test]
fn names_are_marked_before_they_are_deleted() {
    let names = vec!["salt".to_string()];
    assert_eq!(remove_named(&names), vec![mark_named(&names), delete_named(&names)]);
}
