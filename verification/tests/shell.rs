use recipe_manager::htmlscraper::{RecipeDetails, SearchResult};
use recipe_manager::recipe::Recipe;
use recipe_manager::shell::{
    add_action, add_label, all_within, category_from, menu_action, menu_label, new_recipe,
    parse_ingredient_names, pick, recipe_titles, result_titles, step_lines, AddAction, MenuAction,
};
use recipe_manager::text::{blank, characters, join, split, trim};

fn names(list: &[&str]) -> Vec<String> {
    list.iter().map(|n| n.to_string()).collect()
}

#[test]
fn white_space_is_what_unicode_says() {
    for c in [' ', '\t', '\n', '\r', '\u{0b}', '\u{0c}', '\u{85}', '\u{a0}', '\u{1680}', '\u{2000}', '\u{200a}', '\u{2028}', '\u{2029}', '\u{202f}', '\u{205f}', '\u{3000}'] {
        assert!(blank(c));
    }
    for c in ['a', '0', ',', '\u{08}', '\u{0e}', '\u{200b}', '\u{1f}', '\u{feff}'] {
        assert!(!blank(c));
    }
    let mut n: u32 = 0;
    while n < 0x11000 {
        if let Some(c) = char::from_u32(n) {
            assert_eq!(blank(c), c.is_whitespace());
        }
        n += 1;
    }
}

#[test]
fn text_is_cut_at_every_separator() {
    assert_eq!(split("a,b,c", ','), names(&["a", "b", "c"]));
    assert_eq!(split("", ','), names(&[""]));
    assert_eq!(split(",", ','), names(&["", ""]));
    assert_eq!(split("a,,b,", ','), names(&["a", "", "b", ""]));
    assert_eq!(split("no separator", ','), names(&["no separator"]));
    assert_eq!(split("çay,süt", ','), names(&["çay", "süt"]));
    for text in ["", "a", ",a,", "a\nb", ",,,", "x,y"] {
        let expected: Vec<String> = text.split(',').map(|p| p.to_string()).collect();
        assert_eq!(split(text, ','), expected);
    }
}

#[test]
fn trimming_takes_the_white_space_around() {
    assert_eq!(trim("  a b  "), "a b");
    assert_eq!(trim("a"), "a");
    assert_eq!(trim(""), "");
    assert_eq!(trim(" \t\n"), "");
    assert_eq!(trim("\u{3000}süt\u{a0}"), "süt");
    assert_eq!(trim("a  "), "a");
    assert_eq!(trim("  a"), "a");
}

#[test]
fn characters_are_those_of_the_text() {
    assert_eq!(characters("aç1"), vec!['a', 'ç', '1']);
    assert_eq!(characters(""), Vec::<char>::new());
}

#[test]
fn lines_are_joined_with_the_separator_between_them() {
    assert_eq!(join(&names(&["a", "b", "c"]), "\n"), "a\nb\nc");
    assert_eq!(join(&names(&["a"]), "\n"), "a");
    assert_eq!(join(&[], "\n"), "");
    assert_eq!(join(&names(&["", ""]), ", "), ", ");
}

#[test]
fn a_line_of_input_lists_names_between_commas() {
    assert_eq!(parse_ingredient_names("salt, rice ,beans"), names(&["salt", "rice", "beans"]));
    assert_eq!(parse_ingredient_names(""), Vec::<String>::new());
    assert_eq!(parse_ingredient_names(" , ,, "), Vec::<String>::new());
    assert_eq!(parse_ingredient_names("olive oil"), names(&["olive oil"]));
    assert_eq!(parse_ingredient_names(",salt,,salt,"), names(&["salt", "salt"]));
}

#[test]
fn menu_entries_stand_for_actions() {
    assert_eq!(menu_action(0), Some(MenuAction::SearchRecipes));
    assert_eq!(menu_action(1), Some(MenuAction::ViewSavedRecipes));
    assert_eq!(menu_action(2), Some(MenuAction::DeleteSavedRecipes));
    assert_eq!(menu_action(3), Some(MenuAction::ViewShoppingList));
    assert_eq!(menu_action(4), Some(MenuAction::AddToShoppingList));
    assert_eq!(menu_action(5), Some(MenuAction::MarkIngredients));
    assert_eq!(menu_action(6), Some(MenuAction::Exit));
    assert_eq!(menu_action(7), None);
    assert_eq!(menu_label(MenuAction::SearchRecipes), "Search Recipes");
    assert_eq!(menu_label(MenuAction::Exit), "Exit");
    assert_eq!(add_action(0), Some(AddAction::FromSavedRecipes));
    assert_eq!(add_action(1), Some(AddAction::Manually));
    assert_eq!(add_action(2), Some(AddAction::Cancel));
    assert_eq!(add_action(3), None);
    assert_eq!(add_label(AddAction::Manually), "Add Manually");
}

#[test]
fn an_empty_category_is_no_category() {
    assert_eq!(category_from(String::new()), None);
    assert_eq!(category_from("soup".to_string()), Some("soup".to_string()));
    assert_eq!(category_from(" ".to_string()), Some(" ".to_string()));
}

#[test]
fn a_recipe_is_put_together_from_the_result_and_its_page() {
    let found = SearchResult { title: "Soup".to_string(), link: "http://s".to_string() };
    let details = RecipeDetails { materials: names(&["salt"]), steps: names(&["chop", "boil"]) };
    assert_eq!(
        new_recipe(&found, &details, "soup".to_string()),
        Recipe {
            id: None,
            title: "Soup".to_string(),
            link: "http://s".to_string(),
            category: Some("soup".to_string()),
            steps: Some("chop\nboil".to_string()),
        }
    );
    let bare = RecipeDetails { materials: vec![], steps: vec![] };
    let recipe = new_recipe(&found, &bare, String::new());
    assert_eq!(recipe.category, None);
    assert_eq!(recipe.steps, None);
}

#[test]
fn steps_are_read_back_line_by_line() {
    assert_eq!(step_lines("chop\nboil"), names(&["chop", "boil"]));
    assert_eq!(step_lines("one"), names(&["one"]));
    assert_eq!(step_lines(""), names(&[""]));
}

#[test]
fn titles_and_choices_follow_their_lists() {
    let recipes = vec![
        Recipe { id: Some(1), title: "a".to_string(), link: "l".to_string(), category: None, steps: None },
        Recipe { id: Some(2), title: "b".to_string(), link: "l".to_string(), category: None, steps: None },
    ];
    assert_eq!(recipe_titles(&recipes), names(&["a", "b"]));
    let results = vec![SearchResult { title: "x".to_string(), link: "l".to_string() }];
    assert_eq!(result_titles(&results), names(&["x"]));
    let items = names(&["a", "b", "c"]);
    assert_eq!(pick(&items, &[2, 0, 2]), names(&["c", "a", "c"]));
    assert_eq!(pick(&items, &[]), Vec::<String>::new());
    assert!(all_within(&[0, 2], 3));
    assert!(!all_within(&[0, 3], 3));
    assert!(all_within(&[], 0));
}
