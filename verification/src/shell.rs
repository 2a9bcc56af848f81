//! What the interactive shell decides between its prompts: which action a
//! menu entry stands for, what a line of input means, and what is put
//! together from the answers. The prompts themselves are the caller's.

use vstd::prelude::*;
use crate::htmlscraper::{RecipeDetails, SearchResult};
use crate::model::lemma_filter_step;
use crate::recipe::{Recipe, RecipeData};
use crate::text::{join, joined, pieces, split, trim, trimmed};

verus! {

/// What the main menu offers, in the order of its entries.
#[derive(Clone, Copy, Debug, PartialEq, Eq, Structural)]
pub enum MenuAction {
    SearchRecipes,
    ViewSavedRecipes,
    DeleteSavedRecipes,
    ViewShoppingList,
    AddToShoppingList,
    MarkIngredients,
    Exit,
}

/// How ingredients can be put on the shopping list, in the order of the
/// entries of that menu.
#[derive(Clone, Copy, Debug, PartialEq, Eq, Structural)]
pub enum AddAction {
    FromSavedRecipes,
    Manually,
    Cancel,
}

/// The action that the entry `selection` of the main menu stands for, if
/// the menu has such an entry.
pub fn menu_action(selection: usize) -> (action: Option<MenuAction>)
    ensures
        action == if selection == 0 {
            Some(MenuAction::SearchRecipes)
        } else if selection == 1 {
            Some(MenuAction::ViewSavedRecipes)
        } else if selection == 2 {
            Some(MenuAction::DeleteSavedRecipes)
        } else if selection == 3 {
            Some(MenuAction::ViewShoppingList)
        } else if selection == 4 {
            Some(MenuAction::AddToShoppingList)
        } else if selection == 5 {
            Some(MenuAction::MarkIngredients)
        } else if selection == 6 {
            Some(MenuAction::Exit)
        } else {
            None
        },
{
    match selection {
        0 => Some(MenuAction::SearchRecipes),
        1 => Some(MenuAction::ViewSavedRecipes),
        2 => Some(MenuAction::DeleteSavedRecipes),
        3 => Some(MenuAction::ViewShoppingList),
        4 => Some(MenuAction::AddToShoppingList),
        5 => Some(MenuAction::MarkIngredients),
        6 => Some(MenuAction::Exit),
        _ => None,
    }
}

/// The label of an entry of the main menu.
pub fn menu_label(action: MenuAction) -> (label: &'static str)
    ensures
        label@ == match action {
            MenuAction::SearchRecipes => "Search Recipes"@,
            MenuAction::ViewSavedRecipes => "View Saved Recipes"@,
            MenuAction::DeleteSavedRecipes => "Delete Saved Recipes"@,
            MenuAction::ViewShoppingList => "View Shopping List"@,
            MenuAction::AddToShoppingList => "Add to Shopping List"@,
            MenuAction::MarkIngredients => "Mark Ingredients"@,
            MenuAction::Exit => "Exit"@,
        },
{
    match action {
        MenuAction::SearchRecipes => "Search Recipes",
        MenuAction::ViewSavedRecipes => "View Saved Recipes",
        MenuAction::DeleteSavedRecipes => "Delete Saved Recipes",
        MenuAction::ViewShoppingList => "View Shopping List",
        MenuAction::AddToShoppingList => "Add to Shopping List",
        MenuAction::MarkIngredients => "Mark Ingredients",
        MenuAction::Exit => "Exit",
    }
}

/// The way of adding that the entry `selection` stands for, if the menu has
/// such an entry.
pub fn add_action(selection: usize) -> (action: Option<AddAction>)
    ensures
        action == if selection == 0 {
            Some(AddAction::FromSavedRecipes)
        } else if selection == 1 {
            Some(AddAction::Manually)
        } else if selection == 2 {
            Some(AddAction::Cancel)
        } else {
            None
        },
{
    match selection {
        0 => Some(AddAction::FromSavedRecipes),
        1 => Some(AddAction::Manually),
        2 => Some(AddAction::Cancel),
        _ => None,
    }
}

/// The label of an entry of the menu for adding.
pub fn add_label(action: AddAction) -> (label: &'static str)
    ensures
        label@ == match action {
            AddAction::FromSavedRecipes => "Add from Saved Recipes"@,
            AddAction::Manually => "Add Manually"@,
            AddAction::Cancel => "Cancel"@,
        },
{
    match action {
        AddAction::FromSavedRecipes => "Add from Saved Recipes",
        AddAction::Manually => "Add Manually",
        AddAction::Cancel => "Cancel",
    }
}

/// Trims a piece of input.
pub open spec fn trimmer() -> spec_fn(Seq<char>) -> Seq<char> {
    |p: Seq<char>| trimmed(p)
}

/// Selects the texts that are not empty.
pub open spec fn filled() -> spec_fn(Seq<char>) -> bool {
    |p: Seq<char>| p.len() > 0
}

/// The names that a line of input lists: its pieces between commas, each
/// without the white space around it, but for the pieces that are empty then.
pub open spec fn listed_names(input: Seq<char>) -> Seq<Seq<char>> {
    pieces(input, ',').map_values(trimmer()).filter(filled())
}

/// The ingredient names that a line of input lists, separated by commas.
pub fn parse_ingredient_names(input: &str) -> (names: Vec<String>)
    ensures
        names.deep_view() == listed_names(input@),
{
    let parts = split(input, ',');
    let ghost all = parts.deep_view().map_values(trimmer());
    let mut names: Vec<String> = Vec::new();
    assert(all.take(0) =~= Seq::empty());
    assert(names.deep_view() =~= all.take(0).filter(filled()));
    let mut i: usize = 0;
    while i < parts.len()
        invariant
            i <= parts.len(),
            all == parts.deep_view().map_values(trimmer()),
            names.deep_view() == all.take(i as int).filter(filled()),
        decreases parts.len() - i,
    {
        proof {
            lemma_filter_step(all, filled(), i as int);
        }
        let ghost before = names.deep_view();
        let name = trim(parts[i].as_str());
        if !name.as_str().is_empty() {
            names.push(name);
            assert(names.deep_view() =~= before.push(all[i as int]));
        }
        i += 1;
    }
    assert(all.take(all.len() as int) =~= all);
    names
}

/// The category that a line of input names: none where the line is empty.
pub fn category_from(input: String) -> (category: Option<String>)
    ensures
        category.deep_view() == if input@.len() == 0 {
            None
        } else {
            Some(input@)
        },
{
    if input.as_str().is_empty() {
        None
    } else {
        Some(input)
    }
}

/// The steps of a recipe as one text, one step per line; none where the
/// page listed no steps.
pub open spec fn steps_text(steps: Seq<Seq<char>>) -> Option<Seq<char>> {
    if steps.len() == 0 {
        None
    } else {
        Some(joined(steps, seq!['\n']))
    }
}

/// The recipe to save for a search result: its title and link, the
/// category that the user named, and the steps of its page. It has no
/// identifier yet.
pub fn new_recipe(found: &SearchResult, details: &RecipeDetails, category: String) -> (recipe:
    Recipe)
    ensures
        recipe@ == (RecipeData {
            id: None,
            title: found.title@,
            link: found.link@,
            category: if category@.len() == 0 {
                None
            } else {
                Some(category@)
            },
            steps: steps_text(details.steps.deep_view()),
        }),
{
    let steps = if details.steps.len() == 0 {
        None
    } else {
        proof {
            reveal_strlit("\n");
            assert("\n"@ =~= seq!['\n']);
        }
        Some(join(details.steps.as_slice(), "\n"))
    };
    Recipe {
        id: None,
        title: found.title.clone(),
        link: found.link.clone(),
        category: category_from(category),
        steps,
    }
}

/// The steps of a saved recipe, one per line of `steps`.
pub fn step_lines(steps: &str) -> (lines: Vec<String>)
    ensures
        lines.deep_view() == pieces(steps@, '\n'),
{
    split(steps, '\n')
}

/// The titles of `recipes`, in their order.
pub fn recipe_titles(recipes: &[Recipe]) -> (titles: Vec<String>)
    ensures
        titles.deep_view() == recipes.deep_view().map_values(|r: RecipeData| r.title),
{
    let mut titles: Vec<String> = Vec::new();
    let mut i: usize = 0;
    while i < recipes.len()
        invariant
            i <= recipes.len(),
            titles.len() == i,
            forall|k: int| 0 <= k < i ==> (#[trigger] titles[k])@ == recipes[k].title@,
        decreases recipes.len() - i,
    {
        titles.push(recipes[i].title.clone());
        i += 1;
    }
    assert(titles.deep_view() =~= recipes.deep_view().map_values(|r: RecipeData| r.title));
    titles
}

/// The titles of `results`, in their order.
pub fn result_titles(results: &[SearchResult]) -> (titles: Vec<String>)
    ensures
        titles.len() == results.len(),
        forall|k: int| 0 <= k < results.len() ==> (#[trigger] titles[k])@ == results[k].title@,
{
    let mut titles: Vec<String> = Vec::new();
    let mut i: usize = 0;
    while i < results.len()
        invariant
            i <= results.len(),
            titles.len() == i,
            forall|k: int| 0 <= k < i ==> (#[trigger] titles[k])@ == results[k].title@,
        decreases results.len() - i,
    {
        titles.push(results[i].title.clone());
        i += 1;
    }
    titles
}

/// Whether every one of `indices` points into a list of `len` items.
pub fn all_within(indices: &[usize], len: usize) -> (within: bool)
    ensures
        within == forall|k: int| 0 <= k < indices.len() ==> (#[trigger] indices[k]) < len,
{
    let mut i: usize = 0;
    while i < indices.len()
        invariant
            i <= indices.len(),
            forall|k: int| 0 <= k < i ==> (#[trigger] indices[k]) < len,
        decreases indices.len() - i,
    {
        if indices[i] >= len {
            return false;
        }
        i += 1;
    }
    true
}

/// The items that the user chose: for each of `indices`, in their order,
/// the item of `items` at that place.
pub fn pick(items: &[String], indices: &[usize]) -> (chosen: Vec<String>)
    requires
        forall|k: int| 0 <= k < indices.len() ==> (#[trigger] indices[k]) < items.len(),
    ensures
        chosen.len() == indices.len(),
        forall|k: int|
            0 <= k < indices.len() ==> (#[trigger] chosen[k])@ == items[indices[k] as int]@,
{
    let mut chosen: Vec<String> = Vec::new();
    let mut i: usize = 0;
    while i < indices.len()
        invariant
            i <= indices.len(),
            chosen.len() == i,
            forall|k: int| 0 <= k < indices.len() ==> (#[trigger] indices[k]) < items.len(),
            forall|k: int| 0 <= k < i ==> (#[trigger] chosen[k])@ == items[indices[k] as int]@,
        decreases indices.len() - i,
    {
        chosen.push(items[indices[i]].clone());
        i += 1;
    }
    chosen
}

} // verus!
