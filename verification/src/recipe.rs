//! The rows of the store and the errors its operations report.

use vstd::prelude::*;

verus! {

/// Why a store operation did not take place.
#[derive(Clone, Copy, Debug, PartialEq, Eq, Structural)]
pub enum StoreError {
    /// The input is malformed; storage was not touched.
    Validation,
    /// The row that the operation needs does not exist.
    NotFound,
    /// Storage refused or failed the operation; nothing was changed.
    Persistence,
}

impl StoreError {
    /// A short description for display.
    pub fn message(&self) -> (text: &'static str)
        ensures
            text@ == match *self {
                StoreError::Validation => "invalid input"@,
                StoreError::NotFound => "no such row"@,
                StoreError::Persistence => "storage failure"@,
            },
    {
        match self {
            StoreError::Validation => "invalid input",
            StoreError::NotFound => "no such row",
            StoreError::Persistence => "storage failure",
        }
    }
}

/// A saved dish.
#[derive(Clone, Debug, PartialEq, Eq)]
pub struct Recipe {
    /// Assigned by the store; `None` until the recipe has been saved.
    pub id: Option<i64>,
    pub title: String,
    pub link: String,
    /// `None` means uncategorized.
    pub category: Option<String>,
    /// The instructions, one per line.
    pub steps: Option<String>,
}

/// What a [`Recipe`] holds, as mathematical values.
pub struct RecipeData {
    pub id: Option<int>,
    pub title: Seq<char>,
    pub link: Seq<char>,
    pub category: Option<Seq<char>>,
    pub steps: Option<Seq<char>>,
}

/// The characters of an optional string.
pub open spec fn text_of(s: Option<String>) -> Option<Seq<char>> {
    match s {
        Some(t) => Some(t@),
        None => None,
    }
}

/// An optional identifier as a mathematical integer.
pub open spec fn id_of(id: Option<i64>) -> Option<int> {
    match id {
        Some(i) => Some(i as int),
        None => None,
    }
}

impl View for Recipe {
    type V = RecipeData;

    open spec fn view(&self) -> RecipeData {
        RecipeData {
            id: id_of(self.id),
            title: self.title@,
            link: self.link@,
            category: text_of(self.category),
            steps: text_of(self.steps),
        }
    }
}

impl DeepView for Recipe {
    type V = RecipeData;

    open spec fn deep_view(&self) -> RecipeData {
        self@
    }
}

/// A copy of an optional string.
pub fn copy_text(s: &Option<String>) -> (c: Option<String>)
    ensures
        text_of(c) == text_of(*s),
{
    match s {
        Some(t) => Some(t.clone()),
        None => None,
    }
}

impl Recipe {
    /// A copy of this recipe.
    pub fn duplicate(&self) -> (c: Recipe)
        ensures
            c@ == self@,
    {
        Recipe {
            id: self.id,
            title: self.title.clone(),
            link: self.link.clone(),
            category: copy_text(&self.category),
            steps: copy_text(&self.steps),
        }
    }

    /// A copy of this recipe that carries the identifier `id`.
    pub fn with_id(&self, id: i64) -> (c: Recipe)
        ensures
            c@ == (RecipeData { id: Some(id as int), ..self@ }),
    {
        Recipe {
            id: Some(id),
            title: self.title.clone(),
            link: self.link.clone(),
            category: copy_text(&self.category),
            steps: copy_text(&self.steps),
        }
    }
}

/// A named item that a recipe needs or that was put on the list by hand.
#[derive(Clone, Debug, PartialEq, Eq)]
pub struct Ingredient {
    pub id: i64,
    pub name: String,
    /// The owning recipe; `None` for an entry made by hand.
    pub recipe_id: Option<i64>,
    /// Whether the item has been acquired.
    pub have: bool,
}

/// What an [`Ingredient`] holds, as mathematical values.
pub struct IngredientData {
    pub id: int,
    pub name: Seq<char>,
    pub recipe_id: Option<int>,
    pub have: bool,
}

impl View for Ingredient {
    type V = IngredientData;

    open spec fn view(&self) -> IngredientData {
        IngredientData {
            id: self.id as int,
            name: self.name@,
            recipe_id: id_of(self.recipe_id),
            have: self.have,
        }
    }
}

impl DeepView for Ingredient {
    type V = IngredientData;

    open spec fn deep_view(&self) -> IngredientData {
        self@
    }
}

impl Ingredient {
    /// A copy of this ingredient.
    pub fn duplicate(&self) -> (c: Ingredient)
        ensures
            c@ == self@,
    {
        Ingredient {
            id: self.id,
            name: self.name.clone(),
            recipe_id: self.recipe_id,
            have: self.have,
        }
    }
}

} // verus!
