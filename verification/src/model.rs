//! The two tables as mathematical sequences, and what each operation of the
//! store makes of them.
//!
//! Rows stand in the order in which they were added, which is also the order
//! of their identifiers: a new row gets the identifier after the last one.

use vstd::prelude::*;
use crate::recipe::{IngredientData, RecipeData, StoreError};

verus! {

/// The largest identifier a row can carry.
pub open spec fn max_id() -> int {
    i64::MAX as int
}

/// Selects every recipe but the one with the identifier `id`.
pub open spec fn recipe_is_not(id: int) -> spec_fn(RecipeData) -> bool {
    |r: RecipeData| r.id != Some(id)
}

/// Selects the recipes whose category is exactly `category`.
pub open spec fn in_category(category: Seq<char>) -> spec_fn(RecipeData) -> bool {
    |r: RecipeData| r.category == Some(category)
}

/// Selects the ingredients that the recipe `id` owns.
pub open spec fn owned_by(id: int) -> spec_fn(IngredientData) -> bool {
    |g: IngredientData| g.recipe_id == Some(id)
}

/// Selects the ingredients that the recipe `id` does not own.
pub open spec fn not_owned_by(id: int) -> spec_fn(IngredientData) -> bool {
    |g: IngredientData| g.recipe_id != Some(id)
}

/// Selects the ingredients that are still needed.
pub open spec fn needed() -> spec_fn(IngredientData) -> bool {
    |g: IngredientData| !g.have
}

/// Selects the ingredients whose name is none of `names`.
pub open spec fn not_named_in(names: Seq<Seq<char>>) -> spec_fn(IngredientData) -> bool {
    |g: IngredientData| !names.contains(g.name)
}

/// The name of an ingredient.
pub open spec fn name_of() -> spec_fn(IngredientData) -> Seq<char> {
    |g: IngredientData| g.name
}

/// Sets the flag of the ingredients called `name`, and leaves the others.
pub open spec fn flagged(name: Seq<char>, have: bool) -> spec_fn(IngredientData) -> IngredientData {
    |g: IngredientData|
        if g.name == name {
            IngredientData { have, ..g }
        } else {
            g
        }
}

/// Marks as acquired the ingredients whose name is one of `names`.
pub open spec fn acquired_if_named(names: Seq<Seq<char>>) -> spec_fn(IngredientData) -> IngredientData {
    |g: IngredientData|
        if names.contains(g.name) {
            IngredientData { have: true, ..g }
        } else {
            g
        }
}

/// The identifier by which recipes are ordered.
pub open spec fn recipe_key() -> spec_fn(RecipeData) -> int {
    |r: RecipeData| r.id.unwrap()
}

/// The identifier by which ingredients are ordered.
pub open spec fn ingredient_key() -> spec_fn(IngredientData) -> int {
    |g: IngredientData| g.id
}

/// The rows of `s` stand in strictly ascending order of `key`.
pub open spec fn ascending<T>(s: Seq<T>, key: spec_fn(T) -> int) -> bool {
    forall|i: int, j: int| #![trigger s[i], s[j]] 0 <= i < j < s.len() ==> key(s[i]) < key(s[j])
}

/// The owner that an `add_ingredients` call names: `0` stands for an entry
/// made by hand, which no recipe owns.
pub open spec fn owner_of(recipe_id: int) -> Option<int> {
    if recipe_id == 0 {
        None
    } else {
        Some(recipe_id)
    }
}

impl RecipeData {
    /// What the store requires of a recipe that it is asked to save.
    pub open spec fn acceptable(self) -> bool {
        self.title.len() > 0 && self.link.len() > 0
    }

    /// What holds of every recipe in the store.
    pub open spec fn saved(self) -> bool {
        &&& self.id is Some
        &&& 1 <= self.id.unwrap() <= max_id()
        &&& self.acceptable()
    }
}

impl IngredientData {
    /// What holds of every ingredient in the store, taken by itself.
    pub open spec fn saved(self) -> bool {
        &&& 1 <= self.id <= max_id()
        &&& self.recipe_id is Some ==> 1 <= self.recipe_id.unwrap() <= max_id()
    }
}

/// Everything the store holds.
pub struct StoreState {
    pub recipes: Seq<RecipeData>,
    pub ingredients: Seq<IngredientData>,
}

impl StoreState {
    /// The store that holds nothing.
    pub open spec fn empty() -> StoreState {
        StoreState { recipes: Seq::empty(), ingredients: Seq::empty() }
    }

    /// Whether a recipe with the identifier `id` is stored.
    pub open spec fn has_recipe(self, id: int) -> bool {
        exists|i: int| 0 <= i < self.recipes.len() && (#[trigger] self.recipes[i]).id == Some(id)
    }

    /// The identifier that the next recipe gets.
    pub open spec fn next_recipe_id(self) -> int {
        if self.recipes.len() == 0 {
            1
        } else {
            self.recipes.last().id.unwrap() + 1
        }
    }

    /// The identifier that the next ingredient gets.
    pub open spec fn next_ingredient_id(self) -> int {
        if self.ingredients.len() == 0 {
            1
        } else {
            self.ingredients.last().id + 1
        }
    }

    /// The recipes are fit to be stored and stand in the order of their
    /// identifiers, so that no identifier occurs twice.
    pub open spec fn recipes_wf(self) -> bool {
        &&& forall|i: int| 0 <= i < self.recipes.len() ==> (#[trigger] self.recipes[i]).saved()
        &&& ascending(self.recipes, recipe_key())
    }

    /// The ingredients stand in the order of their identifiers, and each one
    /// that names an owner names a stored recipe.
    pub open spec fn ingredients_wf(self) -> bool {
        &&& forall|i: int|
            0 <= i < self.ingredients.len() ==> (#[trigger] self.ingredients[i]).saved()
        &&& ascending(self.ingredients, ingredient_key())
        &&& forall|i: int|
            0 <= i < self.ingredients.len() && (#[trigger] self.ingredients[i]).recipe_id is Some
                ==> self.has_recipe(self.ingredients[i].recipe_id.unwrap())
    }

    /// The invariant of the store.
    pub open spec fn wf(self) -> bool {
        self.recipes_wf() && self.ingredients_wf()
    }

    /// Why `add_recipe` refuses `recipe`, if it does.
    pub open spec fn add_recipe_error(self, recipe: RecipeData) -> Option<StoreError> {
        if !recipe.acceptable() {
            Some(StoreError::Validation)
        } else if self.next_recipe_id() > max_id() {
            Some(StoreError::Persistence)
        } else {
            None
        }
    }

    /// The store after `recipe` was added under the next identifier.
    pub open spec fn add_recipe(self, recipe: RecipeData) -> StoreState {
        StoreState {
            recipes: self.recipes.push(RecipeData { id: Some(self.next_recipe_id()), ..recipe }),
            ..self
        }
    }

    /// Why `delete_recipe` refuses `id`, if it does.
    pub open spec fn delete_recipe_error(self, id: int) -> Option<StoreError> {
        if self.has_recipe(id) {
            None
        } else {
            Some(StoreError::NotFound)
        }
    }

    /// The store after the recipe `id` and the ingredients it owns were removed.
    pub open spec fn delete_recipe(self, id: int) -> StoreState {
        StoreState {
            recipes: self.recipes.filter(recipe_is_not(id)),
            ingredients: self.ingredients.filter(not_owned_by(id)),
        }
    }

    /// The recipes of one category, or all of them.
    pub open spec fn list_recipes(self, category: Option<Seq<char>>) -> Seq<RecipeData> {
        match category {
            Some(c) => self.recipes.filter(in_category(c)),
            None => self.recipes,
        }
    }

    /// The names of the ingredients that the recipe `id` owns.
    pub open spec fn recipe_ingredients(self, id: int) -> Seq<Seq<char>> {
        self.ingredients.filter(owned_by(id)).map_values(name_of())
    }

    /// Why `add_ingredients` refuses the rows, if it does. An empty list of
    /// names is never refused.
    pub open spec fn add_ingredients_error(self, owner: Option<int>, names: Seq<Seq<char>>) -> Option<
        StoreError,
    > {
        if names.len() == 0 {
            None
        } else if owner is Some && !self.has_recipe(owner.unwrap()) {
            Some(StoreError::Persistence)
        } else if self.next_ingredient_id() + names.len() - 1 > max_id() {
            Some(StoreError::Persistence)
        } else {
            None
        }
    }

    /// The rows that `add_ingredients` makes of `names`: needed, owned by
    /// `owner`, numbered from the next identifier on.
    pub open spec fn new_ingredients(self, owner: Option<int>, names: Seq<Seq<char>>) -> Seq<
        IngredientData,
    > {
        Seq::new(
            names.len(),
            |k: int|
                IngredientData {
                    id: self.next_ingredient_id() + k,
                    name: names[k],
                    recipe_id: owner,
                    have: false,
                },
        )
    }

    /// The store after one needed ingredient per name was added.
    pub open spec fn add_ingredients(self, owner: Option<int>, names: Seq<Seq<char>>) -> StoreState {
        StoreState { ingredients: self.ingredients + self.new_ingredients(owner, names), ..self }
    }

    /// The shopping list: the names of the ingredients that are still needed.
    pub open spec fn shopping_list(self) -> Seq<Seq<char>> {
        self.ingredients.filter(needed()).map_values(name_of())
    }

    /// The store after the flag of every ingredient called `name` was set.
    pub open spec fn set_have(self, name: Seq<char>, have: bool) -> StoreState {
        StoreState { ingredients: self.ingredients.map_values(flagged(name, have)), ..self }
    }

    /// The store after every ingredient whose name is one of `names` was
    /// removed.
    pub open spec fn mark_and_remove(self, names: Seq<Seq<char>>) -> StoreState {
        StoreState { ingredients: self.ingredients.filter(not_named_in(names)), ..self }
    }
}

/// Rows that are taken out leave the others in their order.
pub proof fn lemma_filter_keeps_order<T>(s: Seq<T>, key: spec_fn(T) -> int, keep: spec_fn(T) -> bool)
    requires
        ascending(s, key),
    ensures
        ascending(s.filter(keep), key),
    decreases s.len(),
{
    reveal(Seq::filter);
    if s.len() > 0 {
        let front = s.drop_last();
        lemma_filter_keeps_order(front, key, keep);
        let kept = front.filter(keep);
        assert forall|i: int| 0 <= i < kept.len() implies key(#[trigger] kept[i]) < key(
            s.last(),
        ) by {
            assert(kept.contains(kept[i]));
            front.lemma_filter_contains_rev(keep, kept[i]);
            let k = choose|k: int| 0 <= k < front.len() && front[k] == kept[i];
            assert(s[k] == kept[i]);
        }
    }
}

/// A row that is kept is found among the kept rows.
pub proof fn lemma_filter_has<T>(s: Seq<T>, keep: spec_fn(T) -> bool, i: int) -> (k: int)
    requires
        0 <= i < s.len(),
        keep(s[i]),
    ensures
        0 <= k < s.filter(keep).len(),
        s.filter(keep)[k] == s[i],
{
    s.lemma_filter_contains(keep, i);
    choose|k: int| 0 <= k < s.filter(keep).len() && s.filter(keep)[k] == s[i]
}

/// A kept row comes from the rows it was kept from, and passed the test.
pub proof fn lemma_filter_from<T>(s: Seq<T>, keep: spec_fn(T) -> bool, k: int) -> (i: int)
    requires
        0 <= k < s.filter(keep).len(),
    ensures
        0 <= i < s.len(),
        s[i] == s.filter(keep)[k],
        keep(s[i]),
{
    let kept = s.filter(keep);
    s.lemma_filter_pred(keep, k);
    assert(kept.contains(kept[k]));
    s.lemma_filter_contains_rev(keep, kept[k]);
    choose|i: int| 0 <= i < s.len() && s[i] == kept[k]
}

/// A stored recipe is still stored after other recipes were taken out.
pub proof fn lemma_recipe_survives(s: StoreState, keep: spec_fn(RecipeData) -> bool, id: int)
    requires
        s.has_recipe(id),
        forall|r: RecipeData| r.id == Some(id) ==> keep(r),
    ensures
        (StoreState { recipes: s.recipes.filter(keep), ..s }).has_recipe(id),
{
    let i = choose|i: int| 0 <= i < s.recipes.len() && (#[trigger] s.recipes[i]).id == Some(id);
    let k = lemma_filter_has(s.recipes, keep, i);
    assert(s.recipes.filter(keep)[k].id == Some(id));
}

/// Adding a recipe that is not refused keeps the invariant.
pub proof fn lemma_add_recipe_wf(s: StoreState, recipe: RecipeData)
    requires
        s.wf(),
        s.add_recipe_error(recipe) is None,
    ensures
        s.add_recipe(recipe).wf(),
        s.add_recipe(recipe).has_recipe(s.next_recipe_id()),
{
    let t = s.add_recipe(recipe);
    let n = s.recipes.len() as int;
    assert(t.recipes[n].id == Some(s.next_recipe_id()));
    assert forall|i: int| 0 <= i < t.recipes.len() implies (#[trigger] t.recipes[i]).saved() by {
        if i < n {
            assert(t.recipes[i] == s.recipes[i]);
        } else if n > 0 {
            assert(s.recipes[n - 1].saved());
        }
    }
    assert forall|i: int, j: int| 0 <= i < j < t.recipes.len() implies recipe_key()(
        #[trigger] t.recipes[i],
    ) < recipe_key()(#[trigger] t.recipes[j]) by {
        assert(t.recipes[i] == s.recipes[i]);
        if j < n {
            assert(t.recipes[j] == s.recipes[j]);
        } else if i < n - 1 {
            assert(recipe_key()(s.recipes[i]) < recipe_key()(s.recipes[n - 1]));
        }
    }
    assert forall|i: int|
        0 <= i < t.ingredients.len() && (#[trigger] t.ingredients[i]).recipe_id is Some implies t.has_recipe(
        t.ingredients[i].recipe_id.unwrap(),
    ) by {
        let owner = s.ingredients[i].recipe_id.unwrap();
        assert(s.has_recipe(owner));
        let k = choose|k: int| 0 <= k < s.recipes.len() && (#[trigger] s.recipes[k]).id == Some(owner);
        assert(t.recipes[k].id == Some(owner));
    }
}

/// Deleting a recipe keeps the invariant, whether or not it was stored.
pub proof fn lemma_delete_recipe_wf(s: StoreState, id: int)
    requires
        s.wf(),
    ensures
        s.delete_recipe(id).wf(),
{
    let t = s.delete_recipe(id);
    lemma_filter_keeps_order(s.recipes, recipe_key(), recipe_is_not(id));
    lemma_filter_keeps_order(s.ingredients, ingredient_key(), not_owned_by(id));
    assert forall|k: int| 0 <= k < t.recipes.len() implies (#[trigger] t.recipes[k]).saved() by {
        let i = lemma_filter_from(s.recipes, recipe_is_not(id), k);
        assert(s.recipes[i].saved());
    }
    assert forall|k: int| 0 <= k < t.ingredients.len() implies (#[trigger] t.ingredients[k]).saved() by {
        let i = lemma_filter_from(s.ingredients, not_owned_by(id), k);
        assert(s.ingredients[i].saved());
    }
    assert forall|k: int|
        0 <= k < t.ingredients.len() && (#[trigger] t.ingredients[k]).recipe_id is Some implies t.has_recipe(
        t.ingredients[k].recipe_id.unwrap(),
    ) by {
        let i = lemma_filter_from(s.ingredients, not_owned_by(id), k);
        let owner = s.ingredients[i].recipe_id.unwrap();
        assert(s.has_recipe(owner));
        lemma_recipe_survives(s, recipe_is_not(id), owner);
        assert(t.recipes == (StoreState { recipes: s.recipes.filter(recipe_is_not(id)), ..s }).recipes);
    }
}

/// Adding ingredients that are not refused keeps the invariant.
pub proof fn lemma_add_ingredients_wf(s: StoreState, owner: Option<int>, names: Seq<Seq<char>>)
    requires
        s.wf(),
        s.add_ingredients_error(owner, names) is None,
    ensures
        s.add_ingredients(owner, names).wf(),
{
    let t = s.add_ingredients(owner, names);
    let n = s.ingredients.len() as int;
    let fresh = s.new_ingredients(owner, names);
    assert forall|i: int| 0 <= i < t.ingredients.len() implies (#[trigger] t.ingredients[i]).saved() by {
        if i < n {
            assert(t.ingredients[i] == s.ingredients[i]);
        } else {
            assert(t.ingredients[i] == fresh[i - n]);
            if n > 0 {
                assert(s.ingredients[n - 1].saved());
            }
            if owner is Some {
                let k = choose|k: int|
                    0 <= k < s.recipes.len() && (#[trigger] s.recipes[k]).id == owner;
                assert(s.recipes[k].saved());
            }
        }
    }
    assert forall|i: int, j: int| 0 <= i < j < t.ingredients.len() implies ingredient_key()(
        #[trigger] t.ingredients[i],
    ) < ingredient_key()(#[trigger] t.ingredients[j]) by {
        if j < n {
            assert(t.ingredients[i] == s.ingredients[i]);
            assert(t.ingredients[j] == s.ingredients[j]);
        } else {
            assert(t.ingredients[j] == fresh[j - n]);
            if i < n {
                assert(t.ingredients[i] == s.ingredients[i]);
                if i < n - 1 {
                    assert(ingredient_key()(s.ingredients[i]) < ingredient_key()(s.ingredients[n - 1]));
                }
            } else {
                assert(t.ingredients[i] == fresh[i - n]);
            }
        }
    }
    assert forall|i: int|
        0 <= i < t.ingredients.len() && (#[trigger] t.ingredients[i]).recipe_id is Some implies t.has_recipe(
        t.ingredients[i].recipe_id.unwrap(),
    ) by {
        if i < n {
            assert(t.ingredients[i] == s.ingredients[i]);
            assert(s.has_recipe(s.ingredients[i].recipe_id.unwrap()));
        } else {
            assert(t.ingredients[i] == fresh[i - n]);
        }
    }
}

/// Setting a flag keeps the invariant.
pub proof fn lemma_set_have_wf(s: StoreState, name: Seq<char>, have: bool)
    requires
        s.wf(),
    ensures
        s.set_have(name, have).wf(),
{
    let t = s.set_have(name, have);
    assert forall|i: int| 0 <= i < t.ingredients.len() implies (#[trigger] t.ingredients[i]).saved() by {
        assert(s.ingredients[i].saved());
    }
    assert forall|i: int, j: int| 0 <= i < j < t.ingredients.len() implies ingredient_key()(
        #[trigger] t.ingredients[i],
    ) < ingredient_key()(#[trigger] t.ingredients[j]) by {
        assert(ingredient_key()(s.ingredients[i]) < ingredient_key()(s.ingredients[j]));
    }
    assert forall|i: int|
        0 <= i < t.ingredients.len() && (#[trigger] t.ingredients[i]).recipe_id is Some implies t.has_recipe(
        t.ingredients[i].recipe_id.unwrap(),
    ) by {
        assert(s.has_recipe(s.ingredients[i].recipe_id.unwrap()));
    }
}

/// Removing ingredients by name keeps the invariant.
pub proof fn lemma_mark_and_remove_wf(s: StoreState, names: Seq<Seq<char>>)
    requires
        s.wf(),
    ensures
        s.mark_and_remove(names).wf(),
{
    let t = s.mark_and_remove(names);
    lemma_filter_keeps_order(s.ingredients, ingredient_key(), not_named_in(names));
    assert forall|k: int| 0 <= k < t.ingredients.len() implies (#[trigger] t.ingredients[k]).saved() by {
        let i = lemma_filter_from(s.ingredients, not_named_in(names), k);
        assert(s.ingredients[i].saved());
    }
    assert forall|k: int|
        0 <= k < t.ingredients.len() && (#[trigger] t.ingredients[k]).recipe_id is Some implies t.has_recipe(
        t.ingredients[k].recipe_id.unwrap(),
    ) by {
        let i = lemma_filter_from(s.ingredients, not_named_in(names), k);
        assert(s.has_recipe(s.ingredients[i].recipe_id.unwrap()));
    }
}

/// Keeping rows of the first `i + 1` rows is keeping rows of the first `i`,
/// and the row after them if it passes.
pub proof fn lemma_filter_step<T>(s: Seq<T>, keep: spec_fn(T) -> bool, i: int)
    requires
        0 <= i < s.len(),
    ensures
        s.take(i + 1).filter(keep) == if keep(s[i]) {
            s.take(i).filter(keep).push(s[i])
        } else {
            s.take(i).filter(keep)
        },
{
    assert(s.take(i + 1) =~= s.take(i).push(s[i]));
    s.take(i).lemma_filter_push(s[i], keep);
}

} // verus!
