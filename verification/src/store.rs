//! The store in memory: the rows of both tables, and the operations on them.
//!
//! Every operation is verified against [`StoreState`], the model of the
//! tables. Nothing here touches storage.

use vstd::prelude::*;
use crate::model::{
    flagged, in_category, ingredient_key, lemma_add_ingredients_wf, lemma_add_recipe_wf,
    lemma_delete_recipe_wf, lemma_filter_step, lemma_mark_and_remove_wf, lemma_set_have_wf,
    name_of, needed, not_named_in, not_owned_by, owned_by, owner_of, recipe_is_not, recipe_key,
    StoreState,
};
use crate::recipe::{id_of, Ingredient, Recipe, StoreError};

verus! {

/// The characters of an optional string slice.
pub open spec fn slice_text(s: Option<&str>) -> Option<Seq<char>> {
    match s {
        Some(t) => Some(t@),
        None => None,
    }
}

/// The state that holds the given rows.
pub open spec fn rows_state(recipes: Vec<Recipe>, ingredients: Vec<Ingredient>) -> StoreState {
    StoreState { recipes: recipes.deep_view(), ingredients: ingredients.deep_view() }
}

/// Whether `name` is one of `names`.
pub fn is_named(names: &[String], name: &String) -> (found: bool)
    ensures
        found == names.deep_view().contains(name@),
{
    let mut k: usize = 0;
    while k < names.len()
        invariant
            k <= names.len(),
            forall|j: int| 0 <= j < k ==> names.deep_view()[j] != name@,
        decreases names.len() - k,
    {
        if names[k] == *name {
            assert(names.deep_view()[k as int] == name@);
            return true;
        }
        k += 1;
    }
    false
}

/// The rows of `rows` that the recipe `id` does not own, in their order.
fn rows_not_owned_by(rows: Vec<Ingredient>, id: i64) -> (kept: Vec<Ingredient>)
    ensures
        kept.deep_view() == rows.deep_view().filter(not_owned_by(id as int)),
{
    let ghost all = rows.deep_view();
    let ghost raw = rows@;
    let mut kept: Vec<Ingredient> = Vec::new();
    assert(all.take(0) =~= Seq::empty());
    assert(kept.deep_view() =~= Seq::empty());
    for g in it: rows.into_iter()
        invariant
            it.seq() == raw,
            all.len() == raw.len(),
            forall|k: int| 0 <= k < raw.len() ==> all[k] == (#[trigger] raw[k])@,
            kept.deep_view() == all.take(it.index() as int).filter(not_owned_by(id as int)),
    {
        proof {
            lemma_filter_step(all, not_owned_by(id as int), it.index() as int);
        }
        let ghost before = kept.deep_view();
        if g.recipe_id != Some(id) {
            kept.push(g);
            assert(kept.deep_view() =~= before.push(g@));
        }
    }
    assert(all.take(all.len() as int) =~= all);
    kept
}

/// The rows of `rows` whose name is none of `names`, in their order.
fn rows_not_named(rows: Vec<Ingredient>, names: &[String]) -> (kept: Vec<Ingredient>)
    ensures
        kept.deep_view() == rows.deep_view().filter(not_named_in(names.deep_view())),
{
    let ghost all = rows.deep_view();
    let ghost raw = rows@;
    let ghost wanted = names.deep_view();
    let mut kept: Vec<Ingredient> = Vec::new();
    assert(all.take(0) =~= Seq::empty());
    assert(kept.deep_view() =~= Seq::empty());
    for g in it: rows.into_iter()
        invariant
            it.seq() == raw,
            all.len() == raw.len(),
            wanted == names.deep_view(),
            forall|k: int| 0 <= k < raw.len() ==> all[k] == (#[trigger] raw[k])@,
            kept.deep_view() == all.take(it.index() as int).filter(not_named_in(wanted)),
    {
        proof {
            lemma_filter_step(all, not_named_in(wanted), it.index() as int);
        }
        let ghost before = kept.deep_view();
        if !is_named(names, &g.name) {
            kept.push(g);
            assert(kept.deep_view() =~= before.push(g@));
        }
    }
    assert(all.take(all.len() as int) =~= all);
    kept
}

/// The rows of `rows`, each one called `name` with its flag set to `have`.
fn rows_flagged(rows: Vec<Ingredient>, name: &String, have: bool) -> (marked: Vec<Ingredient>)
    ensures
        marked.deep_view() == rows.deep_view().map_values(flagged(name@, have)),
{
    let ghost all = rows.deep_view();
    let ghost raw = rows@;
    let mut marked: Vec<Ingredient> = Vec::new();
    for g in it: rows.into_iter()
        invariant
            it.seq() == raw,
            all.len() == raw.len(),
            forall|k: int| 0 <= k < raw.len() ==> all[k] == (#[trigger] raw[k])@,
            marked.len() == it.index(),
            forall|k: int|
                0 <= k < marked.len() ==> (#[trigger] marked[k])@ == flagged(name@, have)(all[k]),
    {
        let mut row = g;
        if row.name == *name {
            row.have = have;
        }
        marked.push(row);
    }
    assert(marked.deep_view() =~= all.map_values(flagged(name@, have)));
    marked
}

/// The recipes of `rows` but the one with the identifier `id`, in their order.
fn recipes_other_than(rows: Vec<Recipe>, id: i64) -> (kept: Vec<Recipe>)
    ensures
        kept.deep_view() == rows.deep_view().filter(recipe_is_not(id as int)),
{
    let ghost all = rows.deep_view();
    let ghost raw = rows@;
    let mut kept: Vec<Recipe> = Vec::new();
    assert(all.take(0) =~= Seq::empty());
    assert(kept.deep_view() =~= Seq::empty());
    for r in it: rows.into_iter()
        invariant
            it.seq() == raw,
            all.len() == raw.len(),
            forall|k: int| 0 <= k < raw.len() ==> all[k] == (#[trigger] raw[k])@,
            kept.deep_view() == all.take(it.index() as int).filter(recipe_is_not(id as int)),
    {
        proof {
            lemma_filter_step(all, recipe_is_not(id as int), it.index() as int);
        }
        let ghost before = kept.deep_view();
        if r.id != Some(id) {
            kept.push(r);
            assert(kept.deep_view() =~= before.push(r@));
        }
    }
    assert(all.take(all.len() as int) =~= all);
    kept
}

/// The recipes and ingredients of one store, held in memory.
#[derive(Debug)]
pub struct RecipeStore {
    recipes: Vec<Recipe>,
    ingredients: Vec<Ingredient>,
}

impl View for RecipeStore {
    type V = StoreState;

    closed spec fn view(&self) -> StoreState {
        StoreState {
            recipes: self.recipes.deep_view(),
            ingredients: self.ingredients.deep_view(),
        }
    }
}

impl RecipeStore {
    /// A store that holds nothing.
    pub fn new() -> (store: RecipeStore)
        ensures
            store@ == StoreState::empty(),
            store@.wf(),
    {
        let store = RecipeStore { recipes: Vec::new(), ingredients: Vec::new() };
        assert(store@.recipes =~= Seq::empty());
        assert(store@.ingredients =~= Seq::empty());
        store
    }

    /// Whether the recipes are fit to be stored and stand in the order of
    /// their identifiers.
    fn recipes_fit(&self) -> (fit: bool)
        ensures
            fit == self@.recipes_wf(),
    {
        let ghost all = self@.recipes;
        let mut i: usize = 0;
        while i < self.recipes.len()
            invariant
                i <= self.recipes.len(),
                all == self@.recipes,
                forall|k: int| 0 <= k < i ==> (#[trigger] all[k]).saved(),
                forall|a: int, b: int|
                    #![trigger all[a], all[b]]
                    0 <= a < b < i ==> recipe_key()(all[a]) < recipe_key()(all[b]),
            decreases self.recipes.len() - i,
        {
            let row = &self.recipes[i];
            let id = match row.id {
                Some(v) => v,
                None => {
                    assert(!all[i as int].saved());
                    return false;
                },
            };
            if id < 1 || row.title.as_str().is_empty() || row.link.as_str().is_empty() {
                assert(!all[i as int].saved());
                return false;
            }
            if i > 0 {
                let before = match self.recipes[i - 1].id {
                    Some(v) => v,
                    None => 0,
                };
                if before >= id {
                    assert(!(recipe_key()(all[i - 1]) < recipe_key()(all[i as int])));
                    return false;
                }
                assert forall|a: int| 0 <= a < i implies recipe_key()(#[trigger] all[a])
                    < recipe_key()(all[i as int]) by {
                    if a < i - 1 {
                        assert(recipe_key()(all[a]) < recipe_key()(all[i - 1]));
                    }
                }
            }
            i += 1;
        }
        true
    }

    /// Whether the ingredients stand in the order of their identifiers and
    /// each owner is a stored recipe.
    fn ingredients_fit(&self) -> (fit: bool)
        ensures
            fit == self@.ingredients_wf(),
    {
        let ghost all = self@.ingredients;
        let mut i: usize = 0;
        while i < self.ingredients.len()
            invariant
                i <= self.ingredients.len(),
                all == self@.ingredients,
                forall|k: int| 0 <= k < i ==> (#[trigger] all[k]).saved(),
                forall|k: int|
                    0 <= k < i && (#[trigger] all[k]).recipe_id is Some ==> self@.has_recipe(
                        all[k].recipe_id.unwrap(),
                    ),
                forall|a: int, b: int|
                    #![trigger all[a], all[b]]
                    0 <= a < b < i ==> ingredient_key()(all[a]) < ingredient_key()(all[b]),
            decreases self.ingredients.len() - i,
        {
            let row = &self.ingredients[i];
            if row.id < 1 {
                assert(!all[i as int].saved());
                return false;
            }
            match row.recipe_id {
                Some(owner) => {
                    if owner < 1 {
                        assert(!all[i as int].saved());
                        return false;
                    }
                    if !self.has_recipe(owner) {
                        assert(all[i as int].recipe_id is Some);
                        return false;
                    }
                },
                None => {},
            }
            if i > 0 {
                if self.ingredients[i - 1].id >= row.id {
                    assert(!(ingredient_key()(all[i - 1]) < ingredient_key()(all[i as int])));
                    return false;
                }
                assert forall|a: int| 0 <= a < i implies ingredient_key()(#[trigger] all[a])
                    < ingredient_key()(all[i as int]) by {
                    if a < i - 1 {
                        assert(ingredient_key()(all[a]) < ingredient_key()(all[i - 1]));
                    }
                }
            }
            i += 1;
        }
        true
    }

    /// A store that holds the given rows.
    ///
    /// The rows are refused where they break the invariant of the store:
    /// where a recipe has no identifier, no title or no link, where an
    /// identifier is below `1` or the rows do not stand in the order of their
    /// identifiers, or where an ingredient names a recipe that is not among
    /// `recipes`.
    pub fn from_rows(recipes: Vec<Recipe>, ingredients: Vec<Ingredient>) -> (r: Result<
        RecipeStore,
        StoreError,
    >)
        ensures
            match r {
                Ok(store) => store@ == rows_state(recipes, ingredients) && store@.wf(),
                Err(e) => e == StoreError::Persistence && !rows_state(recipes, ingredients).wf(),
            },
    {
        let store = RecipeStore { recipes, ingredients };
        if store.recipes_fit() && store.ingredients_fit() {
            Ok(store)
        } else {
            Err(StoreError::Persistence)
        }
    }

    /// The number of stored recipes.
    pub fn recipe_count(&self) -> (n: usize)
        ensures
            n == self@.recipes.len(),
    {
        self.recipes.len()
    }

    /// The number of stored ingredients, needed or not.
    pub fn ingredient_count(&self) -> (n: usize)
        ensures
            n == self@.ingredients.len(),
    {
        self.ingredients.len()
    }

    /// Whether a recipe with the identifier `id` is stored.
    pub fn has_recipe(&self, id: i64) -> (found: bool)
        ensures
            found == self@.has_recipe(id as int),
    {
        let mut i: usize = 0;
        while i < self.recipes.len()
            invariant
                i <= self.recipes.len(),
                forall|k: int| 0 <= k < i ==> (#[trigger] self@.recipes[k]).id != Some(id as int),
            decreases self.recipes.len() - i,
        {
            if self.recipes[i].id == Some(id) {
                assert(self@.recipes[i as int].id == Some(id as int));
                return true;
            }
            i += 1;
        }
        false
    }

    /// The identifier under which `recipe` would be saved, or why it would
    /// be refused. Nothing is changed.
    pub fn check_add_recipe(&self, recipe: &Recipe) -> (r: Result<i64, StoreError>)
        requires
            self@.wf(),
        ensures
            match self@.add_recipe_error(recipe@) {
                Some(e) => r == Err::<i64, StoreError>(e),
                None => r == Ok::<i64, StoreError>(self@.next_recipe_id() as i64),
            },
    {
        if recipe.title.as_str().is_empty() || recipe.link.as_str().is_empty() {
            return Err(StoreError::Validation);
        }
        let n = self.recipes.len();
        if n == 0 {
            return Ok(1);
        }
        assert(self@.recipes[n - 1].saved());
        match self.recipes[n - 1].id {
            Some(last) => if last == i64::MAX {
                Err(StoreError::Persistence)
            } else {
                Ok(last + 1)
            },
            None => Err(StoreError::Persistence),
        }
    }

    /// The identifier that the first of the new ingredients would get, or
    /// why the rows would be refused. Nothing is changed.
    pub fn check_add_ingredients(&self, recipe_id: i64, names: &[String]) -> (r: Result<
        i64,
        StoreError,
    >)
        requires
            self@.wf(),
        ensures
            match self@.add_ingredients_error(owner_of(recipe_id as int), names.deep_view()) {
                Some(e) => r == Err::<i64, StoreError>(e),
                None => r is Ok && (names.len() > 0 ==> r.unwrap() == self@.next_ingredient_id()),
            },
    {
        if names.len() == 0 {
            return Ok(1);
        }
        if recipe_id != 0 && !self.has_recipe(recipe_id) {
            return Err(StoreError::Persistence);
        }
        let n = self.ingredients.len();
        let first: i64 = if n == 0 {
            1
        } else {
            assert(self@.ingredients[n - 1].saved());
            let last = self.ingredients[n - 1].id;
            if last == i64::MAX {
                return Err(StoreError::Persistence);
            }
            last + 1
        };
        if names.len() as u64 > (i64::MAX - first) as u64 + 1 {
            return Err(StoreError::Persistence);
        }
        Ok(first)
    }

    /// Saves `recipe` under the next identifier and returns that identifier.
    ///
    /// A recipe without a title or without a link is refused as invalid. The
    /// identifier that `recipe` carries is not looked at.
    pub fn add_recipe(&mut self, recipe: &Recipe) -> (r: Result<i64, StoreError>)
        requires
            old(self)@.wf(),
        ensures
            match old(self)@.add_recipe_error(recipe@) {
                Some(e) => r == Err::<i64, StoreError>(e) && final(self)@ == old(self)@,
                None => r == Ok::<i64, StoreError>(old(self)@.next_recipe_id() as i64)
                    && final(self)@ == old(self)@.add_recipe(recipe@),
            },
            final(self)@.wf(),
    {
        let id = match self.check_add_recipe(recipe) {
            Ok(id) => id,
            Err(e) => {
                return Err(e);
            },
        };
        proof {
            lemma_add_recipe_wf(self@, recipe@);
        }
        self.recipes.push(recipe.with_id(id));
        assert(self@.recipes =~= old(self)@.add_recipe(recipe@).recipes);
        Ok(id)
    }

    /// Removes the recipe `id` and every ingredient it owns.
    ///
    /// Reports `NotFound`, and changes nothing, if no such recipe is stored.
    pub fn delete_recipe(&mut self, id: i64) -> (r: Result<(), StoreError>)
        requires
            old(self)@.wf(),
        ensures
            match old(self)@.delete_recipe_error(id as int) {
                Some(e) => r == Err::<(), StoreError>(e) && final(self)@ == old(self)@,
                None => r == Ok::<(), StoreError>(()) && final(self)@ == old(self)@.delete_recipe(
                    id as int,
                ),
            },
            final(self)@.wf(),
    {
        if !self.has_recipe(id) {
            return Err(StoreError::NotFound);
        }
        let mut ingredients: Vec<Ingredient> = Vec::new();
        std::mem::swap(&mut self.ingredients, &mut ingredients);
        self.ingredients = rows_not_owned_by(ingredients, id);
        let mut recipes: Vec<Recipe> = Vec::new();
        std::mem::swap(&mut self.recipes, &mut recipes);
        self.recipes = recipes_other_than(recipes, id);
        proof {
            lemma_delete_recipe_wf(old(self)@, id as int);
        }
        Ok(())
    }

    /// The stored recipes whose category is exactly `category`, or all of
    /// them where no category is given, in the order in which they were saved.
    pub fn get_recipes(&self, category: Option<&str>) -> (found: Vec<Recipe>)
        ensures
            found.deep_view() == self@.list_recipes(slice_text(category)),
    {
        let ghost all = self@.recipes;
        let mut found: Vec<Recipe> = Vec::new();
        match category {
            None => {
                let mut i: usize = 0;
                while i < self.recipes.len()
                    invariant
                        i <= self.recipes.len(),
                        all == self@.recipes,
                        found.deep_view() == all.take(i as int),
                    decreases self.recipes.len() - i,
                {
                    let ghost before = found.deep_view();
                    found.push(self.recipes[i].duplicate());
                    assert(found.deep_view() =~= before.push(all[i as int]));
                    assert(all.take(i + 1) =~= all.take(i as int).push(all[i as int]));
                    i += 1;
                }
                assert(all.take(all.len() as int) =~= all);
            },
            Some(c) => {
                let wanted = c.to_owned();
                assert(all.take(0) =~= Seq::empty());
                assert(found.deep_view() =~= Seq::empty());
                let mut i: usize = 0;
                while i < self.recipes.len()
                    invariant
                        i <= self.recipes.len(),
                        all == self@.recipes,
                        wanted@ == c@,
                        found.deep_view() == all.take(i as int).filter(in_category(c@)),
                    decreases self.recipes.len() - i,
                {
                    proof {
                        lemma_filter_step(all, in_category(c@), i as int);
                    }
                    let ghost before = found.deep_view();
                    let hit = match &self.recipes[i].category {
                        Some(k) => *k == wanted,
                        None => false,
                    };
                    if hit {
                        found.push(self.recipes[i].duplicate());
                        assert(found.deep_view() =~= before.push(all[i as int]));
                    }
                    i += 1;
                }
                assert(all.take(all.len() as int) =~= all);
            },
        }
        found
    }

    /// The names of the ingredients that the recipe `recipe_id` owns. The
    /// list is empty where the recipe has none or is not stored.
    pub fn get_recipe_ingredients(&self, recipe_id: i64) -> (names: Vec<String>)
        ensures
            names.deep_view() == self@.recipe_ingredients(recipe_id as int),
    {
        let ghost all = self@.ingredients;
        let ghost owned = owned_by(recipe_id as int);
        let mut names: Vec<String> = Vec::new();
        assert(all.take(0) =~= Seq::empty());
        assert(names.deep_view() =~= all.take(0).filter(owned).map_values(name_of()));
        let mut i: usize = 0;
        while i < self.ingredients.len()
            invariant
                i <= self.ingredients.len(),
                all == self@.ingredients,
                owned == owned_by(recipe_id as int),
                names.deep_view() == all.take(i as int).filter(owned).map_values(name_of()),
            decreases self.ingredients.len() - i,
        {
            proof {
                lemma_filter_step(all, owned, i as int);
            }
            let ghost before = names.deep_view();
            if self.ingredients[i].recipe_id == Some(recipe_id) {
                names.push(self.ingredients[i].name.clone());
                assert(names.deep_view() =~= before.push(all[i as int].name));
                assert(all.take(i + 1).filter(owned).map_values(name_of()) =~= before.push(
                    all[i as int].name,
                ));
            }
            i += 1;
        }
        assert(all.take(all.len() as int) =~= all);
        names
    }

    /// Adds one needed ingredient per name, owned by the recipe `recipe_id`,
    /// or by none where `recipe_id` is `0`.
    ///
    /// An empty list changes nothing and is never refused. Otherwise the
    /// rows are refused where the recipe is not stored.
    pub fn add_ingredients(&mut self, recipe_id: i64, names: &[String]) -> (r: Result<
        (),
        StoreError,
    >)
        requires
            old(self)@.wf(),
        ensures
            match old(self)@.add_ingredients_error(owner_of(recipe_id as int), names.deep_view()) {
                Some(e) => r == Err::<(), StoreError>(e) && final(self)@ == old(self)@,
                None => r == Ok::<(), StoreError>(()) && final(self)@ == old(self)@.add_ingredients(
                    owner_of(recipe_id as int),
                    names.deep_view(),
                ),
            },
            final(self)@.wf(),
    {
        let ghost owner = owner_of(recipe_id as int);
        let ghost wanted = names.deep_view();
        let first = match self.check_add_ingredients(recipe_id, names) {
            Ok(first) => first,
            Err(e) => {
                return Err(e);
            },
        };
        if names.len() == 0 {
            assert(self@.ingredients =~= self@.add_ingredients(owner, wanted).ingredients);
            return Ok(());
        }
        proof {
            lemma_add_ingredients_wf(self@, owner, wanted);
        }
        let ghost fresh = old(self)@.new_ingredients(owner, wanted);
        let owned: Option<i64> = if recipe_id == 0 {
            None
        } else {
            Some(recipe_id)
        };
        let mut k: usize = 0;
        while k < names.len()
            invariant
                k <= names.len(),
                wanted == names.deep_view(),
                first == old(self)@.next_ingredient_id(),
                1 <= first,
                first + names.len() - 1 <= i64::MAX,
                id_of(owned) == owner,
                fresh == old(self)@.new_ingredients(owner, wanted),
                self@.recipes == old(self)@.recipes,
                self@.ingredients == old(self)@.ingredients + fresh.take(k as int),
            decreases names.len() - k,
        {
            let ghost before = self@.ingredients;
            let row = Ingredient {
                id: first + k as i64,
                name: names[k].clone(),
                recipe_id: owned,
                have: false,
            };
            assert(row@ == fresh[k as int]);
            self.ingredients.push(row);
            assert(self@.ingredients =~= before.push(fresh[k as int]));
            assert(fresh.take(k + 1) =~= fresh.take(k as int).push(fresh[k as int]));
            k += 1;
        }
        assert(fresh.take(fresh.len() as int) =~= fresh);
        Ok(())
    }

    /// The shopping list: the names of the ingredients that are still
    /// needed, in the order in which they were added.
    pub fn get_shopping_list(&self) -> (names: Vec<String>)
        ensures
            names.deep_view() == self@.shopping_list(),
    {
        let ghost all = self@.ingredients;
        let mut names: Vec<String> = Vec::new();
        assert(all.take(0) =~= Seq::empty());
        assert(names.deep_view() =~= all.take(0).filter(needed()).map_values(name_of()));
        let mut i: usize = 0;
        while i < self.ingredients.len()
            invariant
                i <= self.ingredients.len(),
                all == self@.ingredients,
                names.deep_view() == all.take(i as int).filter(needed()).map_values(name_of()),
            decreases self.ingredients.len() - i,
        {
            proof {
                lemma_filter_step(all, needed(), i as int);
            }
            let ghost before = names.deep_view();
            if !self.ingredients[i].have {
                names.push(self.ingredients[i].name.clone());
                assert(names.deep_view() =~= before.push(all[i as int].name));
                assert(all.take(i + 1).filter(needed()).map_values(name_of()) =~= before.push(
                    all[i as int].name,
                ));
            }
            i += 1;
        }
        assert(all.take(all.len() as int) =~= all);
        names
    }

    /// Sets the flag of every ingredient called exactly `name`, however many
    /// there are.
    pub fn set_have(&mut self, name: &str, have: bool)
        requires
            old(self)@.wf(),
        ensures
            final(self)@ == old(self)@.set_have(name@, have),
            final(self)@.wf(),
    {
        let wanted = name.to_owned();
        let mut rows: Vec<Ingredient> = Vec::new();
        std::mem::swap(&mut self.ingredients, &mut rows);
        self.ingredients = rows_flagged(rows, &wanted, have);
        proof {
            lemma_set_have_wf(old(self)@, name@, have);
        }
    }

    /// Removes every ingredient whose name is one of `names`.
    pub fn mark_and_remove_ingredients(&mut self, names: &[String])
        requires
            old(self)@.wf(),
        ensures
            final(self)@ == old(self)@.mark_and_remove(names.deep_view()),
            final(self)@.wf(),
    {
        let mut rows: Vec<Ingredient> = Vec::new();
        std::mem::swap(&mut self.ingredients, &mut rows);
        self.ingredients = rows_not_named(rows, names);
        proof {
            lemma_mark_and_remove_wf(old(self)@, names.deep_view());
        }
    }
}

} // verus!
