//! The store on SQLite.
//!
//! [`RecipeDatabase`] holds the rows of both tables in memory and writes
//! every change through to a database. A change is first written to the
//! database, and becomes part of the rows in memory only when the database
//! has taken it: where the database fails, the operation reports
//! [`StoreError::Persistence`] and the store is what it was before.
//! Reading never touches the database.

use vstd::prelude::*;
use crate::model::{owner_of, StoreState};
use crate::recipe::{Ingredient, IngredientData, Recipe, RecipeData, StoreError, id_of, text_of};
use crate::sql::{
    delete_recipe, insert_ingredients, insert_recipe, remove_named, schema, select_ingredients,
    select_recipes, set_have, Statement,
};
use crate::storage::{
    begin, commit, connection_of, execute, open_file, open_memory, read_ingredients, read_recipes,
    IngredientColumns, RecipeColumns,
};
use crate::store::{slice_text, RecipeStore};

verus! {

/// The recipe that a row of five columns stands for.
pub open spec fn recipe_of(c: RecipeColumns) -> RecipeData {
    RecipeData {
        id: Some(c.0 as int),
        title: c.1@,
        link: c.2@,
        category: text_of(c.3),
        steps: text_of(c.4),
    }
}

/// The ingredient that a row of four columns stands for.
pub open spec fn ingredient_of(c: IngredientColumns) -> IngredientData {
    IngredientData { id: c.0 as int, name: c.1@, recipe_id: id_of(c.2), have: c.3 }
}

/// The recipes that rows of five columns stand for, in their order.
pub fn recipes_from(rows: Vec<RecipeColumns>) -> (recipes: Vec<Recipe>)
    ensures
        recipes.deep_view() == rows@.map_values(|c: RecipeColumns| recipe_of(c)),
{
    let ghost raw = rows@;
    let mut recipes: Vec<Recipe> = Vec::new();
    for c in it: rows.into_iter()
        invariant
            it.seq() == raw,
            recipes.len() == it.index(),
            forall|k: int| 0 <= k < recipes.len() ==> (#[trigger] recipes[k])@ == recipe_of(raw[k]),
    {
        recipes.push(Recipe { id: Some(c.0), title: c.1, link: c.2, category: c.3, steps: c.4 });
    }
    assert(recipes.deep_view() =~= raw.map_values(|c: RecipeColumns| recipe_of(c)));
    recipes
}

/// The ingredients that rows of four columns stand for, in their order.
pub fn ingredients_from(rows: Vec<IngredientColumns>) -> (ingredients: Vec<Ingredient>)
    ensures
        ingredients.deep_view() == rows@.map_values(|c: IngredientColumns| ingredient_of(c)),
{
    let ghost raw = rows@;
    let mut ingredients: Vec<Ingredient> = Vec::new();
    for c in it: rows.into_iter()
        invariant
            it.seq() == raw,
            ingredients.len() == it.index(),
            forall|k: int|
                0 <= k < ingredients.len() ==> (#[trigger] ingredients[k])@ == ingredient_of(raw[k]),
    {
        ingredients.push(Ingredient { id: c.0, name: c.1, recipe_id: c.2, have: c.3 });
    }
    assert(ingredients.deep_view() =~= raw.map_values(|c: IngredientColumns| ingredient_of(c)));
    ingredients
}

/// Whether the database took a statement: it did unless it reported an
/// error, however many rows it says it changed.
pub fn taken(outcome: &Result<usize, rusqlite::Error>) -> (done: bool)
    ensures
        done == outcome is Ok,
{
    match outcome {
        Ok(_) => true,
        Err(_) => false,
    }
}

/// Runs `statement` on `conn` and says whether the database took it.
fn run(conn: &rusqlite::Connection, statement: &Statement) -> (done: bool) {
    let outcome = execute(conn, statement.sql.as_str(), &statement.params);
    taken(&outcome)
}

/// Runs `plan` on `conn`, statement by statement, and stops at the first
/// that the database does not take. Says whether it took them all.
fn run_all(conn: &rusqlite::Connection, plan: &Vec<Statement>) -> (done: bool) {
    let mut k: usize = 0;
    while k < plan.len()
        invariant
            k <= plan.len(),
        decreases plan.len() - k,
    {
        if !run(conn, &plan[k]) {
            return false;
        }
        k += 1;
    }
    true
}

/// Has the database enforce the link from an ingredient to its recipe, and
/// creates the two tables where they are not there yet.
fn prepare(conn: &rusqlite::Connection) -> (done: bool) {
    run_all(conn, &schema())
}

/// Saves one needed ingredient per name, numbered from `first` on, in one
/// transaction. Where the database fails at any step, the transaction is
/// dropped, which leaves the database as it was.
fn insert_all(conn: &mut rusqlite::Connection, first: i64, names: &[String], owner: Option<i64>) -> (done:
    bool)
    requires
        1 <= first,
        first + names.len() - 1 <= i64::MAX,
{
    let tx = match begin(conn) {
        Ok(tx) => tx,
        Err(_) => {
            return false;
        },
    };
    if !run_all(connection_of(&tx), &insert_ingredients(first, names, owner)) {
        return false;
    }
    commit(tx).is_ok()
}

/// Marks as acquired, then deletes, the ingredients whose name is one of
/// `names`, in one transaction. Where the database fails at any step, the
/// transaction is dropped, which leaves the database as it was.
fn mark_and_delete(conn: &mut rusqlite::Connection, names: &[String]) -> (done: bool) {
    let tx = match begin(conn) {
        Ok(tx) => tx,
        Err(_) => {
            return false;
        },
    };
    if !run_all(connection_of(&tx), &remove_named(names)) {
        return false;
    }
    commit(tx).is_ok()
}

/// The state that the rows of both tables stand for, as they were read.
pub open spec fn state_of(recipes: Seq<RecipeColumns>, ingredients: Seq<IngredientColumns>) -> StoreState {
    StoreState {
        recipes: recipes.map_values(|c: RecipeColumns| recipe_of(c)),
        ingredients: ingredients.map_values(|c: IngredientColumns| ingredient_of(c)),
    }
}

/// The store that the two queries found, whatever their outcome: the store
/// of the rows read, in their order, where both queries succeeded and the
/// rows keep the invariant of the store; a storage failure otherwise.
pub fn store_from(
    recipes: Result<Vec<RecipeColumns>, rusqlite::Error>,
    ingredients: Result<Vec<IngredientColumns>, rusqlite::Error>,
) -> (r: Result<RecipeStore, StoreError>)
    ensures
        match (recipes, ingredients) {
            (Ok(found), Ok(owned)) if state_of(found@, owned@).wf() => r is Ok && r.unwrap()@
                == state_of(found@, owned@),
            _ => r matches Err(e) && e == StoreError::Persistence,
        },
        r matches Ok(store) ==> store@.wf(),
{
    let found = match recipes {
        Ok(rows) => recipes_from(rows),
        Err(_) => {
            return Err(StoreError::Persistence);
        },
    };
    let owned = match ingredients {
        Ok(rows) => ingredients_from(rows),
        Err(_) => {
            return Err(StoreError::Persistence);
        },
    };
    RecipeStore::from_rows(found, owned)
}

/// The rows that the database holds, as a store, if they fit one.
fn load(conn: &rusqlite::Connection) -> (r: Result<RecipeStore, StoreError>)
    ensures
        match r {
            Ok(store) => store@.wf(),
            Err(e) => e == StoreError::Persistence,
        },
{
    let recipes = read_recipes(conn, select_recipes());
    let ingredients = read_ingredients(conn, select_ingredients());
    store_from(recipes, ingredients)
}

/// A store of recipes and ingredients that is kept in a SQLite database.
#[derive(Debug)]
pub struct RecipeDatabase {
    conn: rusqlite::Connection,
    store: RecipeStore,
}

impl View for RecipeDatabase {
    type V = StoreState;

    closed spec fn view(&self) -> StoreState {
        self.store@
    }
}

impl RecipeDatabase {
    /// Opens the store in the file `recipes.db` of the working directory.
    /// See [`RecipeDatabase::open`].
    pub fn new() -> (r: Result<RecipeDatabase, StoreError>)
        ensures
            match r {
                Ok(db) => db@.wf(),
                Err(e) => e == StoreError::Persistence,
            },
    {
        RecipeDatabase::open("recipes.db")
    }

    /// Opens the store in the database file at `path`.
    ///
    /// The file and the two tables are created where they are not there
    /// yet; opening a store a second time finds what the first left. What
    /// the store holds then is what the file holds, so nothing is promised
    /// of it but the invariant: a file whose rows break it is refused.
    pub fn open(path: &str) -> (r: Result<RecipeDatabase, StoreError>)
        ensures
            match r {
                Ok(db) => db@.wf(),
                Err(e) => e == StoreError::Persistence,
            },
    {
        let conn = match open_file(path) {
            Ok(conn) => conn,
            Err(_) => {
                return Err(StoreError::Persistence);
            },
        };
        if !prepare(&conn) {
            return Err(StoreError::Persistence);
        }
        match load(&conn) {
            Ok(store) => Ok(RecipeDatabase { conn, store }),
            Err(e) => Err(e),
        }
    }

    /// Opens an empty store in a database that lives in memory.
    pub fn open_in_memory() -> (r: Result<RecipeDatabase, StoreError>)
        ensures
            match r {
                Ok(db) => db@ == StoreState::empty() && db@.wf(),
                Err(e) => e == StoreError::Persistence,
            },
    {
        let conn = match open_memory() {
            Ok(conn) => conn,
            Err(_) => {
                return Err(StoreError::Persistence);
            },
        };
        if !prepare(&conn) {
            return Err(StoreError::Persistence);
        }
        Ok(RecipeDatabase { conn, store: RecipeStore::new() })
    }

    /// The number of stored recipes.
    pub fn recipe_count(&self) -> (n: usize)
        ensures
            n == self@.recipes.len(),
    {
        self.store.recipe_count()
    }

    /// The number of stored ingredients, needed or not.
    pub fn ingredient_count(&self) -> (n: usize)
        ensures
            n == self@.ingredients.len(),
    {
        self.store.ingredient_count()
    }

    /// Saves `recipe` under the next identifier and returns that identifier.
    ///
    /// A recipe without a title or without a link is refused as invalid
    /// before the database is touched. The identifier that `recipe` carries
    /// is not looked at.
    pub fn add_recipe(&mut self, recipe: &Recipe) -> (r: Result<i64, StoreError>)
        requires
            old(self)@.wf(),
        ensures
            match old(self)@.add_recipe_error(recipe@) {
                Some(e) => r == Err::<i64, StoreError>(e) && final(self)@ == old(self)@,
                None => {
                    ||| r == Ok::<i64, StoreError>(old(self)@.next_recipe_id() as i64)
                        && final(self)@ == old(self)@.add_recipe(recipe@)
                    ||| r == Err::<i64, StoreError>(StoreError::Persistence) && final(self)@ == old(
                        self,
                    )@
                },
            },
            final(self)@.wf(),
    {
        let id = match self.store.check_add_recipe(recipe) {
            Ok(id) => id,
            Err(e) => {
                return Err(e);
            },
        };
        if !run(&self.conn, &insert_recipe(id, recipe)) {
            return Err(StoreError::Persistence);
        }
        self.store.add_recipe(recipe)
    }

    /// Removes the recipe `recipe_id` and every ingredient it owns.
    ///
    /// Reports `NotFound`, and changes nothing, if no such recipe is stored.
    pub fn delete_recipe(&mut self, recipe_id: i64) -> (r: Result<(), StoreError>)
        requires
            old(self)@.wf(),
        ensures
            match old(self)@.delete_recipe_error(recipe_id as int) {
                Some(e) => r == Err::<(), StoreError>(e) && final(self)@ == old(self)@,
                None => {
                    ||| r == Ok::<(), StoreError>(()) && final(self)@ == old(self)@.delete_recipe(
                        recipe_id as int,
                    )
                    ||| r == Err::<(), StoreError>(StoreError::Persistence) && final(self)@ == old(
                        self,
                    )@
                },
            },
            final(self)@.wf(),
    {
        if !self.store.has_recipe(recipe_id) {
            return Err(StoreError::NotFound);
        }
        if !run(&self.conn, &delete_recipe(recipe_id)) {
            return Err(StoreError::Persistence);
        }
        self.store.delete_recipe(recipe_id)
    }

    /// The stored recipes whose category is exactly `category`, or all of
    /// them where no category is given, in the order in which they were
    /// saved. This never fails.
    pub fn get_recipes(&self, category: Option<&str>) -> (r: Result<Vec<Recipe>, StoreError>)
        ensures
            r is Ok,
            r.unwrap().deep_view() == self@.list_recipes(slice_text(category)),
    {
        Ok(self.store.get_recipes(category))
    }

    /// The names of the ingredients that the recipe `recipe_id` owns. The
    /// list is empty where the recipe has none or is not stored. This never
    /// fails.
    pub fn get_recipe_ingredients(&self, recipe_id: i64) -> (r: Result<Vec<String>, StoreError>)
        ensures
            r is Ok,
            r.unwrap().deep_view() == self@.recipe_ingredients(recipe_id as int),
    {
        Ok(self.store.get_recipe_ingredients(recipe_id))
    }

    /// Adds one needed ingredient per name, owned by the recipe `recipe_id`,
    /// or by none where `recipe_id` is `0`. Either all rows are added or none.
    ///
    /// An empty list changes nothing, does not touch the database and is
    /// never refused. Otherwise the rows are refused where the recipe is
    /// not stored.
    pub fn add_ingredients(&mut self, recipe_id: i64, ingredients: &[String]) -> (r: Result<
        (),
        StoreError,
    >)
        requires
            old(self)@.wf(),
        ensures
            match old(self)@.add_ingredients_error(
                owner_of(recipe_id as int),
                ingredients.deep_view(),
            ) {
                Some(e) => r == Err::<(), StoreError>(e) && final(self)@ == old(self)@,
                None => {
                    ||| r == Ok::<(), StoreError>(()) && final(self)@ == old(self)@.add_ingredients(
                        owner_of(recipe_id as int),
                        ingredients.deep_view(),
                    )
                    ||| r == Err::<(), StoreError>(StoreError::Persistence) && final(self)@ == old(
                        self,
                    )@
                },
            },
            ingredients.len() == 0 ==> r == Ok::<(), StoreError>(()) && final(self)@ == old(self)@,
            final(self)@.wf(),
    {
        let first = match self.store.check_add_ingredients(recipe_id, ingredients) {
            Ok(first) => first,
            Err(e) => {
                return Err(e);
            },
        };
        if ingredients.len() == 0 {
            proof {
                assert(ingredients.deep_view() =~= Seq::empty());
                crate::laws::lemma_add_no_ingredients(self@, owner_of(recipe_id as int));
            }
            return Ok(());
        }
        let owner: Option<i64> = if recipe_id == 0 {
            None
        } else {
            Some(recipe_id)
        };
        if !insert_all(&mut self.conn, first, ingredients, owner) {
            return Err(StoreError::Persistence);
        }
        self.store.add_ingredients(recipe_id, ingredients)
    }

    /// The shopping list: the names of the ingredients that are still
    /// needed, in the order in which they were added. It is made anew from
    /// the ingredients on every call, and this never fails.
    pub fn get_shopping_list(&self) -> (r: Result<Vec<String>, StoreError>)
        ensures
            r is Ok,
            r.unwrap().deep_view() == self@.shopping_list(),
    {
        Ok(self.store.get_shopping_list())
    }

    /// Sets the flag of every ingredient called exactly `name`, however many
    /// there are.
    pub fn set_have(&mut self, name: &str, have: bool) -> (r: Result<(), StoreError>)
        requires
            old(self)@.wf(),
        ensures
            match r {
                Ok(_) => final(self)@ == old(self)@.set_have(name@, have),
                Err(e) => e == StoreError::Persistence && final(self)@ == old(self)@,
            },
            final(self)@.wf(),
    {
        if !run(&self.conn, &set_have(name, have)) {
            return Err(StoreError::Persistence);
        }
        self.store.set_have(name, have);
        Ok(())
    }

    /// Marks as acquired, and removes, every ingredient whose name is one of
    /// `ingredient_names`, in one transaction: either all of them leave the
    /// store or, where the database fails at any step, none does.
    ///
    /// An empty list changes nothing, does not touch the database and never
    /// fails.
    pub fn mark_and_remove_ingredients(&mut self, ingredient_names: &[String]) -> (r: Result<
        (),
        StoreError,
    >)
        requires
            old(self)@.wf(),
        ensures
            match r {
                Ok(_) => final(self)@ == old(self)@.mark_and_remove(ingredient_names.deep_view()),
                Err(e) => e == StoreError::Persistence && final(self)@ == old(self)@,
            },
            ingredient_names.len() == 0 ==> r == Ok::<(), StoreError>(()) && final(self)@ == old(
                self,
            )@,
            final(self)@.wf(),
    {
        if ingredient_names.len() == 0 {
            proof {
                assert(ingredient_names.deep_view() =~= Seq::empty());
                crate::laws::lemma_remove_no_ingredients(self@);
            }
            return Ok(());
        }
        if !mark_and_delete(&mut self.conn, ingredient_names) {
            return Err(StoreError::Persistence);
        }
        self.store.mark_and_remove_ingredients(ingredient_names);
        Ok(())
    }
}

} // verus!
