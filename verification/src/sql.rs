//! The statements that carry the store's changes to the database: their
//! text, and the values bound to their parameters.

use vstd::prelude::*;
use vstd::string::StringExecFns;
use crate::recipe::{text_of, Recipe};

verus! {

/// A value bound to a parameter of a statement.
#[derive(Clone, Debug, PartialEq, Eq)]
pub enum SqlValue {
    Null,
    Integer(i64),
    Text(String),
}

/// A [`SqlValue`] as a mathematical value.
pub enum SqlData {
    Null,
    Integer(int),
    Text(Seq<char>),
}

impl View for SqlValue {
    type V = SqlData;

    open spec fn view(&self) -> SqlData {
        match self {
            SqlValue::Null => SqlData::Null,
            SqlValue::Integer(i) => SqlData::Integer(*i as int),
            SqlValue::Text(s) => SqlData::Text(s@),
        }
    }
}

impl DeepView for SqlValue {
    type V = SqlData;

    open spec fn deep_view(&self) -> SqlData {
        self@
    }
}

/// What is bound for an optional text: the text, or `NULL`.
pub open spec fn optional_text(s: Option<Seq<char>>) -> SqlData {
    match s {
        Some(t) => SqlData::Text(t),
        None => SqlData::Null,
    }
}

/// What is bound for an optional identifier: the number, or `NULL`.
pub open spec fn optional_id(id: Option<int>) -> SqlData {
    match id {
        Some(i) => SqlData::Integer(i),
        None => SqlData::Null,
    }
}

/// What is bound for a flag: `1` for set, `0` for clear.
pub open spec fn flag(have: bool) -> SqlData {
    SqlData::Integer(if have { 1 } else { 0 })
}

/// The texts of `names`, each as a bound value.
pub open spec fn texts(names: Seq<Seq<char>>) -> Seq<SqlData> {
    Seq::new(names.len(), |k: int| SqlData::Text(names[k]))
}

/// A statement with one `?` parameter per bound value.
#[derive(Clone, Debug, PartialEq, Eq)]
pub struct Statement {
    pub sql: String,
    pub params: Vec<SqlValue>,
}

/// What a [`Statement`] holds, as mathematical values.
pub struct StatementData {
    pub sql: Seq<char>,
    pub params: Seq<SqlData>,
}

impl View for Statement {
    type V = StatementData;

    open spec fn view(&self) -> StatementData {
        StatementData { sql: self.sql@, params: self.params.deep_view() }
    }
}

impl DeepView for Statement {
    type V = StatementData;

    open spec fn deep_view(&self) -> StatementData {
        self@
    }
}

/// The statements that prepare a database for the store, in their order:
/// the link from an ingredient to its recipe is enforced, then each table is
/// created where it is missing.
pub open spec fn schema_plan() -> Seq<StatementData> {
    seq![
        StatementData { sql: foreign_keys_text(), params: Seq::empty() },
        StatementData { sql: create_recipes_text(), params: Seq::empty() },
        StatementData { sql: create_ingredients_text(), params: Seq::empty() },
    ]
}

/// The statements that save one needed ingredient per name, owned by
/// `owner` and numbered from `first` on, in the order of the names.
pub open spec fn insert_plan(first: int, names: Seq<Seq<char>>, owner: Option<int>) -> Seq<
    StatementData,
> {
    Seq::new(
        names.len(),
        |k: int|
            StatementData {
                sql: insert_ingredient_text(),
                params: seq![
                    SqlData::Integer(first + k),
                    SqlData::Text(names[k]),
                    optional_id(owner),
                ],
            },
    )
}

/// The statements that mark as acquired, and then delete, the ingredients
/// whose name is one of `names`.
pub open spec fn removal_plan(names: Seq<Seq<char>>) -> Seq<StatementData> {
    seq![
        StatementData { sql: mark_named_text(names.len()), params: texts(names) },
        StatementData { sql: delete_named_text(names.len()), params: texts(names) },
    ]
}

/// `n` question marks, separated by a comma and a space.
pub open spec fn placeholder_list(n: nat) -> Seq<char>
    decreases n,
{
    if n == 0 {
        Seq::empty()
    } else if n == 1 {
        seq!['?']
    } else {
        placeholder_list((n - 1) as nat) + seq![',', ' ', '?']
    }
}

/// The text of the statement that creates the table of recipes, if it is
/// not there yet.
pub open spec fn create_recipes_text() -> Seq<char> {
    "CREATE TABLE IF NOT EXISTS recipes (id INTEGER PRIMARY KEY, title TEXT NOT NULL, link TEXT NOT NULL, category TEXT, steps TEXT)"@
}

/// The text of the statement that creates the table of ingredients, if it
/// is not there yet. Deleting a recipe deletes the ingredients it owns.
pub open spec fn create_ingredients_text() -> Seq<char> {
    "CREATE TABLE IF NOT EXISTS ingredients (id INTEGER PRIMARY KEY, name TEXT NOT NULL, recipe_id INTEGER, have INTEGER DEFAULT 0, FOREIGN KEY(recipe_id) REFERENCES recipes(id) ON DELETE CASCADE)"@
}

/// The text of the statement that has the database enforce the link from an
/// ingredient to its recipe.
pub open spec fn foreign_keys_text() -> Seq<char> {
    "PRAGMA foreign_keys = ON"@
}

/// The text of the query for all recipes, in the order of their identifiers.
pub open spec fn select_recipes_text() -> Seq<char> {
    "SELECT id, title, link, category, steps FROM recipes ORDER BY id"@
}

/// The text of the query for all ingredients, in the order of their identifiers.
pub open spec fn select_ingredients_text() -> Seq<char> {
    "SELECT id, name, recipe_id, have FROM ingredients ORDER BY id"@
}

/// The text of the statement that saves a recipe.
pub open spec fn insert_recipe_text() -> Seq<char> {
    "INSERT INTO recipes (id, title, link, category, steps) VALUES (?, ?, ?, ?, ?)"@
}

/// The text of the statement that deletes a recipe.
pub open spec fn delete_recipe_text() -> Seq<char> {
    "DELETE FROM recipes WHERE id = ?"@
}

/// The text of the statement that saves a needed ingredient.
pub open spec fn insert_ingredient_text() -> Seq<char> {
    "INSERT INTO ingredients (id, name, recipe_id, have) VALUES (?, ?, ?, 0)"@
}

/// The text of the statement that sets the flag of the ingredients of one name.
pub open spec fn set_have_text() -> Seq<char> {
    "UPDATE ingredients SET have = ? WHERE name = ?"@
}

/// The text of the statement that marks as acquired the ingredients whose
/// name is one of `n` names.
pub open spec fn mark_named_text(n: nat) -> Seq<char> {
    "UPDATE ingredients SET have = 1 WHERE name IN ("@ + placeholder_list(n) + ")"@
}

/// The text of the statement that deletes the ingredients whose name is one
/// of `n` names.
pub open spec fn delete_named_text(n: nat) -> Seq<char> {
    "DELETE FROM ingredients WHERE name IN ("@ + placeholder_list(n) + ")"@
}

/// The value to bind for an optional text.
pub fn bind_text(s: &Option<String>) -> (v: SqlValue)
    ensures
        v@ == optional_text(text_of(*s)),
{
    match s {
        Some(t) => SqlValue::Text(t.clone()),
        None => SqlValue::Null,
    }
}

/// `n` question marks, separated by a comma and a space.
pub fn placeholders(n: usize) -> (list: String)
    ensures
        list@ == placeholder_list(n as nat),
{
    let mut list = String::new();
    let mut k: usize = 0;
    while k < n
        invariant
            k <= n,
            list@ == placeholder_list(k as nat),
        decreases n - k,
    {
        proof {
            reveal_strlit("?");
            reveal_strlit(", ?");
        }
        if k == 0 {
            list.append("?");
            assert(list@ =~= seq!['?']);
        } else {
            list.append(", ?");
            assert(", ?"@ =~= seq![',', ' ', '?']);
        }
        k += 1;
    }
    list
}

/// A statement without parameters.
pub fn plain(sql: &str) -> (s: Statement)
    ensures
        s.sql@ == sql@,
        s.params.deep_view() == Seq::<SqlData>::empty(),
{
    let s = Statement { sql: sql.to_owned(), params: Vec::new() };
    assert(s.params.deep_view() =~= Seq::empty());
    s
}

/// The statement that has the database enforce the link from an ingredient
/// to its recipe.
pub fn enable_foreign_keys() -> (s: Statement)
    ensures
        s.sql@ == foreign_keys_text(),
        s.params.deep_view() == Seq::<SqlData>::empty(),
{
    plain("PRAGMA foreign_keys = ON")
}

/// The statement that creates the table of recipes, if it is not there yet.
pub fn create_recipes_table() -> (s: Statement)
    ensures
        s.sql@ == create_recipes_text(),
        s.params.deep_view() == Seq::<SqlData>::empty(),
{
    plain(
        "CREATE TABLE IF NOT EXISTS recipes (id INTEGER PRIMARY KEY, title TEXT NOT NULL, link TEXT NOT NULL, category TEXT, steps TEXT)",
    )
}

/// The statement that creates the table of ingredients, if it is not there
/// yet.
pub fn create_ingredients_table() -> (s: Statement)
    ensures
        s.sql@ == create_ingredients_text(),
        s.params.deep_view() == Seq::<SqlData>::empty(),
{
    plain(
        "CREATE TABLE IF NOT EXISTS ingredients (id INTEGER PRIMARY KEY, name TEXT NOT NULL, recipe_id INTEGER, have INTEGER DEFAULT 0, FOREIGN KEY(recipe_id) REFERENCES recipes(id) ON DELETE CASCADE)",
    )
}

/// The query for all recipes, in the order of their identifiers.
pub fn select_recipes() -> (sql: &'static str)
    ensures
        sql@ == select_recipes_text(),
{
    "SELECT id, title, link, category, steps FROM recipes ORDER BY id"
}

/// The query for all ingredients, in the order of their identifiers.
pub fn select_ingredients() -> (sql: &'static str)
    ensures
        sql@ == select_ingredients_text(),
{
    "SELECT id, name, recipe_id, have FROM ingredients ORDER BY id"
}

/// The statement that saves `recipe` under the identifier `id`.
pub fn insert_recipe(id: i64, recipe: &Recipe) -> (s: Statement)
    ensures
        s.sql@ == insert_recipe_text(),
        s.params.deep_view() == seq![
            SqlData::Integer(id as int),
            SqlData::Text(recipe.title@),
            SqlData::Text(recipe.link@),
            optional_text(recipe@.category),
            optional_text(recipe@.steps),
        ],
{
    let mut params: Vec<SqlValue> = Vec::new();
    params.push(SqlValue::Integer(id));
    params.push(SqlValue::Text(recipe.title.clone()));
    params.push(SqlValue::Text(recipe.link.clone()));
    params.push(bind_text(&recipe.category));
    params.push(bind_text(&recipe.steps));
    let s = Statement {
        sql: "INSERT INTO recipes (id, title, link, category, steps) VALUES (?, ?, ?, ?, ?)".to_owned(),
        params,
    };
    assert(s.params.deep_view() =~= seq![
        SqlData::Integer(id as int),
        SqlData::Text(recipe.title@),
        SqlData::Text(recipe.link@),
        optional_text(recipe@.category),
        optional_text(recipe@.steps),
    ]);
    s
}

/// The statement that deletes the recipe `id`.
pub fn delete_recipe(id: i64) -> (s: Statement)
    ensures
        s.sql@ == delete_recipe_text(),
        s.params.deep_view() == seq![SqlData::Integer(id as int)],
{
    let mut params: Vec<SqlValue> = Vec::new();
    params.push(SqlValue::Integer(id));
    let s = Statement { sql: "DELETE FROM recipes WHERE id = ?".to_owned(), params };
    assert(s.params.deep_view() =~= seq![SqlData::Integer(id as int)]);
    s
}

/// The statement that saves a needed ingredient called `name` under the
/// identifier `id`, owned by `owner`.
pub fn insert_ingredient(id: i64, name: &String, owner: Option<i64>) -> (s: Statement)
    ensures
        s.sql@ == insert_ingredient_text(),
        s.params.deep_view() == seq![
            SqlData::Integer(id as int),
            SqlData::Text(name@),
            optional_id(crate::recipe::id_of(owner)),
        ],
{
    let mut params: Vec<SqlValue> = Vec::new();
    params.push(SqlValue::Integer(id));
    params.push(SqlValue::Text(name.clone()));
    params.push(
        match owner {
            Some(r) => SqlValue::Integer(r),
            None => SqlValue::Null,
        },
    );
    let s = Statement {
        sql: "INSERT INTO ingredients (id, name, recipe_id, have) VALUES (?, ?, ?, 0)".to_owned(),
        params,
    };
    assert(s.params.deep_view() =~= seq![
        SqlData::Integer(id as int),
        SqlData::Text(name@),
        optional_id(crate::recipe::id_of(owner)),
    ]);
    s
}

/// The statement that sets the flag of every ingredient called `name`.
pub fn set_have(name: &str, have: bool) -> (s: Statement)
    ensures
        s.sql@ == set_have_text(),
        s.params.deep_view() == seq![flag(have), SqlData::Text(name@)],
{
    let mut params: Vec<SqlValue> = Vec::new();
    params.push(SqlValue::Integer(if have { 1 } else { 0 }));
    params.push(SqlValue::Text(name.to_owned()));
    let s = Statement { sql: "UPDATE ingredients SET have = ? WHERE name = ?".to_owned(), params };
    assert(s.params.deep_view() =~= seq![flag(have), SqlData::Text(name@)]);
    s
}

/// The names as bound values, in their order.
pub fn bind_names(names: &[String]) -> (params: Vec<SqlValue>)
    ensures
        params.deep_view() == texts(names.deep_view()),
{
    let mut params: Vec<SqlValue> = Vec::new();
    let mut k: usize = 0;
    while k < names.len()
        invariant
            k <= names.len(),
            params.len() == k,
            forall|j: int| 0 <= j < k ==> (#[trigger] params[j])@ == SqlData::Text(names[j]@),
        decreases names.len() - k,
    {
        params.push(SqlValue::Text(names[k].clone()));
        k += 1;
    }
    assert(params.deep_view() =~= texts(names.deep_view()));
    params
}

/// The statement that marks as acquired every ingredient whose name is one
/// of `names`.
pub fn mark_named(names: &[String]) -> (s: Statement)
    ensures
        s.sql@ == mark_named_text(names.len() as nat),
        s.params.deep_view() == texts(names.deep_view()),
{
    let mut sql = "UPDATE ingredients SET have = 1 WHERE name IN (".to_owned();
    let list = placeholders(names.len());
    sql.append(list.as_str());
    sql.append(")");
    Statement { sql, params: bind_names(names) }
}

/// The statement that deletes every ingredient whose name is one of `names`.
pub fn delete_named(names: &[String]) -> (s: Statement)
    ensures
        s.sql@ == delete_named_text(names.len() as nat),
        s.params.deep_view() == texts(names.deep_view()),
{
    let mut sql = "DELETE FROM ingredients WHERE name IN (".to_owned();
    let list = placeholders(names.len());
    sql.append(list.as_str());
    sql.append(")");
    Statement { sql, params: bind_names(names) }
}

/// The statements that prepare a database for the store, in their order.
pub fn schema() -> (plan: Vec<Statement>)
    ensures
        plan.deep_view() == schema_plan(),
{
    let mut plan: Vec<Statement> = Vec::new();
    plan.push(enable_foreign_keys());
    plan.push(create_recipes_table());
    plan.push(create_ingredients_table());
    assert(plan.deep_view() =~= schema_plan());
    plan
}

/// The statements that save one needed ingredient per name, owned by
/// `owner` and numbered from `first` on, in the order of the names.
pub fn insert_ingredients(first: i64, names: &[String], owner: Option<i64>) -> (plan: Vec<Statement>)
    requires
        1 <= first,
        first + names.len() - 1 <= i64::MAX,
    ensures
        plan.deep_view() == insert_plan(first as int, names.deep_view(), crate::recipe::id_of(owner)),
{
    let mut plan: Vec<Statement> = Vec::new();
    let mut k: usize = 0;
    while k < names.len()
        invariant
            k <= names.len(),
            1 <= first,
            first + names.len() - 1 <= i64::MAX,
            plan.len() == k,
            forall|j: int|
                0 <= j < k ==> (#[trigger] plan[j])@ == insert_plan(
                    first as int,
                    names.deep_view(),
                    crate::recipe::id_of(owner),
                )[j],
        decreases names.len() - k,
    {
        plan.push(insert_ingredient(first + k as i64, &names[k], owner));
        k += 1;
    }
    assert(plan.deep_view() =~= insert_plan(
        first as int,
        names.deep_view(),
        crate::recipe::id_of(owner),
    ));
    plan
}

/// The statements that mark as acquired, and then delete, the ingredients
/// whose name is one of `names`.
pub fn remove_named(names: &[String]) -> (plan: Vec<Statement>)
    ensures
        plan.deep_view() == removal_plan(names.deep_view()),
{
    let mut plan: Vec<Statement> = Vec::new();
    plan.push(mark_named(names));
    plan.push(delete_named(names));
    assert(plan.deep_view() =~= removal_plan(names.deep_view()));
    plan
}

} // verus!
