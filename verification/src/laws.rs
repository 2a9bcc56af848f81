//! What holds of the store whatever it holds: the laws that relate its
//! operations to each other.

use vstd::prelude::*;
use crate::model::{
    acquired_if_named, flagged, in_category, lemma_filter_from, lemma_filter_has, name_of, needed,
    not_named_in, not_owned_by, owned_by, StoreState,
};

verus! {

/// Adding no ingredients changes nothing, whoever would have owned them.
pub proof fn lemma_add_no_ingredients(s: StoreState, owner: Option<int>)
    ensures
        s.add_ingredients_error(owner, Seq::empty()) is None,
        s.add_ingredients(owner, Seq::empty()) == s,
{
    assert(s.ingredients + s.new_ingredients(owner, Seq::empty()) =~= s.ingredients);
}

/// Removing the ingredients of no name changes nothing.
pub proof fn lemma_remove_no_ingredients(s: StoreState)
    ensures
        s.mark_and_remove(Seq::empty()) == s,
{
    let keep = not_named_in(Seq::empty());
    assert forall|i: int| 0 <= i < s.ingredients.len() implies keep(#[trigger] s.ingredients[i]) by {}
    lemma_filter_all(s.ingredients, keep);
}

/// Keeping the rows that pass a test which every row passes keeps them all.
pub proof fn lemma_filter_all<T>(s: Seq<T>, keep: spec_fn(T) -> bool)
    requires
        forall|i: int| 0 <= i < s.len() ==> keep(#[trigger] s[i]),
    ensures
        s.filter(keep) == s,
    decreases s.len(),
{
    reveal(Seq::filter);
    if s.len() > 0 {
        lemma_filter_all(s.drop_last(), keep);
        assert(s.drop_last().push(s.last()) =~= s);
    }
}

/// Keeping the rows that pass a test which no row passes keeps none.
pub proof fn lemma_filter_none<T>(s: Seq<T>, keep: spec_fn(T) -> bool)
    requires
        forall|i: int| 0 <= i < s.len() ==> !keep(#[trigger] s[i]),
    ensures
        s.filter(keep) == Seq::<T>::empty(),
    decreases s.len(),
{
    reveal(Seq::filter);
    if s.len() > 0 {
        lemma_filter_none(s.drop_last(), keep);
    }
}

/// Deleting a recipe takes its ingredients with it: once the recipe `id` is
/// deleted, it has no ingredients left, whatever it had before.
pub proof fn lemma_delete_cascades(s: StoreState, id: int)
    ensures
        s.delete_recipe(id).recipe_ingredients(id) == Seq::<Seq<char>>::empty(),
        !s.delete_recipe(id).has_recipe(id),
{
    let t = s.delete_recipe(id);
    assert forall|k: int| 0 <= k < t.ingredients.len() implies !owned_by(id)(
        #[trigger] t.ingredients[k],
    ) by {
        let i = lemma_filter_from(s.ingredients, not_owned_by(id), k);
    }
    lemma_filter_none(t.ingredients, owned_by(id));
    assert(t.recipe_ingredients(id) =~= Seq::empty());
    if t.has_recipe(id) {
        let k = choose|k: int| 0 <= k < t.recipes.len() && (#[trigger] t.recipes[k]).id == Some(id);
        let i = lemma_filter_from(s.recipes, crate::model::recipe_is_not(id), k);
    }
}

/// Deleting a recipe leaves the ingredients of every other recipe, and the
/// entries made by hand, as they were.
pub proof fn lemma_delete_spares_others(s: StoreState, id: int, other: int)
    requires
        other != id,
    ensures
        s.delete_recipe(id).recipe_ingredients(other) == s.recipe_ingredients(other),
    decreases s.ingredients.len(),
{
    reveal(Seq::filter);
    if s.ingredients.len() > 0 {
        let front = StoreState { ingredients: s.ingredients.drop_last(), ..s };
        lemma_delete_spares_others(front, id, other);
        let last = s.ingredients.last();
        let kept = front.ingredients.filter(not_owned_by(id));
        if not_owned_by(id)(last) {
            kept.lemma_filter_push(last, owned_by(other));
            assert(s.ingredients.filter(not_owned_by(id)) == kept.push(last));
            if owned_by(other)(last) {
                assert(kept.filter(owned_by(other)).push(last).map_values(name_of())
                    =~= kept.filter(owned_by(other)).map_values(name_of()).push(last.name));
                assert(front.ingredients.filter(owned_by(other)).push(last).map_values(name_of())
                    =~= front.ingredients.filter(owned_by(other)).map_values(name_of()).push(
                    last.name,
                ));
            }
        }
    }
}

/// The shopping list holds exactly the names of the needed ingredients: a
/// name is on it just when some stored ingredient of that name is needed.
pub proof fn lemma_shopping_list_is_needed(s: StoreState, name: Seq<char>)
    ensures
        s.shopping_list().contains(name) <==> exists|i: int|
            0 <= i < s.ingredients.len() && (#[trigger] s.ingredients[i]).name == name
                && !s.ingredients[i].have,
{
    let kept = s.ingredients.filter(needed());
    if s.shopping_list().contains(name) {
        let k = choose|k: int| 0 <= k < s.shopping_list().len() && s.shopping_list()[k] == name;
        let i = lemma_filter_from(s.ingredients, needed(), k);
        assert(s.ingredients[i].name == name && !s.ingredients[i].have);
    }
    if exists|i: int|
        0 <= i < s.ingredients.len() && (#[trigger] s.ingredients[i]).name == name
            && !s.ingredients[i].have {
        let i = choose|i: int|
            0 <= i < s.ingredients.len() && (#[trigger] s.ingredients[i]).name == name
                && !s.ingredients[i].have;
        let k = lemma_filter_has(s.ingredients, needed(), i);
        assert(s.shopping_list()[k] == name);
    }
}

/// The shopping list has one entry for each needed ingredient, no more.
pub proof fn lemma_shopping_list_len(s: StoreState)
    ensures
        s.shopping_list().len() == s.ingredients.filter(needed()).len(),
        s.shopping_list().len() <= s.ingredients.len(),
{
    s.ingredients.lemma_filter_len(needed());
}

/// Once the ingredients called `name` are marked as acquired, `name` is not
/// on the shopping list: the mark reaches every ingredient of that name.
pub proof fn lemma_acquired_leaves_list(s: StoreState, name: Seq<char>)
    ensures
        !s.set_have(name, true).shopping_list().contains(name),
{
    let t = s.set_have(name, true);
    lemma_shopping_list_is_needed(t, name);
    assert forall|i: int| 0 <= i < t.ingredients.len() && (#[trigger] t.ingredients[i]).name
        == name implies t.ingredients[i].have by {
        assert(t.ingredients[i] == flagged(name, true)(s.ingredients[i]));
    }
}

/// Marking the ingredients of one name leaves every other name on the
/// shopping list just when it was there before.
pub proof fn lemma_mark_spares_others(s: StoreState, name: Seq<char>, have: bool, other: Seq<char>)
    requires
        other != name,
    ensures
        s.set_have(name, have).shopping_list().contains(other) <==> s.shopping_list().contains(
            other,
        ),
{
    let t = s.set_have(name, have);
    lemma_shopping_list_is_needed(t, other);
    lemma_shopping_list_is_needed(s, other);
    if s.shopping_list().contains(other) {
        let i = choose|i: int|
            0 <= i < s.ingredients.len() && (#[trigger] s.ingredients[i]).name == other
                && !s.ingredients[i].have;
        assert(t.ingredients[i] == flagged(name, have)(s.ingredients[i]));
    }
    if t.shopping_list().contains(other) {
        let i = choose|i: int|
            0 <= i < t.ingredients.len() && (#[trigger] t.ingredients[i]).name == other
                && !t.ingredients[i].have;
        assert(t.ingredients[i] == flagged(name, have)(s.ingredients[i]));
        assert(s.ingredients[i].name == other && !s.ingredients[i].have);
    }
}

/// Removing ingredients by name is marking them as acquired and then
/// deleting them: the mark is never seen, because every marked row leaves.
pub proof fn lemma_mark_then_delete(s: StoreState, names: Seq<Seq<char>>)
    ensures
        s.ingredients.map_values(acquired_if_named(names)).filter(not_named_in(names))
            == s.mark_and_remove(names).ingredients,
    decreases s.ingredients.len(),
{
    reveal(Seq::filter);
    let marked = s.ingredients.map_values(acquired_if_named(names));
    if s.ingredients.len() > 0 {
        let front = StoreState { ingredients: s.ingredients.drop_last(), ..s };
        lemma_mark_then_delete(front, names);
        assert(marked.drop_last() =~= front.ingredients.map_values(acquired_if_named(names)));
        assert(marked.last() == acquired_if_named(names)(s.ingredients.last()));
    }
}

/// After removing ingredients by name, none of the names is on the shopping
/// list, and none of them names a stored ingredient.
pub proof fn lemma_removed_are_gone(s: StoreState, names: Seq<Seq<char>>, name: Seq<char>)
    requires
        names.contains(name),
    ensures
        !s.mark_and_remove(names).shopping_list().contains(name),
        forall|i: int|
            0 <= i < s.mark_and_remove(names).ingredients.len() ==> (
            #[trigger] s.mark_and_remove(names).ingredients[i]).name != name,
{
    let t = s.mark_and_remove(names);
    assert forall|k: int| 0 <= k < t.ingredients.len() implies (#[trigger] t.ingredients[k]).name
        != name by {
        let i = lemma_filter_from(s.ingredients, not_named_in(names), k);
    }
    lemma_shopping_list_is_needed(t, name);
}

/// A listing by category holds the recipes of exactly that category, letter
/// for letter: every recipe listed has it, and every stored recipe that has
/// it is listed. A recipe of another spelling, or of no category, is not.
pub proof fn lemma_category_exact(s: StoreState, category: Seq<char>)
    ensures
        forall|k: int|
            0 <= k < s.list_recipes(Some(category)).len() ==> (#[trigger] s.list_recipes(
                Some(category),
            )[k]).category == Some(category),
        forall|i: int|
            0 <= i < s.recipes.len() && (#[trigger] s.recipes[i]).category == Some(category)
                ==> s.list_recipes(Some(category)).contains(s.recipes[i]),
        forall|k: int|
            0 <= k < s.list_recipes(Some(category)).len() ==> s.recipes.contains(
                #[trigger] s.list_recipes(Some(category))[k],
            ),
{
    let listed = s.list_recipes(Some(category));
    assert forall|k: int| 0 <= k < listed.len() implies (#[trigger] listed[k]).category == Some(
        category,
    ) && s.recipes.contains(listed[k]) by {
        let i = lemma_filter_from(s.recipes, in_category(category), k);
    }
    assert forall|i: int|
        0 <= i < s.recipes.len() && (#[trigger] s.recipes[i]).category == Some(
            category,
        ) implies listed.contains(s.recipes[i]) by {
        let k = lemma_filter_has(s.recipes, in_category(category), i);
    }
}

/// A recipe that was just added is stored under the identifier it was
/// given, and the ingredients added for it are its ingredients, in their
/// order, after those it had.
pub proof fn lemma_added_ingredients_are_owned(s: StoreState, id: int, names: Seq<Seq<char>>)
    requires
        id != 0,
    ensures
        s.add_ingredients(Some(id), names).recipe_ingredients(id) == s.recipe_ingredients(id)
            + names,
        s.add_ingredients(Some(id), names).shopping_list() == s.shopping_list() + names,
{
    let fresh = s.new_ingredients(Some(id), names);
    Seq::filter_distributes_over_add(s.ingredients, fresh, owned_by(id));
    Seq::filter_distributes_over_add(s.ingredients, fresh, needed());
    assert forall|i: int| 0 <= i < fresh.len() implies owned_by(id)(#[trigger] fresh[i])
        && needed()(fresh[i]) by {}
    lemma_filter_all(fresh, owned_by(id));
    lemma_filter_all(fresh, needed());
    assert(fresh.map_values(name_of()) =~= names);
    assert((s.ingredients.filter(owned_by(id)) + fresh).map_values(name_of())
        =~= s.ingredients.filter(owned_by(id)).map_values(name_of()) + fresh.map_values(
        name_of(),
    ));
    assert((s.ingredients.filter(needed()) + fresh).map_values(name_of()) =~= s.ingredients.filter(
        needed(),
    ).map_values(name_of()) + fresh.map_values(name_of()));
}

} // verus!
