//! Recipes: their forms, assembly from stored rows, search by ingredients,
//! and the decisions of the handlers that add and delete them.

use vstd::prelude::*;
use std::collections::HashMap;
use crate::ids::{new_random_id, uuid_variant, uuid_version};
use crate::routes::ingredients::IngredientData;
use crate::reply::{Field, Progress, Reply, StoreError};

verus! {

broadcast use vstd::std_specs::hash::group_hash_axioms;

/// A recipe: its name, its ingredient lines and its directions.
#[derive(Debug, PartialEq, Eq)]
pub struct RecipeData {
    pub name: String,
    pub ingredients: Vec<IngredientData>,
    pub directions: String,
}

/// A request to add a recipe, made by the user `referer_id`.
#[derive(Debug, PartialEq, Eq)]
pub struct AddRecipeData {
    pub referer_id: u128,
    pub recipe: RecipeData,
}

/// A request to delete the recipe `name`, made by the user `referer_id`.
#[derive(Debug, PartialEq, Eq)]
pub struct DeleteRecipeData {
    pub referer_id: u128,
    pub name: String,
}

/// A request for the recipe `name`.
#[derive(Debug, PartialEq, Eq)]
pub struct GetRecipeData {
    pub name: String,
}

/// A search for recipes by ingredient names. With `wildcard` every recipe that
/// uses one of the ingredients is found; without it, only those whose required
/// ingredients are all among them.
#[derive(Debug, PartialEq, Eq)]
pub struct GetRecipesFromIngredientsData {
    pub ingredients: Vec<String>,
    pub wildcard: bool,
}

/// The row stored for a new recipe.
#[derive(Debug, PartialEq, Eq)]
pub struct NewRecipeRow {
    pub id: u128,
    pub name: String,
    pub directions: String,
}

/// One row of the stored recipe joined with one of its ingredient lines.
/// Quantity and unit are nullable columns.
#[derive(Debug, PartialEq, Eq)]
pub struct RecipeRow {
    pub recipe_name: String,
    pub directions: String,
    pub ingredient_name: String,
    pub quantity_bits: Option<u32>,
    pub unit: Option<String>,
    pub required: bool,
}

/// Builds the row for a new recipe: a fresh identifier, the recipe's name and
/// its directions.
pub fn new_recipe_row(form: &RecipeData) -> (row: NewRecipeRow)
    ensures
        row.name@ == form.name@,
        row.directions@ == form.directions@,
        uuid_version(row.id) == 4,
        uuid_variant(row.id) == 2,
{
    recipe_row(form, new_random_id())
}

/// The row under identifier `id` for a new recipe: its name and directions.
pub fn recipe_row(form: &RecipeData, id: u128) -> (row: NewRecipeRow)
    ensures
        row.id == id,
        row.name@ == form.name@,
        row.directions@ == form.directions@,
{
    NewRecipeRow { id, name: form.name.clone(), directions: form.directions.clone() }
}

/// Every row has a quantity and a unit.
pub open spec fn rows_complete(rows: Seq<RecipeRow>) -> bool {
    forall|i: int| 0 <= i < rows.len() ==> (#[trigger] rows[i]).quantity_bits is Some && rows[i].unit is Some
}

/// The ingredient line `line` is the one that the row `row` describes.
pub open spec fn line_of_row(line: IngredientData, row: RecipeRow) -> bool {
    &&& line.name@ == row.ingredient_name@
    &&& row.quantity_bits == Some(line.quantity_bits)
    &&& row.unit matches Some(unit) && unit@ == line.unit@
    &&& line.required == row.required
}

/// Assembles a recipe from its stored rows: none when there is no row; else
/// the name and the directions of the first row, and one ingredient line per
/// row, in row order. Every row must carry a quantity and a unit.
pub fn recipe_from_rows(rows: &Vec<RecipeRow>) -> (recipe: Option<RecipeData>)
    requires
        rows_complete(rows@),
    ensures
        rows@.len() == 0 <==> recipe is None,
        recipe matches Some(recipe) ==> {
            &&& recipe.name@ == rows@[0].recipe_name@
            &&& recipe.directions@ == rows@[0].directions@
            &&& recipe.ingredients@.len() == rows@.len()
            &&& forall|i: int| 0 <= i < rows@.len() ==> line_of_row(#[trigger] recipe.ingredients@[i], rows@[i])
        },
{
    if rows.len() == 0 {
        return None;
    }
    let mut ingredients: Vec<IngredientData> = Vec::new();
    let mut i: usize = 0;
    while i < rows.len()
        invariant
            rows_complete(rows@),
            i <= rows@.len(),
            ingredients@.len() == i,
            forall|k: int| 0 <= k < i ==> line_of_row(#[trigger] ingredients@[k], rows@[k]),
        decreases rows@.len() - i,
    {
        let row = &rows[i];
        let quantity_bits = row.quantity_bits.unwrap();
        let unit = row.unit.as_ref().unwrap().clone();
        ingredients.push(IngredientData {
            name: row.ingredient_name.clone(),
            quantity_bits,
            unit,
            required: row.required,
        });
        i = i + 1;
    }
    Some(RecipeData {
        name: rows[0].recipe_name.clone(),
        ingredients,
        directions: rows[0].directions.clone(),
    })
}

/// The answer to a request for one recipe: 404 when there is no recipe of
/// that name, the recipe as JSON when there is, 500 when the read failed.
pub fn get_recipe_reply<E>(found: Result<Option<RecipeData>, E>) -> (reply: Reply<RecipeData>)
    ensures
        match found {
            Ok(Some(recipe)) => reply == Reply::Json(recipe),
            Ok(None) => reply is NotFound,
            Err(_) => reply is InternalError,
        },
{
    match found {
        Ok(Some(recipe)) => Reply::Json(recipe),
        Ok(None) => Reply::NotFound,
        Err(_) => Reply::InternalError,
    }
}

/// `name` is one of `names`.
pub open spec fn names_contain(names: Seq<String>, name: Seq<char>) -> bool {
    exists|j: int| 0 <= j < names.len() && (#[trigger] names[j])@ == name
}

/// Every required ingredient of `recipe` is one of `names`.
pub open spec fn required_ingredients_listed(recipe: RecipeData, names: Seq<String>) -> bool {
    forall|i: int|
        0 <= i < recipe.ingredients@.len() && (#[trigger] recipe.ingredients@[i]).required ==> names_contain(
            names,
            recipe.ingredients@[i].name@,
        )
}

/// The recipes of `recipes`, in order, whose required ingredients are all in
/// `names`.
pub open spec fn exact_matches(recipes: Seq<RecipeData>, names: Seq<String>) -> Seq<RecipeData> {
    recipes.filter(listed_in(names))
}

/// The predicate "every required ingredient is one of `names`".
pub open spec fn listed_in(names: Seq<String>) -> spec_fn(RecipeData) -> bool {
    |recipe: RecipeData| required_ingredients_listed(recipe, names)
}

/// Whether `name` is one of `names`.
pub fn contains_name(names: &Vec<String>, name: &String) -> (found: bool)
    ensures
        found == names_contain(names@, name@),
{
    let mut j: usize = 0;
    while j < names.len()
        invariant
            j <= names@.len(),
            forall|k: int| 0 <= k < j ==> (#[trigger] names@[k])@ != name@,
        decreases names@.len() - j,
    {
        if names[j] == *name {
            return true;
        }
        j = j + 1;
    }
    false
}

/// Whether every required ingredient of `recipe` is one of `names`.
pub fn covers_required_ingredients(recipe: &RecipeData, names: &Vec<String>) -> (covered: bool)
    ensures
        covered == required_ingredients_listed(*recipe, names@),
        covered <==> forall|i: int|
            0 <= i < recipe.ingredients@.len() && (#[trigger] recipe.ingredients@[i]).required ==> exists|j: int|
                0 <= j < names@.len() && names@[j]@ == recipe.ingredients@[i].name@,
{
    let mut i: usize = 0;
    while i < recipe.ingredients.len()
        invariant
            i <= recipe.ingredients@.len(),
            forall|k: int|
                0 <= k < i && (#[trigger] recipe.ingredients@[k]).required ==> names_contain(
                    names@,
                    recipe.ingredients@[k].name@,
                ),
        decreases recipe.ingredients@.len() - i,
    {
        let line = &recipe.ingredients[i];
        if line.required && !contains_name(names, &line.name) {
            return false;
        }
        i = i + 1;
    }
    true
}

/// Keeps, in order, the recipes whose required ingredients are all in `names`.
pub fn keep_exact_matches(recipes: Vec<RecipeData>, names: &Vec<String>) -> (kept: Vec<RecipeData>)
    ensures
        kept@ == exact_matches(recipes@, names@),
{
    let ghost all = recipes@;
    let ghost pred = listed_in(names@);
    let mut kept: Vec<RecipeData> = Vec::new();
    for recipe in it: recipes.into_iter()
        invariant
            it.seq() == all,
            pred == listed_in(names@),
            kept@ == all.take(it.index() as int).filter(pred),
    {
        let ghost before = all.take(it.index() as int);
        proof {
            assert(all.take(it.index() + 1) == before.push(recipe));
            before.lemma_filter_push(recipe, pred);
        }
        if covers_required_ingredients(&recipe, names) {
            kept.push(recipe);
        }
    }
    proof {
        assert(all.take(all.len() as int) == all);
    }
    kept
}

/// The answer to a recipe search, given the recipes that use at least one of
/// the searched ingredients: all of them as JSON for a wildcard search, else
/// those whose required ingredients were all searched for; 500 when reading
/// the candidates failed.
pub fn get_recipes_reply<E>(form: &GetRecipesFromIngredientsData, candidates: Result<Vec<RecipeData>, E>) -> (reply: Reply<Vec<RecipeData>>)
    ensures
        match candidates {
            Ok(found) => reply matches Reply::Json(out) && out@ == if form.wildcard {
                found@
            } else {
                exact_matches(found@, form.ingredients@)
            },
            Err(_) => reply is InternalError,
        },
{
    match candidates {
        Ok(found) => {
            if form.wildcard {
                Reply::Json(found)
            } else {
                Reply::Json(keep_exact_matches(found, &form.ingredients))
            }
        },
        Err(_) => Reply::InternalError,
    }
}

/// An exact search keeps a candidate if and only if every one of its required
/// ingredients was searched for, and keeps nothing but candidates: a wildcard
/// search finds everything that an exact one finds.
pub proof fn lemma_exact_search(candidates: Seq<RecipeData>, names: Seq<String>)
    ensures
        exact_matches(candidates, names).len() <= candidates.len(),
        forall|i: int|
            0 <= i < exact_matches(candidates, names).len() ==> required_ingredients_listed(
                #[trigger] exact_matches(candidates, names)[i],
                names,
            ),
        forall|i: int|
            0 <= i < candidates.len() && required_ingredients_listed(#[trigger] candidates[i], names)
                ==> exact_matches(candidates, names).contains(candidates[i]),
        forall|r: RecipeData| #[trigger] exact_matches(candidates, names).contains(r) ==> candidates.contains(r),
{
    broadcast use vstd::seq_lib::group_filter_ensures;
    let pred = listed_in(names);
    assert forall|i: int| 0 <= i < candidates.filter(pred).len() implies required_ingredients_listed(
        #[trigger] candidates.filter(pred)[i],
        names,
    ) by {
        assert(pred(candidates.filter(pred)[i]));
    }
    assert forall|i: int| 0 <= i < candidates.len() && required_ingredients_listed(#[trigger] candidates[i], names)
        implies candidates.filter(pred).contains(candidates[i]) by {
        assert(pred(candidates[i]));
    }
    assert forall|r: RecipeData| #[trigger] candidates.filter(pred).contains(r) implies candidates.contains(r) by {
        candidates.lemma_filter_contains_rev(pred, r);
    }
}

/// An exact search looks at every ingredient line of a recipe, wherever it
/// stands: each recipe it keeps has the name of every one of its required
/// lines among the searched names, and each candidate with that property is
/// kept.
pub proof fn lemma_exact_search_checks_every_required_line(candidates: Seq<RecipeData>, names: Seq<String>)
    ensures
        forall|k: int, i: int|
            0 <= k < exact_matches(candidates, names).len() && 0 <= i < exact_matches(candidates, names)[k].ingredients@.len()
                && (#[trigger] exact_matches(candidates, names)[k].ingredients@[i]).required ==> exists|j: int|
                0 <= j < names.len() && names[j]@ == exact_matches(candidates, names)[k].ingredients@[i].name@,
        forall|k: int|
            0 <= k < candidates.len() && (forall|i: int|
                0 <= i < candidates[k].ingredients@.len() && (#[trigger] candidates[k].ingredients@[i]).required
                    ==> exists|j: int| 0 <= j < names.len() && names[j]@ == candidates[k].ingredients@[i].name@)
                ==> #[trigger] exact_matches(candidates, names).contains(candidates[k]),
{
    lemma_exact_search(candidates, names);
    assert forall|k: int, i: int|
        0 <= k < exact_matches(candidates, names).len() && 0 <= i < exact_matches(candidates, names)[k].ingredients@.len()
            && (#[trigger] exact_matches(candidates, names)[k].ingredients@[i]).required implies exists|j: int|
            0 <= j < names.len() && names[j]@ == exact_matches(candidates, names)[k].ingredients@[i].name@ by {
        assert(required_ingredients_listed(exact_matches(candidates, names)[k], names));
    }
    assert forall|k: int|
        0 <= k < candidates.len() && (forall|i: int|
            0 <= i < candidates[k].ingredients@.len() && (#[trigger] candidates[k].ingredients@[i]).required
                ==> exists|j: int| 0 <= j < names.len() && names[j]@ == candidates[k].ingredients@[i].name@)
            implies #[trigger] exact_matches(candidates, names).contains(candidates[k]) by {
        assert forall|i: int|
            0 <= i < candidates[k].ingredients@.len() && (#[trigger] candidates[k].ingredients@[i]).required
                implies names_contain(names, candidates[k].ingredients@[i].name@) by {
            let j = choose|j: int| 0 <= j < names.len() && names[j]@ == candidates[k].ingredients@[i].name@;
            assert(names[j]@ == candidates[k].ingredients@[i].name@);
        }
        assert(required_ingredients_listed(candidates[k], names));
    }
}

/// Searching for more ingredients never loses a match: a recipe whose
/// required ingredients are all among `fewer` also has them all among any
/// `more` that holds every name of `fewer`.
pub proof fn lemma_more_names_keep_matches(recipe: RecipeData, fewer: Seq<String>, more: Seq<String>)
    requires
        forall|j: int| 0 <= j < fewer.len() ==> names_contain(more, (#[trigger] fewer[j])@),
        required_ingredients_listed(recipe, fewer),
    ensures
        required_ingredients_listed(recipe, more),
{
    assert forall|i: int|
        0 <= i < recipe.ingredients@.len() && (#[trigger] recipe.ingredients@[i]).required implies names_contain(
            more,
            recipe.ingredients@[i].name@,
        ) by {
        let j = choose|j: int| 0 <= j < fewer.len() && (#[trigger] fewer[j])@ == recipe.ingredients@[i].name@;
        assert(names_contain(more, fewer[j]@));
    }
}

/// Searching for more ingredients never loses a match, over a whole list of
/// candidates: every recipe that an exact search for `fewer` keeps, an exact
/// search for any `more` that holds every name of `fewer` keeps too.
pub proof fn lemma_exact_search_monotone(candidates: Seq<RecipeData>, fewer: Seq<String>, more: Seq<String>)
    requires
        forall|j: int| 0 <= j < fewer.len() ==> names_contain(more, (#[trigger] fewer[j])@),
    ensures
        forall|r: RecipeData| #[trigger] exact_matches(candidates, fewer).contains(r) ==> exact_matches(candidates, more).contains(r),
{
    broadcast use vstd::seq_lib::group_filter_ensures;
    assert forall|r: RecipeData| #[trigger] exact_matches(candidates, fewer).contains(r) implies exact_matches(candidates, more).contains(r) by {
        let k = choose|k: int| 0 <= k < candidates.filter(listed_in(fewer)).len() && candidates.filter(listed_in(fewer))[k] == r;
        assert(listed_in(fewer)(candidates.filter(listed_in(fewer))[k]));
        candidates.lemma_filter_contains_rev(listed_in(fewer), r);
        let i = choose|i: int| 0 <= i < candidates.len() && candidates[i] == r;
        lemma_more_names_keep_matches(r, fewer, more);
        assert(listed_in(more)(candidates[i]));
    }
}

/// An exact search depends on the searched names only as a set: two lists
/// that hold the same names, in any order and with any repeats, keep the same
/// recipes in the same order.
pub proof fn lemma_exact_search_ignores_order_and_repeats(candidates: Seq<RecipeData>, a: Seq<String>, b: Seq<String>)
    requires
        forall|j: int| 0 <= j < a.len() ==> names_contain(b, (#[trigger] a[j])@),
        forall|j: int| 0 <= j < b.len() ==> names_contain(a, (#[trigger] b[j])@),
    ensures
        exact_matches(candidates, a) == exact_matches(candidates, b),
{
    assert forall|r: RecipeData| #[trigger] listed_in(a)(r) == listed_in(b)(r) by {
        if required_ingredients_listed(r, a) {
            lemma_more_names_keep_matches(r, a, b);
        }
        if required_ingredients_listed(r, b) {
            lemma_more_names_keep_matches(r, b, a);
        }
    }
    assert(listed_in(a) =~= listed_in(b));
}

/// A stored error is the server's report that a unique constraint was
/// violated (SQLSTATE `23505`): a row with the same key already exists.
pub open spec fn is_unique_violation(error: StoreError) -> bool {
    error matches StoreError::Database(Some(code)) && code@ == "23505"@
}

/// Whether a stored error reports a unique-constraint violation.
pub fn unique_violation(error: &StoreError) -> (violated: bool)
    ensures
        violated == is_unique_violation(*error),
{
    match error {
        StoreError::Database(Some(code)) => *code == String::from_str("23505"),
        _ => false,
    }
}

/// What has just happened while adding a recipe.
#[derive(Debug, PartialEq, Eq)]
pub enum AddRecipeEvent {
    /// The request arrived.
    Received,
    /// The check of the referer's write permission gave this.
    WritePermission(Result<bool, StoreError>),
    /// Storing the recipe's ingredients (and resolving them to identifiers)
    /// gave this.
    IngredientsStored(Result<(), StoreError>),
    /// Storing the recipe row gave this (the new recipe's identifier).
    RecipeStored(Result<u128, StoreError>),
    /// Linking the ingredients to the recipe gave this.
    IngredientsLinked(Result<(), StoreError>),
}

/// What to do next while adding a recipe.
#[derive(Debug, PartialEq, Eq)]
pub enum AddRecipeAction {
    CheckWritePermission,
    StoreIngredients,
    StoreRecipe,
    LinkIngredients(u128),
    Respond(Reply<()>),
}

/// The decisions of adding a recipe, one event at a time: check the
/// referer's write permission (403 when refused); store the ingredients, then
/// the recipe, then the links between them; a recipe name that is taken is
/// answered 409 naming the field; any other failure 500; success 200.
pub open spec fn add_recipe_next(event: AddRecipeEvent) -> AddRecipeAction {
    match event {
        AddRecipeEvent::Received => AddRecipeAction::CheckWritePermission,
        AddRecipeEvent::WritePermission(Ok(true)) => AddRecipeAction::StoreIngredients,
        AddRecipeEvent::WritePermission(Ok(false)) => AddRecipeAction::Respond(Reply::Forbidden),
        AddRecipeEvent::WritePermission(Err(_)) => AddRecipeAction::Respond(Reply::InternalError),
        AddRecipeEvent::IngredientsStored(Ok(())) => AddRecipeAction::StoreRecipe,
        AddRecipeEvent::IngredientsStored(Err(_)) => AddRecipeAction::Respond(Reply::InternalError),
        AddRecipeEvent::RecipeStored(Ok(id)) => AddRecipeAction::LinkIngredients(id),
        AddRecipeEvent::RecipeStored(Err(e)) => if is_unique_violation(e) {
            AddRecipeAction::Respond(Reply::Conflict(Field::Name))
        } else {
            AddRecipeAction::Respond(Reply::InternalError)
        },
        AddRecipeEvent::IngredientsLinked(Ok(())) => AddRecipeAction::Respond(Reply::Success),
        AddRecipeEvent::IngredientsLinked(Err(_)) => AddRecipeAction::Respond(Reply::InternalError),
    }
}

/// The next step of adding a recipe after `event`.
pub fn add_recipe_step(event: AddRecipeEvent) -> (action: AddRecipeAction)
    ensures
        action == add_recipe_next(event),
{
    match event {
        AddRecipeEvent::Received => AddRecipeAction::CheckWritePermission,
        AddRecipeEvent::WritePermission(Ok(true)) => AddRecipeAction::StoreIngredients,
        AddRecipeEvent::WritePermission(Ok(false)) => AddRecipeAction::Respond(Reply::Forbidden),
        AddRecipeEvent::WritePermission(Err(_)) => AddRecipeAction::Respond(Reply::InternalError),
        AddRecipeEvent::IngredientsStored(Ok(())) => AddRecipeAction::StoreRecipe,
        AddRecipeEvent::IngredientsStored(Err(_)) => AddRecipeAction::Respond(Reply::InternalError),
        AddRecipeEvent::RecipeStored(Ok(id)) => AddRecipeAction::LinkIngredients(id),
        AddRecipeEvent::RecipeStored(Err(e)) => {
            if unique_violation(&e) {
                AddRecipeAction::Respond(Reply::Conflict(Field::Name))
            } else {
                AddRecipeAction::Respond(Reply::InternalError)
            }
        },
        AddRecipeEvent::IngredientsLinked(Ok(())) => AddRecipeAction::Respond(Reply::Success),
        AddRecipeEvent::IngredientsLinked(Err(_)) => AddRecipeAction::Respond(Reply::InternalError),
    }
}

/// `event` is a possible outcome of carrying out `action`.
pub open spec fn add_recipe_answers(action: AddRecipeAction, event: AddRecipeEvent) -> bool {
    match action {
        AddRecipeAction::CheckWritePermission => event is WritePermission,
        AddRecipeAction::StoreIngredients => event is IngredientsStored,
        AddRecipeAction::StoreRecipe => event is RecipeStored,
        AddRecipeAction::LinkIngredients(_) => event is IngredientsLinked,
        AddRecipeAction::Respond(_) => false,
    }
}

/// A run of the handler: it starts when the request arrives, and each later
/// event is the outcome of the action decided on the event before it.
pub open spec fn add_recipe_run(events: Seq<AddRecipeEvent>) -> bool {
    &&& events.len() > 0
    &&& events[0] is Received
    &&& forall|i: int|
        0 <= i < events.len() - 1 ==> add_recipe_answers(#[trigger] add_recipe_next(events[i]), events[i + 1])
}

/// The action writes to the database.
pub open spec fn add_recipe_writes(action: AddRecipeAction) -> bool {
    action is StoreIngredients || action is StoreRecipe || action is LinkIngredients
}

/// Nothing is written unless the referer's write permission was granted:
/// in every run, a writing action is only ever decided after the permission
/// check answered `true`.
pub proof fn lemma_add_recipe_writes_need_permission(events: Seq<AddRecipeEvent>, k: int)
    requires
        add_recipe_run(events),
        0 <= k < events.len(),
        add_recipe_writes(add_recipe_next(events[k])),
    ensures
        1 <= k,
        events[1] == AddRecipeEvent::WritePermission(Ok(true)),
    decreases k,
{
    if k > 0 {
        assert(add_recipe_answers(add_recipe_next(events[k - 1]), events[k]));
        if events[k] is WritePermission {
            assert(add_recipe_next(events[k - 1]) is CheckWritePermission);
            if k - 1 > 0 {
                assert(add_recipe_answers(add_recipe_next(events[k - 2]), events[k - 1]));
            }
        } else {
            lemma_add_recipe_writes_need_permission(events, k - 1);
        }
    }
}

/// A request whose referer may not write is answered 403, the run ends
/// there, and nothing is written.
pub proof fn lemma_add_recipe_refused(events: Seq<AddRecipeEvent>)
    requires
        add_recipe_run(events),
        events.len() > 1,
        events[1] == AddRecipeEvent::WritePermission(Ok(false)),
    ensures
        add_recipe_next(events[1]) == AddRecipeAction::Respond(Reply::Forbidden),
        events.len() == 2,
        forall|k: int| 0 <= k < events.len() ==> !add_recipe_writes(#[trigger] add_recipe_next(events[k])),
{
    if events.len() > 2 {
        assert(add_recipe_answers(add_recipe_next(events[1]), events[2]));
    }
    assert forall|k: int| 0 <= k < events.len() implies !add_recipe_writes(#[trigger] add_recipe_next(events[k])) by {
        if add_recipe_writes(add_recipe_next(events[k])) {
            lemma_add_recipe_writes_need_permission(events, k);
        }
    }
}

/// What has just happened while deleting a recipe.
#[derive(Debug, PartialEq, Eq)]
pub enum DeleteRecipeEvent {
    /// The request arrived.
    Received,
    /// The check of the referer's delete permission gave this.
    DeletePermission(Result<bool, StoreError>),
    /// Deleting the recipe gave this.
    RecipeDeleted(Result<(), StoreError>),
}

/// What to do next while deleting a recipe.
#[derive(Debug, PartialEq, Eq)]
pub enum DeleteRecipeAction {
    CheckDeletePermission,
    DeleteRecipe,
    Respond(Reply<()>),
}

/// The decisions of deleting a recipe: check the referer's delete permission
/// (403 when refused), then delete; 200 on success, 500 on any failure.
pub open spec fn delete_recipe_next(event: DeleteRecipeEvent) -> DeleteRecipeAction {
    match event {
        DeleteRecipeEvent::Received => DeleteRecipeAction::CheckDeletePermission,
        DeleteRecipeEvent::DeletePermission(Ok(true)) => DeleteRecipeAction::DeleteRecipe,
        DeleteRecipeEvent::DeletePermission(Ok(false)) => DeleteRecipeAction::Respond(Reply::Forbidden),
        DeleteRecipeEvent::DeletePermission(Err(_)) => DeleteRecipeAction::Respond(Reply::InternalError),
        DeleteRecipeEvent::RecipeDeleted(Ok(())) => DeleteRecipeAction::Respond(Reply::Success),
        DeleteRecipeEvent::RecipeDeleted(Err(_)) => DeleteRecipeAction::Respond(Reply::InternalError),
    }
}

/// The next step of deleting a recipe after `event`.
pub fn delete_recipe_step(event: DeleteRecipeEvent) -> (action: DeleteRecipeAction)
    ensures
        action == delete_recipe_next(event),
{
    match event {
        DeleteRecipeEvent::Received => DeleteRecipeAction::CheckDeletePermission,
        DeleteRecipeEvent::DeletePermission(Ok(true)) => DeleteRecipeAction::DeleteRecipe,
        DeleteRecipeEvent::DeletePermission(Ok(false)) => DeleteRecipeAction::Respond(Reply::Forbidden),
        DeleteRecipeEvent::DeletePermission(Err(_)) => DeleteRecipeAction::Respond(Reply::InternalError),
        DeleteRecipeEvent::RecipeDeleted(Ok(())) => DeleteRecipeAction::Respond(Reply::Success),
        DeleteRecipeEvent::RecipeDeleted(Err(_)) => DeleteRecipeAction::Respond(Reply::InternalError),
    }
}

/// `event` is a possible outcome of carrying out `action`.
pub open spec fn delete_recipe_answers(action: DeleteRecipeAction, event: DeleteRecipeEvent) -> bool {
    match action {
        DeleteRecipeAction::CheckDeletePermission => event is DeletePermission,
        DeleteRecipeAction::DeleteRecipe => event is RecipeDeleted,
        DeleteRecipeAction::Respond(_) => false,
    }
}

/// A run of the handler: it starts when the request arrives, and each later
/// event is the outcome of the action decided on the event before it.
pub open spec fn delete_recipe_run(events: Seq<DeleteRecipeEvent>) -> bool {
    &&& events.len() > 0
    &&& events[0] is Received
    &&& forall|i: int|
        0 <= i < events.len() - 1 ==> delete_recipe_answers(#[trigger] delete_recipe_next(events[i]), events[i + 1])
}

/// A recipe is deleted only after the referer's delete permission was
/// granted; a refused request is answered 403 and the run ends there.
pub proof fn lemma_delete_recipe_needs_permission(events: Seq<DeleteRecipeEvent>, k: int)
    requires
        delete_recipe_run(events),
        0 <= k < events.len(),
    ensures
        delete_recipe_next(events[k]) is DeleteRecipe ==> k == 1 && events[1] == DeleteRecipeEvent::DeletePermission(Ok(true)),
        events.len() > 1 && events[1] == DeleteRecipeEvent::DeletePermission(Ok(false)) ==> {
            &&& delete_recipe_next(events[1]) == DeleteRecipeAction::Respond(Reply::Forbidden)
            &&& events.len() == 2
        },
{
    if k > 0 {
        assert(delete_recipe_answers(delete_recipe_next(events[k - 1]), events[k]));
        if k > 1 {
            assert(delete_recipe_answers(delete_recipe_next(events[k - 2]), events[k - 1]));
        }
    }
    if events.len() > 2 {
        assert(delete_recipe_answers(delete_recipe_next(events[1]), events[2]));
    }
    if events.len() > 1 {
        assert(delete_recipe_answers(delete_recipe_next(events[0]), events[1]));
    }
}

/// The recipes that a sequence of lookups by name found, in lookup order
/// (a name whose recipe could not be assembled finds nothing).
pub open spec fn found_recipes(lookups: Seq<Option<RecipeData>>) -> Seq<RecipeData>
    decreases lookups.len(),
{
    if lookups.len() == 0 {
        Seq::empty()
    } else {
        let before = found_recipes(lookups.drop_last());
        match lookups.last() {
            Some(recipe) => before.push(recipe),
            None => before,
        }
    }
}

/// Looks the candidate recipes of a search up one name at a time and
/// collects those that are found.
pub struct RecipeCollector {
    count: usize,
    next: usize,
    recipes: Vec<RecipeData>,
    lookups: Ghost<Seq<Option<RecipeData>>>,
}

impl RecipeCollector {
    /// What the lookups so far gave, in order.
    pub closed spec fn lookups(&self) -> Seq<Option<RecipeData>> {
        self.lookups@
    }

    /// The number of names to look up.
    pub closed spec fn count(&self) -> nat {
        self.count as nat
    }

    pub closed spec fn wf(&self) -> bool {
        &&& self.next == self.lookups@.len()
        &&& self.next <= self.count
        &&& self.recipes@ == found_recipes(self.lookups@)
    }

    /// Starts looking up `count` names.
    pub fn new(count: usize) -> (r: Self)
        ensures
            r.wf(),
            r.count() == count,
            r.lookups() == Seq::<Option<RecipeData>>::empty(),
    {
        RecipeCollector { count, next: 0, recipes: Vec::new(), lookups: Ghost(Seq::empty()) }
    }

    pub open spec fn next_spec<E>(&self) -> Progress<E> {
        if self.lookups().len() < self.count() {
            Progress::Next(self.lookups().len() as usize)
        } else {
            Progress::Done
        }
    }

    /// The next name to look up, or `Done` when all are.
    pub fn next_step<E>(&self) -> (step: Progress<E>)
        requires
            self.wf(),
        ensures
            step == self.next_spec::<E>(),
            step is Done <==> self.lookups().len() == self.count(),
            step matches Progress::Next(i) ==> i == self.lookups().len() && i < self.count(),
            !(step is Failed),
    {
        if self.next < self.count {
            Progress::Next(self.next)
        } else {
            Progress::Done
        }
    }

    /// Records the outcome of the lookup that `next_step` named: a found
    /// recipe is kept, a missing one skipped, and the following step returned;
    /// a failure is handed back and nothing is recorded. When no lookup was
    /// pending the outcome is ignored.
    pub fn record<E>(&mut self, outcome: Result<Option<RecipeData>, E>) -> (step: Progress<E>)
        requires
            old(self).wf(),
        ensures
            final(self).wf(),
            final(self).count() == old(self).count(),
            old(self).lookups().len() >= old(self).count() ==> {
                &&& final(self).lookups() == old(self).lookups()
                &&& step is Done
            },
            old(self).lookups().len() < old(self).count() ==> match outcome {
                Ok(found) => {
                    &&& final(self).lookups() == old(self).lookups().push(found)
                    &&& step == final(self).next_spec::<E>()
                    &&& (step is Done <==> final(self).lookups().len() == final(self).count())
                    &&& (step matches Progress::Next(i) ==> i == final(self).lookups().len())
                },
                Err(e) => {
                    &&& final(self).lookups() == old(self).lookups()
                    &&& step == Progress::Failed(e)
                },
            },
    {
        if self.next >= self.count {
            return Progress::Done;
        }
        match outcome {
            Ok(found) => {
                let ghost lookups = self.lookups@.push(found);
                proof {
                    assert(lookups.drop_last() =~= self.lookups@);
                }
                match found {
                    Some(recipe) => self.recipes.push(recipe),
                    None => {},
                }
                self.next = self.next + 1;
                self.lookups = Ghost(lookups);
                self.next_step()
            },
            Err(e) => Progress::Failed(e),
        }
    }

    /// The recipes found, in lookup order.
    pub fn into_recipes(self) -> (recipes: Vec<RecipeData>)
        requires
            self.wf(),
        ensures
            recipes@ == found_recipes(self.lookups()),
    {
        self.recipes
    }
}

/// Collecting candidates looks the names up in order and stops only when
/// every name is looked up: while some remain, the next one asked for is the
/// first not yet looked up, and `Done` comes exactly when all `count` are.
pub proof fn lemma_collector_looks_up_every_name<E>(collector: RecipeCollector)
    requires
        collector.wf(),
    ensures
        collector.next_spec::<E>() is Done <==> collector.lookups().len() == collector.count(),
        collector.next_spec::<E>() matches Progress::Next(i) ==> i == collector.lookups().len() && i < collector.count(),
{
}

/// The row that links one ingredient line to a stored recipe.
#[derive(Debug, PartialEq, Eq)]
pub struct RecipeIngredientRow {
    pub id: u128,
    pub recipe_id: u128,
    pub ingredient_id: u128,
    pub quantity_bits: u32,
    pub unit: String,
    pub required: bool,
}

/// `row` links the ingredient `ingredient_id` to the recipe `recipe_id` with
/// the quantity, unit and requiredness of `line`.
pub open spec fn links(row: RecipeIngredientRow, recipe_id: u128, ingredient_id: u128, line: IngredientData) -> bool {
    &&& row.recipe_id == recipe_id
    &&& row.ingredient_id == ingredient_id
    &&& row.quantity_bits == line.quantity_bits
    &&& row.unit@ == line.unit@
    &&& row.required == line.required
}

/// The row under identifier `id` that links the ingredient `ingredient_id`
/// to the recipe `recipe_id` with the quantity, unit and requiredness of
/// `line`.
pub fn link_row(id: u128, recipe_id: u128, ingredient_id: u128, line: &IngredientData) -> (row: RecipeIngredientRow)
    ensures
        row.id == id,
        links(row, recipe_id, ingredient_id, *line),
{
    RecipeIngredientRow {
        id,
        recipe_id,
        ingredient_id,
        quantity_bits: line.quantity_bits,
        unit: line.unit.clone(),
        required: line.required,
    }
}

/// Every identifier of `ids` maps to a line of `lines`.
pub open spec fn lines_in_range(ids: Map<u128, usize>, lines: Seq<IngredientData>) -> bool {
    forall|id: u128| #[trigger] ids.contains_key(id) ==> ids[id] < lines.len()
}

/// Builds the link rows of a new recipe: one per resolved ingredient
/// identifier, carrying the line that the identifier maps to, each under a
/// fresh identifier. The rows come in the order in which the map is walked.
pub fn link_rows(recipe_id: u128, ids: &HashMap<u128, usize>, lines: &Vec<IngredientData>) -> (rows: Vec<RecipeIngredientRow>)
    requires
        lines_in_range(ids@, lines@),
    ensures
        rows@.len() == ids@.dom().len(),
        forall|i: int|
            0 <= i < rows@.len() ==> {
                let id = (#[trigger] rows@[i]).ingredient_id;
                &&& ids@.contains_key(id)
                &&& links(rows@[i], recipe_id, id, lines@[ids@[id] as int])
                &&& uuid_version(rows@[i].id) == 4
                &&& uuid_variant(rows@[i].id) == 2
            },
        forall|i: int, j: int|
            0 <= i < j < rows@.len() ==> (#[trigger] rows@[i]).ingredient_id != (#[trigger] rows@[j]).ingredient_id,
        forall|id: u128| #[trigger] ids@.contains_key(id) ==> exists|i: int| 0 <= i < rows@.len() && (#[trigger] rows@[i]).ingredient_id == id,
{
    let mut rows: Vec<RecipeIngredientRow> = Vec::new();
    for entry in it: ids.iter()
        invariant
            lines_in_range(ids@, lines@),
            it.seq() == vstd::std_specs::iter::IteratorSpec::remaining(&vstd::std_specs::hash::spec_hash_map_iter(ids)),
            rows@.len() == it.index(),
            forall|i: int|
                0 <= i < rows@.len() ==> {
                    let id = (#[trigger] rows@[i]).ingredient_id;
                    &&& id == *it.seq()[i].0
                    &&& ids@.contains_key(id)
                    &&& links(rows@[i], recipe_id, id, lines@[ids@[id] as int])
                    &&& uuid_version(rows@[i].id) == 4
                &&& uuid_variant(rows@[i].id) == 2
                },
    {
        let (id, line) = entry;
        proof {
            let k = it.index();
            assert(it.seq()[k] == entry);
            assert(ids@.contains_key(*it.seq()[k].0));
            assert(ids@[*it.seq()[k].0] == *it.seq()[k].1);
        }
        rows.push(link_row(new_random_id(), recipe_id, *id, &lines[*line]));
    }
    proof {
        let walk = vstd::std_specs::iter::IteratorSpec::remaining(&vstd::std_specs::hash::spec_hash_map_iter(ids));
        assert forall|id: u128| #[trigger] ids@.contains_key(id) implies exists|i: int|
            0 <= i < rows@.len() && (#[trigger] rows@[i]).ingredient_id == id by {
            assert(walk.contains((&id, &ids@[id])));
            let i = choose|i: int| 0 <= i < walk.len() && walk[i] == (&id, &ids@[id]);
            assert(rows@[i].ingredient_id == *walk[i].0);
        }
    }
    rows
}

/// Where a transaction that stores a recipe's links stands.
#[derive(Debug, PartialEq, Eq)]
pub enum LinkStage<E> {
    /// Waiting for the transaction to open.
    Beginning,
    /// Waiting for the insert of the next link.
    Inserting,
    /// An insert failed with this error; waiting for the rollback.
    RollingBack(E),
    /// Every link is inserted; waiting for the commit.
    Committing,
    /// The outcome has been handed out.
    Finished,
}

/// What to do next while storing a recipe's links.
#[derive(Debug, PartialEq, Eq)]
pub enum LinkAction<E> {
    /// Open the transaction.
    Begin,
    /// Insert link row `i` in the transaction.
    Insert(usize),
    /// Roll the transaction back.
    RollBack,
    /// Commit the transaction.
    Commit,
    /// Stop, with this outcome.
    Finish(Result<(), E>),
}

/// One step of storing `count` links in a transaction: from the stage, the
/// number of links inserted so far and the outcome of the last action, the
/// next stage, the new number of links inserted, and the next action.
/// A failed insert rolls the transaction back and passes on the insert's
/// error, or the rollback's own error when that fails too; a failure to open
/// or to commit is passed on; the transaction succeeds only by a commit.
pub open spec fn link_next<E>(stage: LinkStage<E>, inserted: nat, count: nat, outcome: Result<(), E>) -> (LinkStage<E>, nat, LinkAction<E>) {
    match stage {
        LinkStage::Beginning => match outcome {
            Ok(_) => if count > 0 {
                (LinkStage::Inserting, inserted, LinkAction::Insert(inserted as usize))
            } else {
                (LinkStage::Committing, inserted, LinkAction::Commit)
            },
            Err(e) => (LinkStage::Finished, inserted, LinkAction::Finish(Err(e))),
        },
        LinkStage::Inserting => match outcome {
            Ok(_) => if inserted + 1 < count {
                (LinkStage::Inserting, inserted + 1, LinkAction::Insert((inserted + 1) as usize))
            } else {
                (LinkStage::Committing, inserted + 1, LinkAction::Commit)
            },
            Err(e) => (LinkStage::RollingBack(e), inserted, LinkAction::RollBack),
        },
        LinkStage::RollingBack(insert_error) => match outcome {
            Ok(_) => (LinkStage::Finished, inserted, LinkAction::Finish(Err(insert_error))),
            Err(e) => (LinkStage::Finished, inserted, LinkAction::Finish(Err(e))),
        },
        LinkStage::Committing => match outcome {
            Ok(_) => (LinkStage::Finished, inserted, LinkAction::Finish(Ok(()))),
            Err(e) => (LinkStage::Finished, inserted, LinkAction::Finish(Err(e))),
        },
        LinkStage::Finished => (LinkStage::Finished, inserted, LinkAction::Finish(Ok(()))),
    }
}

/// Stores a new recipe's link rows in one transaction: all of them or none.
pub struct LinkTransaction<E> {
    count: usize,
    inserted: usize,
    stage: LinkStage<E>,
}

impl<E> LinkTransaction<E> {
    pub closed spec fn stage(&self) -> LinkStage<E> {
        self.stage
    }

    /// The number of links inserted so far.
    pub closed spec fn inserted(&self) -> nat {
        self.inserted as nat
    }

    /// The number of links to store.
    pub closed spec fn count(&self) -> nat {
        self.count as nat
    }

    pub closed spec fn wf(&self) -> bool {
        &&& self.inserted <= self.count
        &&& self.stage is Beginning ==> self.inserted == 0
        &&& self.stage is Inserting ==> self.inserted < self.count
        &&& self.stage is RollingBack ==> self.inserted < self.count
        &&& self.stage is Committing ==> self.inserted == self.count
    }

    /// Starts storing `count` links; the first action is to open the
    /// transaction.
    pub fn new(count: usize) -> (r: (Self, LinkAction<E>))
        ensures
            r.0.wf(),
            r.0.count() == count,
            r.0.inserted() == 0,
            r.0.stage() is Beginning,
            r.1 is Begin,
    {
        (LinkTransaction { count, inserted: 0, stage: LinkStage::Beginning }, LinkAction::Begin)
    }

    /// Whether the outcome has been handed out.
    pub fn is_finished(&self) -> (finished: bool)
        ensures
            finished == self.stage() is Finished,
    {
        match self.stage {
            LinkStage::Finished => true,
            _ => false,
        }
    }

    /// Records the outcome of the last action and decides the next one.
    pub fn record(&mut self, outcome: Result<(), E>) -> (action: LinkAction<E>)
        requires
            old(self).wf(),
            !(old(self).stage() is Finished),
        ensures
            final(self).wf(),
            final(self).count() == old(self).count(),
            (final(self).stage(), final(self).inserted(), action) == link_next(
                old(self).stage(),
                old(self).inserted(),
                old(self).count(),
                outcome,
            ),
    {
        let mut stage = LinkStage::Finished;
        std::mem::swap(&mut stage, &mut self.stage);
        match stage {
            LinkStage::Beginning => match outcome {
                Ok(()) => {
                    if self.count > 0 {
                        self.stage = LinkStage::Inserting;
                        LinkAction::Insert(self.inserted)
                    } else {
                        self.stage = LinkStage::Committing;
                        LinkAction::Commit
                    }
                },
                Err(e) => LinkAction::Finish(Err(e)),
            },
            LinkStage::Inserting => match outcome {
                Ok(()) => {
                    self.inserted = self.inserted + 1;
                    if self.inserted < self.count {
                        self.stage = LinkStage::Inserting;
                        LinkAction::Insert(self.inserted)
                    } else {
                        self.stage = LinkStage::Committing;
                        LinkAction::Commit
                    }
                },
                Err(e) => {
                    self.stage = LinkStage::RollingBack(e);
                    LinkAction::RollBack
                },
            },
            LinkStage::RollingBack(insert_error) => match outcome {
                Ok(()) => LinkAction::Finish(Err(insert_error)),
                Err(e) => LinkAction::Finish(Err(e)),
            },
            LinkStage::Committing => match outcome {
                Ok(()) => LinkAction::Finish(Ok(())),
                Err(e) => LinkAction::Finish(Err(e)),
            },
            LinkStage::Finished => LinkAction::Finish(Ok(())),
        }
    }
}

/// Where storing `count` links stands after the actions so far were answered
/// by `outcomes`, starting from an unopened transaction.
pub open spec fn link_run<E>(count: nat, outcomes: Seq<Result<(), E>>) -> (LinkStage<E>, nat, LinkAction<E>)
    decreases outcomes.len(),
{
    if outcomes.len() == 0 {
        (LinkStage::Beginning, 0, LinkAction::Begin)
    } else {
        let before = link_run(count, outcomes.drop_last());
        link_next(before.0, before.1, count, outcomes.last())
    }
}

/// No outcome was fed after the outcome was handed out.
pub open spec fn link_run_proper<E>(count: nat, outcomes: Seq<Result<(), E>>) -> bool {
    forall|k: int| 0 <= k < outcomes.len() ==> !((#[trigger] link_run(count, outcomes.take(k))).0 is Finished)
}

/// Every outcome is a success.
pub open spec fn all_succeeded<E>(outcomes: Seq<Result<(), E>>) -> bool {
    forall|k: int| 0 <= k < outcomes.len() ==> (#[trigger] outcomes[k]) is Ok
}

/// All or nothing: a transaction that reports success opened, inserted every
/// one of its links in order and committed, each step succeeding; a failed
/// insert is always followed by a rollback.
pub proof fn lemma_links_all_or_nothing<E>(count: nat, outcomes: Seq<Result<(), E>>)
    requires
        link_run_proper(count, outcomes),
    ensures
        ({
            let (stage, inserted, action) = link_run(count, outcomes);
            &&& stage is Inserting ==> {
                &&& inserted < count
                &&& outcomes.len() == inserted + 1
                &&& all_succeeded(outcomes)
                &&& action == LinkAction::<E>::Insert(inserted as usize)
            }
            &&& stage is Committing ==> {
                &&& inserted == count
                &&& outcomes.len() == count + 1
                &&& all_succeeded(outcomes)
                &&& action is Commit
            }
            &&& stage is RollingBack ==> action is RollBack
            &&& action matches LinkAction::Finish(Ok(_)) ==> {
                &&& outcomes.len() == count + 2
                &&& all_succeeded(outcomes)
            }
        }),
    decreases outcomes.len(),
{
    if outcomes.len() > 0 {
        let prev = outcomes.drop_last();
        assert forall|k: int| 0 <= k < prev.len() implies !((#[trigger] link_run(count, prev.take(k))).0 is Finished) by {
            assert(prev.take(k) == outcomes.take(k));
            assert(!(link_run(count, outcomes.take(k)).0 is Finished));
        }
        lemma_links_all_or_nothing(count, prev);
        assert(outcomes.take(prev.len() as int) == prev);
        assert(!(link_run(count, outcomes.take(prev.len() as int)).0 is Finished));
        if all_succeeded(prev) && outcomes.last() is Ok {
            assert forall|k: int| 0 <= k < outcomes.len() implies (#[trigger] outcomes[k]) is Ok by {
                if k < prev.len() {
                    assert(outcomes[k] == prev[k]);
                }
            }
        }
    }
}

} // verus!
