use bar_library_api::reply::{Field, Progress, Reply, StoreError};
use bar_library_api::routes::recipes::{unique_violation, LinkStage};
use bar_library_api::routes::{
    add_recipe_step, delete_recipe_step, get_recipe_reply, get_recipes_reply, keep_exact_matches, link_rows,
    new_recipe_row, recipe_from_rows, AddRecipeAction, AddRecipeData, AddRecipeEvent, DeleteRecipeAction,
    DeleteRecipeData, DeleteRecipeEvent, GetRecipesFromIngredientsData, IngredientData, IngredientResolver,
    LinkAction, LinkTransaction, RecipeCollector, RecipeData, RecipeRow,
};
use std::collections::HashMap;

fn line(name: &str, quantity: f32, unit: &str, required: bool) -> IngredientData {
    IngredientData {
        name: String::from(name),
        quantity_bits: quantity.to_bits(),
        unit: String::from(unit),
        required,
    }
}

fn recipe(name: &str, ingredients: Vec<IngredientData>) -> RecipeData {
    RecipeData { name: String::from(name), ingredients, directions: String::from("mix em") }
}

fn whiskey_and_coke(referer_id: u128) -> AddRecipeData {
    AddRecipeData {
        referer_id,
        recipe: RecipeData {
            name: String::from("Whiskey and coke"),
            ingredients: vec![line("bourbon", 1.0, "shot", true), line("coke", 1.0, "cup", true)],
            directions: String::from("mix em"),
        },
    }
}

fn row(recipe_name: &str, ingredient: &str, quantity: f32, unit: &str, required: bool) -> RecipeRow {
    RecipeRow {
        recipe_name: String::from(recipe_name),
        directions: String::from("stir"),
        ingredient_name: String::from(ingredient),
        quantity_bits: Some(quantity.to_bits()),
        unit: Some(String::from(unit)),
        required,
    }
}

fn names(list: &[&str]) -> Vec<String> {
    list.iter().map(|s| s.to_string()).collect()
}

#[test]
fn adding_new_recipe_works() {
    let form = whiskey_and_coke(1);
    assert_eq!(add_recipe_step(AddRecipeEvent::Received), AddRecipeAction::CheckWritePermission);
    assert_eq!(add_recipe_step(AddRecipeEvent::WritePermission(Ok(true))), AddRecipeAction::StoreIngredients);
    // The two lines resolve to two distinct ingredients.
    let mut resolver = IngredientResolver::new(form.recipe.ingredients.len());
    assert_eq!(resolver.next_step::<()>(), Progress::Next(0));
    assert_eq!(resolver.record::<()>(Ok(17)), Progress::Next(1));
    assert_eq!(resolver.record::<()>(Ok(21)), Progress::Done);
    let ids = resolver.into_ids();
    assert_eq!(add_recipe_step(AddRecipeEvent::IngredientsStored(Ok(()))), AddRecipeAction::StoreRecipe);
    let recipe_row = new_recipe_row(&form.recipe);
    assert_eq!(recipe_row.name, "Whiskey and coke");
    assert_eq!(recipe_row.directions, "mix em");
    assert_eq!(
        add_recipe_step(AddRecipeEvent::RecipeStored(Ok(recipe_row.id))),
        AddRecipeAction::LinkIngredients(recipe_row.id)
    );
    let links = link_rows(recipe_row.id, &ids, &form.recipe.ingredients);
    assert_eq!(links.len(), 2);
    for link in &links {
        assert_eq!(link.recipe_id, recipe_row.id);
        let expected = if link.ingredient_id == 17 { "shot" } else { "cup" };
        assert_eq!(link.unit, expected);
        assert_eq!(link.quantity_bits, 1.0f32.to_bits());
    }
    assert_eq!(
        add_recipe_step(AddRecipeEvent::IngredientsLinked(Ok(()))),
        AddRecipeAction::Respond(Reply::Success)
    );
}

#[test]
fn adding_new_user_without_permission_gives_403() {
    let action = add_recipe_step(AddRecipeEvent::WritePermission(Ok(false)));
    match action {
        AddRecipeAction::Respond(reply) => assert_eq!(403, reply.status_code()),
        other => panic!("unexpected {:?}", other),
    }
}

#[test]
fn add_recipe_failures_give_500() {
    for event in [
        AddRecipeEvent::WritePermission(Err(StoreError::Other)),
        AddRecipeEvent::IngredientsStored(Err(StoreError::Other)),
        AddRecipeEvent::RecipeStored(Err(StoreError::Other)),
        AddRecipeEvent::RecipeStored(Err(StoreError::Database(None))),
        AddRecipeEvent::RecipeStored(Err(StoreError::Database(Some("23503".to_string())))),
        AddRecipeEvent::IngredientsLinked(Err(StoreError::Database(Some("23505".to_string())))),
    ] {
        assert_eq!(add_recipe_step(event), AddRecipeAction::Respond(Reply::InternalError));
    }
}

#[test]
fn duplicate_recipe_name_gives_409() {
    let action = add_recipe_step(AddRecipeEvent::RecipeStored(Err(StoreError::Database(Some("23505".to_string())))));
    assert_eq!(action, AddRecipeAction::Respond(Reply::Conflict(Field::Name)));
    match action {
        AddRecipeAction::Respond(Reply::Conflict(field)) => assert_eq!(field.label(), "name"),
        other => panic!("unexpected {:?}", other),
    }
    assert_eq!(Reply::<()>::Conflict(Field::Name).status_code(), 409);
}

#[test]
fn unique_violations_are_told_apart() {
    assert!(unique_violation(&StoreError::Database(Some("23505".to_string()))));
    assert!(!unique_violation(&StoreError::Database(Some("2350".to_string()))));
    assert!(!unique_violation(&StoreError::Database(None)));
    assert!(!unique_violation(&StoreError::Other));
}

#[test]
fn delete_recipe_works() {
    let request = DeleteRecipeData { referer_id: 1, name: String::from("godfather") };
    assert_eq!(request.name, "godfather");
    assert_eq!(delete_recipe_step(DeleteRecipeEvent::Received), DeleteRecipeAction::CheckDeletePermission);
    assert_eq!(delete_recipe_step(DeleteRecipeEvent::DeletePermission(Ok(true))), DeleteRecipeAction::DeleteRecipe);
    assert_eq!(
        delete_recipe_step(DeleteRecipeEvent::RecipeDeleted(Ok(()))),
        DeleteRecipeAction::Respond(Reply::Success)
    );
    assert_eq!(
        delete_recipe_step(DeleteRecipeEvent::RecipeDeleted(Err(StoreError::Other))),
        DeleteRecipeAction::Respond(Reply::InternalError)
    );
    assert_eq!(
        delete_recipe_step(DeleteRecipeEvent::DeletePermission(Err(StoreError::Other))),
        DeleteRecipeAction::Respond(Reply::InternalError)
    );
}

#[test]
fn delete_recipe_without_permission_gives_403() {
    match delete_recipe_step(DeleteRecipeEvent::DeletePermission(Ok(false))) {
        DeleteRecipeAction::Respond(reply) => assert_eq!(403, reply.status_code()),
        other => panic!("unexpected {:?}", other),
    }
}

#[test]
fn get_recipe_works() {
    let rows = vec![row("godfather", "scotch", 2.0, "oz", true), row("godfather", "amaretto", 0.5, "oz", true)];
    let found = recipe_from_rows(&rows).expect("no recipe");
    assert_eq!(String::from("godfather"), found.name);
    assert_eq!(2, found.ingredients.len());
    assert_eq!(found.directions, "stir");
    assert_eq!(found.ingredients[1], line("amaretto", 0.5, "oz", true));
    match get_recipe_reply::<()>(Ok(Some(found))) {
        Reply::Json(recipe) => assert_eq!(recipe.name, "godfather"),
        other => panic!("unexpected {:?}", other),
    }
}

#[test]
fn recipe_not_found_returns_404() {
    assert_eq!(recipe_from_rows(&Vec::new()), None);
    assert_eq!(404, get_recipe_reply::<()>(Ok(None)).status_code());
    assert_eq!(500, get_recipe_reply(Err("db down")).status_code());
}

fn candidates() -> Vec<RecipeData> {
    vec![
        recipe("godfather", vec![line("scotch", 2.0, "oz", true), line("amaretto", 0.5, "oz", true)]),
        recipe("martini", vec![line("gin", 2.0, "oz", true), line("vermouth", 0.5, "oz", true)]),
        recipe("rusty nail", vec![line("scotch", 1.5, "oz", true), line("drambuie", 0.5, "oz", true)]),
    ]
}

#[test]
fn get_recipes_exact_works() {
    let search = GetRecipesFromIngredientsData { wildcard: false, ingredients: names(&["scotch", "amaretto", "gin"]) };
    match get_recipes_reply::<()>(&search, Ok(candidates())) {
        Reply::Json(found) => {
            assert_eq!(1, found.len());
            assert_eq!(found[0].name, "godfather");
        },
        other => panic!("unexpected {:?}", other),
    }
}

#[test]
fn get_recipes_wildcard_works() {
    let search = GetRecipesFromIngredientsData { wildcard: true, ingredients: names(&["scotch", "amaretto", "gin"]) };
    match get_recipes_reply::<()>(&search, Ok(candidates())) {
        Reply::Json(found) => assert_eq!(3, found.len()),
        other => panic!("unexpected {:?}", other),
    }
    assert_eq!(get_recipes_reply(&search, Err(())).status_code(), 500);
}

#[test]
fn optional_ingredients_need_not_be_searched() {
    let sour = recipe("whiskey sour", vec![line("bourbon", 2.0, "oz", true), line("egg white", 1.0, "", false)]);
    let kept = keep_exact_matches(vec![sour], &names(&["bourbon"]));
    assert_eq!(kept.len(), 1);
    let kept = keep_exact_matches(kept, &names(&["gin"]));
    assert_eq!(kept.len(), 0);
    // A recipe without required ingredients matches any search.
    let water = recipe("water", vec![line("ice", 1.0, "cube", false)]);
    assert_eq!(keep_exact_matches(vec![water], &Vec::new()).len(), 1);
}

#[test]
fn exact_search_keeps_order() {
    let search = names(&["scotch", "amaretto", "drambuie"]);
    let kept = keep_exact_matches(candidates(), &search);
    let found: Vec<&str> = kept.iter().map(|r| r.name.as_str()).collect();
    assert_eq!(found, vec!["godfather", "rusty nail"]);
}

#[test]
fn potential_recipes_skip_missing_names() {
    let mut collector = RecipeCollector::new(3);
    assert_eq!(collector.next_step::<()>(), Progress::Next(0));
    assert_eq!(collector.record::<()>(Ok(Some(candidates().remove(0)))), Progress::Next(1));
    assert_eq!(collector.record::<()>(Ok(None)), Progress::Next(2));
    assert_eq!(collector.record::<()>(Ok(Some(candidates().remove(2)))), Progress::Done);
    assert_eq!(collector.record::<()>(Err(())), Progress::Done);
    let found = collector.into_recipes();
    let found: Vec<&str> = found.iter().map(|r| r.name.as_str()).collect();
    assert_eq!(found, vec!["godfather", "rusty nail"]);
}

#[test]
fn potential_recipes_stop_at_first_failure() {
    let mut collector = RecipeCollector::new(2);
    assert_eq!(collector.record(Err("timeout")), Progress::Failed("timeout"));
    assert_eq!(collector.next_step::<&str>(), Progress::Next(0));
    assert_eq!(RecipeCollector::new(0).next_step::<()>(), Progress::Done);
}

#[test]
fn recipe_rows_carry_every_column() {
    let rows = vec![row("old fashioned", "bourbon", 2.0, "oz", true), row("ignored", "bitters", 2.0, "dash", false)];
    let found = recipe_from_rows(&rows).expect("no recipe");
    assert_eq!(found.name, "old fashioned");
    assert_eq!(found.ingredients[0], line("bourbon", 2.0, "oz", true));
    assert_eq!(found.ingredients[1], line("bitters", 2.0, "dash", false));
}

#[test]
fn same_ingredient_twice_links_once_with_the_last_line() {
    let lines = vec![line("lime", 1.0, "wedge", true), line("lime", 2.0, "oz", false)];
    let mut resolver = IngredientResolver::new(2);
    assert_eq!(resolver.record::<()>(Ok(9)), Progress::Next(1));
    assert_eq!(resolver.record::<()>(Ok(9)), Progress::Done);
    let ids = resolver.into_ids();
    let mut expected = HashMap::new();
    expected.insert(9u128, 1usize);
    assert_eq!(ids, expected);
    let links = link_rows(5, &ids, &lines);
    assert_eq!(links.len(), 1);
    assert_eq!(links[0].unit, "oz");
    assert!(!links[0].required);
}

#[test]
fn links_commit_when_every_insert_succeeds() {
    let (mut tx, first) = LinkTransaction::<&str>::new(2);
    assert_eq!(first, LinkAction::Begin);
    assert_eq!(tx.record(Ok(())), LinkAction::Insert(0));
    assert_eq!(tx.record(Ok(())), LinkAction::Insert(1));
    assert_eq!(tx.record(Ok(())), LinkAction::Commit);
    assert_eq!(tx.record(Ok(())), LinkAction::Finish(Ok(())));
    assert!(tx.is_finished());
}

#[test]
fn failed_link_insert_rolls_back() {
    let (mut tx, _) = LinkTransaction::new(3);
    assert_eq!(tx.record(Ok(())), LinkAction::Insert(0));
    assert_eq!(tx.record(Err("insert failed")), LinkAction::RollBack);
    assert!(!tx.is_finished());
    assert_eq!(tx.record(Ok(())), LinkAction::Finish(Err("insert failed")));

    let (mut tx, _) = LinkTransaction::new(1);
    assert_eq!(tx.record(Ok(())), LinkAction::Insert(0));
    assert_eq!(tx.record(Err("insert failed")), LinkAction::RollBack);
    assert_eq!(tx.record(Err("rollback failed")), LinkAction::Finish(Err("rollback failed")));
}

#[test]
fn link_transaction_passes_on_begin_and_commit_failures() {
    let (mut tx, _) = LinkTransaction::new(2);
    assert_eq!(tx.record(Err("no connection")), LinkAction::Finish(Err("no connection")));
    let (mut tx, _) = LinkTransaction::<&str>::new(0);
    assert_eq!(tx.record(Ok(())), LinkAction::Commit);
    assert_eq!(tx.record(Err("commit failed")), LinkAction::Finish(Err("commit failed")));
    let _ = LinkStage::<()>::Beginning;
}

#[test]
fn more_search_names_keep_matches() {
    let fewer = names(&["scotch", "amaretto"]);
    let more = names(&["gin", "scotch", "drambuie", "amaretto"]);
    let with_fewer = keep_exact_matches(candidates(), &fewer);
    let with_more = keep_exact_matches(candidates(), &more);
    assert_eq!(with_fewer.len(), 1);
    assert_eq!(with_more.len(), 2);
    for recipe in &with_fewer {
        assert!(with_more.iter().any(|r| r.name == recipe.name));
    }
}

#[test]
fn exact_search_ignores_order_and_repeats() {
    let a = keep_exact_matches(candidates(), &names(&["scotch", "amaretto", "drambuie"]));
    let b = keep_exact_matches(candidates(), &names(&["drambuie", "scotch", "drambuie", "amaretto", "scotch"]));
    assert_eq!(a, b);
    assert_eq!(a.len(), 2);
}
