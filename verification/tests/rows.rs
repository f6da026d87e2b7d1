use bar_library_api::clock::Timestamp;
use bar_library_api::routes::{
    favorite_row, ingredient_row, kitchen_row, link_row, recipe_row, user_row, FavoriteData, FavoriteRow,
    IngredientData, KitchenRow, NewUserData, RecipeData,
};

fn line() -> IngredientData {
    IngredientData { name: String::from("bourbon"), quantity_bits: 1.5f32.to_bits(), unit: String::from("oz"), required: true }
}

#[test]
fn rows_carry_the_given_ids() {
    let form = FavoriteData { user_id: 1, recipe_id: 2 };
    assert_eq!(favorite_row(&form, 9), FavoriteRow { id: 9, user_id: 1, recipe_id: 2 });
    assert_eq!(kitchen_row(8, 1, 3), KitchenRow { id: 8, user_id: 1, ingredient_id: 3 });
    let ingredient = ingredient_row(&line(), 7);
    assert_eq!((ingredient.id, ingredient.name.as_str()), (7, "bourbon"));
    let recipe = RecipeData { name: String::from("old fashioned"), ingredients: vec![line()], directions: String::from("stir") };
    let row = recipe_row(&recipe, 6);
    assert_eq!((row.id, row.name.as_str(), row.directions.as_str()), (6, "old fashioned", "stir"));
    let link = link_row(5, 6, 7, &line());
    assert_eq!((link.id, link.recipe_id, link.ingredient_id), (5, 6, 7));
    assert_eq!((link.quantity_bits, link.unit.as_str(), link.required), (1.5f32.to_bits(), "oz", true));
}

#[test]
fn user_row_carries_hash_and_time() {
    let form = NewUserData { email: String::from("a@b.c"), name: String::from("test"), password: String::from("pw") };
    let joined_at = Timestamp { secs: 1_700_000_000, nanos: 5 };
    let row = user_row(&form, 4, String::from("$2b$12$x"), joined_at);
    assert_eq!(row.id, 4);
    assert_eq!(row.name, "test");
    assert_eq!(row.email, "a@b.c");
    assert_eq!(row.password_hash, "$2b$12$x");
    assert_eq!(row.permissions, 0);
    assert_eq!(row.joined_at, Timestamp { secs: 1_700_000_000, nanos: 5 });
}
