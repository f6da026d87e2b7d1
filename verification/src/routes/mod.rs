//! The request handlers' logic, one module per resource.

pub mod favorites;
pub mod ingredients;
pub mod kitchen;
pub mod permissions;
pub mod recipes;
pub mod users;

pub use favorites::{favorite_row, new_favorite_row, FavoriteData, FavoriteRow};
pub use ingredients::{add_ingredient_db_step, ingredient_row, new_ingredient_row, Ingredient, IngredientData, IngredientLookup, IngredientResolver};
pub use kitchen::{kitchen_row, new_kitchen_row, update_kitchen_step, GetKitchenData, KitchenFiller, KitchenRow, UpdateKitchenAction, UpdateKitchenData, UpdateKitchenEvent};
pub use permissions::{calculate_permission, grants_delete, grants_user_admin, grants_write, user_may_delete, user_may_write};
pub use recipes::{
    add_recipe_step, delete_recipe_step, get_recipe_reply, get_recipes_reply, keep_exact_matches, link_row, link_rows,
    new_recipe_row, recipe_row, recipe_from_rows, AddRecipeAction, AddRecipeData, AddRecipeEvent, DeleteRecipeAction,
    DeleteRecipeData, DeleteRecipeEvent, GetRecipeData, GetRecipesFromIngredientsData, LinkAction, LinkTransaction,
    NewRecipeRow, RecipeCollector, RecipeData, RecipeIngredientRow, RecipeRow,
};
pub use users::{
    new_user_row, user_row, user_row_after_hash, sign_in_reply, sign_in_verdict, update_password_after_hash, update_password_step, DeleteUserData,
    LoginData, NewUserData, NewUserRow, UpdatePasswordData, UpdatePasswordStep, UpdatePermissionsData,
};
