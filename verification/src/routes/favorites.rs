//! Favorites: the recipes a user has marked.

use vstd::prelude::*;
use crate::ids::{new_random_id, uuid_variant, uuid_version};

verus! {

/// A request that marks, or unmarks, `recipe_id` as a favorite of `user_id`.
#[derive(Debug, PartialEq, Eq)]
pub struct FavoriteData {
    pub user_id: u128,
    pub recipe_id: u128,
}

/// The row that marks a recipe as a favorite of a user.
#[derive(Debug, PartialEq, Eq)]
pub struct FavoriteRow {
    pub id: u128,
    pub user_id: u128,
    pub recipe_id: u128,
}

/// Builds the row that marks the request's recipe as a favorite of its user,
/// under a fresh identifier.
pub fn new_favorite_row(form: &FavoriteData) -> (row: FavoriteRow)
    ensures
        row.user_id == form.user_id,
        row.recipe_id == form.recipe_id,
        uuid_version(row.id) == 4,
        uuid_variant(row.id) == 2,
{
    favorite_row(form, new_random_id())
}

/// The row under identifier `id` that marks the request's recipe as a
/// favorite of its user.
pub fn favorite_row(form: &FavoriteData, id: u128) -> (row: FavoriteRow)
    ensures
        row == (FavoriteRow { id, user_id: form.user_id, recipe_id: form.recipe_id }),
{
    FavoriteRow { id, user_id: form.user_id, recipe_id: form.recipe_id }
}

} // verus!
