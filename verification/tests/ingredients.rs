use bar_library_api::reply::{reply_json, Progress, Reply};
use bar_library_api::routes::{add_ingredient_db_step, new_ingredient_row, Ingredient, IngredientData, IngredientLookup, IngredientResolver};

/// The library's part of listing the ingredients: the read rows go out as JSON.
#[test]
fn all_ingredients_reply_carries_rows() {
    let stored: Vec<Ingredient> = (0..16u128).map(|i| Ingredient { id: i, name: format!("ingredient {}", i) }).collect();
    match reply_json::<Vec<Ingredient>, ()>(Ok(stored)) {
        Reply::Json(found) => assert_eq!(16, found.len()),
        other => panic!("unexpected {:?}", other),
    }
    assert_eq!(reply_json::<Vec<Ingredient>, _>(Err("down")).status_code(), 500);
}

#[test]
fn known_ingredient_keeps_its_id() {
    assert_eq!(add_ingredient_db_step::<()>(Ok(Some(42))), IngredientLookup::Existing(42));
    assert_eq!(add_ingredient_db_step::<()>(Ok(None)), IngredientLookup::Missing);
    assert_eq!(add_ingredient_db_step::<&str>(Err("down")), IngredientLookup::Failed("down"));
}

#[test]
fn new_ingredient_row_has_fresh_v4_id() {
    let form = IngredientData { name: String::from("bourbon"), quantity_bits: 1.0f32.to_bits(), unit: String::from("shot"), required: true };
    let row = new_ingredient_row(&form);
    assert_eq!(row.name, "bourbon");
    assert_eq!((row.id >> 76) & 0xf, 4);
    assert_eq!((row.id >> 62) & 0x3, 2);
    assert_ne!(row.id, new_ingredient_row(&form).id);
}

#[test]
fn resolver_stops_at_first_failure() {
    let mut resolver = IngredientResolver::new(3);
    assert_eq!(resolver.record::<&str>(Ok(1)), Progress::Next(1));
    assert_eq!(resolver.record(Err("lookup failed")), Progress::Failed("lookup failed"));
    assert_eq!(resolver.next_step::<&str>(), Progress::Next(1));
    assert_eq!(resolver.record::<&str>(Ok(2)), Progress::Next(2));
    assert_eq!(resolver.record::<&str>(Ok(1)), Progress::Done);
    let ids = resolver.into_ids();
    assert_eq!(ids.len(), 2);
    assert_eq!(ids[&1], 2);
    assert_eq!(ids[&2], 1);
}
