use bar_library_api::reply::reply_done;
use bar_library_api::routes::{new_favorite_row, FavoriteData};

const SUPER_USER: u128 = 0x1;

#[test]
fn add_favorite_works() {
    let request = FavoriteData { user_id: SUPER_USER, recipe_id: 0xd361ff4e_8b51_4db1_91e1_c4341ffc7e4d };
    let row = new_favorite_row(&request);
    assert_eq!(row.user_id, SUPER_USER);
    assert_eq!(row.recipe_id, 0xd361ff4e_8b51_4db1_91e1_c4341ffc7e4d);
    assert_eq!((row.id >> 76) & 0xf, 4);
    assert_eq!((row.id >> 62) & 0x3, 2);
    assert_eq!(200, reply_done::<()>(Ok(())).status_code());
}

/// The library's part of removing a favorite: the answer to the delete.
#[test]
fn remove_favorite_answers_by_outcome() {
    let request = FavoriteData { user_id: 0x2, recipe_id: 0xade3c0a4_8e6e_427a_80d3_8e5466c96eb1 };
    assert_eq!(request.recipe_id, 0xade3c0a4_8e6e_427a_80d3_8e5466c96eb1);
    assert_eq!(200, reply_done::<()>(Ok(())).status_code());
    assert_eq!(500, reply_done(Err("no such table")).status_code());
}
