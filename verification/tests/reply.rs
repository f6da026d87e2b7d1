use bar_library_api::reply::{reply_done, reply_json, Field, Reply};

#[test]
fn status_codes() {
    assert_eq!(Reply::<()>::Success.status_code(), 200);
    assert_eq!(Reply::Json(5u8).status_code(), 200);
    assert_eq!(Reply::<()>::Conflict(Field::Name).status_code(), 409);
    assert_eq!(Reply::<()>::Forbidden.status_code(), 403);
    assert_eq!(Reply::<()>::NotFound.status_code(), 404);
    assert_eq!(Reply::<()>::Unauthorized.status_code(), 401);
    assert_eq!(Reply::<()>::InternalError.status_code(), 500);
}

#[test]
fn single_call_replies() {
    assert_eq!(reply_done::<u8>(Ok(())), Reply::Success);
    assert_eq!(reply_done(Err(1u8)), Reply::InternalError);
    assert_eq!(reply_json::<_, u8>(Ok(vec![1, 2])), Reply::Json(vec![1, 2]));
    assert_eq!(reply_json::<Vec<u8>, _>(Err(3u8)), Reply::InternalError);
    assert_eq!(Field::Name.label(), "name");
}
