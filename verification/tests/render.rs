use grimoire::render::{OrNotFound, ServeError};
use grimoire::Error;

#[test]
fn or_not_found_some_is_ok() {
    assert_eq!(Some(3).or_not_found().unwrap(), 3);
    assert_eq!(Some("x").or_not_found_msg("m".to_string()).unwrap(), "x");
}

#[test]
fn or_not_found_none_is_not_found() {
    assert!(matches!(None::<u8>.or_not_found(), Err(ServeError::NotFound(None))));
    match None::<u8>.or_not_found_msg("missing".to_string()) {
        Err(ServeError::NotFound(Some(m))) => assert_eq!(m, "missing"),
        other => panic!("unexpected {other:?}"),
    }
}

#[test]
fn serve_error_from_error() {
    assert!(matches!(
        ServeError::from(Error::NoFrontMatter),
        ServeError::InternalServerError(Error::NoFrontMatter)
    ));
}
