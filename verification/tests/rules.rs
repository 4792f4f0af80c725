use direct_messaging::access::{owner_access, Access};
use direct_messaging::auth::{request_token, Claims, TOKEN_LIFETIME};
use direct_messaging::upload::{name_upload, prepare_upload, Upload};

#[test]
fn owner_is_granted_access() {
    assert_eq!(owner_access(Some(4), 4), Access::Granted);
}

#[test]
fn others_are_forbidden() {
    assert_eq!(owner_access(Some(4), 5), Access::Forbidden);
    assert_eq!(owner_access(Some(0), usize::MAX), Access::Forbidden);
}

#[test]
fn missing_item_is_not_found() {
    assert_eq!(owner_access(None, 4), Access::NotFound);
}

#[test]
fn token_lives_thirty_days() {
    assert_eq!(TOKEN_LIFETIME, 2_592_000);
    assert_eq!(
        Claims::issue(7, 1_700_000_000),
        Some(Claims { sub: 7, exp: 1_702_592_000, iat: 1_700_000_000 })
    );
}

#[test]
fn token_is_issued_up_to_the_end_of_the_clock() {
    let last = u64::MAX - TOKEN_LIFETIME;
    assert_eq!(Claims::issue(7, last), Some(Claims { sub: 7, exp: u64::MAX, iat: last }));
    assert_eq!(Claims::issue(7, last + 1), None);
    assert_eq!(Claims::issue(7, u64::MAX), None);
}

#[test]
fn bearer_token_comes_before_the_query() {
    assert_eq!(
        request_token(Some("header".to_owned()), Some("query".to_owned())),
        Some("header".to_owned())
    );
    assert_eq!(request_token(None, Some("query".to_owned())), Some("query".to_owned()));
    assert_eq!(request_token(Some("header".to_owned()), None), Some("header".to_owned()));
    assert_eq!(request_token(None, None), None);
}

#[test]
fn png_is_prepared_as_image_png() {
    assert_eq!(
        prepare_upload("iVBORw0KGgo="),
        Some(Upload {
            bytes: vec![0x89, 0x50, 0x4e, 0x47, 0x0d, 0x0a, 0x1a, 0x0a],
            file_name: "image.png".to_owned()
        })
    );
}

#[test]
fn jpeg_is_prepared_as_image_jpg() {
    assert_eq!(
        prepare_upload("/9j/4A=="),
        Some(Upload { bytes: vec![0xff, 0xd8, 0xff, 0xe0], file_name: "image.jpg".to_owned() })
    );
}

#[test]
fn text_that_is_not_base64_is_refused() {
    assert_eq!(prepare_upload("not base64!"), None);
    assert_eq!(prepare_upload("iVBORw0KGgo"), None);
}

#[test]
fn bytes_of_no_known_kind_are_refused() {
    assert_eq!(prepare_upload("aGVsbG8="), None);
    assert_eq!(prepare_upload(""), None);
}

#[test]
fn upload_is_named_after_its_extension() {
    assert_eq!(
        name_upload(vec![1, 2, 3], Some("gif".to_owned())),
        Some(Upload { bytes: vec![1, 2, 3], file_name: "image.gif".to_owned() })
    );
    assert_eq!(name_upload(vec![1, 2, 3], None), None);
}

#[test]
fn notice_names_the_bidder_and_the_order() {
    assert_eq!(
        direct_messaging::mail::offer_notice("ala", "rower"),
        "ala odpowiedzial na twoje zgloszenie: rower"
    );
    assert_eq!(
        direct_messaging::mail::OFFER_NOTICE_SUBJECT,
        "Ktos odpowiedzial na twoje ogloszenie"
    );
}

#[test]
fn row_with_proper_columns_is_a_message() {
    assert_eq!(
        direct_messaging::model::Message::from_columns(13, 1, 2, "hi".to_owned(), 500),
        Some(direct_messaging::model::Message {
            message_id: 13,
            sender_id: 1,
            receiver_id: 2,
            content: "hi".to_owned(),
            sent_at: 500
        })
    );
    assert!(direct_messaging::model::Message::from_columns(0, 0, 0, String::new(), 0).is_some());
}

#[test]
fn row_with_a_negative_column_is_no_message() {
    assert_eq!(direct_messaging::model::Message::from_columns(-1, 1, 2, "hi".to_owned(), 500), None);
    assert_eq!(direct_messaging::model::Message::from_columns(13, -1, 2, "hi".to_owned(), 500), None);
    assert_eq!(direct_messaging::model::Message::from_columns(13, 1, -2, "hi".to_owned(), 500), None);
    assert_eq!(direct_messaging::model::Message::from_columns(13, 1, 2, "hi".to_owned(), -5), None);
}

#[test]
fn signed_column_holds_an_identifier_from_zero_up() {
    assert_eq!(direct_messaging::model::identifier(0), Some(0));
    assert_eq!(direct_messaging::model::identifier(i64::MAX), Some(i64::MAX as usize));
    assert_eq!(direct_messaging::model::identifier(-1), None);
    assert_eq!(direct_messaging::model::identifier(i64::MIN), None);
}
