use token_splice::credential::{
    create_email_field, create_oauth_field, create_token_info, create_unified_token_message,
    edit_legacy_blob, rewrite_legacy_record, unified_token_value, wrap_unified_token,
};
use token_splice::error::{EditError, LegacyEditError};

#[test]
fn oauth_field_golden_bytes() {
    assert_eq!(
        create_oauth_field("AT", "RT", 1700000000),
        vec![
            50, 24, 10, 2, 65, 84, 18, 6, 66, 101, 97, 114, 101, 114, 26, 2, 82, 84, 34, 6, 8, 128,
            226, 207, 170, 6
        ]
    );
}

#[test]
fn email_field_golden_bytes() {
    assert_eq!(
        create_email_field("a@b.com"),
        vec![18, 7, 97, 64, 98, 46, 99, 111, 109]
    );
}

#[test]
fn unified_message_golden_bytes() {
    let expected: Vec<u8> = vec![
        10, 63, 10, 25, 111, 97, 117, 116, 104, 84, 111, 107, 101, 110, 73, 110, 102, 111, 83, 101,
        110, 116, 105, 110, 101, 108, 75, 101, 121, 18, 34, 10, 32, 67, 103, 74, 66, 86, 66, 73,
        71, 81, 109, 86, 104, 99, 109, 86, 121, 71, 103, 74, 83, 86, 67, 73, 71, 67, 73, 68, 105,
        122, 54, 111, 71,
    ];
    assert_eq!(create_unified_token_message("AT", "RT", 1700000000), expected);
    assert_eq!(wrap_unified_token("CgJBVBIGQmVhcmVyGgJSVCIGCIDiz6oG"), expected);
}

#[test]
fn unified_value_is_base64_of_the_message() {
    assert_eq!(
        unified_token_value("AT", "RT", 1700000000),
        "Cj8KGW9hdXRoVG9rZW5JbmZvU2VudGluZWxLZXkSIgogQ2dKQlZCSUdRbVZoY21WeUdnSlNWQ0lHQ0lEaXo2b0c="
    );
}

#[test]
fn negative_expiry_is_written_as_two_complement() {
    assert_eq!(
        create_oauth_field("A", "R", -1),
        vec![
            50, 27, 10, 1, 65, 18, 6, 66, 101, 97, 114, 101, 114, 26, 1, 82, 34, 11, 8, 255, 255,
            255, 255, 255, 255, 255, 255, 255, 1
        ]
    );
}

#[test]
fn token_info_is_the_unwrapped_record() {
    let info = create_token_info("AT", "RT", 1700000000);
    let field = create_oauth_field("AT", "RT", 1700000000);
    assert_eq!(field[2..].to_vec(), info);
}

#[test]
fn legacy_blob_is_cleaned_and_extended() {
    let out = edit_legacy_blob("CCoSCG9sZEB4LmlvMgJ6ejgF", "a@b.com", "AT", "RT", 1700000000);
    assert_eq!(
        out,
        Ok("OAUSB2FAYi5jb20yGAoCQVQSBkJlYXJlchoCUlQiBgiA4s+qBg==".to_string())
    );
}

#[test]
fn legacy_blob_refuses_bad_base64() {
    assert_eq!(
        edit_legacy_blob("not base64!", "a@b.com", "AT", "RT", 0),
        Err(LegacyEditError::InvalidBase64)
    );
}

#[test]
fn legacy_blob_refuses_malformed_records() {
    // "EgU=" is a length-delimited field 2 that claims five bytes and has none.
    assert_eq!(
        edit_legacy_blob("EgU=", "a@b.com", "AT", "RT", 0),
        Err(LegacyEditError::Edit(EditError::MalformedField))
    );
}

#[test]
fn legacy_record_drops_user_id_email_and_token() {
    let blob = vec![8, 42, 18, 1, b'o', 50, 1, 0, 56, 5];
    let out = rewrite_legacy_record(&blob, "e", "a", "r", 1).unwrap();
    let mut expected = vec![56, 5];
    expected.extend(create_email_field("e"));
    expected.extend(create_oauth_field("a", "r", 1));
    assert_eq!(out, expected);
}
