use database::messages::{
    ColumnMetadata, Message, AUTHENTICATION, COMMAND_COMPLETE, DATA_ROW, EMPTY_QUERY_RESPONSE,
    ERROR_RESPONSE, NOTICE_RESPONSE, PARAMETER_STATUS, READY_FOR_QUERY, ROW_DESCRIPTION,
};

#[test]
fn notice() {
    assert_eq!(Message::NoticeResponse.as_vec(), vec![NOTICE_RESPONSE]);
}

#[test]
fn authentication_cleartext_password() {
    assert_eq!(
        Message::AuthenticationCleartextPassword.as_vec(),
        vec![AUTHENTICATION, 0, 0, 0, 8, 0, 0, 0, 3]
    )
}

#[test]
fn authentication_md5_password() {
    assert_eq!(
        Message::AuthenticationMD5Password.as_vec(),
        vec![AUTHENTICATION, 0, 0, 0, 12, 0, 0, 0, 5, 1, 1, 1, 1]
    )
}

#[test]
fn authentication_ok() {
    assert_eq!(
        Message::AuthenticationOk.as_vec(),
        vec![AUTHENTICATION, 0, 0, 0, 8, 0, 0, 0, 0]
    )
}

#[test]
fn parameter_status() {
    assert_eq!(
        Message::ParameterStatus("client_encoding".to_owned(), "UTF8".to_owned()).as_vec(),
        vec![
            PARAMETER_STATUS,
            0,
            0,
            0,
            25,
            99,
            108,
            105,
            101,
            110,
            116,
            95,
            101,
            110,
            99,
            111,
            100,
            105,
            110,
            103,
            0,
            85,
            84,
            70,
            56,
            0
        ]
    )
}

#[test]
fn ready_for_query() {
    assert_eq!(
        Message::ReadyForQuery.as_vec(),
        vec![READY_FOR_QUERY, 0, 0, 0, 5, EMPTY_QUERY_RESPONSE]
    )
}

#[test]
fn data_row() {
    assert_eq!(
        Message::DataRow(vec!["1".to_owned(), "2".to_owned(), "3".to_owned()]).as_vec(),
        vec![DATA_ROW, 0, 0, 0, 21, 0, 3, 0, 0, 0, 1, 49, 0, 0, 0, 1, 50, 0, 0, 0, 1, 51]
    )
}

#[test]
fn row_description() {
    assert_eq!(
        Message::RowDescription(vec![ColumnMetadata::new("c1".to_owned(), 23, 4)]).as_vec(),
        vec![
            ROW_DESCRIPTION,
            0,
            0,
            0,
            27,
            0,
            1,
            99,
            49,
            0,
            0,
            0,
            0,
            0,
            0,
            0,
            0,
            0,
            0,
            23,
            0,
            4,
            255,
            255,
            255,
            255,
            0,
            0
        ]
    );
}

#[test]
fn command_complete() {
    assert_eq!(
        Message::CommandComplete("SELECT".to_owned()).as_vec(),
        vec![COMMAND_COMPLETE, 0, 0, 0, 11, 83, 69, 76, 69, 67, 84, 0]
    )
}

#[test]
fn empty_response() {
    assert_eq!(
        Message::EmptyQueryResponse.as_vec(),
        vec![EMPTY_QUERY_RESPONSE, 0, 0, 0, 4]
    )
}

#[test]
fn error_response() {
    assert_eq!(
        Message::ErrorResponse(None, None, None).as_vec(),
        vec![ERROR_RESPONSE, 0, 0, 0, 5, 0]
    )
}

#[test]
fn error_response_with_all_fields() {
    assert_eq!(
        Message::ErrorResponse(Some("ERROR"), Some("XX000"), Some("oops".to_owned())).as_vec(),
        vec![
            ERROR_RESPONSE, 0, 0, 0, 25, 83, 69, 82, 82, 79, 82, 0, 67, 88, 88, 48, 48, 48, 0,
            77, 111, 111, 112, 115, 0, 0
        ]
    )
}

#[test]
fn error_response_with_message_only() {
    assert_eq!(
        Message::ErrorResponse(None, None, Some("no".to_owned())).as_vec(),
        vec![ERROR_RESPONSE, 0, 0, 0, 9, 77, 110, 111, 0, 0]
    )
}

#[test]
fn data_row_without_columns() {
    assert_eq!(Message::DataRow(vec![]).as_vec(), vec![DATA_ROW, 0, 0, 0, 6, 0, 0]);
}

#[test]
fn data_row_with_empty_and_multibyte_values() {
    assert_eq!(
        Message::DataRow(vec!["".to_owned(), "é".to_owned()]).as_vec(),
        vec![DATA_ROW, 0, 0, 0, 16, 0, 2, 0, 0, 0, 0, 0, 0, 0, 2, 0xC3, 0xA9]
    )
}

#[test]
fn row_description_with_negative_type_size() {
    assert_eq!(
        Message::RowDescription(vec![
            ColumnMetadata::new("a".to_owned(), 25, -1),
            ColumnMetadata::new("b".to_owned(), 0x0102_0304, 0x0506),
        ])
        .as_vec(),
        vec![
            ROW_DESCRIPTION, 0, 0, 0, 46, 0, 2, 97, 0, 0, 0, 0, 0, 0, 0, 0, 0, 0, 25, 255, 255, 255,
            255, 255, 255, 0, 0, 98, 0, 0, 0, 0, 0, 0, 0, 1, 2, 3, 4, 5, 6, 255, 255, 255, 255, 0, 0
        ]
    );
}

#[test]
fn command_complete_multibyte() {
    assert_eq!(
        Message::CommandComplete("é".to_owned()).as_vec(),
        vec![COMMAND_COMPLETE, 0, 0, 0, 7, 0xC3, 0xA9, 0]
    )
}

#[test]
fn parameter_status_short() {
    assert_eq!(
        Message::ParameterStatus("a".to_owned(), "b".to_owned()).as_vec(),
        vec![PARAMETER_STATUS, 0, 0, 0, 8, 97, 0, 98, 0]
    )
}

fn all_kinds() -> Vec<Message> {
    vec![
        Message::NoticeResponse,
        Message::AuthenticationCleartextPassword,
        Message::AuthenticationMD5Password,
        Message::AuthenticationOk,
        Message::ReadyForQuery,
        Message::DataRow(vec!["x".to_owned(), "yz".to_owned()]),
        Message::RowDescription(vec![ColumnMetadata::new("col".to_owned(), 23, 4)]),
        Message::CommandComplete("INSERT 0 1".to_owned()),
        Message::EmptyQueryResponse,
        Message::ErrorResponse(Some("ERROR"), None, Some("bad".to_owned())),
        Message::ParameterStatus("DateStyle".to_owned(), "ISO".to_owned()),
    ]
}

#[test]
fn every_encoding_starts_with_its_type_byte() {
    let expected = [
        NOTICE_RESPONSE,
        AUTHENTICATION,
        AUTHENTICATION,
        AUTHENTICATION,
        READY_FOR_QUERY,
        DATA_ROW,
        ROW_DESCRIPTION,
        COMMAND_COMPLETE,
        EMPTY_QUERY_RESPONSE,
        ERROR_RESPONSE,
        PARAMETER_STATUS,
    ];
    for (message, tag) in all_kinds().iter().zip(expected.iter()) {
        assert_eq!(message.as_vec()[0], *tag);
    }
}

#[test]
fn length_field_counts_all_but_the_type_byte() {
    for message in all_kinds().iter().skip(1) {
        let bytes = message.as_vec();
        let length = u32::from_be_bytes([bytes[1], bytes[2], bytes[3], bytes[4]]) as usize;
        assert_eq!(length, bytes.len() - 1);
    }
}

#[test]
fn column_count_follows_the_length() {
    let row = Message::DataRow(vec!["a".to_owned(); 300]).as_vec();
    assert_eq!(u16::from_be_bytes([row[5], row[6]]), 300);
    let description = Message::RowDescription(vec![
        ColumnMetadata::new("a".to_owned(), 1, 1),
        ColumnMetadata::new("b".to_owned(), 1, 1),
    ])
    .as_vec();
    assert_eq!(u16::from_be_bytes([description[5], description[6]]), 2);
}
