//! Backend messages of the PostgreSQL wire protocol (version 3) and their
//! encoding to bytes.
//!
//! Every message but `NoticeResponse` is framed as a type byte, then a
//! four-byte length in network order that counts itself and the body but not
//! the type byte, then the body.

use vstd::prelude::*;
use vstd::utf8::encode_utf8;

use crate::buffer::{
    as_ref, buf_bytes, bytes_mut_contents, bytes_mut_len, bytes_mut_new, bytes_mut_with_capacity,
    deref, extend_from_slice, put_i16, put_i32, put_slice, put_u32, put_u8,
};
use crate::wire::{
    be16, be32, lemma_read_be16_of_be16, lemma_read_be32_of_be32, read_be16, read_be32,
};

verus! {

/// Type byte of `CommandComplete`.
pub const COMMAND_COMPLETE: u8 = 67u8; // ASCII 'C'
/// Type byte of `DataRow`.
pub const DATA_ROW: u8 = 68u8; // ASCII 'D'
/// Type byte of `ErrorResponse`.
pub const ERROR_RESPONSE: u8 = 69u8; // ASCII 'E'
/// Field code of the severity in an `ErrorResponse`.
pub const SEVERITY: u8 = 83u8; // ASCII 'S'
/// Field code of the SQLSTATE code in an `ErrorResponse`.
pub const CODE: u8 = 67u8; // ASCII 'C'
/// Field code of the human-readable message in an `ErrorResponse`.
pub const MESSAGE: u8 = 77u8; // ASCII 'M'
/// Type byte of `EmptyQueryResponse`; also the transaction status "idle".
pub const EMPTY_QUERY_RESPONSE: u8 = 73u8; // ASCII 'I'
/// Type byte of `NoticeResponse`.
pub const NOTICE_RESPONSE: u8 = 78u8; // ASCII 'N'
/// Type byte of the `Authentication*` messages.
pub const AUTHENTICATION: u8 = 82u8; // ASCII 'R'
/// Type byte of `ParameterStatus`.
pub const PARAMETER_STATUS: u8 = 83u8; // ASCII 'S'
/// Type byte of `RowDescription`.
pub const ROW_DESCRIPTION: u8 = 84u8; // ASCII 'T'
/// Type byte of `ReadyForQuery`.
pub const READY_FOR_QUERY: u8 = 90u8; // ASCII 'Z'

/// What a `RowDescription` says of one column.
#[derive(Debug, PartialEq)]
pub struct ColumnMetadata {
    pub name: String,
    pub type_id: i32,
    pub type_size: i16,
}

impl ColumnMetadata {
    pub fn new(name: String, type_id: i32, type_size: i16) -> (c: ColumnMetadata)
        ensures
            c.name == name,
            c.type_id == type_id,
            c.type_size == type_size,
    {
        ColumnMetadata { name, type_id, type_size }
    }
}

/// Backend PostgreSQL wire protocol messages
/// (see https://www.postgresql.org/docs/12/protocol-flow.html).
#[derive(Debug, PartialEq)]
pub enum Message {
    /// A warning message has been issued. The frontend should display the message
    /// but continue listening for ReadyForQuery or ErrorResponse.
    NoticeResponse,
    /// The frontend must now send a PasswordMessage containing the password in
    /// clear-text form.
    AuthenticationCleartextPassword,
    /// The frontend must now send a PasswordMessage containing the password
    /// (with user name) encrypted via MD5, then encrypted again using the 4-byte
    /// random salt specified in the message.
    AuthenticationMD5Password,
    /// The authentication exchange is successfully completed.
    AuthenticationOk,
    /// Start-up is completed. The frontend can now issue commands.
    ReadyForQuery,
    /// One of the set of rows returned by a SELECT, FETCH, etc query.
    DataRow(Vec<String>),
    /// Indicates that rows are about to be returned in response to a SELECT, FETCH,
    /// etc query; describes the column layout of the rows.
    RowDescription(Vec<ColumnMetadata>),
    /// An SQL command completed normally.
    CommandComplete(String),
    /// An empty query string was recognized.
    EmptyQueryResponse,
    /// An error has occurred. Contains (`Severity`, `Error Code`, `Error Message`),
    /// all of them optional.
    ErrorResponse(Option<&'static str>, Option<&'static str>, Option<String>),
    /// The current setting of a backend parameter, such as client_encoding or
    /// DateStyle (see the protocol-flow documentation, "Asynchronous Operations").
    ParameterStatus(String, String),
}

/// A string as its UTF-8 bytes followed by a terminating zero byte.
pub open spec fn c_string(s: Seq<char>) -> Seq<u8> {
    encode_utf8(s).push(0)
}

/// The concatenation of `f` over the items, in order.
pub open spec fn concat_map<A>(items: Seq<A>, f: spec_fn(A) -> Seq<u8>) -> Seq<u8>
    decreases items.len(),
{
    if items.len() == 0 {
        Seq::empty()
    } else {
        concat_map(items.drop_last(), f) + f(items.last())
    }
}

/// One column value of a `DataRow`: its byte length, then its UTF-8 bytes.
pub open spec fn data_row_field(field: String) -> Seq<u8> {
    be32(encode_utf8(field@).len() as int) + encode_utf8(field@)
}

/// [`data_row_field`] as a function value, for [`concat_map`].
pub open spec fn data_row_field_fn() -> spec_fn(String) -> Seq<u8> {
    |field: String| data_row_field(field)
}

/// One column of a `RowDescription`: the name as a C string, table id 0,
/// column number 0, the type id, the type size, type modifier -1, format 0 (text).
pub open spec fn column_description(column: ColumnMetadata) -> Seq<u8> {
    c_string(column.name@) + be32(0) + be16(0) + be32(column.type_id as int) + be16(
        column.type_size as int,
    ) + be32(-1) + be16(0)
}

/// [`column_description`] as a function value, for [`concat_map`].
pub open spec fn column_description_fn() -> spec_fn(ColumnMetadata) -> Seq<u8> {
    |column: ColumnMetadata| column_description(column)
}

/// One field of an `ErrorResponse`: its code, then its value as a C string;
/// nothing where the value is absent.
pub open spec fn error_field(code: u8, value: Option<Seq<char>>) -> Seq<u8> {
    match value {
        Some(v) => seq![code] + c_string(v),
        None => Seq::empty(),
    }
}

/// The characters of an optional string slice.
pub open spec fn str_view(value: Option<&str>) -> Option<Seq<char>> {
    match value {
        Some(s) => Some(s@),
        None => None,
    }
}

/// The characters of an optional string.
pub open spec fn string_view(value: Option<String>) -> Option<Seq<char>> {
    match value {
        Some(s) => Some(s@),
        None => None,
    }
}

/// The fields of an `ErrorResponse`, without the terminating zero byte.
pub open spec fn error_fields(
    severity: Option<&str>,
    code: Option<&str>,
    message: Option<String>,
) -> Seq<u8> {
    error_field(SEVERITY, str_view(severity)) + error_field(CODE, str_view(code)) + error_field(
        MESSAGE,
        string_view(message),
    )
}


/// A `DataRow`: the type byte, the length, the number of columns (taken
/// modulo 2^16, as the count is cast to `i16`), then each value.
pub open spec fn data_row_encoded(row: Seq<String>) -> Seq<u8> {
    let body = concat_map(row, data_row_field_fn());
    seq![DATA_ROW] + be32(6 + body.len() as int) + be16(row.len() as int) + body
}

/// A `RowDescription`: the type byte, the length, the number of columns
/// (modulo 2^16), then each column's description.
pub open spec fn row_description_encoded(columns: Seq<ColumnMetadata>) -> Seq<u8> {
    let body = concat_map(columns, column_description_fn());
    seq![ROW_DESCRIPTION] + be32(6 + body.len() as int) + be16(columns.len() as int) + body
}

/// A `CommandComplete`: the type byte, the length, then the command tag as a C string.
pub open spec fn command_complete_encoded(command: Seq<char>) -> Seq<u8> {
    let body = c_string(command);
    seq![COMMAND_COMPLETE] + be32(4 + body.len() as int) + body
}

/// An `ErrorResponse`: the type byte, the length, the fields, then a zero byte.
pub open spec fn error_response_encoded(fields: Seq<u8>) -> Seq<u8> {
    let body = fields.push(0);
    seq![ERROR_RESPONSE] + be32(4 + body.len() as int) + body
}

/// A `ParameterStatus`: the type byte, the length, then the name and the value
/// as C strings.
pub open spec fn parameter_status_encoded(name: Seq<char>, value: Seq<char>) -> Seq<u8> {
    let body = c_string(name) + c_string(value);
    seq![PARAMETER_STATUS] + be32(4 + body.len() as int) + body
}

proof fn lemma_concat_map_push<A>(items: Seq<A>, i: int, f: spec_fn(A) -> Seq<u8>)
    requires
        0 <= i < items.len(),
    ensures
        concat_map(items.take(i + 1), f) == concat_map(items.take(i), f) + f(items[i]),
{
    assert(items.take(i + 1).drop_last() =~= items.take(i));
}

proof fn lemma_concat_map_prefix_len<A>(items: Seq<A>, i: int, f: spec_fn(A) -> Seq<u8>)
    requires
        0 <= i <= items.len(),
    ensures
        concat_map(items.take(i), f).len() <= concat_map(items, f).len(),
    decreases items.len() - i,
{
    if i == items.len() {
        assert(items.take(i) =~= items);
    } else {
        lemma_concat_map_prefix_len(items, i + 1, f);
        lemma_concat_map_push(items, i, f);
    }
}

proof fn lemma_be16_of_i16_cast(x: usize)
    ensures
        be16((x as i16) as int) == be16(x as int),
{
    assert(((x as i16) as int) % 0x1_0000 == (x as int) % 0x1_0000) by (bit_vector);
}

impl Message {
    /// The bytes that stand for this message on the wire.
    pub open spec fn encoded(&self) -> Seq<u8> {
        match self {
            Message::NoticeResponse => seq![NOTICE_RESPONSE],
            Message::AuthenticationCleartextPassword => seq![AUTHENTICATION, 0, 0, 0, 8, 0, 0, 0, 3],
            Message::AuthenticationMD5Password => seq![
                AUTHENTICATION,
                0,
                0,
                0,
                12,
                0,
                0,
                0,
                5,
                1,
                1,
                1,
                1,
            ],
            Message::AuthenticationOk => seq![AUTHENTICATION, 0, 0, 0, 8, 0, 0, 0, 0],
            Message::ReadyForQuery => seq![READY_FOR_QUERY, 0, 0, 0, 5, EMPTY_QUERY_RESPONSE],
            Message::DataRow(row) => data_row_encoded(row@),
            Message::RowDescription(columns) => row_description_encoded(columns@),
            Message::CommandComplete(command) => command_complete_encoded(command@),
            Message::EmptyQueryResponse => seq![EMPTY_QUERY_RESPONSE, 0, 0, 0, 4],
            Message::ErrorResponse(severity, code, message) => error_response_encoded(
                error_fields(*severity, *code, *message),
            ),
            Message::ParameterStatus(name, value) => parameter_status_encoded(name@, value@),
        }
    }

    /// The byte that names the kind of message.
    pub open spec fn type_byte(&self) -> u8 {
        match self {
            Message::NoticeResponse => NOTICE_RESPONSE,
            Message::AuthenticationCleartextPassword => AUTHENTICATION,
            Message::AuthenticationMD5Password => AUTHENTICATION,
            Message::AuthenticationOk => AUTHENTICATION,
            Message::ReadyForQuery => READY_FOR_QUERY,
            Message::DataRow(_) => DATA_ROW,
            Message::RowDescription(_) => ROW_DESCRIPTION,
            Message::CommandComplete(_) => COMMAND_COMPLETE,
            Message::EmptyQueryResponse => EMPTY_QUERY_RESPONSE,
            Message::ErrorResponse(_, _, _) => ERROR_RESPONSE,
            Message::ParameterStatus(_, _) => PARAMETER_STATUS,
        }
    }

    /// Returns the binary representation of a backend message.
    ///
    /// The length field is a signed 32-bit integer, so the encoding may not be
    /// longer than 2^31 bytes (the length counts all but the type byte); beyond
    /// that the lengths computed with `as i32` and `+` would wrap or overflow.
    /// Nor may it be longer than a buffer can be (`isize::MAX` bytes).
    pub fn as_vec(&self) -> (out: Vec<u8>)
        requires
            self.encoded().len() <= 0x8000_0000,
            self.encoded().len() <= isize::MAX,
        ensures
            out@ == self.encoded(),
    {
        match self {
            Message::NoticeResponse => vec![NOTICE_RESPONSE],
            Message::AuthenticationCleartextPassword => vec![AUTHENTICATION, 0, 0, 0, 8, 0, 0, 0, 3],
            Message::AuthenticationMD5Password => vec![
                AUTHENTICATION,
                0,
                0,
                0,
                12,
                0,
                0,
                0,
                5,
                1,
                1,
                1,
                1,
            ],
            Message::AuthenticationOk => vec![AUTHENTICATION, 0, 0, 0, 8, 0, 0, 0, 0],
            Message::ReadyForQuery => vec![READY_FOR_QUERY, 0, 0, 0, 5, EMPTY_QUERY_RESPONSE],
            Message::DataRow(row) => encode_data_row(row),
            Message::RowDescription(description) => encode_row_description(description),
            Message::CommandComplete(command) => encode_command_complete(command),
            Message::EmptyQueryResponse => vec![EMPTY_QUERY_RESPONSE, 0, 0, 0, 4],
            Message::ErrorResponse(severity, code, message) => encode_error_response(
                severity,
                code,
                message,
            ),
            Message::ParameterStatus(name, value) => encode_parameter_status(name, value),
        }
    }
}

/// Every message is encoded as at least one byte, and the first byte names the
/// kind of message.
pub proof fn law_encoding_starts_with_type_byte(m: Message)
    ensures
        m.encoded().len() >= 1,
        m.encoded()[0] == m.type_byte(),
{
}

/// Every message but `NoticeResponse` carries, right after its type byte, its
/// length as a four-byte integer in network order; the length counts every
/// byte of the encoding but the type byte (for encodings short enough that
/// the length fits in 32 bits).
pub proof fn law_length_field_counts_the_message(m: Message)
    requires
        !(m is NoticeResponse),
        m.encoded().len() <= 0x1_0000_0000,
    ensures
        m.encoded().len() >= 5,
        read_be32(m.encoded().subrange(1, 5)) == m.encoded().len() - 1,
{
    let e = m.encoded();
    match m {
        Message::DataRow(row) => {
            let body = concat_map(row@, data_row_field_fn());
            lemma_read_be32_of_be32(6 + body.len() as int);
            assert(e.subrange(1, 5) =~= be32(6 + body.len() as int));
        },
        Message::RowDescription(columns) => {
            let body = concat_map(columns@, column_description_fn());
            lemma_read_be32_of_be32(6 + body.len() as int);
            assert(e.subrange(1, 5) =~= be32(6 + body.len() as int));
        },
        Message::CommandComplete(command) => {
            let body = c_string(command@);
            lemma_read_be32_of_be32(4 + body.len() as int);
            assert(e.subrange(1, 5) =~= be32(4 + body.len() as int));
        },
        Message::ErrorResponse(severity, code, message) => {
            let body = error_fields(severity, code, message).push(0);
            lemma_read_be32_of_be32(4 + body.len() as int);
            assert(e.subrange(1, 5) =~= be32(4 + body.len() as int));
        },
        Message::ParameterStatus(name, value) => {
            let body = c_string(name@) + c_string(value@);
            lemma_read_be32_of_be32(4 + body.len() as int);
            assert(e.subrange(1, 5) =~= be32(4 + body.len() as int));
        },
        _ => {
            assert(read_be32(e.subrange(1, 5)) == e.len() - 1);
        },
    }
}

/// A `DataRow` or a `RowDescription` gives, right after its length, the
/// number of columns it holds as a two-byte integer in network order (for
/// fewer than 2^16 columns).
pub proof fn law_column_count_follows_the_length(m: Message)
    requires
        m is DataRow ==> m->DataRow_0@.len() < 0x1_0000,
        m is RowDescription ==> m->RowDescription_0@.len() < 0x1_0000,
        m is DataRow || m is RowDescription,
    ensures
        m.encoded().len() >= 7,
        m is DataRow ==> read_be16(m.encoded().subrange(5, 7)) == m->DataRow_0@.len(),
        m is RowDescription ==> read_be16(m.encoded().subrange(5, 7))
            == m->RowDescription_0@.len(),
{
    let e = m.encoded();
    match m {
        Message::DataRow(row) => {
            lemma_read_be16_of_be16(row@.len() as int);
            assert(e.subrange(5, 7) =~= be16(row@.len() as int));
        },
        Message::RowDescription(columns) => {
            lemma_read_be16_of_be16(columns@.len() as int);
            assert(e.subrange(5, 7) =~= be16(columns@.len() as int));
        },
        _ => {},
    }
}

fn encode_data_row(row: &Vec<String>) -> (out: Vec<u8>)
    requires
        data_row_encoded(row@).len() <= 0x8000_0000,
        data_row_encoded(row@).len() <= isize::MAX,
    ensures
        out@ == data_row_encoded(row@),
{
    let ghost f = data_row_field_fn();
    let ghost body = concat_map(row@, f);
    let mut row_buff = bytes_mut_with_capacity(256);
    let mut i: usize = 0;
    while i < row.len()
        invariant
            i <= row@.len(),
            f == data_row_field_fn(),
            body == concat_map(row@, f),
            6 + body.len() <= 0x7fff_ffff,
            7 + body.len() <= isize::MAX,
            bytes_mut_contents(row_buff) == concat_map(row@.take(i as int), f),
        decreases row@.len() - i,
    {
        let as_string = &row[i];
        proof {
            lemma_concat_map_push(row@, i as int, f);
            lemma_concat_map_prefix_len(row@, i + 1, f);
        }
        put_i32(&mut row_buff, as_string.as_str().len() as i32);
        extend_from_slice(&mut row_buff, as_string.as_str().as_bytes());
        i = i + 1;
    }
    assert(row@.take(row@.len() as int) =~= row@);
    let mut len_buff = bytes_mut_new();
    put_u8(&mut len_buff, DATA_ROW);
    put_i32(&mut len_buff, 6 + bytes_mut_len(&row_buff) as i32);
    proof {
        lemma_be16_of_i16_cast(row.len());
    }
    put_i16(&mut len_buff, row.len() as i16);
    extend_from_slice(&mut len_buff, deref(&row_buff));
    let out = vstd::slice::slice_to_vec(buf_bytes(&len_buff));
    assert(out@ =~= data_row_encoded(row@));
    out
}

fn encode_row_description(description: &Vec<ColumnMetadata>) -> (out: Vec<u8>)
    requires
        row_description_encoded(description@).len() <= 0x8000_0000,
        row_description_encoded(description@).len() <= isize::MAX,
    ensures
        out@ == row_description_encoded(description@),
{
    let ghost f = column_description_fn();
    let ghost body = concat_map(description@, f);
    let mut buff = bytes_mut_with_capacity(256);
    let mut i: usize = 0;
    while i < description.len()
        invariant
            i <= description@.len(),
            f == column_description_fn(),
            body == concat_map(description@, f),
            6 + body.len() <= 0x7fff_ffff,
            7 + body.len() <= isize::MAX,
            bytes_mut_contents(buff) == concat_map(description@.take(i as int), f),
        decreases description@.len() - i,
    {
        let field = &description[i];
        proof {
            lemma_concat_map_push(description@, i as int, f);
            lemma_concat_map_prefix_len(description@, i + 1, f);
        }
        let ghost before = bytes_mut_contents(buff);
        put_slice(&mut buff, field.name.as_str().as_bytes());
        put_u8(&mut buff, 0);  // end of c string
        put_i32(&mut buff, 0);  // table id
        put_i16(&mut buff, 0);  // column id
        put_i32(&mut buff, field.type_id);
        put_i16(&mut buff, field.type_size);
        put_i32(&mut buff, -1);  // type modifier
        put_i16(&mut buff, 0);
        assert(bytes_mut_contents(buff) =~= before + column_description(*field));
        i = i + 1;
    }
    assert(description@.take(description@.len() as int) =~= description@);
    let mut len_buff = bytes_mut_new();
    put_u8(&mut len_buff, ROW_DESCRIPTION);
    put_i32(&mut len_buff, 6 + bytes_mut_len(&buff) as i32);
    proof {
        lemma_be16_of_i16_cast(description.len());
    }
    put_i16(&mut len_buff, description.len() as i16);
    extend_from_slice(&mut len_buff, deref(&buff));
    let out = vstd::slice::slice_to_vec(deref(&len_buff));
    assert(out@ =~= row_description_encoded(description@));
    out
}

fn encode_command_complete(command: &String) -> (out: Vec<u8>)
    requires
        command_complete_encoded(command@).len() <= 0x8000_0000,
        command_complete_encoded(command@).len() <= isize::MAX,
    ensures
        out@ == command_complete_encoded(command@),
{
    let mut command_buff = bytes_mut_with_capacity(256);
    put_u8(&mut command_buff, COMMAND_COMPLETE);
    put_i32(&mut command_buff, 4 + command.as_str().len() as i32 + 1);
    extend_from_slice(&mut command_buff, command.as_str().as_bytes());
    put_u8(&mut command_buff, 0);
    let out = vstd::slice::slice_to_vec(deref(&command_buff));
    assert(out@ =~= command_complete_encoded(command@));
    out
}

fn encode_error_response(
    severity: &Option<&'static str>,
    code: &Option<&'static str>,
    message: &Option<String>,
) -> (out: Vec<u8>)
    requires
        error_response_encoded(error_fields(*severity, *code, *message)).len() <= 0x8000_0000,
        error_response_encoded(error_fields(*severity, *code, *message)).len() <= isize::MAX,
    ensures
        out@ == error_response_encoded(error_fields(*severity, *code, *message)),
{
    let ghost fields = error_fields(*severity, *code, *message);
    let mut error_response_buff = bytes_mut_with_capacity(256);
    put_u8(&mut error_response_buff, ERROR_RESPONSE);
    let mut message_buff = bytes_mut_with_capacity(256);
    if let Some(severity) = severity {
        put_u8(&mut message_buff, SEVERITY);
        extend_from_slice(&mut message_buff, severity.as_bytes());
        put_u8(&mut message_buff, 0);
    }
    assert(bytes_mut_contents(message_buff) =~= error_field(SEVERITY, str_view(*severity)));
    if let Some(code) = code {
        put_u8(&mut message_buff, CODE);
        extend_from_slice(&mut message_buff, code.as_bytes());
        put_u8(&mut message_buff, 0);
    }
    assert(bytes_mut_contents(message_buff) =~= error_field(SEVERITY, str_view(*severity))
        + error_field(CODE, str_view(*code)));
    if let Some(message) = message {
        put_u8(&mut message_buff, MESSAGE);
        extend_from_slice(&mut message_buff, message.as_str().as_bytes());
        put_u8(&mut message_buff, 0);
    }
    assert(bytes_mut_contents(message_buff) =~= fields);
    put_i32(&mut error_response_buff, bytes_mut_len(&message_buff) as i32 + 4 + 1);
    extend_from_slice(&mut error_response_buff, as_ref(&message_buff));
    put_u8(&mut error_response_buff, 0);
    let out = vstd::slice::slice_to_vec(deref(&error_response_buff));
    assert(out@ =~= error_response_encoded(fields));
    out
}

fn encode_parameter_status(name: &String, value: &String) -> (out: Vec<u8>)
    requires
        parameter_status_encoded(name@, value@).len() <= 0x8000_0000,
        parameter_status_encoded(name@, value@).len() <= isize::MAX,
    ensures
        out@ == parameter_status_encoded(name@, value@),
{
    let mut parameter_status_buff = bytes_mut_with_capacity(256);
    put_u8(&mut parameter_status_buff, PARAMETER_STATUS);
    let mut parameters = bytes_mut_with_capacity(256);
    extend_from_slice(&mut parameters, name.as_str().as_bytes());
    put_u8(&mut parameters, 0);
    extend_from_slice(&mut parameters, value.as_str().as_bytes());
    put_u8(&mut parameters, 0);
    put_u32(&mut parameter_status_buff, 4 + buf_bytes(&parameters).len() as u32);
    extend_from_slice(&mut parameter_status_buff, as_ref(&parameters));
    let out = vstd::slice::slice_to_vec(deref(&parameter_status_buff));
    assert(out@ =~= parameter_status_encoded(name@, value@));
    out
}

} // verus!
