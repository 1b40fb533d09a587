//! What a reader of an encoded message gets back: every string and value that
//! went into a message can be read out of its bytes unchanged.

use vstd::prelude::*;
use vstd::utf8::{decode_utf8, encode_utf8, encode_utf8_decode_utf8};

use crate::messages::{
    c_string, column_description, column_description_fn, concat_map, data_row_field_fn,
    ColumnMetadata, Message, CODE, MESSAGE, SEVERITY,
};
use crate::reading::{
    has_no_nul, lemma_read_c_string, lemma_utf8_has_no_zero_byte, read_c_string,
    read_c_string_records, read_coded_fields, read_values,
};
use crate::wire::{
    be16, be32, lemma_read_be16_of_be16_wrapping, lemma_read_be32_of_be32,
    lemma_read_be32_of_be32_wrapping, read_be16, read_be32,
};

verus! {

proof fn lemma_concat_map_front<A>(items: Seq<A>, f: spec_fn(A) -> Seq<u8>)
    requires
        items.len() > 0,
    ensures
        concat_map(items, f) == f(items[0]) + concat_map(items.drop_first(), f),
    decreases items.len(),
{
    if items.len() == 1 {
        assert(items.drop_last().len() == 0);
        assert(items.drop_first().len() == 0);
        assert(concat_map(items.drop_last(), f) =~= Seq::<u8>::empty());
        assert(items.last() == items[0]);
        assert(concat_map(items, f) =~= f(items[0]));
        assert(concat_map(items.drop_first(), f) =~= Seq::<u8>::empty());
        assert(concat_map(items, f) =~= f(items[0]) + concat_map(items.drop_first(), f));
    } else {
        lemma_concat_map_front(items.drop_last(), f);
        assert(items.drop_last().drop_first() =~= items.drop_first().drop_last());
        assert(items.drop_first().last() == items.last());
        assert(items.drop_last()[0] == items[0]);
        assert(concat_map(items, f) =~= f(items[0]) + concat_map(items.drop_first(), f));
    }
}

proof fn lemma_read_data_row_values(row: Seq<String>)
    requires
        concat_map(row, data_row_field_fn()).len() < 0x1_0000_0000,
    ensures
        read_values(concat_map(row, data_row_field_fn()), row.len()).0 =~= Seq::new(
            row.len(),
            |i: int| encode_utf8(row[i]@),
        ),
        read_values(concat_map(row, data_row_field_fn()), row.len()).1 =~= Seq::<u8>::empty(),
    decreases row.len(),
{
    let f = data_row_field_fn();
    let body = concat_map(row, f);
    if row.len() == 0 {
    } else {
        lemma_concat_map_front(row, f);
        let b = encode_utf8(row[0]@);
        let tail = concat_map(row.drop_first(), f);
        lemma_read_be32_of_be32(b.len() as int);
        assert(body =~= be32(b.len() as int) + b + tail);
        assert(body.take(4) =~= be32(b.len() as int));
        assert(body.subrange(4, 4int + b.len()) =~= b);
        assert(body.skip(4int + b.len()) =~= tail);
        lemma_read_data_row_values(row.drop_first());
        let more = read_values(tail, (row.len() - 1) as nat).0;
        assert(read_values(body, row.len()).0 =~= seq![b] + more);
        assert(seq![b] + more =~= Seq::new(row.len(), |i: int| encode_utf8(row[i]@)));
    }
}

/// The fixed part of a column description after the name's terminator:
/// table id, column number, type id, type size, type modifier, format.
pub open spec fn column_attributes(column: ColumnMetadata) -> Seq<u8> {
    be32(0) + be16(0) + be32(column.type_id as int) + be16(column.type_size as int) + be32(-1)
        + be16(0)
}

proof fn lemma_read_one_column(c: ColumnMetadata, tail: Seq<u8>, k: nat)
    requires
        has_no_nul(c.name@),
    ensures
        read_c_string_records(column_description(c) + tail, 18, k + 1).0 == seq![
            (encode_utf8(c.name@), column_attributes(c)),
        ] + read_c_string_records(tail, 18, k).0,
        read_c_string_records(column_description(c) + tail, 18, k + 1).1
            == read_c_string_records(tail, 18, k).1,
{
    let n = encode_utf8(c.name@);
    let attrs = column_attributes(c);
    let bytes = column_description(c) + tail;
    lemma_utf8_has_no_zero_byte(c.name@);
    assert(column_description(c) =~= n.push(0) + attrs);
    assert(bytes =~= n.push(0) + (attrs + tail));
    lemma_read_c_string(n, attrs + tail);
    assert(attrs.len() == 18);
    let start: int = n.len() + 1int;
    assert(bytes.subrange(start, start + 18) =~= attrs);
    assert(bytes.skip(start + 18) =~= tail);
}

proof fn lemma_read_column_records(columns: Seq<ColumnMetadata>)
    requires
        forall|j: int| 0 <= j < columns.len() ==> has_no_nul(#[trigger] columns[j].name@),
    ensures
        read_c_string_records(concat_map(columns, column_description_fn()), 18, columns.len()).0
            =~= Seq::new(
            columns.len(),
            |i: int| (encode_utf8(columns[i].name@), column_attributes(columns[i])),
        ),
        read_c_string_records(concat_map(columns, column_description_fn()), 18, columns.len()).1
            =~= Seq::<u8>::empty(),
    decreases columns.len(),
{
    let f = column_description_fn();
    if columns.len() > 0 {
        lemma_concat_map_front(columns, f);
        let c = columns[0];
        let tail = concat_map(columns.drop_first(), f);
        assert(has_no_nul(columns[0].name@));
        lemma_read_one_column(c, tail, (columns.len() - 1) as nat);
        assert forall|j: int| 0 <= j < columns.drop_first().len() implies has_no_nul(
            #[trigger] columns.drop_first()[j].name@,
        ) by {
            assert(columns.drop_first()[j] == columns[j + 1]);
        }
        lemma_read_column_records(columns.drop_first());
        let more = read_c_string_records(tail, 18, (columns.len() - 1) as nat).0;
        assert(seq![(encode_utf8(c.name@), column_attributes(c))] + more =~= Seq::new(
            columns.len(),
            |i: int| (encode_utf8(columns[i].name@), column_attributes(columns[i])),
        ));
    }
}

/// A `DataRow` reads back value by value: after the type byte, the length and
/// the column count come, for each value in column order, a four-byte length
/// and that many bytes; reading them gives all of each value's UTF-8 bytes,
/// which decode to the value itself, and nothing is left over.
pub proof fn law_data_row_values_read_back(row: Vec<String>)
    requires
        Message::DataRow(row).encoded().len() <= 0x8000_0000,
    ensures
        ({
            let read = read_values(Message::DataRow(row).encoded().skip(7), row@.len());
            &&& read.0.len() == row@.len()
            &&& forall|i: int|
                0 <= i < row@.len() ==> read.0[i] == encode_utf8(row@[i]@) && decode_utf8(
                    #[trigger] read.0[i],
                ) == row@[i]@
            &&& read.1 == Seq::<u8>::empty()
        }),
{
    let body = concat_map(row@, data_row_field_fn());
    let e = Message::DataRow(row).encoded();
    assert(e.skip(7) =~= body);
    lemma_read_data_row_values(row@);
    assert forall|i: int| 0 <= i < row@.len() implies decode_utf8(encode_utf8(row@[i]@))
        == row@[i]@ by {
        encode_utf8_decode_utf8(row@[i]@);
    }
}

/// A `RowDescription` reads back column by column: after the type byte, the
/// length and the column count, each column's name is read up to its zero
/// terminator and gives all of the name's UTF-8 bytes (which decode to the
/// name), and the 18 bytes after the terminator hold table id 0, column number
/// 0, the type id and the type size (read unsigned, so modulo 2^32 and 2^16),
/// type modifier -1 (all ones) and format 0; nothing is left over. This
/// holds for names of any length that hold no U+0000, which would end the
/// name early for any reader.
pub proof fn law_row_description_names_read_back(columns: Vec<ColumnMetadata>)
    requires
        forall|j: int| 0 <= j < columns@.len() ==> has_no_nul(#[trigger] columns@[j].name@),
    ensures
        ({
            let read = read_c_string_records(
                Message::RowDescription(columns).encoded().skip(7),
                18,
                columns@.len(),
            );
            &&& read.0.len() == columns@.len()
            &&& forall|i: int|
                0 <= i < columns@.len() ==> {
                    &&& (#[trigger] read.0[i]).0 == encode_utf8(columns@[i].name@)
                    &&& decode_utf8(read.0[i].0) == columns@[i].name@
                    &&& read_be32(read.0[i].1.subrange(6, 10)) == (columns@[i].type_id as int)
                        % 0x1_0000_0000
                    &&& read_be16(read.0[i].1.subrange(10, 12)) == (columns@[i].type_size as int)
                        % 0x1_0000
                    &&& read_be32(read.0[i].1.subrange(0, 4)) == 0
                    &&& read_be16(read.0[i].1.subrange(4, 6)) == 0
                    &&& read_be32(read.0[i].1.subrange(12, 16)) == 0xffff_ffff
                    &&& read_be16(read.0[i].1.subrange(16, 18)) == 0
                }
            &&& read.1 == Seq::<u8>::empty()
        }),
{
    let body = concat_map(columns@, column_description_fn());
    let e = Message::RowDescription(columns).encoded();
    assert(e.skip(7) =~= body);
    lemma_read_column_records(columns@);
    let read = read_c_string_records(e.skip(7), 18, columns@.len());
    assert forall|i: int| 0 <= i < columns@.len() implies {
        &&& (#[trigger] read.0[i]).0 == encode_utf8(columns@[i].name@)
        &&& decode_utf8(read.0[i].0) == columns@[i].name@
        &&& read_be32(read.0[i].1.subrange(6, 10)) == (columns@[i].type_id as int) % 0x1_0000_0000
        &&& read_be16(read.0[i].1.subrange(10, 12)) == (columns@[i].type_size as int) % 0x1_0000
        &&& read_be32(read.0[i].1.subrange(0, 4)) == 0
        &&& read_be16(read.0[i].1.subrange(4, 6)) == 0
        &&& read_be32(read.0[i].1.subrange(12, 16)) == 0xffff_ffff
        &&& read_be16(read.0[i].1.subrange(16, 18)) == 0
    } by {
        let c = columns@[i];
        encode_utf8_decode_utf8(c.name@);
        let attrs = column_attributes(c);
        assert(read.0[i] == (encode_utf8(c.name@), attrs));
        assert(attrs.subrange(6, 10) =~= be32(c.type_id as int));
        assert(attrs.subrange(10, 12) =~= be16(c.type_size as int));
        lemma_read_be32_of_be32_wrapping(c.type_id as int);
        lemma_read_be16_of_be16_wrapping(c.type_size as int);
        assert(attrs.subrange(0, 4) =~= be32(0));
        assert(attrs.subrange(4, 6) =~= be16(0));
        assert(attrs.subrange(12, 16) =~= be32(-1));
        assert(attrs.subrange(16, 18) =~= be16(0));
        lemma_read_be32_of_be32_wrapping(0);
        lemma_read_be32_of_be32_wrapping(-1);
        lemma_read_be16_of_be16_wrapping(0);
    }
}

/// A `CommandComplete` holds, from byte 5 up to its last byte, all of the
/// command tag's UTF-8 bytes (which decode to the tag), and ends in a zero
/// byte; a tag without U+0000 also reads back as the C string at byte 5.
pub proof fn law_command_complete_tag_reads_back(command: String)
    ensures
        ({
            let e = Message::CommandComplete(command).encoded();
            &&& e.len() >= 6
            &&& e.last() == 0
            &&& e.subrange(5, e.len() - 1) == encode_utf8(command@)
            &&& decode_utf8(e.subrange(5, e.len() - 1)) == command@
            &&& has_no_nul(command@) ==> read_c_string(e.skip(5)) == encode_utf8(command@)
        }),
{
    let e = Message::CommandComplete(command).encoded();
    let t = encode_utf8(command@);
    assert(e.subrange(5, e.len() - 1) =~= t);
    assert(e.skip(5) =~= t.push(0) + Seq::<u8>::empty());
    encode_utf8_decode_utf8(command@);
    if has_no_nul(command@) {
        lemma_utf8_has_no_zero_byte(command@);
        lemma_read_c_string(t, Seq::<u8>::empty());
    }
}

/// The field, code and UTF-8 value, that an `ErrorResponse` holds for an
/// optional value; none where the value is absent.
pub open spec fn present_field(code: u8, value: Option<Seq<char>>) -> Seq<(u8, Seq<u8>)> {
    match value {
        Some(v) => seq![(code, encode_utf8(v))],
        None => Seq::empty(),
    }
}

/// The number of bytes a present field takes: its code, its value's UTF-8
/// bytes and the value's terminator.
pub open spec fn field_size(value: Option<Seq<char>>) -> int {
    match value {
        Some(v) => 2 + encode_utf8(v).len() as int,
        None => 0,
    }
}

/// The optional string holds no U+0000.
pub open spec fn option_has_no_nul(value: Option<Seq<char>>) -> bool {
    match value {
        Some(v) => has_no_nul(v),
        None => true,
    }
}

proof fn lemma_read_one_field(code: u8, value: Option<Seq<char>>, rest: Seq<u8>)
    requires
        code != 0,
        option_has_no_nul(value),
    ensures
        read_coded_fields(crate::messages::error_field(code, value) + rest) == present_field(
            code,
            value,
        ) + read_coded_fields(rest),
{
    let bytes = crate::messages::error_field(code, value) + rest;
    match value {
        Some(v) => {
            let b = encode_utf8(v);
            lemma_utf8_has_no_zero_byte(v);
            assert(bytes =~= seq![code] + (b.push(0) + rest));
            assert(bytes.drop_first() =~= b.push(0) + rest);
            lemma_read_c_string(b, rest);
            assert(bytes.skip(2int + b.len()) =~= rest);
            assert(read_coded_fields(bytes) =~= seq![(code, b)] + read_coded_fields(rest));
        },
        None => {
            assert(bytes =~= rest);
            assert(present_field(code, value) + read_coded_fields(rest) =~= read_coded_fields(rest));
        },
    }
}

/// The fields of an `ErrorResponse` read back: from byte 5, the fields read
/// (a code byte, then a C string, up to the zero byte that ends them) are the
/// severity with code 'S', the SQLSTATE code with code 'C' and the message with
/// code 'M', each present exactly when given and holding all of its value's
/// UTF-8 bytes, in that order; one zero byte after them ends the message. This holds for values of any length that hold
/// no U+0000, which would end the value early for any reader.
pub proof fn law_error_response_fields_read_back(
    severity: Option<&'static str>,
    code: Option<&'static str>,
    message: Option<String>,
)
    requires
        option_has_no_nul(crate::messages::str_view(severity)),
        option_has_no_nul(crate::messages::str_view(code)),
        option_has_no_nul(crate::messages::string_view(message)),
    ensures
        Message::ErrorResponse(severity, code, message).encoded().len() == 6 + field_size(
            crate::messages::str_view(severity),
        ) + field_size(crate::messages::str_view(code)) + field_size(
            crate::messages::string_view(message),
        ),
        Message::ErrorResponse(severity, code, message).encoded().last() == 0,
        read_coded_fields(Message::ErrorResponse(severity, code, message).encoded().skip(5))
            == present_field(SEVERITY, crate::messages::str_view(severity)) + present_field(
            CODE,
            crate::messages::str_view(code),
        ) + present_field(MESSAGE, crate::messages::string_view(message)),
{
    let s = crate::messages::str_view(severity);
    let c = crate::messages::str_view(code);
    let m = crate::messages::string_view(message);
    let f1 = crate::messages::error_field(SEVERITY, s);
    let f2 = crate::messages::error_field(CODE, c);
    let f3 = crate::messages::error_field(MESSAGE, m);
    let e = Message::ErrorResponse(severity, code, message).encoded();
    assert(e.skip(5) =~= f1 + (f2 + (f3 + seq![0u8])));
    lemma_read_one_field(SEVERITY, s, f2 + (f3 + seq![0u8]));
    lemma_read_one_field(CODE, c, f3 + seq![0u8]);
    lemma_read_one_field(MESSAGE, m, seq![0u8]);
    assert(read_coded_fields(seq![0u8]) =~= Seq::<(u8, Seq<u8>)>::empty());
    assert(present_field(SEVERITY, s) + (present_field(CODE, c) + (present_field(MESSAGE, m)
        + Seq::<(u8, Seq<u8>)>::empty())) =~= present_field(SEVERITY, s) + present_field(CODE, c)
        + present_field(MESSAGE, m));
}

/// A `ParameterStatus` reads back: from byte 5, the name read up to its zero
/// terminator gives all of the name's UTF-8 bytes, and after that terminator
/// come all of the value's UTF-8 bytes and one zero byte, the last of the
/// message. This holds for names without U+0000 and values of any kind; a
/// value without U+0000 also reads back as the C string after the name.
pub proof fn law_parameter_status_reads_back(name: String, value: String)
    requires
        has_no_nul(name@),
    ensures
        ({
            let body = Message::ParameterStatus(name, value).encoded().skip(5);
            let n = read_c_string(body);
            let after = body.skip(n.len() + 1int);
            &&& n == encode_utf8(name@)
            &&& decode_utf8(n) == name@
            &&& after.len() >= 1
            &&& after.last() == 0
            &&& after.take(after.len() - 1) == encode_utf8(value@)
            &&& decode_utf8(after.take(after.len() - 1)) == value@
            &&& has_no_nul(value@) ==> read_c_string(after) == encode_utf8(value@)
        }),
{
    let body = Message::ParameterStatus(name, value).encoded().skip(5);
    let nb = encode_utf8(name@);
    let vb = encode_utf8(value@);
    assert(body =~= nb.push(0) + vb.push(0));
    lemma_utf8_has_no_zero_byte(name@);
    lemma_read_c_string(nb, vb.push(0));
    let after = body.skip(nb.len() + 1int);
    assert(after =~= vb.push(0));
    assert(after.take(after.len() - 1) =~= vb);
    encode_utf8_decode_utf8(name@);
    encode_utf8_decode_utf8(value@);
    if has_no_nul(value@) {
        lemma_utf8_has_no_zero_byte(value@);
        lemma_read_c_string(vb, Seq::<u8>::empty());
        assert(after =~= vb.push(0) + Seq::<u8>::empty());
    }
}

} // verus!
