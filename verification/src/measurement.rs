//! One measurement: a station id and a temperature in tenths of a degree,
//! written as a line of text.

use crate::decimal::{
    all_digits, decimal, digit_char, digit_value, digits, is_digit, lemma_digit_char,
    lemma_digits_shape, lemma_number_of_digits, number_of, push_digit, push_digits,
};
use crate::text::{first_index, free_of, lemma_first_index_is};
use vstd::prelude::*;
use vstd::string::StringExecFns;

verus! {

/// The lowest temperature that is drawn, in tenths of a degree.
pub const MIN_TEMP: i32 = -999;

/// The bound below which every drawn temperature lies, in tenths of a degree.
pub const MAX_TEMP: i32 = 999;

/// The magnitude of `value`.
pub open spec fn magnitude(value: int) -> int {
    if value < 0 {
        -value
    } else {
        value
    }
}

/// The part of a temperature before the point: `value` divided by ten and
/// rounded towards zero, so that it keeps the sign of `value` unless it is zero.
pub open spec fn whole_part(value: int) -> int {
    if value < 0 {
        -(magnitude(value) / 10)
    } else {
        value / 10
    }
}

/// The digit after the point: the last digit of the magnitude of `value`.
pub open spec fn tenth_digit(value: int) -> int {
    magnitude(value) % 10
}

/// A temperature as it is written: the whole part in decimal notation, a point,
/// and the digit of the tenths. The sign is that of the whole part, so a value
/// between -9 and -1 is written without one.
pub open spec fn reading_text(value: int) -> Seq<char> {
    decimal(whole_part(value)) + seq!['.'] + seq![digit_char(tenth_digit(value))]
}

/// One measurement without the end of its line: the station's id, a `;`, and
/// the temperature.
pub open spec fn record(id: Seq<char>, value: int) -> Seq<char> {
    id + seq![';'] + reading_text(value)
}

/// The line of one measurement: its record and a line feed.
pub open spec fn measurement_line(id: Seq<char>, value: int) -> Seq<char> {
    record(id, value) + seq!['\n']
}

/// The second field of a record: what follows its first `;`.
pub open spec fn reading_of(record: Seq<char>) -> Seq<char> {
    record.skip(first_index(record, ';') + 1)
}

/// A written temperature without its sign.
pub open spec fn unsigned_part(field: Seq<char>) -> Seq<char> {
    if field.len() > 0 && field[0] == '-' {
        field.skip(1)
    } else {
        field
    }
}

/// Whether `field` has the form of a written temperature: an optional minus
/// sign, one or more digits, a point, and one digit.
pub open spec fn is_reading(field: Seq<char>) -> bool {
    let body = unsigned_part(field);
    &&& body.len() >= 3
    &&& all_digits(body.take(body.len() - 2))
    &&& body[body.len() - 2] == '.'
    &&& is_digit(body.last())
}

/// The number that a written temperature denotes as a decimal, in tenths.
pub open spec fn tenths_of(field: Seq<char>) -> int {
    let body = unsigned_part(field);
    let size = number_of(body.take(body.len() - 2)) * 10 + digit_value(body.last());
    if field.len() > 0 && field[0] == '-' {
        -size
    } else {
        size
    }
}

/// Whether `c` can stand in a written temperature.
pub open spec fn reading_char(c: char) -> bool {
    is_digit(c) || c == '-' || c == '.'
}

/// A written temperature has the form of one, is made of digits, a point and
/// at most a minus sign, and ends in a digit.
pub proof fn lemma_reading_form(value: int)
    ensures
        is_reading(reading_text(value)),
        forall|i: int|
            0 <= i < reading_text(value).len() ==> reading_char(#[trigger] reading_text(value)[i]),
        is_digit(reading_text(value).last()),
        unsigned_part(reading_text(value)) == digits(magnitude(whole_part(value)) as nat) + seq![
            '.',
            digit_char(tenth_digit(value)),
        ],
        reading_text(value)[0] == '-' <==> whole_part(value) < 0,
{
    lemma_digits_shape(magnitude(whole_part(value)) as nat);
    lemma_digit_char(tenth_digit(value));
}

/// Read back as a decimal, a written temperature is the value it was written
/// from, but for the values from -9 to -1, which are written without a sign
/// and read back as their magnitude.
pub proof fn lemma_tenths_of_reading(value: int)
    ensures
        tenths_of(reading_text(value)) == if -10 < value < 0 {
            -value
        } else {
            value
        },
{
    lemma_reading_form(value);
    let whole = whole_part(value);
    let run = digits(magnitude(whole) as nat);
    let body = unsigned_part(reading_text(value));
    assert(body.take(body.len() - 2) == run);
    lemma_number_of_digits(magnitude(whole) as nat);
    lemma_digit_char(tenth_digit(value));
}

/// The id of a record is its first field, provided the id holds no `;`; the
/// temperature is its second.
pub proof fn lemma_record_fields(id: Seq<char>, value: int)
    requires
        free_of(id, ';'),
    ensures
        first_index(record(id, value), ';') == id.len(),
        record(id, value).take(id.len() as int) == id,
        reading_of(record(id, value)) == reading_text(value),
{
    lemma_first_index_is(record(id, value), ';', id.len() as int);
}

/// Appends the temperature `value`, given in tenths of a degree, to `buf`.
pub fn append_reading(buf: &mut String, value: i32)
    ensures
        final(buf)@ == old(buf)@ + reading_text(value as int),
{
    let negative = value < 0;
    let size: u32 = if negative {
        (-(value as i64)) as u32
    } else {
        value as u32
    };
    let whole: u32 = size / 10;
    let tenth: u32 = size % 10;
    if negative && whole > 0 {
        buf.push('-');
    }
    push_digits(buf, whole as u64);
    buf.push('.');
    push_digit(buf, tenth as u8);
}

/// Appends the line of one measurement to `buf`: `id`, a `;`, the temperature
/// `value` in tenths of a degree, and a line feed.
pub fn append_line(buf: &mut String, id: &str, value: i32)
    ensures
        final(buf)@ == old(buf)@ + measurement_line(id@, value as int),
{
    buf.append(id);
    buf.push(';');
    append_reading(buf, value);
    buf.push('\n');
}

} // verus!
