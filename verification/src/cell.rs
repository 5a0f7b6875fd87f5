//! What a column value becomes in a column of each type.

use crate::csv::format_integer;
use crate::double::{is_zero, nearest, nearest_to, truncate, truncated, zero};
use crate::schema::DataType;
use crate::text::{
    decimal, eq_ignore_case, i64_value, parse_i64, push_decimal, same_but_case, signed_decimal,
    trim, trimmed, utf8_text,
};
use crate::value::{Datum, ValueRef};
use vstd::prelude::*;
use vstd::utf8::{decode_utf8, valid_utf8};

verus! {

/// What the cells of a column are. A cell is none where it is null.
pub enum Cells {
    /// Integers.
    Int64(Seq<Option<i64>>),
    /// Doubles, by their bits.
    Float64(Seq<Option<u64>>),
    /// Truth values.
    Boolean(Seq<Option<bool>>),
    /// Byte strings.
    Binary(Seq<Option<Seq<u8>>>),
    /// Texts.
    Utf8(Seq<Option<Seq<char>>>),
}

impl Cells {
    /// A column without cells.
    pub open spec fn none(data_type: DataType) -> Cells {
        match data_type {
            DataType::Int64 => Cells::Int64(seq![]),
            DataType::Float64 => Cells::Float64(seq![]),
            DataType::Boolean => Cells::Boolean(seq![]),
            DataType::Binary => Cells::Binary(seq![]),
            DataType::Utf8 => Cells::Utf8(seq![]),
        }
    }

    /// The type of the column.
    pub open spec fn data_type(self) -> DataType {
        match self {
            Cells::Int64(_) => DataType::Int64,
            Cells::Float64(_) => DataType::Float64,
            Cells::Boolean(_) => DataType::Boolean,
            Cells::Binary(_) => DataType::Binary,
            Cells::Utf8(_) => DataType::Utf8,
        }
    }

    /// How many cells there are.
    pub open spec fn len(self) -> nat {
        match self {
            Cells::Int64(cells) => cells.len(),
            Cells::Float64(cells) => cells.len(),
            Cells::Boolean(cells) => cells.len(),
            Cells::Binary(cells) => cells.len(),
            Cells::Utf8(cells) => cells.len(),
        }
    }

    /// Whether any cell is null.
    pub open spec fn has_null(self) -> bool {
        match self {
            Cells::Int64(cells) => exists|i: int|
                0 <= i < cells.len() && (#[trigger] cells[i]) is None,
            Cells::Float64(cells) => exists|i: int|
                0 <= i < cells.len() && (#[trigger] cells[i]) is None,
            Cells::Boolean(cells) => exists|i: int|
                0 <= i < cells.len() && (#[trigger] cells[i]) is None,
            Cells::Binary(cells) => exists|i: int|
                0 <= i < cells.len() && (#[trigger] cells[i]) is None,
            Cells::Utf8(cells) => exists|i: int|
                0 <= i < cells.len() && (#[trigger] cells[i]) is None,
        }
    }

    /// The column that has only the cell of this index.
    pub open spec fn only(self, i: int) -> Cells {
        match self {
            Cells::Int64(cells) => Cells::Int64(seq![cells[i]]),
            Cells::Float64(cells) => Cells::Float64(seq![cells[i]]),
            Cells::Boolean(cells) => Cells::Boolean(seq![cells[i]]),
            Cells::Binary(cells) => Cells::Binary(seq![cells[i]]),
            Cells::Utf8(cells) => Cells::Utf8(seq![cells[i]]),
        }
    }

    /// The column that has only the cells from one index up to another.
    pub open spec fn part(self, i: int, j: int) -> Cells {
        match self {
            Cells::Int64(cells) => Cells::Int64(cells.subrange(i, j)),
            Cells::Float64(cells) => Cells::Float64(cells.subrange(i, j)),
            Cells::Boolean(cells) => Cells::Boolean(cells.subrange(i, j)),
            Cells::Binary(cells) => Cells::Binary(cells.subrange(i, j)),
            Cells::Utf8(cells) => Cells::Utf8(cells.subrange(i, j)),
        }
    }

    /// The column with the cells of another column of its type after its own.
    pub open spec fn followed_by(self, other: Cells) -> Cells {
        match (self, other) {
            (Cells::Int64(cells), Cells::Int64(more)) => Cells::Int64(cells + more),
            (Cells::Float64(cells), Cells::Float64(more)) => Cells::Float64(cells + more),
            (Cells::Boolean(cells), Cells::Boolean(more)) => Cells::Boolean(cells + more),
            (Cells::Binary(cells), Cells::Binary(more)) => Cells::Binary(cells + more),
            (Cells::Utf8(cells), Cells::Utf8(more)) => Cells::Utf8(cells + more),
            _ => self,
        }
    }

    /// The column with the cell that a value becomes in it.
    pub open spec fn with(self, datum: Datum) -> Cells {
        match self {
            Cells::Int64(cells) => Cells::Int64(cells.push(int64_cell(datum))),
            Cells::Float64(cells) => Cells::Float64(cells.push(float64_cell(datum))),
            Cells::Boolean(cells) => Cells::Boolean(cells.push(boolean_cell(datum))),
            Cells::Binary(cells) => Cells::Binary(cells.push(binary_cell(datum))),
            Cells::Utf8(cells) => Cells::Utf8(cells.push(utf8_cell(datum))),
        }
    }
}

/// Whether the decimal text of a double goes into a column of this type.
pub fn reads_real_text(data_type: DataType) -> (r: bool)
    ensures
        r == (data_type == DataType::Utf8),
{
    data_type == DataType::Utf8
}

/// Whether the double that a text denotes goes into a column of this type.
pub fn reads_text_number(data_type: DataType) -> (r: bool)
    ensures
        r == (data_type == DataType::Float64),
{
    data_type == DataType::Float64
}

/// The decimal text of a double matters only in a column of texts, and the double
/// that a text denotes only in a column of doubles.
pub proof fn law_unread_parts_do_not_matter(
    cells: Cells,
    bits: u64,
    text: Seq<char>,
    other_text: Seq<char>,
    bytes: Seq<u8>,
    number: Option<u64>,
    other_number: Option<u64>,
)
    ensures
        cells.data_type() != DataType::Utf8 ==> cells.with(Datum::Real { bits, text })
            == cells.with(Datum::Real { bits, text: other_text }),
        cells.data_type() != DataType::Float64 ==> cells.with(Datum::Text { bytes, number })
            == cells.with(Datum::Text { bytes, number: other_number }),
{
}

/// The truth value that a text denotes: one of a few words, in any case of
/// letters and with any white space around it.
pub open spec fn truth_value(text: Seq<char>) -> Option<bool> {
    let word = trimmed(text);
    if same_but_case(word, "true"@) || same_but_case(word, "1"@) || same_but_case(word, "t"@)
        || same_but_case(word, "yes"@) || same_but_case(word, "y"@) {
        Some(true)
    } else if same_but_case(word, "false"@) || same_but_case(word, "0"@) || same_but_case(
        word,
        "f"@,
    ) || same_but_case(word, "no"@) || same_but_case(word, "n"@) {
        Some(false)
    } else {
        None
    }
}

/// Computes [`truth_value`].
pub fn parse_truth(text: &str) -> (r: Option<bool>)
    ensures
        r == truth_value(text@),
{
    let trimmed_text: String = trim(text);
    let word: &str = trimmed_text.as_str();
    if eq_ignore_case(word, "true") || eq_ignore_case(word, "1") || eq_ignore_case(word, "t")
        || eq_ignore_case(word, "yes") || eq_ignore_case(word, "y") {
        Some(true)
    } else if eq_ignore_case(word, "false") || eq_ignore_case(word, "0") || eq_ignore_case(
        word,
        "f",
    ) || eq_ignore_case(word, "no") || eq_ignore_case(word, "n") {
        Some(false)
    } else {
        None
    }
}

/// A value in a column of integers: an integer as it is, a double without its
/// part after the point, and the integer that a text denotes.
pub open spec fn int64_cell(datum: Datum) -> Option<i64> {
    match datum {
        Datum::Integer(i) => Some(i),
        Datum::Real { bits, text } => Some(truncated(bits)),
        Datum::Text { bytes, number } => if valid_utf8(bytes) {
            i64_value(decode_utf8(bytes))
        } else {
            None
        },
        _ => None,
    }
}

/// A value in a column of doubles: a double as it is, the double nearest to an
/// integer, and the double that a text denotes.
pub open spec fn float64_cell(datum: Datum) -> Option<u64> {
    match datum {
        Datum::Real { bits, text } => Some(bits),
        Datum::Integer(i) => Some(nearest(i)),
        Datum::Text { bytes, number } => if valid_utf8(bytes) {
            number
        } else {
            None
        },
        _ => None,
    }
}

/// A value in a column of truth values: a number is true unless it is zero, and
/// a text is what it denotes.
pub open spec fn boolean_cell(datum: Datum) -> Option<bool> {
    match datum {
        Datum::Integer(i) => Some(i != 0),
        Datum::Real { bits, text } => Some(!zero(bits)),
        Datum::Text { bytes, number } => if valid_utf8(bytes) {
            truth_value(decode_utf8(bytes))
        } else {
            None
        },
        _ => None,
    }
}

/// A value in a column of byte strings: blobs and texts by their bytes.
pub open spec fn binary_cell(datum: Datum) -> Option<Seq<u8>> {
    match datum {
        Datum::Blob(bytes) => Some(bytes),
        Datum::Text { bytes, number } => Some(bytes),
        _ => None,
    }
}

/// What stands for a blob that is no text.
pub open spec fn blob_note(length: nat) -> Seq<char> {
    "<blob "@ + decimal(length) + " bytes>"@
}

/// A value in a column of texts: a text as it is, or empty where it is not
/// well-formed; numbers in decimal; a blob as the text that it encodes, or else
/// by its length.
pub open spec fn utf8_cell(datum: Datum) -> Option<Seq<char>> {
    match datum {
        Datum::Text { bytes, number } => Some(
            if valid_utf8(bytes) {
                decode_utf8(bytes)
            } else {
                seq![]
            },
        ),
        Datum::Integer(i) => Some(signed_decimal(i as int)),
        Datum::Real { bits, text } => Some(text),
        Datum::Blob(bytes) => Some(
            if valid_utf8(bytes) {
                decode_utf8(bytes)
            } else {
                blob_note(bytes.len())
            },
        ),
        Datum::Null => None,
    }
}

/// Computes [`int64_cell`].
pub fn to_int64(value: &ValueRef<'_>) -> (r: Option<i64>)
    ensures
        r == int64_cell(value@),
{
    match value {
        ValueRef::Integer(i) => Some(*i),
        ValueRef::Real(number) => Some(truncate(number.bits)),
        ValueRef::Text(text) => match utf8_text(text.bytes) {
            Some(s) => parse_i64(s),
            None => None,
        },
        _ => None,
    }
}

/// Computes [`float64_cell`].
pub fn to_float64(value: &ValueRef<'_>) -> (r: Option<u64>)
    ensures
        r == float64_cell(value@),
{
    match value {
        ValueRef::Real(number) => Some(number.bits),
        ValueRef::Integer(i) => Some(nearest_to(*i)),
        ValueRef::Text(text) => match utf8_text(text.bytes) {
            Some(_) => text.number,
            None => None,
        },
        _ => None,
    }
}

/// Computes [`boolean_cell`].
pub fn to_boolean(value: &ValueRef<'_>) -> (r: Option<bool>)
    ensures
        r == boolean_cell(value@),
{
    match value {
        ValueRef::Integer(i) => Some(*i != 0),
        ValueRef::Real(number) => Some(!is_zero(number.bits)),
        ValueRef::Text(text) => match utf8_text(text.bytes) {
            Some(s) => parse_truth(s),
            None => None,
        },
        _ => None,
    }
}

/// Computes [`binary_cell`].
pub fn to_binary<'a>(value: &ValueRef<'a>) -> (r: Option<&'a [u8]>)
    ensures
        (match r {
            Some(bytes) => Some(bytes@),
            None => None,
        }) == binary_cell(value@),
{
    match value {
        ValueRef::Blob(bytes) => Some(*bytes),
        ValueRef::Text(text) => Some(text.bytes),
        _ => None,
    }
}

/// A text that is borrowed where it can be.
pub enum Rendered<'a> {
    /// A text that stands in the value.
    Borrowed(&'a str),
    /// A text that was made for the cell.
    Owned(String),
}

impl<'a> View for Rendered<'a> {
    type V = Seq<char>;

    open spec fn view(&self) -> Seq<char> {
        match self {
            Rendered::Borrowed(text) => text@,
            Rendered::Owned(text) => text@,
        }
    }
}

impl<'a> Rendered<'a> {
    /// The text itself.
    pub fn as_str(&self) -> (r: &str)
        ensures
            r@ == self@,
    {
        match self {
            Rendered::Borrowed(text) => text,
            Rendered::Owned(text) => text.as_str(),
        }
    }
}

/// Computes [`utf8_cell`].
pub fn to_utf8<'a>(value: &'a ValueRef<'_>) -> (r: Option<Rendered<'a>>)
    ensures
        (match r {
            Some(text) => Some(text@),
            None => None,
        }) == utf8_cell(value@),
{
    match value {
        ValueRef::Text(text) => match utf8_text(text.bytes) {
            Some(s) => Some(Rendered::Borrowed(s)),
            None => Some(Rendered::Owned(String::new())),
        },
        ValueRef::Integer(i) => {
            let mut buffer: itoa::Buffer = itoa::Buffer::new();
            Some(Rendered::Owned(format_integer(&mut buffer, *i).to_owned()))
        },
        ValueRef::Real(number) => Some(Rendered::Borrowed(number.text.as_str())),
        ValueRef::Blob(bytes) => match utf8_text(bytes) {
            Some(s) => Some(Rendered::Borrowed(s)),
            None => {
                let mut note: String = String::new();
                note.push_str("<blob ");
                push_decimal(&mut note, bytes.len() as u64);
                note.push_str(" bytes>");
                assert(note@ =~= blob_note(bytes@.len()));
                Some(Rendered::Owned(note))
            },
        },
        ValueRef::Null => None,
    }
}

} // verus!
