//! Column values of a query result.

use crate::text::{decimal, push_decimal};
use vstd::prelude::*;

verus! {

/// A double-precision number.
pub struct Real {
    /// The bits of its IEEE 754 encoding.
    pub bits: u64,
    /// Its shortest decimal text, for the places where it is written out.
    pub text: String,
}

/// A text value, by the bytes that encode it.
pub struct Text<'a> {
    /// The bytes, which need not be well-formed UTF-8.
    pub bytes: &'a [u8],
    /// The bits of the double that the text denotes, for a text that denotes one
    /// and goes to a column of doubles.
    pub number: Option<u64>,
}

/// One column value of a row, borrowed from the row.
pub enum ValueRef<'a> {
    /// No value.
    Null,
    /// A 64-bit integer.
    Integer(i64),
    /// A double-precision number.
    Real(Real),
    /// A text.
    Text(Text<'a>),
    /// Raw bytes.
    Blob(&'a [u8]),
}

/// What a column value is.
pub enum Datum {
    /// No value.
    Null,
    /// An integer.
    Integer(i64),
    /// A double, by its bits and its decimal text.
    Real { bits: u64, text: Seq<char> },
    /// A text, by its bytes and the double that it denotes.
    Text { bytes: Seq<u8>, number: Option<u64> },
    /// Raw bytes.
    Blob(Seq<u8>),
}

impl<'a> View for ValueRef<'a> {
    type V = Datum;

    open spec fn view(&self) -> Datum {
        match self {
            ValueRef::Null => Datum::Null,
            ValueRef::Integer(i) => Datum::Integer(*i),
            ValueRef::Real(number) => Datum::Real { bits: number.bits, text: number.text@ },
            ValueRef::Text(text) => Datum::Text { bytes: text.bytes@, number: text.number },
            ValueRef::Blob(bytes) => Datum::Blob(bytes@),
        }
    }
}

/// What the values of a row are.
pub open spec fn row_data<'a>(row: Seq<ValueRef<'a>>) -> Seq<Datum> {
    row.map_values(|value: ValueRef<'a>| value@)
}

/// Why a row could not be written.
#[derive(Debug, Clone, Copy, PartialEq, Eq)]
pub enum RowError {
    /// The row has no column of this index.
    InvalidColumnIndex(usize),
}

impl RowError {
    /// The text of the error.
    pub fn message(&self) -> (r: String)
        ensures
            match *self {
                RowError::InvalidColumnIndex(index) => r@ == "Invalid column index: "@ + decimal(
                    index as nat,
                ),
            },
    {
        match self {
            RowError::InvalidColumnIndex(index) => {
                let mut text: String = "Invalid column index: ".to_owned();
                push_decimal(&mut text, *index as u64);
                text
            },
        }
    }
}

impl<'a> ValueRef<'a> {
    /// A text value of which no number is needed.
    pub fn text(bytes: &'a [u8]) -> (r: ValueRef<'a>)
        ensures
            r@ == (Datum::Text { bytes: bytes@, number: None }),
    {
        ValueRef::Text(Text { bytes, number: None })
    }
}

} // verus!
