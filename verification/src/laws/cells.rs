//! What becomes of values in typed columns.

use crate::cell::{
    to_binary, to_boolean, to_float64, to_int64, to_utf8, truth_value, Cells, Rendered,
};
use crate::double::{nearest, truncated};
use crate::laws::numbers::law_zeros;
use crate::laws::texts::{blank, law_same_but_case, law_trimming, spells};
use crate::parquet_format::ColumnAppender;
use crate::schema::DataType;
use crate::text::{decimal, i64_value, signed_decimal, white_space};
use crate::value::{Datum, ValueRef};
use vstd::prelude::*;
use vstd::utf8::{encode_utf8, valid_utf8};

verus! {

/// A value adds one cell behind those of a column, which stay as they are, and the cell
/// is the same whatever cells there are.
pub proof fn law_column_grows_by_one_cell(cells: Cells, datum: Datum)
    ensures
        match (cells, cells.with(datum), Cells::none(cells.data_type()).with(datum)) {
            (Cells::Int64(before), Cells::Int64(after), Cells::Int64(alone)) => alone.len() == 1
                && after == before + alone,
            (Cells::Float64(before), Cells::Float64(after), Cells::Float64(alone)) => alone.len()
                == 1 && after == before + alone,
            (Cells::Boolean(before), Cells::Boolean(after), Cells::Boolean(alone)) => alone.len()
                == 1 && after == before + alone,
            (Cells::Binary(before), Cells::Binary(after), Cells::Binary(alone)) => alone.len() == 1
                && after == before + alone,
            (Cells::Utf8(before), Cells::Utf8(after), Cells::Utf8(alone)) => alone.len() == 1
                && after == before + alone,
            _ => false,
        },
{
    match (cells, cells.with(datum), Cells::none(cells.data_type()).with(datum)) {
        (Cells::Int64(before), Cells::Int64(after), Cells::Int64(alone)) => {
            assert(after =~= before + alone);
        },
        (Cells::Float64(before), Cells::Float64(after), Cells::Float64(alone)) => {
            assert(after =~= before + alone);
        },
        (Cells::Boolean(before), Cells::Boolean(after), Cells::Boolean(alone)) => {
            assert(after =~= before + alone);
        },
        (Cells::Binary(before), Cells::Binary(after), Cells::Binary(alone)) => {
            assert(after =~= before + alone);
        },
        (Cells::Utf8(before), Cells::Utf8(after), Cells::Utf8(alone)) => {
            assert(after =~= before + alone);
        },
        _ => {},
    }
}

/// A column without cells has the type that it was made for.
pub proof fn law_columns_have_their_types()
    ensures
        Cells::none(DataType::Int64) == Cells::Int64(seq![]),
        Cells::none(DataType::Float64) == Cells::Float64(seq![]),
        Cells::none(DataType::Boolean) == Cells::Boolean(seq![]),
        Cells::none(DataType::Binary) == Cells::Binary(seq![]),
        Cells::none(DataType::Utf8) == Cells::Utf8(seq![]),
        forall|data_type: DataType| #[trigger]
            Cells::none(data_type).data_type() == data_type,
{
}

/// An integer is itself among integers, true among truth values unless it is zero, the
/// double nearest to it among doubles, its decimal digits among texts, and null among
/// byte strings.
pub proof fn law_integer_cells(i: i64)
    ensures
        Cells::none(DataType::Int64).with(Datum::Integer(i)) == Cells::Int64(seq![Some(i)]),
        Cells::none(DataType::Float64).with(Datum::Integer(i)) == Cells::Float64(
            seq![Some(nearest(i))],
        ),
        Cells::none(DataType::Boolean).with(Datum::Integer(i)) == Cells::Boolean(
            seq![Some(i != 0)],
        ),
        Cells::none(DataType::Binary).with(Datum::Integer(i)) == Cells::Binary(seq![None]),
        Cells::none(DataType::Utf8).with(Datum::Integer(i)) == Cells::Utf8(
            seq![Some(signed_decimal(i as int))],
        ),
{
    assert(Cells::none(DataType::Int64).with(Datum::Integer(i)) =~~= Cells::Int64(seq![Some(i)]));
    assert(Cells::none(DataType::Float64).with(Datum::Integer(i)) =~~= Cells::Float64(
        seq![Some(nearest(i))],
    ));
    assert(Cells::none(DataType::Boolean).with(Datum::Integer(i)) =~~= Cells::Boolean(
        seq![Some(i != 0)],
    ));
    assert(Cells::none(DataType::Binary).with(Datum::Integer(i)) =~~= Cells::Binary(seq![None]));
    assert(Cells::none(DataType::Utf8).with(Datum::Integer(i)) =~~= Cells::Utf8(
        seq![Some(signed_decimal(i as int))],
    ));
}

/// A double is itself among doubles, bit for bit, without what is behind its point among
/// integers, true among truth values unless it is zero of either sign, its decimal text
/// among texts, and null among byte strings.
pub proof fn law_double_cells(bits: u64, text: Seq<char>)
    ensures
        ({
            let datum = Datum::Real { bits, text };
            &&& Cells::none(DataType::Int64).with(datum) == Cells::Int64(
                seq![Some(truncated(bits))],
            )
            &&& Cells::none(DataType::Float64).with(datum) == Cells::Float64(seq![Some(bits)])
            &&& Cells::none(DataType::Boolean).with(datum) == Cells::Boolean(
                seq![Some(bits != 0 && bits != 0x8000_0000_0000_0000)],
            )
            &&& Cells::none(DataType::Binary).with(datum) == Cells::Binary(seq![None])
            &&& Cells::none(DataType::Utf8).with(datum) == Cells::Utf8(seq![Some(text)])
        }),
{
    law_zeros(bits);
    let datum = Datum::Real { bits, text };
    assert(Cells::none(DataType::Int64).with(datum) =~~= Cells::Int64(
        seq![Some(truncated(bits))],
    ));
    assert(Cells::none(DataType::Float64).with(datum) =~~= Cells::Float64(seq![Some(bits)]));
    assert(Cells::none(DataType::Boolean).with(datum) =~~= Cells::Boolean(
        seq![Some(bits != 0 && bits != 0x8000_0000_0000_0000)],
    ));
    assert(Cells::none(DataType::Binary).with(datum) =~~= Cells::Binary(seq![None]));
    assert(Cells::none(DataType::Utf8).with(datum) =~~= Cells::Utf8(seq![Some(text)]));
}

/// No value is null in a column of any type.
pub proof fn law_null_cells()
    ensures
        Cells::none(DataType::Int64).with(Datum::Null) == Cells::Int64(seq![None]),
        Cells::none(DataType::Float64).with(Datum::Null) == Cells::Float64(seq![None]),
        Cells::none(DataType::Boolean).with(Datum::Null) == Cells::Boolean(seq![None]),
        Cells::none(DataType::Binary).with(Datum::Null) == Cells::Binary(seq![None]),
        Cells::none(DataType::Utf8).with(Datum::Null) == Cells::Utf8(seq![None]),
{
    assert(Cells::none(DataType::Int64).with(Datum::Null) =~~= Cells::Int64(seq![None]));
    assert(Cells::none(DataType::Float64).with(Datum::Null) =~~= Cells::Float64(seq![None]));
    assert(Cells::none(DataType::Boolean).with(Datum::Null) =~~= Cells::Boolean(seq![None]));
    assert(Cells::none(DataType::Binary).with(Datum::Null) =~~= Cells::Binary(seq![None]));
    assert(Cells::none(DataType::Utf8).with(Datum::Null) =~~= Cells::Utf8(seq![None]));
}

/// A text of well-formed bytes is itself among texts, so that it is encoded by the same
/// bytes, and by these bytes among byte strings. It is the number that it denotes among
/// integers and doubles, and null where it denotes none.
pub proof fn law_text_cells(text: Seq<char>, number: Option<u64>)
    ensures
        ({
            let bytes = encode_utf8(text);
            let datum = Datum::Text { bytes, number };
            &&& Cells::none(DataType::Int64).with(datum) == Cells::Int64(seq![i64_value(text)])
            &&& Cells::none(DataType::Float64).with(datum) == Cells::Float64(seq![number])
            &&& Cells::none(DataType::Binary).with(datum) == Cells::Binary(seq![Some(bytes)])
            &&& Cells::none(DataType::Utf8).with(datum) == Cells::Utf8(seq![Some(text)])
        }),
{
    let bytes = encode_utf8(text);
    let datum = Datum::Text { bytes, number };
    vstd::utf8::encode_utf8_valid_utf8(text);
    vstd::utf8::encode_utf8_decode_utf8(text);
    assert(Cells::none(DataType::Int64).with(datum) =~~= Cells::Int64(seq![i64_value(text)]));
    assert(Cells::none(DataType::Float64).with(datum) =~~= Cells::Float64(seq![number]));
    assert(Cells::none(DataType::Binary).with(datum) =~~= Cells::Binary(seq![Some(bytes)]));
    assert(Cells::none(DataType::Utf8).with(datum) =~~= Cells::Utf8(seq![Some(text)]));
}

/// A text whose bytes are not well-formed is empty among texts, these bytes among byte
/// strings, and null in every other column.
pub proof fn law_ill_formed_text_cells(bytes: Seq<u8>, number: Option<u64>)
    requires
        !valid_utf8(bytes),
    ensures
        ({
            let datum = Datum::Text { bytes, number };
            &&& Cells::none(DataType::Int64).with(datum) == Cells::Int64(seq![None])
            &&& Cells::none(DataType::Float64).with(datum) == Cells::Float64(seq![None])
            &&& Cells::none(DataType::Boolean).with(datum) == Cells::Boolean(seq![None])
            &&& Cells::none(DataType::Binary).with(datum) == Cells::Binary(seq![Some(bytes)])
            &&& Cells::none(DataType::Utf8).with(datum) == Cells::Utf8(seq![Some(seq![])])
        }),
{
    let datum = Datum::Text { bytes, number };
    assert(Cells::none(DataType::Int64).with(datum) =~~= Cells::Int64(seq![None]));
    assert(Cells::none(DataType::Float64).with(datum) =~~= Cells::Float64(seq![None]));
    assert(Cells::none(DataType::Boolean).with(datum) =~~= Cells::Boolean(seq![None]));
    assert(Cells::none(DataType::Binary).with(datum) =~~= Cells::Binary(seq![Some(bytes)]));
    assert(Cells::none(DataType::Utf8).with(datum) =~~= Cells::Utf8(seq![Some(seq![])]));
}

/// A blob is its bytes among byte strings, the text that they encode among texts, or
/// else a note of how many they are, and null in every other column.
pub proof fn law_blob_cells(bytes: Seq<u8>)
    ensures
        ({
            let datum = Datum::Blob(bytes);
            &&& Cells::none(DataType::Int64).with(datum) == Cells::Int64(seq![None])
            &&& Cells::none(DataType::Float64).with(datum) == Cells::Float64(seq![None])
            &&& Cells::none(DataType::Boolean).with(datum) == Cells::Boolean(seq![None])
            &&& Cells::none(DataType::Binary).with(datum) == Cells::Binary(seq![Some(bytes)])
            &&& !valid_utf8(bytes) ==> Cells::none(DataType::Utf8).with(datum) == Cells::Utf8(
                seq![
                    Some(
                        seq!['<', 'b', 'l', 'o', 'b', ' '] + decimal(bytes.len())
                            + seq![' ', 'b', 'y', 't', 'e', 's', '>'],
                    ),
                ],
            )
            &&& valid_utf8(bytes) ==> {
                &&& Cells::none(DataType::Utf8).with(datum) matches Cells::Utf8(cells)
                &&& cells.len() == 1
                &&& cells[0] matches Some(text)
                &&& encode_utf8(text) == bytes
            }
        }),
{
    let datum = Datum::Blob(bytes);
    assert(Cells::none(DataType::Int64).with(datum) =~~= Cells::Int64(seq![None]));
    assert(Cells::none(DataType::Float64).with(datum) =~~= Cells::Float64(seq![None]));
    assert(Cells::none(DataType::Boolean).with(datum) =~~= Cells::Boolean(seq![None]));
    assert(Cells::none(DataType::Binary).with(datum) =~~= Cells::Binary(seq![Some(bytes)]));
    if valid_utf8(bytes) {
        vstd::utf8::decode_utf8_encode_utf8(bytes);
    } else {
        reveal_strlit("<blob ");
        reveal_strlit(" bytes>");
        assert("<blob "@ =~= seq!['<', 'b', 'l', 'o', 'b', ' ']);
        assert(" bytes>"@ =~= seq![' ', 'b', 'y', 't', 'e', 's', '>']);
        assert(Cells::none(DataType::Utf8).with(datum) =~~= Cells::Utf8(
            seq![
                Some(
                    seq!['<', 'b', 'l', 'o', 'b', ' '] + decimal(bytes.len()) + seq![
                        ' ',
                        'b',
                        'y',
                        't',
                        'e',
                        's',
                        '>',
                    ],
                ),
            ],
        ));
    }
}

/// Whether a word means yes.
pub open spec fn means_yes(word: Seq<char>) -> bool {
    spells(word, seq!['t', 'r', 'u', 'e']) || spells(word, seq!['1']) || spells(word, seq!['t'])
        || spells(word, seq!['y', 'e', 's']) || spells(word, seq!['y'])
}

/// Whether a word means no.
pub open spec fn means_no(word: Seq<char>) -> bool {
    spells(word, seq!['f', 'a', 'l', 's', 'e']) || spells(word, seq!['0']) || spells(
        word,
        seq!['f'],
    ) || spells(word, seq!['n', 'o']) || spells(word, seq!['n'])
}

/// Among truth values, a text is what its word means, in capitals or not and with any
/// white space around it, and null where that means neither yes nor no.
pub proof fn law_text_truth_cells(
    before: Seq<char>,
    word: Seq<char>,
    after: Seq<char>,
    number: Option<u64>,
)
    requires
        blank(before),
        blank(after),
        word.len() > 0 ==> !white_space(word[0]) && !white_space(word.last()),
    ensures
        ({
            let datum = Datum::Text { bytes: encode_utf8(before + word + after), number };
            let column = Cells::none(DataType::Boolean).with(datum);
            &&& means_yes(word) ==> column == Cells::Boolean(seq![Some(true)])
            &&& means_no(word) ==> column == Cells::Boolean(seq![Some(false)])
            &&& !means_yes(word) && !means_no(word) ==> column == Cells::Boolean(seq![None])
            &&& !(means_yes(word) && means_no(word))
        }),
{
    let text = before + word + after;
    let datum = Datum::Text { bytes: encode_utf8(text), number };
    vstd::utf8::encode_utf8_valid_utf8(text);
    vstd::utf8::encode_utf8_decode_utf8(text);
    law_trimming(before, word, after);
    reveal_strlit("true");
    reveal_strlit("1");
    reveal_strlit("t");
    reveal_strlit("yes");
    reveal_strlit("y");
    reveal_strlit("false");
    reveal_strlit("0");
    reveal_strlit("f");
    reveal_strlit("no");
    reveal_strlit("n");
    assert("true"@ =~= seq!['t', 'r', 'u', 'e']);
    assert("1"@ =~= seq!['1']);
    assert("t"@ =~= seq!['t']);
    assert("yes"@ =~= seq!['y', 'e', 's']);
    assert("y"@ =~= seq!['y']);
    assert("false"@ =~= seq!['f', 'a', 'l', 's', 'e']);
    assert("0"@ =~= seq!['0']);
    assert("f"@ =~= seq!['f']);
    assert("no"@ =~= seq!['n', 'o']);
    assert("n"@ =~= seq!['n']);
    law_same_but_case(word, "true"@);
    law_same_but_case(word, "1"@);
    law_same_but_case(word, "t"@);
    law_same_but_case(word, "yes"@);
    law_same_but_case(word, "y"@);
    law_same_but_case(word, "false"@);
    law_same_but_case(word, "0"@);
    law_same_but_case(word, "f"@);
    law_same_but_case(word, "no"@);
    law_same_but_case(word, "n"@);
    assert(!(means_yes(word) && means_no(word))) by {
        if means_yes(word) && means_no(word) {
            if word.len() == 1 {
                assert(spells(word, seq!['1']) ==> word[0] == seq!['1'][0]);
                assert(spells(word, seq!['0']) ==> word[0] == seq!['0'][0]);
                assert(spells(word, seq!['t']) ==> word[0] == seq!['t'][0] || word[0] as int + 32
                    == seq!['t'][0] as int);
                assert(spells(word, seq!['y']) ==> word[0] == seq!['y'][0] || word[0] as int + 32
                    == seq!['y'][0] as int);
                assert(spells(word, seq!['f']) ==> word[0] == seq!['f'][0] || word[0] as int + 32
                    == seq!['f'][0] as int);
                assert(spells(word, seq!['n']) ==> word[0] == seq!['n'][0] || word[0] as int + 32
                    == seq!['n'][0] as int);
            }
        }
    }
    assert(Cells::none(DataType::Boolean).with(datum) =~~= Cells::Boolean(
        seq![truth_value(text)],
    ));
}

/// What a value is converted to for a column is the cell that it makes in a column of that
/// type.
pub proof fn law_conversions_make_the_cells<'a, 'b>(
    value: &'b ValueRef<'a>,
    whole: Option<i64>,
    double: Option<u64>,
    truth: Option<bool>,
    bytes: Option<&'a [u8]>,
    text: Option<Rendered<'b>>,
)
    requires
        call_ensures(to_int64, (value,), whole),
        call_ensures(to_float64, (value,), double),
        call_ensures(to_boolean, (value,), truth),
        call_ensures(to_binary, (value,), bytes),
        call_ensures(to_utf8, (value,), text),
    ensures
        Cells::none(DataType::Int64).with(value@) == Cells::Int64(seq![whole]),
        Cells::none(DataType::Float64).with(value@) == Cells::Float64(seq![double]),
        Cells::none(DataType::Boolean).with(value@) == Cells::Boolean(seq![truth]),
        Cells::none(DataType::Binary).with(value@) == Cells::Binary(
            seq![
                match bytes {
                    Some(string) => Some(string@),
                    None => None,
                },
            ],
        ),
        Cells::none(DataType::Utf8).with(value@) == Cells::Utf8(
            seq![
                match text {
                    Some(rendered) => Some(rendered@),
                    None => None,
                },
            ],
        ),
{
    assert(Cells::none(DataType::Int64).with(value@) =~~= Cells::Int64(seq![whole]));
    assert(Cells::none(DataType::Float64).with(value@) =~~= Cells::Float64(seq![double]));
    assert(Cells::none(DataType::Boolean).with(value@) =~~= Cells::Boolean(seq![truth]));
    assert(Cells::none(DataType::Binary).with(value@) =~~= Cells::Binary(
        seq![
            match bytes {
                Some(string) => Some(string@),
                None => None,
            },
        ],
    ));
    assert(Cells::none(DataType::Utf8).with(value@) =~~= Cells::Utf8(
        seq![
            match text {
                Some(rendered) => Some(rendered@),
                None => None,
            },
        ],
    ));
}

/// An integer is converted to itself, to the nearest double, to its decimal digits, and to
/// true unless it is zero. It makes no byte string.
pub proof fn law_converted_integers<'a, 'b>(
    value: &'b ValueRef<'a>,
    i: i64,
    whole: Option<i64>,
    double: Option<u64>,
    truth: Option<bool>,
    bytes: Option<&'a [u8]>,
    text: Option<Rendered<'b>>,
)
    requires
        value@ == Datum::Integer(i),
        call_ensures(to_int64, (value,), whole),
        call_ensures(to_float64, (value,), double),
        call_ensures(to_boolean, (value,), truth),
        call_ensures(to_binary, (value,), bytes),
        call_ensures(to_utf8, (value,), text),
    ensures
        whole == Some(i),
        double == Some(nearest(i)),
        truth == Some(i != 0),
        bytes is None,
        text matches Some(rendered) && rendered@ == signed_decimal(i as int),
{
    law_conversions_make_the_cells(value, whole, double, truth, bytes, text);
    law_integer_cells(i);
    assert(seq![truth][0] == seq![Some(i != 0)][0]);
    assert(seq![whole][0] == seq![Some(i)][0]);
    assert(seq![double][0] == seq![Some(nearest(i))][0]);
}

/// A double is converted to itself, bit for bit, to the integer in front of its point, to
/// its decimal text, and to true unless it is zero of either sign. It makes no byte string.
pub proof fn law_converted_doubles<'a, 'b>(
    value: &'b ValueRef<'a>,
    bits: u64,
    decimal_text: Seq<char>,
    whole: Option<i64>,
    double: Option<u64>,
    truth: Option<bool>,
    bytes: Option<&'a [u8]>,
    text: Option<Rendered<'b>>,
)
    requires
        value@ == (Datum::Real { bits, text: decimal_text }),
        call_ensures(to_int64, (value,), whole),
        call_ensures(to_float64, (value,), double),
        call_ensures(to_boolean, (value,), truth),
        call_ensures(to_binary, (value,), bytes),
        call_ensures(to_utf8, (value,), text),
    ensures
        whole == Some(truncated(bits)),
        double == Some(bits),
        truth == Some(bits != 0 && bits != 0x8000_0000_0000_0000),
        bytes is None,
        text matches Some(rendered) && rendered@ == decimal_text,
{
    law_zeros(bits);
}

/// A blob and a text are converted to byte strings of exactly their bytes, and to texts of
/// exactly the characters that these encode. A blob makes no number and no truth value.
pub proof fn law_converted_bytes<'a, 'b>(
    value: &'b ValueRef<'a>,
    stored: Seq<u8>,
    whole: Option<i64>,
    double: Option<u64>,
    truth: Option<bool>,
    bytes: Option<&'a [u8]>,
    text: Option<Rendered<'b>>,
)
    requires
        value@ == Datum::Blob(stored) || value@ is Text && value@->Text_bytes == stored,
        call_ensures(to_int64, (value,), whole),
        call_ensures(to_float64, (value,), double),
        call_ensures(to_boolean, (value,), truth),
        call_ensures(to_binary, (value,), bytes),
        call_ensures(to_utf8, (value,), text),
    ensures
        bytes matches Some(string) && string@ == stored,
        valid_utf8(stored) ==> (text matches Some(rendered) && encode_utf8(rendered@) == stored),
        value@ is Blob ==> whole is None && double is None && truth is None,
        value@ is Text && !valid_utf8(stored) ==> whole is None && double is None && truth is None,
{
    if valid_utf8(stored) {
        vstd::utf8::decode_utf8_encode_utf8(stored);
    }
}

/// No value is converted to nothing.
pub proof fn law_converted_nulls<'a, 'b>(
    value: &'b ValueRef<'a>,
    whole: Option<i64>,
    double: Option<u64>,
    truth: Option<bool>,
    bytes: Option<&'a [u8]>,
    text: Option<Rendered<'b>>,
)
    requires
        value@ is Null,
        call_ensures(to_int64, (value,), whole),
        call_ensures(to_float64, (value,), double),
        call_ensures(to_boolean, (value,), truth),
        call_ensures(to_binary, (value,), bytes),
        call_ensures(to_utf8, (value,), text),
    ensures
        whole is None,
        double is None,
        truth is None,
        bytes is None,
        text is None,
{
}

/// A value that is appended adds its cell to the column, and no other.
pub proof fn law_appended_values<'a>(column: &mut ColumnAppender, value: &ValueRef<'a>)
    requires
        old(column).valid(),
        call_ensures(ColumnAppender::append_value, (column, value), ()),
    ensures
        final(column)@ == old(column)@.with(value@),
{
}

} // verus!
