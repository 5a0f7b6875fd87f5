//! How RFC 4180 reads a document, and why what [`crate::csv`] writes reads back
//! as the fields it was written from.

use crate::csv::{
    escaped, field_text, header_fields, plain, quotes_doubled, record, row_fields, special,
    value_field,
};
use crate::text::{decimal, joined, lemma_joined_push, signed_decimal};
use crate::value::Datum;
use vstd::prelude::*;

verus! {

/// What follows an opening quote: the field up to its closing quote, and the
/// text after that quote.
pub open spec fn read_quoted(text: Seq<char>) -> (Seq<char>, Seq<char>)
    decreases text.len(),
{
    if text.len() == 0 {
        (seq![], seq![])
    } else if text[0] == '"' {
        if text.len() > 1 && text[1] == '"' {
            let (field, rest) = read_quoted(text.skip(2));
            (seq!['"'] + field, rest)
        } else {
            (seq![], text.skip(1))
        }
    } else {
        let (field, rest) = read_quoted(text.skip(1));
        (seq![text[0]] + field, rest)
    }
}

/// A field without quotes: the text up to the next comma, quote or line break,
/// and the text from there on.
pub open spec fn read_bare(text: Seq<char>) -> (Seq<char>, Seq<char>)
    decreases text.len(),
{
    if text.len() == 0 || special(text[0]) {
        (seq![], text)
    } else {
        let (field, rest) = read_bare(text.skip(1));
        (seq![text[0]] + field, rest)
    }
}

/// The field that a text begins with, and the text after it.
pub open spec fn read_field(text: Seq<char>) -> (Seq<char>, Seq<char>) {
    if text.len() > 0 && text[0] == '"' {
        read_quoted(text.skip(1))
    } else {
        read_bare(text)
    }
}

/// The record that a text begins with, and the text after its line break.
pub open spec fn read_record(text: Seq<char>) -> (Seq<Seq<char>>, Seq<char>)
    decreases text.len(),
{
    let (field, rest) = read_field(text);
    if rest.len() > 0 && rest[0] == ',' && rest.len() <= text.len() {
        let (fields, after) = read_record(rest.skip(1));
        (seq![field] + fields, after)
    } else if rest.len() > 1 && rest[0] == '\r' && rest[1] == '\n' {
        (seq![field], rest.skip(2))
    } else {
        (seq![field], rest)
    }
}

/// The records of a document.
pub open spec fn read_document(text: Seq<char>) -> Seq<Seq<Seq<char>>>
    decreases text.len(),
{
    if text.len() == 0 {
        seq![]
    } else {
        let (fields, rest) = read_record(text);
        if rest.len() < text.len() {
            seq![fields] + read_document(rest)
        } else {
            seq![fields]
        }
    }
}

/// A document of records, each of whose fields is escaped.
pub open spec fn document(records: Seq<Seq<Seq<char>>>) -> Seq<char>
    decreases records.len(),
{
    if records.len() == 0 {
        seq![]
    } else {
        document(records.drop_last()) + record(header_fields(records.last()))
    }
}

/// What ends a field: a comma or a line break.
pub open spec fn ends_field(rest: Seq<char>) -> bool {
    rest.len() == 0 || rest[0] == ',' || rest[0] == '\r' || rest[0] == '\n'
}

proof fn lemma_read_bare(field: Seq<char>, rest: Seq<char>)
    requires
        plain(field),
        ends_field(rest),
    ensures
        read_bare(field + rest) == (field, rest),
    decreases field.len(),
{
    let text = field + rest;
    if field.len() == 0 {
        assert(text =~= rest);
        assert(field =~= seq![]);
    } else {
        assert(text[0] == field[0]);
        assert(text.skip(1) =~= field.skip(1) + rest);
        assert forall|i: int| 0 <= i < field.skip(1).len() implies !special(
            #[trigger] field.skip(1)[i],
        ) by {
            assert(field.skip(1)[i] == field[i + 1]);
        }
        lemma_read_bare(field.skip(1), rest);
        assert(seq![field[0]] + field.skip(1) =~= field);
    }
}

/// Doubling the quotes of a field, seen from its first character.
proof fn lemma_quotes_doubled_first(field: Seq<char>)
    requires
        field.len() > 0,
    ensures
        field[0] == '"' ==> quotes_doubled(field) == seq!['"', '"'] + quotes_doubled(field.skip(1)),
        field[0] != '"' ==> quotes_doubled(field) == seq![field[0]] + quotes_doubled(field.skip(1)),
    decreases field.len(),
{
    if field.len() == 1 {
        assert(field.drop_last() =~= seq![]);
        assert(field.skip(1) =~= seq![]);
        assert(quotes_doubled(field.drop_last()) =~= seq![]);
        assert(quotes_doubled(field) =~= if field[0] == '"' {
            seq!['"', '"'] + quotes_doubled(field.skip(1))
        } else {
            seq![field[0]] + quotes_doubled(field.skip(1))
        });
    } else {
        let front = field.drop_last();
        lemma_quotes_doubled_first(front);
        assert(field.skip(1).drop_last() =~= front.skip(1));
        assert(field.skip(1).last() == field.last());
        assert(front[0] == field[0]);
        assert(quotes_doubled(field) =~= if field[0] == '"' {
            seq!['"', '"'] + quotes_doubled(field.skip(1))
        } else {
            seq![field[0]] + quotes_doubled(field.skip(1))
        });
    }
}

proof fn lemma_read_quoted(field: Seq<char>, rest: Seq<char>)
    requires
        ends_field(rest),
    ensures
        read_quoted(quotes_doubled(field) + seq!['"'] + rest) == (field, rest),
    decreases field.len(),
{
    let text = quotes_doubled(field) + seq!['"'] + rest;
    if field.len() == 0 {
        assert(text =~= seq!['"'] + rest);
        assert(text.skip(1) =~= rest);
        assert(text.len() > 1 ==> text[1] == rest[0]);
        assert(field =~= seq![]);
    } else {
        let tail = field.skip(1);
        let shorter = quotes_doubled(tail) + seq!['"'] + rest;
        lemma_quotes_doubled_first(field);
        lemma_read_quoted(tail, rest);
        assert(seq![field[0]] + tail =~= field);
        if field[0] == '"' {
            assert(text =~= seq!['"', '"'] + shorter);
            assert(text.skip(2) =~= shorter);
        } else {
            assert(text =~= seq![field[0]] + shorter);
            assert(text.skip(1) =~= shorter);
        }
    }
}

/// A field reads back from its escaped form, whatever field or line follows.
pub proof fn law_field_reads_back(field: Seq<char>, rest: Seq<char>)
    requires
        ends_field(rest),
    ensures
        read_field(escaped(field) + rest) == (field, rest),
{
    let text = escaped(field) + rest;
    if plain(field) {
        if field.len() > 0 {
            assert(text[0] == field[0]);
            assert(!special(field[0]));
        } else {
            assert(text =~= rest);
        }
        lemma_read_bare(field, rest);
    } else {
        assert(text[0] == '"');
        assert(text.skip(1) =~= quotes_doubled(field) + seq!['"'] + rest);
        lemma_read_quoted(field, rest);
    }
}

/// Joining pieces, seen from the first of them.
proof fn lemma_joined_first(pieces: Seq<Seq<char>>, separator: Seq<char>)
    requires
        pieces.len() > 1,
    ensures
        joined(pieces, separator) == pieces[0] + separator + joined(pieces.skip(1), separator),
    decreases pieces.len(),
{
    let front = pieces.drop_last();
    assert(pieces =~= front.push(pieces.last()));
    lemma_joined_push(front, pieces.last(), separator);
    let tail = pieces.skip(1);
    assert(tail =~= tail.drop_last().push(pieces.last()));
    assert(tail.drop_last() =~= front.skip(1));
    lemma_joined_push(front.skip(1), pieces.last(), separator);
    if pieces.len() == 2 {
        assert(front.skip(1) =~= seq![]);
        assert(joined(front, separator) == pieces[0]);
        assert(joined(pieces, separator) =~= pieces[0] + separator + joined(tail, separator));
    } else {
        lemma_joined_first(front, separator);
        assert(joined(pieces, separator) =~= pieces[0] + separator + joined(tail, separator));
    }
}

/// A record of at least one field reads back as its fields.
pub proof fn law_record_reads_back(fields: Seq<Seq<char>>, rest: Seq<char>)
    requires
        fields.len() > 0,
    ensures
        read_record(record(header_fields(fields)) + rest) == (fields, rest),
    decreases fields.len(),
{
    let pieces = header_fields(fields);
    let text = record(pieces) + rest;
    let line_end = seq!['\r', '\n'];
    assert(pieces[0] == escaped(fields[0]));
    if fields.len() == 1 {
        let after = line_end + rest;
        assert(text =~= escaped(fields[0]) + after);
        assert(after[0] == '\r');
        law_field_reads_back(fields[0], after);
        assert(after.skip(2) =~= rest);
        assert(seq![fields[0]] =~= fields);
    } else {
        let tail = fields.skip(1);
        assert(header_fields(tail) =~= pieces.skip(1));
        lemma_joined_first(pieces, seq![',']);
        let next = record(header_fields(tail)) + rest;
        let after = seq![','] + next;
        assert(text =~= escaped(fields[0]) + after);
        law_field_reads_back(fields[0], after);
        assert(after.skip(1) =~= next);
        law_record_reads_back(tail, rest);
        assert(seq![fields[0]] + tail =~= fields);
    }
}

/// A document before which a record is put.
proof fn lemma_document_first(records: Seq<Seq<Seq<char>>>)
    requires
        records.len() > 0,
    ensures
        document(records) == record(header_fields(records[0])) + document(records.skip(1)),
    decreases records.len(),
{
    if records.len() == 1 {
        assert(records.drop_last() =~= seq![]);
        assert(records.skip(1) =~= seq![]);
        assert(document(records) =~= record(header_fields(records[0])) + document(records.skip(1)));
    } else {
        let front = records.drop_last();
        lemma_document_first(front);
        assert(records.skip(1).drop_last() =~= front.skip(1));
        assert(document(records) =~= record(header_fields(records[0])) + document(records.skip(1)));
    }
}

/// A document of records that have at least one field each reads back as those
/// records.
pub proof fn law_document_reads_back(records: Seq<Seq<Seq<char>>>)
    requires
        forall|i: int| 0 <= i < records.len() ==> (#[trigger] records[i]).len() > 0,
    ensures
        read_document(document(records)) == records,
    decreases records.len(),
{
    let text = document(records);
    if records.len() == 0 {
        assert(records =~= seq![]);
    } else {
        let tail = records.skip(1);
        lemma_document_first(records);
        law_record_reads_back(records[0], document(tail));
        assert forall|i: int| 0 <= i < tail.len() implies (#[trigger] tail[i]).len() > 0 by {
            assert(tail[i] == records[i + 1]);
        }
        law_document_reads_back(tail);
        assert(record(header_fields(records[0])).len() >= 2);
        assert(seq![records[0]] + tail =~= records);
    }
}

/// Two documents are the same only where their records are.
pub proof fn law_documents_differ(left: Seq<Seq<Seq<char>>>, right: Seq<Seq<Seq<char>>>)
    requires
        forall|i: int| 0 <= i < left.len() ==> (#[trigger] left[i]).len() > 0,
        forall|i: int| 0 <= i < right.len() ==> (#[trigger] right[i]).len() > 0,
        document(left) == document(right),
    ensures
        left == right,
{
    law_document_reads_back(left);
    law_document_reads_back(right);
}

/// Digits are plain.
proof fn lemma_decimal_plain(n: nat)
    ensures
        plain(decimal(n)),
    decreases n,
{
    if n >= 10 {
        lemma_decimal_plain(n / 10);
    }
}

/// The fields of a row are its texts, escaped: an integer needs no quotes, and
/// neither does a number whose text is plain.
pub proof fn law_row_fields_are_escaped_texts(row: Seq<Datum>)
    requires
        forall|i: int|
            0 <= i < row.len() ==> (#[trigger] row[i] matches Datum::Real { bits, text } ==> plain(
                text,
            )),
    ensures
        row_fields(row) == header_fields(row.map_values(|datum: Datum| field_text(datum))),
{
    let texts = row.map_values(|datum: Datum| field_text(datum));
    assert forall|i: int| 0 <= i < row.len() implies row_fields(row)[i] == header_fields(
        texts,
    )[i] by {
        match row[i] {
            Datum::Integer(n) => {
                if n < 0 {
                    lemma_decimal_plain((-n) as nat);
                } else {
                    lemma_decimal_plain(n as nat);
                }
                assert(plain(signed_decimal(n as int)));
            },
            _ => {},
        }
        assert(value_field(row[i]) == escaped(field_text(row[i])));
    }
    assert(row_fields(row) =~= header_fields(texts));
}

} // verus!
