//! How large a Parquet file can become before one of its 32-bit counts no longer holds.

use crate::cell::Cells;
use crate::columns::{binary_size, payload, utf8_size};
use crate::schema::{field_names, names_size, FieldView};
use vstd::prelude::*;
use vstd::utf8::encode_utf8;

verus! {

/// The most rows of a page, and the most that are added to one at a time.
pub const PAGE_ROWS: usize = 20_000;

/// How many bytes so many values may take that they make no page larger than its header
/// can count, whatever else the page holds and however little it can be compressed.
pub const PAGE_PAYLOAD: usize = 2_000_000_000;

/// The rows of a row group.
pub const GROUP_ROWS: usize = 0x10_0000;

/// The most columns that SQLite can be built to give a result.
pub const MAX_COLUMNS: usize = 32767;

/// How many bytes the footer takes beside what it says of columns, at most.
pub const FOOTER_ROOM: usize = 4096;

/// How many bytes a column takes in the footer of a file without rows, beside three times
/// its name, at most.
pub const FOOTER_COLUMN_ROOM: usize = 512;

/// How many bytes a column takes in the footer for each row group, beside its name and
/// one of its values, at most.
pub const FOOTER_CHUNK_ROOM: usize = 1024;

/// Whether no values that can come to stand in one page are too large for it.
pub open spec fn pages_fit(cells: Cells) -> bool {
    forall|i: int, j: int|
        0 <= i <= j <= cells.len() && j - i <= PAGE_ROWS ==> payload(#[trigger] cells.part(i, j))
            <= PAGE_PAYLOAD
}

/// How many row groups the rows of columns make.
pub open spec fn row_groups(columns: Seq<Cells>) -> nat {
    if columns.len() == 0 {
        0
    } else {
        ((columns[0].len() + GROUP_ROWS - 1) / GROUP_ROWS as int) as nat
    }
}

/// Whether every page, and the numbers of columns and of row groups, fit into a Parquet
/// file.
pub open spec fn writable(fields: Seq<FieldView>, columns: Seq<Cells>) -> bool {
    &&& fields.len() < i32::MAX
    &&& row_groups(columns) <= i32::MAX
    &&& forall|c: int| 0 <= c < columns.len() ==> pages_fit(#[trigger] columns[c])
}

/// How many bytes the longest of the first so many values of a column takes.
pub open spec fn longest(cells: Cells, count: nat) -> nat
    decreases count,
{
    if count == 0 {
        0
    } else {
        let earlier = longest(cells, (count - 1) as nat);
        let size = payload(cells.only(count - 1));
        if size > earlier {
            size
        } else {
            earlier
        }
    }
}

/// How many bytes the footer takes for columns, at most. It says of each row group of a
/// column what its largest value is, which may be a long one.
pub open spec fn footer_size(fields: Seq<FieldView>, columns: Seq<Cells>, groups: nat) -> nat
    decreases fields.len(),
{
    if fields.len() == 0 || columns.len() == 0 {
        0
    } else {
        let name = encode_utf8(fields.last().name).len();
        let value = longest(columns.last(), columns.last().len());
        footer_size(fields.drop_last(), columns.drop_last(), groups) + 3 * name
            + FOOTER_COLUMN_ROOM as nat + groups * (name + value + FOOTER_CHUNK_ROOM as nat)
    }
}

/// Whether a Parquet file of columns can be read, too: the length of its footer can be
/// counted.
pub open spec fn readable(fields: Seq<FieldView>, columns: Seq<Cells>) -> bool {
    &&& writable(fields, columns)
    &&& fields.len() <= MAX_COLUMNS
    &&& FOOTER_ROOM + footer_size(fields, columns, row_groups(columns)) <= u32::MAX
}

/// Whether no value of a column takes more bytes than this.
pub open spec fn values_within(cells: Cells, size: nat) -> bool {
    forall|i: int| 0 <= i < cells.len() ==> payload(#[trigger] cells.only(i)) <= size
}

proof fn lemma_part_payload(cells: Cells, i: int, j: int, size: nat)
    requires
        values_within(cells, size),
        0 <= i <= j <= cells.len(),
    ensures
        payload(cells.part(i, j)) <= (j - i) * size,
    decreases j - i,
{
    if i < j {
        lemma_part_payload(cells, i, j - 1, size);
        let value = payload(cells.only(j - 1));
        assert(value <= size);
        assert((j - i) * size == (j - 1 - i) * size + size) by (nonlinear_arith);
        match cells {
            Cells::Binary(all) => {
                assert(all.subrange(i, j).drop_last() =~= all.subrange(i, j - 1));
                assert(seq![all[j - 1]].drop_last() =~= seq![]);
                assert(binary_size(seq![all[j - 1]].drop_last()) == 0);
                assert(payload(cells.part(i, j)) == payload(cells.part(i, j - 1)) + value);
            },
            Cells::Utf8(all) => {
                assert(all.subrange(i, j).drop_last() =~= all.subrange(i, j - 1));
                assert(seq![all[j - 1]].drop_last() =~= seq![]);
                assert(utf8_size(seq![all[j - 1]].drop_last()) == 0);
                assert(payload(cells.part(i, j)) == payload(cells.part(i, j - 1)) + value);
            },
            _ => {},
        }
    } else {
        assert((j - i) * size == 0) by (nonlinear_arith)
            requires
                i == j,
        ;
        match cells {
            Cells::Binary(all) => {
                assert(all.subrange(i, j) =~= seq![]);
            },
            Cells::Utf8(all) => {
                assert(all.subrange(i, j) =~= seq![]);
            },
            _ => {},
        }
    }
}

proof fn lemma_longest(cells: Cells, count: nat, size: nat)
    requires
        values_within(cells, size),
        count <= cells.len(),
    ensures
        longest(cells, count) <= size,
    decreases count,
{
    if count > 0 {
        lemma_longest(cells, (count - 1) as nat, size);
        assert(payload(cells.only(count - 1)) <= size);
    }
}

proof fn lemma_footer_size(fields: Seq<FieldView>, columns: Seq<Cells>, groups: nat, size: nat)
    requires
        columns.len() == fields.len(),
        forall|c: int| 0 <= c < columns.len() ==> values_within(#[trigger] columns[c], size),
        groups <= 16,
    ensures
        footer_size(fields, columns, groups) <= 19 * names_size(field_names(fields)) + fields.len()
            * (FOOTER_COLUMN_ROOM + 16 * (size + FOOTER_CHUNK_ROOM)),
    decreases fields.len(),
{
    let each = FOOTER_COLUMN_ROOM + 16 * (size + FOOTER_CHUNK_ROOM);
    if fields.len() > 0 {
        let fewer = fields.drop_last();
        assert forall|c: int| 0 <= c < columns.drop_last().len() implies values_within(
            #[trigger] columns.drop_last()[c],
            size,
        ) by {
            assert(columns.drop_last()[c] == columns[c]);
        }
        lemma_footer_size(fewer, columns.drop_last(), groups, size);
        let name = encode_utf8(fields.last().name).len();
        let value = longest(columns.last(), columns.last().len());
        assert(values_within(columns[columns.len() - 1], size));
        lemma_longest(columns.last(), columns.last().len(), size);
        assert(field_names(fields).drop_last() =~= field_names(fewer));
        assert(groups * (name + value + FOOTER_CHUNK_ROOM as nat) <= 16 * (name + size
            + FOOTER_CHUNK_ROOM as nat)) by (nonlinear_arith)
            requires
                groups <= 16,
                value <= size,
        ;
        assert(fields.len() * each == fewer.len() * each + each) by (nonlinear_arith)
            requires
                fields.len() == fewer.len() + 1,
        ;
    } else {
        assert(fields.len() * each == 0) by (nonlinear_arith)
            requires
                fields.len() == 0,
        ;
    }
}

/// Ordinary results are far from all limits: up to two thousand columns with names of 16
/// MiB together, sixteen million rows, and values of 64 KiB each.
pub proof fn law_ordinary_columns_are_readable(fields: Seq<FieldView>, columns: Seq<Cells>)
    requires
        columns.len() == fields.len(),
        fields.len() <= 2000,
        names_size(field_names(fields)) <= 0x100_0000,
        forall|c: int| 0 <= c < columns.len() ==> (#[trigger] columns[c]).len() <= 0x100_0000,
        forall|c: int| 0 <= c < columns.len() ==> values_within(#[trigger] columns[c], 0x1_0000),
    ensures
        writable(fields, columns),
        readable(fields, columns),
{
    assert forall|c: int| 0 <= c < columns.len() implies pages_fit(#[trigger] columns[c]) by {
        let cells = columns[c];
        assert forall|i: int, j: int|
            0 <= i <= j <= cells.len() && j - i <= PAGE_ROWS implies payload(
            #[trigger] cells.part(i, j),
        ) <= PAGE_PAYLOAD by {
            lemma_part_payload(cells, i, j, 0x1_0000);
        }
    }
    let groups = row_groups(columns);
    assert(groups <= 16);
    lemma_footer_size(fields, columns, groups, 0x1_0000);
    let count = fields.len();
    assert(count * (512 + 16 * (0x1_0000 + 1024)) <= 2000 * (512 + 16 * (0x1_0000 + 1024)))
        by (nonlinear_arith)
        requires
            count <= 2000,
    ;
}

} // verus!
